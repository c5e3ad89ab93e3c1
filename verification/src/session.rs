use vstd::prelude::*;
use crate::strmap::StringMap;

verus! {

/// Who wrote a message.
#[derive(Clone, Copy, Debug, PartialEq, Eq, Structural)]
pub enum MessageRole {
    User,
    Assistant,
    System,
}

/// The name that `Display` gives a role.
pub open spec fn role_name(r: MessageRole) -> Seq<char> {
    match r {
        MessageRole::User => "user"@,
        MessageRole::Assistant => "assistant"@,
        MessageRole::System => "system"@,
    }
}

impl MessageRole {
    /// The lower-case name of the role (`user`, `assistant`, `system`).
    pub fn name(&self) -> (r: String)
        ensures
            r@ == role_name(*self),
    {
        match self {
            MessageRole::User => String::from_str("user"),
            MessageRole::Assistant => String::from_str("assistant"),
            MessageRole::System => String::from_str("system"),
        }
    }
}

/// One message of a conversation. `timestamp` is in nanoseconds since the
/// Unix epoch (UTC).
#[derive(Clone, Debug)]
pub struct Message {
    pub id: String,
    pub role: MessageRole,
    pub content: String,
    pub timestamp: i128,
}

impl Message {
    /// A copy of the message.
    pub fn duplicate(&self) -> (r: Message)
        ensures
            r == *self,
    {
        Message {
            id: self.id.clone(),
            role: self.role,
            content: self.content.clone(),
            timestamp: self.timestamp,
        }
    }
}

} // verus!

verus! {

/// A conversation between one user of one channel and one agent.
/// `created_at` and `updated_at` are in nanoseconds since the Unix epoch.
pub struct Session {
    pub id: String,
    pub agent_id: String,
    pub channel_id: String,
    pub user_id: String,
    pub messages: Vec<Message>,
    pub created_at: i128,
    pub updated_at: i128,
    pub metadata: StringMap,
}

/// The metadata key under which the summary of trimmed messages is kept.
pub open spec fn summary_key() -> Seq<char> {
    "history_summary"@
}

/// The current summary in a metadata map, if any.
pub open spec fn summary_in(m: Map<Seq<char>, Seq<char>>) -> Option<Seq<char>> {
    if m.contains_key(summary_key()) { Some(m[summary_key()]) } else { None }
}

/// The metadata after `removed` has been folded into its summary.
pub open spec fn metadata_after(m: Map<Seq<char>, Seq<char>>, removed: Seq<Message>) -> Map<Seq<char>, Seq<char>> {
    match crate::summary::summary_after(summary_in(m), removed) {
        Some(s) => m.insert(summary_key(), s),
        None => m,
    }
}

/// The ids of the system messages of `ms`, in order.
pub open spec fn system_ids(ms: Seq<Message>) -> Seq<Seq<char>>
    decreases ms.len(),
{
    if ms.len() == 0 {
        seq![]
    } else {
        let r = system_ids(ms.drop_last());
        if ms.last().role == MessageRole::System { r.push(ms.last().id@) } else { r }
    }
}

/// The ids of the other messages of `ms`, in order.
pub open spec fn other_ids(ms: Seq<Message>) -> Seq<Seq<char>>
    decreases ms.len(),
{
    if ms.len() == 0 {
        seq![]
    } else {
        let r = other_ids(ms.drop_last());
        if ms.last().role != MessageRole::System { r.push(ms.last().id@) } else { r }
    }
}

/// The ids that trimming to `max` messages keeps: the newest `max` system
/// messages when there are that many, else every system message and the
/// newest other messages up to the budget that is left.
pub open spec fn keep_ids(ms: Seq<Message>, max: nat) -> Seq<Seq<char>> {
    let sys = system_ids(ms);
    let oth = other_ids(ms);
    if sys.len() >= max {
        sys.subrange(sys.len() - max, sys.len() as int)
    } else {
        let budget = (max - sys.len()) as nat;
        let k = if budget < oth.len() { budget } else { oth.len() };
        sys + oth.subrange(oth.len() - k, oth.len() as int)
    }
}

/// The messages of `ms` whose id is in `keep`, in order.
pub open spec fn kept(ms: Seq<Message>, keep: Seq<Seq<char>>) -> Seq<Message>
    decreases ms.len(),
{
    if ms.len() == 0 {
        seq![]
    } else {
        let r = kept(ms.drop_last(), keep);
        if keep.contains(ms.last().id@) { r.push(ms.last()) } else { r }
    }
}

/// The messages of `ms` whose id is not in `keep`, in order.
pub open spec fn dropped(ms: Seq<Message>, keep: Seq<Seq<char>>) -> Seq<Message>
    decreases ms.len(),
{
    if ms.len() == 0 {
        seq![]
    } else {
        let r = dropped(ms.drop_last(), keep);
        if !keep.contains(ms.last().id@) { r.push(ms.last()) } else { r }
    }
}

fn ids_contain(ids: &Vec<Vec<char>>, id: &[char]) -> (r: bool)
    ensures
        r == crate::summary::views(ids@).contains(id@),
{
    let mut i: usize = 0;
    while i < ids.len()
        invariant
            0 <= i <= ids.len(),
            forall|j: int| 0 <= j < i ==> ids@[j]@ != id@,
        decreases ids.len() - i,
    {
        if crate::text::chars_eq(ids[i].as_slice(), id) {
            assert(crate::summary::views(ids@)[i as int] == id@);
            return true;
        }
        i = i + 1;
    }
    assert forall|j: int| 0 <= j < ids@.len() implies crate::summary::views(ids@)[j] != id@ by {
        assert(crate::summary::views(ids@)[j] == ids@[j]@);
    }
    false
}

impl Session {
    /// A session with the given parts, no messages and no metadata.
    pub fn from_parts(id: String, agent_id: String, channel_id: String, user_id: String, now: i128) -> (s: Session)
        ensures
            s.id == id,
            s.agent_id == agent_id,
            s.channel_id == channel_id,
            s.user_id == user_id,
            s.messages@.len() == 0,
            s.created_at == now,
            s.updated_at == now,
            s.metadata@ == Map::<Seq<char>, Seq<char>>::empty(),
    {
        Session {
            id,
            agent_id,
            channel_id,
            user_id,
            messages: Vec::new(),
            created_at: now,
            updated_at: now,
            metadata: StringMap::new(),
        }
    }

    /// A new session with a fresh random id, created now.
    pub fn new(agent_id: String, channel_id: String, user_id: String) -> (s: Session)
        ensures
            s.agent_id == agent_id,
            s.channel_id == channel_id,
            s.user_id == user_id,
            s.id@.len() == 36,
            s.messages@.len() == 0,
            s.created_at == s.updated_at,
            s.metadata@ == Map::<Seq<char>, Seq<char>>::empty(),
    {
        let id = crate::clock::new_id();
        let now = crate::clock::now_nanos();
        Session::from_parts(id, agent_id, channel_id, user_id, now)
    }

    /// A copy of the session.
    pub fn duplicate(&self) -> (r: Session)
        ensures
            r.id == self.id,
            r.agent_id == self.agent_id,
            r.channel_id == self.channel_id,
            r.user_id == self.user_id,
            r.messages@ == self.messages@,
            r.created_at == self.created_at,
            r.updated_at == self.updated_at,
            r.metadata@ == self.metadata@,
    {
        let mut messages: Vec<Message> = Vec::new();
        let mut i: usize = 0;
        while i < self.messages.len()
            invariant
                0 <= i <= self.messages@.len(),
                messages@ == self.messages@.subrange(0, i as int),
            decreases self.messages@.len() - i,
        {
            messages.push(self.messages[i].duplicate());
            assert(self.messages@.subrange(0, i + 1) =~= self.messages@.subrange(0, i as int).push(self.messages@[i as int]));
            i = i + 1;
        }
        assert(self.messages@.subrange(0, self.messages@.len() as int) =~= self.messages@);
        Session {
            id: self.id.clone(),
            agent_id: self.agent_id.clone(),
            channel_id: self.channel_id.clone(),
            user_id: self.user_id.clone(),
            messages,
            created_at: self.created_at,
            updated_at: self.updated_at,
            metadata: self.metadata.duplicate(),
        }
    }

    /// Appends a message with the given id and timestamp; `now` becomes the
    /// time of the last update.
    pub fn add_message_at(&mut self, role: MessageRole, content: String, id: String, timestamp: i128, now: i128)
        ensures
            final(self).messages@ == old(self).messages@.push(Message { id, role, content, timestamp }),
            final(self).updated_at == now,
            final(self).id == old(self).id,
            final(self).agent_id == old(self).agent_id,
            final(self).channel_id == old(self).channel_id,
            final(self).user_id == old(self).user_id,
            final(self).created_at == old(self).created_at,
            final(self).metadata@ == old(self).metadata@,
    {
        self.messages.push(Message { id, role, content, timestamp });
        self.updated_at = now;
    }

    /// Appends a message with a fresh id, stamped now.
    pub fn add_message(&mut self, role: MessageRole, content: String)
        ensures
            final(self).messages@.len() == old(self).messages@.len() + 1,
            final(self).messages@.subrange(0, old(self).messages@.len() as int) == old(self).messages@,
            final(self).messages@.last().role == role,
            final(self).messages@.last().content == content,
            final(self).messages@.last().id@.len() == 36,
            final(self).id == old(self).id,
            final(self).agent_id == old(self).agent_id,
            final(self).channel_id == old(self).channel_id,
            final(self).user_id == old(self).user_id,
            final(self).created_at == old(self).created_at,
            final(self).metadata@ == old(self).metadata@,
    {
        let id = crate::clock::new_id();
        let timestamp = crate::clock::now_nanos();
        let now = crate::clock::now_nanos();
        let ghost before = self.messages@;
        self.add_message_at(role, content, id, timestamp, now);
        assert(self.messages@.subrange(0, before.len() as int) =~= before);
    }

    /// Removes every message; `now` becomes the time of the last update.
    pub fn clear_history_at(&mut self, now: i128)
        ensures
            final(self).messages@.len() == 0,
            final(self).updated_at == now,
            final(self).id == old(self).id,
            final(self).agent_id == old(self).agent_id,
            final(self).channel_id == old(self).channel_id,
            final(self).user_id == old(self).user_id,
            final(self).created_at == old(self).created_at,
            final(self).metadata@ == old(self).metadata@,
    {
        self.messages = Vec::new();
        self.updated_at = now;
    }

    /// Removes every message, stamped now.
    pub fn clear_history(&mut self)
        ensures
            final(self).messages@.len() == 0,
            final(self).id == old(self).id,
            final(self).agent_id == old(self).agent_id,
            final(self).channel_id == old(self).channel_id,
            final(self).user_id == old(self).user_id,
            final(self).created_at == old(self).created_at,
            final(self).metadata@ == old(self).metadata@,
    {
        let now = crate::clock::now_nanos();
        self.clear_history_at(now);
    }
}

} // verus!

verus! {

/// The number of recent messages that a context of `max` entries carries.
pub open spec fn context_take(s: &Session, max: nat) -> nat {
    let budget: nat = if summary_in(s.metadata@) is Some { if max > 0 { (max - 1) as nat } else { 0 } } else { max };
    if budget < s.messages@.len() { budget } else { s.messages@.len() }
}

/// The messages that a context of `max` entries carries: see `get_context`.
pub open spec fn is_context(v: SessionView, max: nat, r: Seq<Message>) -> bool {
    let budget: nat = if summary_in(v.metadata) is Some { if max > 0 { (max - 1) as nat } else { 0 } } else { max };
    let k: nat = if budget < v.messages.len() { budget } else { v.messages.len() };
    let tail = v.messages.subrange(v.messages.len() - k, v.messages.len() as int);
    if max == 0 {
        r.len() == 0
    } else if summary_in(v.metadata) is None {
        r == tail
    } else {
        &&& r.len() == k + 1
        &&& r[0].id@ == "history-summary"@
        &&& r[0].role == MessageRole::System
        &&& r[0].content@ == "Earlier context summary: "@ + summary_in(v.metadata)->0
        &&& r[0].timestamp == v.updated_at
        &&& r.subrange(1, r.len() as int) == tail
    }
}

/// The session after trimming its history to `max` messages at time `now`.
pub open spec fn trimmed(v: SessionView, max: nat, now: i128) -> SessionView {
    if max == 0 {
        SessionView { messages: seq![], metadata: metadata_after(v.metadata, v.messages), updated_at: now, ..v }
    } else if v.messages.len() <= max {
        SessionView { updated_at: now, ..v }
    } else {
        let keep = keep_ids(v.messages, max);
        SessionView {
            messages: kept(v.messages, keep),
            metadata: metadata_after(v.metadata, dropped(v.messages, keep)),
            updated_at: now,
            ..v
        }
    }
}

fn copy_id_range(src: &Vec<Vec<char>>, from: usize, to: usize, dst: &mut Vec<Vec<char>>)
    requires
        from <= to <= src.len(),
    ensures
        crate::summary::views(final(dst)@) == crate::summary::views(old(dst)@) + crate::summary::views(src@).subrange(from as int, to as int),
{
    let mut i = from;
    while i < to
        invariant
            from <= i <= to <= src.len(),
            crate::summary::views(dst@) == crate::summary::views(old(dst)@) + crate::summary::views(src@).subrange(from as int, i as int),
        decreases to - i,
    {
        let mut c: Vec<char> = Vec::new();
        crate::text::append_chars(&mut c, src[i].as_slice());
        let ghost before = crate::summary::views(dst@);
        dst.push(c);
        assert(crate::summary::views(dst@) =~= before.push(src@[i as int]@));
        assert(crate::summary::views(src@).subrange(from as int, i + 1) =~= crate::summary::views(src@).subrange(from as int, i as int).push(src@[i as int]@));
        i = i + 1;
    }
}

impl Session {
    /// The messages to hand to an agent: at most `max_messages` entries, the
    /// most recent messages in order, preceded by a system message that
    /// carries the summary of trimmed history when there is one.
    pub fn get_context(&self, max_messages: usize) -> (r: Vec<Message>)
        ensures
            is_context(self@, max_messages as nat, r@),
            r@.len() <= max_messages,
            max_messages == 0 ==> r@.len() == 0,
            max_messages > 0 && summary_in(self.metadata@) is None ==>
                r@ == self.messages@.subrange(self.messages@.len() - context_take(self, max_messages as nat), self.messages@.len() as int),
            max_messages > 0 && summary_in(self.metadata@) is Some ==> {
                &&& r@.len() == context_take(self, max_messages as nat) + 1
                &&& r@[0].id@ == "history-summary"@
                &&& r@[0].role == MessageRole::System
                &&& r@[0].content@ == "Earlier context summary: "@ + summary_in(self.metadata@)->0
                &&& r@[0].timestamp == self.updated_at
                &&& r@.subrange(1, r@.len() as int) == self.messages@.subrange(self.messages@.len() - context_take(self, max_messages as nat), self.messages@.len() as int)
            },
    {
        if max_messages == 0 {
            return Vec::new();
        }
        let summary = self.metadata.get("history_summary");
        let budget = if summary.is_some() { max_messages - 1 } else { max_messages };
        let n = self.messages.len();
        let k = if budget < n { budget } else { n };
        let mut r: Vec<Message> = Vec::new();
        match summary {
            Some(text) => {
                let mut content = String::from_str("Earlier context summary: ");
                content.append(text.as_str());
                r.push(Message {
                    id: String::from_str("history-summary"),
                    role: MessageRole::System,
                    content,
                    timestamp: self.updated_at,
                });
            },
            None => {},
        }
        let ghost head = r@;
        let mut i = n - k;
        while i < n
            invariant
                n == self.messages@.len(),
                k <= n,
                n - k <= i <= n,
                r@ == head + self.messages@.subrange(n - k, i as int),
            decreases n - i,
        {
            r.push(self.messages[i].duplicate());
            assert(self.messages@.subrange(n - k, i + 1) =~= self.messages@.subrange(n - k, i as int).push(self.messages@[i as int]));
            i = i + 1;
        }
        assert(r@.subrange(head.len() as int, r@.len() as int) =~= self.messages@.subrange(n - k, n as int));
        r
    }

    /// Trims the history to at most `max_messages` messages (see `keep_ids`),
    /// folding the removed messages into the history summary; `now` becomes
    /// the time of the last update.
    pub fn trim_history_at(&mut self, max_messages: usize, now: i128)
        ensures
            final(self)@ == trimmed(old(self)@, max_messages as nat, now),
            final(self).updated_at == now,
            final(self).id == old(self).id,
            final(self).agent_id == old(self).agent_id,
            final(self).channel_id == old(self).channel_id,
            final(self).user_id == old(self).user_id,
            final(self).created_at == old(self).created_at,
            max_messages == 0 ==> final(self).messages@.len() == 0
                && final(self).metadata@ == metadata_after(old(self).metadata@, old(self).messages@),
            max_messages > 0 && old(self).messages@.len() <= max_messages ==>
                final(self).messages@ == old(self).messages@ && final(self).metadata@ == old(self).metadata@,
            max_messages > 0 && old(self).messages@.len() > max_messages ==> {
                let keep = keep_ids(old(self).messages@, max_messages as nat);
                &&& final(self).messages@ == kept(old(self).messages@, keep)
                &&& final(self).metadata@ == metadata_after(old(self).metadata@, dropped(old(self).messages@, keep))
            },
    {
        if max_messages == 0 {
            if self.messages.len() > 0 {
                self.fold_summary_of_all();
            } else {
                proof {
                    assert(crate::summary::fragments(crate::summary::non_system(self.messages@)) =~= Seq::<Seq<char>>::empty());
                }
            }
            self.messages = Vec::new();
            self.updated_at = now;
            return;
        }
        if self.messages.len() <= max_messages {
            self.updated_at = now;
            return;
        }
        let ghost ms = self.messages@;
        let mut sys: Vec<Vec<char>> = Vec::new();
        let mut oth: Vec<Vec<char>> = Vec::new();
        let mut i: usize = 0;
        while i < self.messages.len()
            invariant
                ms == self.messages@,
                0 <= i <= ms.len(),
                crate::summary::views(sys@) == system_ids(ms.subrange(0, i as int)),
                crate::summary::views(oth@) == other_ids(ms.subrange(0, i as int)),
            decreases ms.len() - i,
        {
            assert(ms.subrange(0, i + 1).drop_last() =~= ms.subrange(0, i as int));
            let id = crate::text::to_chars(self.messages[i].id.as_str());
            if self.messages[i].role == MessageRole::System {
                let ghost before = crate::summary::views(sys@);
                sys.push(id);
                assert(crate::summary::views(sys@) =~= before.push(ms[i as int].id@));
            } else {
                let ghost before = crate::summary::views(oth@);
                oth.push(id);
                assert(crate::summary::views(oth@) =~= before.push(ms[i as int].id@));
            }
            i = i + 1;
        }
        assert(ms.subrange(0, ms.len() as int) =~= ms);
        let mut keep: Vec<Vec<char>> = Vec::new();
        if sys.len() >= max_messages {
            copy_id_range(&sys, sys.len() - max_messages, sys.len(), &mut keep);
        } else {
            let budget = max_messages - sys.len();
            let k = if budget < oth.len() { budget } else { oth.len() };
            copy_id_range(&sys, 0, sys.len(), &mut keep);
            copy_id_range(&oth, oth.len() - k, oth.len(), &mut keep);
            assert(crate::summary::views(sys@).subrange(0, sys.len() as int) =~= crate::summary::views(sys@));
        }
        assert(crate::summary::views(keep@) =~= keep_ids(ms, max_messages as nat));
        let ghost keepv = crate::summary::views(keep@);
        let mut kept_msgs: Vec<Message> = Vec::new();
        let mut dropped_msgs: Vec<Message> = Vec::new();
        let mut j: usize = 0;
        while j < self.messages.len()
            invariant
                ms == self.messages@,
                keepv == crate::summary::views(keep@),
                0 <= j <= ms.len(),
                kept_msgs@ == kept(ms.subrange(0, j as int), keepv),
                dropped_msgs@ == dropped(ms.subrange(0, j as int), keepv),
            decreases ms.len() - j,
        {
            assert(ms.subrange(0, j + 1).drop_last() =~= ms.subrange(0, j as int));
            let id = crate::text::to_chars(self.messages[j].id.as_str());
            if ids_contain(&keep, id.as_slice()) {
                kept_msgs.push(self.messages[j].duplicate());
            } else {
                dropped_msgs.push(self.messages[j].duplicate());
            }
            j = j + 1;
        }
        self.fold_summary(&dropped_msgs);
        self.messages = kept_msgs;
        self.updated_at = now;
    }

    fn fold_summary(&mut self, removed: &Vec<Message>)
        ensures
            final(self).metadata@ == metadata_after(old(self).metadata@, removed@),
            final(self).messages@ == old(self).messages@,
            final(self).updated_at == old(self).updated_at,
            final(self).id == old(self).id,
            final(self).agent_id == old(self).agent_id,
            final(self).channel_id == old(self).channel_id,
            final(self).user_id == old(self).user_id,
            final(self).created_at == old(self).created_at,
    {
        let existing = self.metadata.get("history_summary");
        let folded = match &existing {
            Some(e) => crate::summary::fold_into_summary(Some(e.as_str()), removed),
            None => crate::summary::fold_into_summary(None, removed),
        };
        match folded {
            Some(s) => {
                self.metadata.insert(String::from_str("history_summary"), s);
            },
            None => {},
        }
    }

    fn fold_summary_of_all(&mut self)
        ensures
            final(self).metadata@ == metadata_after(old(self).metadata@, old(self).messages@),
            final(self).messages@ == old(self).messages@,
            final(self).updated_at == old(self).updated_at,
            final(self).id == old(self).id,
            final(self).agent_id == old(self).agent_id,
            final(self).channel_id == old(self).channel_id,
            final(self).user_id == old(self).user_id,
            final(self).created_at == old(self).created_at,
    {
        let mut all: Vec<Message> = Vec::new();
        let mut i: usize = 0;
        while i < self.messages.len()
            invariant
                0 <= i <= self.messages@.len(),
                all@ == self.messages@.subrange(0, i as int),
            decreases self.messages@.len() - i,
        {
            all.push(self.messages[i].duplicate());
            assert(self.messages@.subrange(0, i + 1) =~= self.messages@.subrange(0, i as int).push(self.messages@[i as int]));
            i = i + 1;
        }
        assert(all@ =~= self.messages@);
        self.fold_summary(&all);
    }

    /// Trims the history to at most `max_messages` messages, stamped now
    /// (see `trim_history_at`).
    pub fn trim_history(&mut self, max_messages: usize)
        ensures
            final(self).id == old(self).id,
            final(self).agent_id == old(self).agent_id,
            final(self).channel_id == old(self).channel_id,
            final(self).user_id == old(self).user_id,
            final(self).created_at == old(self).created_at,
            max_messages == 0 ==> final(self).messages@.len() == 0
                && final(self).metadata@ == metadata_after(old(self).metadata@, old(self).messages@),
            max_messages > 0 && old(self).messages@.len() <= max_messages ==>
                final(self).messages@ == old(self).messages@ && final(self).metadata@ == old(self).metadata@,
            max_messages > 0 && old(self).messages@.len() > max_messages ==> {
                let keep = keep_ids(old(self).messages@, max_messages as nat);
                &&& final(self).messages@ == kept(old(self).messages@, keep)
                &&& final(self).metadata@ == metadata_after(old(self).metadata@, dropped(old(self).messages@, keep))
            },
            exists|now: i128| final(self)@ == #[trigger] trimmed(old(self)@, max_messages as nat, now),
    {
        let now = crate::clock::now_nanos();
        self.trim_history_at(max_messages, now);
        assert(self@ == trimmed(old(self)@, max_messages as nat, now));
    }
}

} // verus!

verus! {

/// The mathematical value of a session.
pub struct SessionView {
    pub id: Seq<char>,
    pub agent_id: Seq<char>,
    pub channel_id: Seq<char>,
    pub user_id: Seq<char>,
    pub messages: Seq<Message>,
    pub created_at: i128,
    pub updated_at: i128,
    pub metadata: Map<Seq<char>, Seq<char>>,
}

impl View for Session {
    type V = SessionView;

    open spec fn view(&self) -> SessionView {
        SessionView {
            id: self.id@,
            agent_id: self.agent_id@,
            channel_id: self.channel_id@,
            user_id: self.user_id@,
            messages: self.messages@,
            created_at: self.created_at,
            updated_at: self.updated_at,
            metadata: self.metadata@,
        }
    }
}

} // verus!

verus! {

/// The ids of a list of messages, in order.
pub open spec fn message_ids(ms: Seq<Message>) -> Seq<Seq<char>> {
    ms.map_values(|m: Message| m.id@)
}

proof fn lemma_kept_from(ms: Seq<Message>, keep: Seq<Seq<char>>)
    ensures
        forall|i: int| 0 <= i < kept(ms, keep).len() ==> keep.contains(#[trigger] kept(ms, keep)[i].id@),
        forall|i: int| 0 <= i < kept(ms, keep).len() ==> ms.contains(#[trigger] kept(ms, keep)[i]),
        forall|i: int| 0 <= i < ms.len() && keep.contains(#[trigger] ms[i].id@) ==> kept(ms, keep).contains(ms[i]),
        message_ids(ms).no_duplicates() ==> message_ids(kept(ms, keep)).no_duplicates(),
    decreases ms.len(),
{
    if ms.len() > 0 {
        let p = ms.drop_last();
        lemma_kept_from(p, keep);
        let r = kept(p, keep);
        assert forall|i: int| 0 <= i < kept(ms, keep).len() implies ms.contains(#[trigger] kept(ms, keep)[i]) by {
            if i < r.len() {
                let j = choose|j: int| 0 <= j < p.len() && p[j] == r[i];
                assert(ms[j] == p[j]);
            } else {
                assert(ms[ms.len() - 1] == ms.last());
            }
        }
        assert forall|i: int| 0 <= i < ms.len() && keep.contains(#[trigger] ms[i].id@) implies kept(ms, keep).contains(ms[i]) by {
            if i < ms.len() - 1 {
                assert(p[i] == ms[i]);
                let j = choose|j: int| 0 <= j < r.len() && r[j] == p[i];
                assert(kept(ms, keep)[j] == r[j]);
            } else {
                assert(kept(ms, keep)[kept(ms, keep).len() - 1] == ms.last());
            }
        }
        if message_ids(ms).no_duplicates() {
            assert forall|a: int, b: int| 0 <= a < message_ids(p).len() && 0 <= b < message_ids(p).len() && a != b
                implies message_ids(p)[a] != message_ids(p)[b] by {
                assert(message_ids(ms)[a] == message_ids(p)[a]);
                assert(message_ids(ms)[b] == message_ids(p)[b]);
            }
            assert(message_ids(p).no_duplicates());
            if keep.contains(ms.last().id@) {
                let k = kept(ms, keep);
                assert forall|a: int, b: int| 0 <= a < message_ids(k).len() && 0 <= b < message_ids(k).len() && a != b
                    implies message_ids(k)[a] != message_ids(k)[b] by {
                    if a < r.len() && b < r.len() {
                        assert(message_ids(r)[a] == message_ids(k)[a]);
                        assert(message_ids(r)[b] == message_ids(k)[b]);
                    } else {
                        let x = if a < r.len() { a } else { b };
                        let j = choose|j: int| 0 <= j < p.len() && p[j] == r[x];
                        assert(message_ids(ms)[j] == r[x].id@);
                        assert(message_ids(ms)[ms.len() - 1] == ms.last().id@);
                    }
                }
            }
        }
    }
}

proof fn lemma_system_ids_cover(ms: Seq<Message>)
    ensures
        forall|i: int| 0 <= i < ms.len() && ms[i].role == MessageRole::System ==> #[trigger] system_ids(ms).contains(ms[i].id@),
    decreases ms.len(),
{
    if ms.len() > 0 {
        let p = ms.drop_last();
        lemma_system_ids_cover(p);
        assert forall|i: int| 0 <= i < ms.len() && ms[i].role == MessageRole::System implies #[trigger] system_ids(ms).contains(ms[i].id@) by {
            if i < ms.len() - 1 {
                assert(p[i] == ms[i]);
                assert(system_ids(p).contains(p[i].id@));
                let j = choose|j: int| 0 <= j < system_ids(p).len() && system_ids(p)[j] == p[i].id@;
                assert(system_ids(ms)[j] == system_ids(p)[j]);
            } else {
                assert(system_ids(ms)[system_ids(ms).len() - 1] == ms.last().id@);
            }
        }
    }
}

proof fn lemma_keep_len(ms: Seq<Message>, max: nat)
    requires
        max > 0,
    ensures
        keep_ids(ms, max).len() <= max,
        system_ids(ms).len() <= max ==> forall|i: int| 0 <= i < system_ids(ms).len() ==> keep_ids(ms, max).contains(#[trigger] system_ids(ms)[i]),
{
    let sys = system_ids(ms);
    if sys.len() >= max {
        if sys.len() <= max {
            assert forall|i: int| 0 <= i < sys.len() implies keep_ids(ms, max).contains(#[trigger] sys[i]) by {
                assert(keep_ids(ms, max)[i] == sys[i]);
            }
        }
    } else {
        assert forall|i: int| 0 <= i < sys.len() implies keep_ids(ms, max).contains(#[trigger] sys[i]) by {
            assert(keep_ids(ms, max)[i] == sys[i]);
        }
    }
}

/// The ids of `s` that occur in `keep`, in order.
spec fn ids_in(s: Seq<Seq<char>>, keep: Seq<Seq<char>>) -> Seq<Seq<char>>
    decreases s.len(),
{
    if s.len() == 0 {
        seq![]
    } else {
        let r = ids_in(s.drop_last(), keep);
        if keep.contains(s.last()) { r.push(s.last()) } else { r }
    }
}

proof fn lemma_ids_in_append(a: Seq<Seq<char>>, b: Seq<Seq<char>>, keep: Seq<Seq<char>>)
    ensures
        ids_in(a + b, keep) == ids_in(a, keep) + ids_in(b, keep),
    decreases b.len(),
{
    if b.len() == 0 {
        assert(a + b =~= a);
        assert(ids_in(a, keep) + ids_in(b, keep) =~= ids_in(a, keep));
    } else {
        lemma_ids_in_append(a, b.drop_last(), keep);
        assert((a + b).drop_last() =~= a + b.drop_last());
        assert((a + b).last() == b.last());
        if keep.contains(b.last()) {
            assert(ids_in(a, keep) + ids_in(b, keep) =~= (ids_in(a, keep) + ids_in(b.drop_last(), keep)).push(b.last()));
        }
    }
}

proof fn lemma_ids_in_all(t: Seq<Seq<char>>, keep: Seq<Seq<char>>)
    requires
        forall|i: int| 0 <= i < t.len() ==> keep.contains(#[trigger] t[i]),
    ensures
        ids_in(t, keep) == t,
    decreases t.len(),
{
    if t.len() > 0 {
        let p = t.drop_last();
        assert forall|i: int| 0 <= i < p.len() implies keep.contains(#[trigger] p[i]) by {
            assert(p[i] == t[i]);
        }
        lemma_ids_in_all(p, keep);
        assert(keep.contains(t[t.len() - 1]));
        assert(p.push(t.last()) =~= t);
    }
}

proof fn lemma_ids_of_kept(ms: Seq<Message>, keep: Seq<Seq<char>>)
    ensures
        system_ids(kept(ms, keep)) == ids_in(system_ids(ms), keep),
        other_ids(kept(ms, keep)) == ids_in(other_ids(ms), keep),
    decreases ms.len(),
{
    if ms.len() > 0 {
        let p = ms.drop_last();
        let x = ms.last();
        lemma_ids_of_kept(p, keep);
        let r = kept(p, keep);
        if keep.contains(x.id@) {
            assert(r.push(x).drop_last() =~= r);
            assert(r.push(x).last() == x);
        }
        if x.role == MessageRole::System {
            assert(system_ids(ms).drop_last() =~= system_ids(p));
            assert(system_ids(ms).last() == x.id@);
            assert(other_ids(ms) == other_ids(p));
        } else {
            assert(other_ids(ms).drop_last() =~= other_ids(p));
            assert(other_ids(ms).last() == x.id@);
            assert(system_ids(ms) == system_ids(p));
        }
    }
}

proof fn lemma_kept_all(ms: Seq<Message>, keep: Seq<Seq<char>>)
    requires
        forall|i: int| 0 <= i < ms.len() ==> keep.contains(#[trigger] ms[i].id@),
    ensures
        kept(ms, keep) == ms,
        dropped(ms, keep) == Seq::<Message>::empty(),
    decreases ms.len(),
{
    if ms.len() > 0 {
        let p = ms.drop_last();
        assert forall|i: int| 0 <= i < p.len() implies keep.contains(#[trigger] p[i].id@) by {
            assert(p[i] == ms[i]);
        }
        lemma_kept_all(p, keep);
        assert(keep.contains(ms[ms.len() - 1].id@));
        assert(p.push(ms.last()) =~= ms);
    }
}

/// Every id that trimming to `max` keeps is kept again when what was kept is
/// trimmed to `max` once more.
proof fn lemma_keep_again(ms: Seq<Message>, max: nat)
    requires
        max > 0,
    ensures
        forall|x: Seq<char>| keep_ids(ms, max).contains(x) ==> #[trigger] keep_ids(kept(ms, keep_ids(ms, max)), max).contains(x),
{
    let keep1 = keep_ids(ms, max);
    let k1 = kept(ms, keep1);
    let keep2 = keep_ids(k1, max);
    let sys1 = system_ids(ms);
    let oth1 = other_ids(ms);
    lemma_ids_of_kept(ms, keep1);
    if sys1.len() >= max {
        let cut = sys1.len() - max;
        let pre = sys1.subrange(0, cut);
        let t = keep1;
        assert(sys1 =~= pre + t);
        lemma_ids_in_append(pre, t, keep1);
        assert forall|i: int| 0 <= i < t.len() implies keep1.contains(#[trigger] t[i]) by {}
        lemma_ids_in_all(t, keep1);
        let f = ids_in(pre, keep1);
        assert(system_ids(k1) == f + t);
        assert((f + t).subrange((f + t).len() - max, (f + t).len() as int) =~= t);
        assert(keep2 == keep1);
    } else {
        let budget = (max - sys1.len()) as nat;
        let k = if budget < oth1.len() { budget } else { oth1.len() };
        let q = oth1.subrange(0, oth1.len() - k);
        let r = oth1.subrange(oth1.len() - k, oth1.len() as int);
        assert(keep1 == sys1 + r);
        assert(oth1 =~= q + r);
        assert forall|i: int| 0 <= i < sys1.len() implies keep1.contains(#[trigger] sys1[i]) by {
            assert(keep1[i] == sys1[i]);
        }
        lemma_ids_in_all(sys1, keep1);
        assert forall|j: int| 0 <= j < r.len() implies keep1.contains(#[trigger] r[j]) by {
            assert(keep1[sys1.len() + j] == r[j]);
        }
        lemma_ids_in_all(r, keep1);
        lemma_ids_in_append(q, r, keep1);
        let g = ids_in(q, keep1);
        let oth2 = g + r;
        assert(system_ids(k1) == sys1);
        assert(other_ids(k1) == oth2);
        let k2 = if budget < oth2.len() { budget } else { oth2.len() };
        assert(keep2 == sys1 + oth2.subrange(oth2.len() - k2, oth2.len() as int));
        assert forall|x: Seq<char>| keep1.contains(x) implies #[trigger] keep2.contains(x) by {
            let i = choose|i: int| 0 <= i < keep1.len() && keep1[i] == x;
            if i < sys1.len() {
                assert(keep2[i] == x);
            } else {
                let j = i - sys1.len();
                assert(r[j] == x);
                assert(oth2[g.len() + j] == x);
                let at = sys1.len() + (g.len() + j - (oth2.len() - k2));
                assert(keep2[at] == x);
            }
        }
    }
}

/// Trimming a history twice to the same limit leaves the messages and the
/// metadata as trimming it once does; only the time of the last update moves.
pub proof fn lemma_trim_twice(v: SessionView, max: nat, t1: i128, t2: i128)
    ensures
        trimmed(trimmed(v, max, t1), max, t2).messages == trimmed(v, max, t1).messages,
        trimmed(trimmed(v, max, t1), max, t2).metadata == trimmed(v, max, t1).metadata,
{
    let e = Seq::<Message>::empty();
    assert(crate::summary::non_system(e) == e);
    assert(crate::summary::fragments(e).len() == 0);
    if max > 0 && v.messages.len() > max {
        let ms = v.messages;
        let keep1 = keep_ids(ms, max);
        let k1 = kept(ms, keep1);
        if k1.len() > max {
            let keep2 = keep_ids(k1, max);
            lemma_kept_from(ms, keep1);
            lemma_keep_again(ms, max);
            assert forall|i: int| 0 <= i < k1.len() implies keep2.contains(#[trigger] k1[i].id@) by {
                assert(keep1.contains(k1[i].id@));
            }
            lemma_kept_all(k1, keep2);
            let m = trimmed(v, max, t1).metadata;
            assert(crate::summary::summary_after(summary_in(m), e) is None);
        }
    } else if max == 0 {
        assert(crate::summary::summary_after(summary_in(trimmed(v, max, t1).metadata), e) is None);
    }
}

/// Trimming a history whose message ids are distinct to `max` messages
/// leaves at most `max` messages; each of them was in the history, and every
/// system message stays when there are no more than `max` of them.
pub proof fn lemma_trim_bound(v: SessionView, max: nat, now: i128)
    requires
        message_ids(v.messages).no_duplicates(),
    ensures
        trimmed(v, max, now).messages.len() <= max,
        forall|i: int| 0 <= i < trimmed(v, max, now).messages.len() ==> v.messages.contains(#[trigger] trimmed(v, max, now).messages[i]),
        system_ids(v.messages).len() <= max ==> forall|i: int| 0 <= i < v.messages.len() && v.messages[i].role == MessageRole::System
            ==> trimmed(v, max, now).messages.contains(#[trigger] v.messages[i]),
{
    let ms = v.messages;
    if max == 0 {
        if system_ids(ms).len() <= max {
            lemma_system_ids_cover(ms);
            assert forall|i: int| 0 <= i < ms.len() && ms[i].role == MessageRole::System
                implies trimmed(v, max, now).messages.contains(#[trigger] ms[i]) by {
                assert(system_ids(ms).contains(ms[i].id@));
            }
        }
    } else if ms.len() <= max {
        assert forall|i: int| 0 <= i < ms.len() implies trimmed(v, max, now).messages.contains(#[trigger] ms[i]) by {
            assert(trimmed(v, max, now).messages[i] == ms[i]);
        }
    } else {
        let keep = keep_ids(ms, max);
        let k = kept(ms, keep);
        lemma_kept_from(ms, keep);
        lemma_keep_len(ms, max);
        let kid = message_ids(k);
        kid.unique_seq_to_set();
        keep.lemma_cardinality_of_set();
        assert(kid.to_set().subset_of(keep.to_set())) by {
            assert forall|x: Seq<char>| kid.to_set().contains(x) implies keep.to_set().contains(x) by {
                let j = choose|j: int| 0 <= j < kid.len() && kid[j] == x;
                assert(kid[j] == k[j].id@);
            }
        }
        vstd::set_lib::lemma_len_subset(kid.to_set(), keep.to_set());
        if system_ids(ms).len() <= max {
            lemma_system_ids_cover(ms);
            assert forall|i: int| 0 <= i < ms.len() && ms[i].role == MessageRole::System
                implies trimmed(v, max, now).messages.contains(#[trigger] ms[i]) by {
                let sys = system_ids(ms);
                assert(sys.contains(ms[i].id@));
                let j = choose|j: int| 0 <= j < sys.len() && sys[j] == ms[i].id@;
                assert(keep.contains(sys[j]));
            }
        }
    }
}

} // verus!
