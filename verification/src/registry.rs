use vstd::prelude::*;
use crate::error::{AgentError, agent_not_found, channel_not_found, session_not_found};
use crate::session::{Session, SessionView, Message, MessageRole, is_context, trimmed};
use crate::text::str_eq;

verus! {

/// The session entries of a registry: key, then the session stored under it.
pub type Entries = Seq<(Seq<char>, SessionView)>;

/// The views of a list of strings.
pub open spec fn ids_view(v: Seq<String>) -> Seq<Seq<char>> {
    v.map_values(|s: String| s@)
}

/// Keys of `s` are pairwise distinct.
pub open spec fn unique_keys(s: Entries) -> bool {
    forall|i: int, j: int| 0 <= i < s.len() && 0 <= j < s.len() && i != j ==> s[i].0 != s[j].0
}

/// Elements of `s` are pairwise distinct.
pub open spec fn distinct(s: Seq<Seq<char>>) -> bool {
    forall|i: int, j: int| 0 <= i < s.len() && 0 <= j < s.len() && i != j ==> s[i] != s[j]
}

/// `s` has an entry under `k`.
pub open spec fn has_key(s: Entries, k: Seq<char>) -> bool {
    exists|i: int| 0 <= i < s.len() && #[trigger] s[i].0 == k
}

/// The position of the entry under `k` (meaningful when `has_key(s, k)`).
pub open spec fn key_pos(s: Entries, k: Seq<char>) -> int {
    choose|i: int| 0 <= i < s.len() && #[trigger] s[i].0 == k
}

/// The entries after storing `v` under `k`: in place when `k` is present,
/// at the end otherwise.
pub open spec fn upsert(s: Entries, k: Seq<char>, v: SessionView) -> Entries {
    if has_key(s, k) { s.update(key_pos(s, k), (k, v)) } else { s.push((k, v)) }
}

/// `v` with `x` added at the end unless it is there already.
pub open spec fn add_id(v: Seq<Seq<char>>, x: Seq<char>) -> Seq<Seq<char>> {
    if v.contains(x) { v } else { v.push(x) }
}

/// The session that handling a message of `user_id` on `channel_id` for
/// `agent_id` reuses: the first stored session with these three ids.
pub open spec fn matching_session(s: Entries, agent_id: Seq<char>, channel_id: Seq<char>, user_id: Seq<char>) -> Option<int> {
    if exists|i: int| 0 <= i < s.len() && #[trigger] session_matches(s[i].1, agent_id, channel_id, user_id) {
        Some(choose|i: int| 0 <= i < s.len() && #[trigger] session_matches(s[i].1, agent_id, channel_id, user_id)
            && forall|j: int| 0 <= j < i ==> !session_matches(s[j].1, agent_id, channel_id, user_id))
    } else {
        None
    }
}

/// The session belongs to this agent, channel and user.
pub open spec fn session_matches(v: SessionView, agent_id: Seq<char>, channel_id: Seq<char>, user_id: Seq<char>) -> bool {
    v.agent_id == agent_id && v.channel_id == channel_id && v.user_id == user_id
}

/// A session is stale when it was last updated before `cutoff`.
pub open spec fn is_stale(e: (Seq<char>, SessionView), cutoff: int) -> bool {
    (e.1.updated_at as int) < cutoff
}

/// The entries that stay after removing the stale ones, in order.
pub open spec fn fresh_entries(s: Entries, cutoff: int) -> Entries
    decreases s.len(),
{
    if s.len() == 0 {
        s
    } else {
        let r = fresh_entries(s.drop_last(), cutoff);
        if is_stale(s.last(), cutoff) { r } else { r.push(s.last()) }
    }
}

/// The registry of agents, channels and sessions that routes messages.
/// Agents and channels are known by id; the objects that talk to them are
/// kept by the caller.
pub struct AgentIM {
    agents: Vec<String>,
    channels: Vec<String>,
    sessions: Vec<(String, Session)>,
}

/// A turn in progress: the session with the user's message appended, and the
/// context to send to the agent.
pub struct PendingTurn {
    pub session_id: String,
    pub session: Session,
    pub context: Vec<Message>,
}

impl AgentIM {
    /// The ids of the registered agents, in registration order.
    pub closed spec fn agents_view(&self) -> Seq<Seq<char>> {
        ids_view(self.agents@)
    }

    /// The ids of the registered channels, in registration order.
    pub closed spec fn channels_view(&self) -> Seq<Seq<char>> {
        ids_view(self.channels@)
    }

    /// The stored sessions with their keys, in storage order.
    pub closed spec fn entries(&self) -> Entries {
        self.sessions@.map_values(|e: (String, Session)| (e.0@, e.1@))
    }

    #[verifier::type_invariant]
    closed spec fn inv(&self) -> bool {
        &&& distinct(self.agents_view())
        &&& distinct(self.channels_view())
        &&& unique_keys(self.entries())
    }

    /// An empty registry.
    pub fn new() -> (r: Self)
        ensures
            r.agents_view().len() == 0,
            r.channels_view().len() == 0,
            r.entries().len() == 0,
    {
        let r = AgentIM { agents: Vec::new(), channels: Vec::new(), sessions: Vec::new() };
        assert(r.agents_view() =~= Seq::<Seq<char>>::empty());
        assert(r.channels_view() =~= Seq::<Seq<char>>::empty());
        assert(r.entries() =~= Seq::<(Seq<char>, SessionView)>::empty());
        r
    }

    fn find_id(v: &Vec<String>, id: &str) -> (r: Option<usize>)
        ensures
            r matches Some(i) ==> i < v@.len() && v@[i as int]@ == id@,
            r is None ==> !ids_view(v@).contains(id@),
    {
        let mut i: usize = 0;
        while i < v.len()
            invariant
                0 <= i <= v@.len(),
                forall|j: int| 0 <= j < i ==> v@[j]@ != id@,
            decreases v@.len() - i,
        {
            if str_eq(v[i].as_str(), id) {
                return Some(i);
            }
            i = i + 1;
        }
        assert forall|j: int| 0 <= j < v@.len() implies #[trigger] ids_view(v@)[j] != id@ by {
            assert(ids_view(v@)[j] == v@[j]@);
        }
        None
    }

    /// Registers an agent id; a second registration of an id changes nothing.
    pub fn register_agent(&mut self, id: String) -> (r: Result<(), AgentError>)
        ensures
            r is Ok,
            final(self).agents_view() == add_id(old(self).agents_view(), id@),
            final(self).channels_view() == old(self).channels_view(),
            final(self).entries() == old(self).entries(),
    {
        proof { use_type_invariant(&*self); }
        match Self::find_id(&self.agents, id.as_str()) {
            Some(i) => {
                assert(self.agents_view()[i as int] == id@);
                Ok(())
            },
            None => {
                let ghost before = self.agents_view();
                let mut agents: Vec<String> = Vec::new();
                std::mem::swap(&mut agents, &mut self.agents);
                agents.push(id);
                assert(ids_view(agents@) =~= before.push(id@));
                self.agents = agents;
                Ok(())
            },
        }
    }

    /// Registers a channel id; a second registration of an id changes nothing.
    pub fn register_channel(&mut self, id: String) -> (r: Result<(), AgentError>)
        ensures
            r is Ok,
            final(self).channels_view() == add_id(old(self).channels_view(), id@),
            final(self).agents_view() == old(self).agents_view(),
            final(self).entries() == old(self).entries(),
    {
        proof { use_type_invariant(&*self); }
        match Self::find_id(&self.channels, id.as_str()) {
            Some(i) => {
                assert(self.channels_view()[i as int] == id@);
                Ok(())
            },
            None => {
                let ghost before = self.channels_view();
                let mut channels: Vec<String> = Vec::new();
                std::mem::swap(&mut channels, &mut self.channels);
                channels.push(id);
                assert(ids_view(channels@) =~= before.push(id@));
                self.channels = channels;
                Ok(())
            },
        }
    }

    /// Whether an agent is registered under `id`; the error names the id.
    pub fn get_agent(&self, id: &str) -> (r: Result<(), AgentError>)
        ensures
            r is Ok == self.agents_view().contains(id@),
            r matches Err(e) ==> agent_not_found(e, id@),
    {
        match Self::find_id(&self.agents, id) {
            Some(i) => {
                assert(self.agents_view()[i as int] == id@);
                Ok(())
            },
            None => Err(AgentError::AgentNotFound(String::from_str(id))),
        }
    }

    /// Whether a channel is registered under `id`; the error names the id.
    pub fn get_channel(&self, id: &str) -> (r: Result<(), AgentError>)
        ensures
            r is Ok == self.channels_view().contains(id@),
            r matches Err(e) ==> channel_not_found(e, id@),
    {
        match Self::find_id(&self.channels, id) {
            Some(i) => {
                assert(self.channels_view()[i as int] == id@);
                Ok(())
            },
            None => Err(AgentError::ChannelNotFound(String::from_str(id))),
        }
    }

    /// The registered agent ids, in registration order.
    pub fn list_agents(&self) -> (r: Vec<String>)
        ensures
            ids_view(r@) == self.agents_view(),
    {
        Self::copy_ids(&self.agents)
    }

    /// The registered channel ids, in registration order.
    pub fn list_channels(&self) -> (r: Vec<String>)
        ensures
            ids_view(r@) == self.channels_view(),
    {
        Self::copy_ids(&self.channels)
    }

    fn copy_ids(v: &Vec<String>) -> (r: Vec<String>)
        ensures
            r@ == v@,
    {
        let mut r: Vec<String> = Vec::new();
        let mut i: usize = 0;
        while i < v.len()
            invariant
                0 <= i <= v@.len(),
                r@ == v@.subrange(0, i as int),
            decreases v@.len() - i,
        {
            r.push(v[i].clone());
            assert(v@.subrange(0, i + 1) =~= v@.subrange(0, i as int).push(v@[i as int]));
            i = i + 1;
        }
        assert(v@.subrange(0, v@.len() as int) =~= v@);
        r
    }

    fn find_key(&self, key: &str) -> (r: Option<usize>)
        ensures
            r matches Some(i) ==> i < self.entries().len() && self.entries()[i as int].0 == key@,
            r is None ==> !has_key(self.entries(), key@),
    {
        let mut i: usize = 0;
        while i < self.sessions.len()
            invariant
                0 <= i <= self.sessions@.len(),
                forall|j: int| 0 <= j < i ==> self.entries()[j].0 != key@,
            decreases self.sessions@.len() - i,
        {
            if str_eq(self.sessions[i].0.as_str(), key) {
                return Some(i);
            }
            i = i + 1;
        }
        None
    }

    /// The number of stored sessions.
    pub fn session_count(&self) -> (n: usize)
        ensures
            n == self.entries().len(),
    {
        self.sessions.len()
    }

    /// A copy of the session stored under `id`.
    pub fn get_session(&self, id: &str) -> (r: Result<Session, AgentError>)
        ensures
            r is Ok == has_key(self.entries(), id@),
            r matches Ok(s) ==> s@ == self.entries()[key_pos(self.entries(), id@)].1,
            r matches Err(e) ==> session_not_found(e, id@),
    {
        proof { use_type_invariant(self); }
        match self.find_key(id) {
            Some(i) => {
                proof { assert(self.entries()[i as int].0 == id@); }
                Ok(self.sessions[i].1.duplicate())
            },
            None => Err(AgentError::SessionNotFound(String::from_str(id))),
        }
    }

    /// Stores `session` under `id`, replacing what was stored there.
    pub fn update_session(&mut self, id: &str, session: Session) -> (r: Result<(), AgentError>)
        ensures
            r is Ok,
            final(self).entries() == upsert(old(self).entries(), id@, session@),
            final(self).agents_view() == old(self).agents_view(),
            final(self).channels_view() == old(self).channels_view(),
    {
        proof { use_type_invariant(&*self); }
        let ghost before = self.entries();
        let ghost sv = session@;
        let pos = self.find_key(id);
        let mut sessions: Vec<(String, Session)> = Vec::new();
        std::mem::swap(&mut sessions, &mut self.sessions);
        assert(sessions@.map_values(|e: (String, Session)| (e.0@, e.1@)) == before);
        match pos {
            Some(i) => {
                let key = sessions[i].0.clone();
                sessions.set(i, (key, session));
                assert(sessions@.map_values(|e: (String, Session)| (e.0@, e.1@)) =~= before.update(i as int, (id@, sv)));
                assert(has_key(before, id@));
                assert(key_pos(before, id@) == i);
            },
            None => {
                sessions.push((String::from_str(id), session));
                assert(sessions@.map_values(|e: (String, Session)| (e.0@, e.1@)) =~= before.push((id@, sv)));
            },
        }
        self.sessions = sessions;
        Ok(())
    }

    /// Creates a session with the given id and clock reading for an agent and
    /// a channel that are both registered, and stores it under its id.
    pub fn create_session_with(&mut self, agent_id: String, channel_id: String, user_id: String, id: String, now: i128) -> (r: Result<String, AgentError>)
        ensures
            !old(self).agents_view().contains(agent_id@) ==> (r is Err && agent_not_found(r->Err_0, agent_id@)),
            old(self).agents_view().contains(agent_id@) && !old(self).channels_view().contains(channel_id@) ==>
                (r is Err && channel_not_found(r->Err_0, channel_id@)),
            r is Err ==> final(self).entries() == old(self).entries(),
            old(self).agents_view().contains(agent_id@) && old(self).channels_view().contains(channel_id@) ==> {
                &&& (r is Ok && r->Ok_0@ == id@)
                &&& final(self).entries() == upsert(old(self).entries(), id@, SessionView {
                    id: id@, agent_id: agent_id@, channel_id: channel_id@, user_id: user_id@,
                    messages: seq![], created_at: now, updated_at: now, metadata: Map::empty(),
                })
            },
            final(self).agents_view() == old(self).agents_view(),
            final(self).channels_view() == old(self).channels_view(),
    {
        proof { use_type_invariant(&*self); }
        self.get_agent(agent_id.as_str())?;
        self.get_channel(channel_id.as_str())?;
        let key = id.clone();
        let session = Session::from_parts(id, agent_id, channel_id, user_id, now);
        let ghost sv = session@;
        assert(sv.messages =~= Seq::<Message>::empty());
        let ghost before = self.entries();
        let _ = self.update_session(key.as_str(), session);
        proof { lemma_upsert_lookup(before, key@, sv); }
        Ok(key)
    }

    /// Creates a session with a fresh random id, created now.
    pub fn create_session(&mut self, agent_id: String, channel_id: String, user_id: String) -> (r: Result<String, AgentError>)
        ensures
            r is Ok == (old(self).agents_view().contains(agent_id@) && old(self).channels_view().contains(channel_id@)),
            !old(self).agents_view().contains(agent_id@) ==> (r is Err && agent_not_found(r->Err_0, agent_id@)),
            old(self).agents_view().contains(agent_id@) && !old(self).channels_view().contains(channel_id@) ==>
                (r is Err && channel_not_found(r->Err_0, channel_id@)),
            r is Err ==> final(self).entries() == old(self).entries(),
            r matches Ok(k) ==> {
                &&& has_key(final(self).entries(), k@)
                &&& final(self).entries()[key_pos(final(self).entries(), k@)].1.agent_id == agent_id@
                &&& final(self).entries()[key_pos(final(self).entries(), k@)].1.channel_id == channel_id@
                &&& final(self).entries()[key_pos(final(self).entries(), k@)].1.user_id == user_id@
                &&& final(self).entries()[key_pos(final(self).entries(), k@)].1.messages.len() == 0
                &&& k@.len() == 36
                &&& exists|now: i128| final(self).entries() == #[trigger] upsert(old(self).entries(), k@,
                    new_session_view(k@, agent_id@, channel_id@, user_id@, now))
            },
            final(self).agents_view() == old(self).agents_view(),
            final(self).channels_view() == old(self).channels_view(),
    {
        proof { use_type_invariant(&*self); }
        let id = crate::clock::new_id();
        let now = crate::clock::now_nanos();
        let ghost idv = id@;
        let ghost sv = new_session_view(id@, agent_id@, channel_id@, user_id@, now);
        let r = self.create_session_with(agent_id, channel_id, user_id, id, now);
        proof {
            if r is Ok {
                lemma_upsert_lookup(old(self).entries(), idv, sv);
                assert(self.entries() == upsert(old(self).entries(), idv, sv));
            }
        }
        r
    }
}

/// After `upsert(s, k, v)` the entry under `k` holds `v`.
pub proof fn lemma_upsert_lookup(s: Entries, k: Seq<char>, v: SessionView)
    requires
        unique_keys(s),
    ensures
        has_key(upsert(s, k, v), k),
        unique_keys(upsert(s, k, v)),
        upsert(s, k, v)[key_pos(upsert(s, k, v), k)].1 == v,
        upsert(s, k, v).len() == if has_key(s, k) { s.len() } else { s.len() + 1 },
{
    let t = upsert(s, k, v);
    if has_key(s, k) {
        let i = key_pos(s, k);
        assert(t[i].0 == k);
    } else {
        assert(t[s.len() as int].0 == k);
    }
}


/// The first session, in order, whose agent or channel is not registered:
/// `(true, agent id)` or `(false, channel id)`.
pub open spec fn first_unknown(agents: Seq<Seq<char>>, channels: Seq<Seq<char>>, ss: Seq<SessionView>) -> Option<(bool, Seq<char>)>
    decreases ss.len(),
{
    if ss.len() == 0 {
        None
    } else if !agents.contains(ss[0].agent_id) {
        Some((true, ss[0].agent_id))
    } else if !channels.contains(ss[0].channel_id) {
        Some((false, ss[0].channel_id))
    } else {
        first_unknown(agents, channels, ss.drop_first())
    }
}

/// The entries after storing each session of `ss` under its own id, in order.
pub open spec fn upsert_all(e: Entries, ss: Seq<SessionView>) -> Entries
    decreases ss.len(),
{
    if ss.len() == 0 {
        e
    } else {
        upsert_all(upsert(e, ss[0].id, ss[0]), ss.drop_first())
    }
}

/// The views of a list of sessions.
pub open spec fn session_views(ss: Seq<Session>) -> Seq<SessionView> {
    ss.map_values(|s: Session| s@)
}

/// The user message that a turn appends.
pub open spec fn with_message(v: SessionView, m: Message, now: i128) -> SessionView {
    SessionView { messages: v.messages.push(m), updated_at: now, ..v }
}

/// The metadata key under which a session keeps where replies go.
pub open spec fn reply_target_key() -> Seq<char> {
    "reply_target"@
}

/// Where replies for a session go: the stored reply target, else the user.
pub open spec fn reply_target_of(v: SessionView) -> Seq<char> {
    if v.metadata.contains_key(reply_target_key()) { v.metadata[reply_target_key()] } else { v.user_id }
}

impl AgentIM {
    /// Copies of the stored sessions, in storage order.
    pub fn list_sessions(&self) -> (r: Vec<Session>)
        ensures
            session_views(r@) == self.entries().map_values(|e: (Seq<char>, SessionView)| e.1),
    {
        let mut r: Vec<Session> = Vec::new();
        let mut i: usize = 0;
        while i < self.sessions.len()
            invariant
                0 <= i <= self.sessions@.len(),
                session_views(r@) == self.entries().map_values(|e: (Seq<char>, SessionView)| e.1).subrange(0, i as int),
            decreases self.sessions@.len() - i,
        {
            let ghost before = session_views(r@);
            let c = self.sessions[i].1.duplicate();
            r.push(c);
            assert(session_views(r@) =~= before.push(c@));
            assert(self.entries().map_values(|e: (Seq<char>, SessionView)| e.1).subrange(0, i + 1)
                =~= self.entries().map_values(|e: (Seq<char>, SessionView)| e.1).subrange(0, i as int).push(self.sessions@[i as int].1@));
            i = i + 1;
        }
        assert(self.entries().map_values(|e: (Seq<char>, SessionView)| e.1).subrange(0, self.sessions@.len() as int)
            =~= self.entries().map_values(|e: (Seq<char>, SessionView)| e.1));
        r
    }

    /// Removes the session stored under `id`.
    pub fn delete_session(&mut self, id: &str) -> (r: Result<(), AgentError>)
        ensures
            r is Ok == has_key(old(self).entries(), id@),
            r matches Err(e) ==> session_not_found(e, id@),
            r is Ok ==> final(self).entries() == old(self).entries().remove(key_pos(old(self).entries(), id@)),
            r is Err ==> final(self).entries() == old(self).entries(),
            final(self).agents_view() == old(self).agents_view(),
            final(self).channels_view() == old(self).channels_view(),
    {
        proof { use_type_invariant(&*self); }
        let ghost before = self.entries();
        match self.find_key(id) {
            Some(i) => {
                assert(key_pos(before, id@) == i);
                let mut sessions: Vec<(String, Session)> = Vec::new();
                std::mem::swap(&mut sessions, &mut self.sessions);
                let _ = sessions.remove(i);
                assert(sessions@.map_values(|e: (String, Session)| (e.0@, e.1@)) =~= before.remove(i as int));
                self.sessions = sessions;
                Ok(())
            },
            None => Err(AgentError::SessionNotFound(String::from_str(id))),
        }
    }

    /// Removes the sessions last updated before `now - max_idle_seconds`
    /// (`now` in nanoseconds); returns how many were removed.
    pub fn cleanup_stale_sessions_at(&mut self, max_idle_seconds: u64, now: i128) -> (r: usize)
        requires
            max_idle_seconds <= i64::MAX / 1000,
        ensures
            final(self).entries() == fresh_entries(old(self).entries(), now - max_idle_seconds * 1_000_000_000),
            r == old(self).entries().len() - final(self).entries().len(),
            final(self).agents_view() == old(self).agents_view(),
            final(self).channels_view() == old(self).channels_view(),
    {
        proof { use_type_invariant(&*self); }
        let ghost before = self.entries();
        let ghost cutoff: int = now - max_idle_seconds * 1_000_000_000;
        let d: i128 = (max_idle_seconds as i128) * 1_000_000_000;
        let reachable = now >= i128::MIN + d;
        let cut: i128 = if reachable { now - d } else { i128::MIN };
        let mut sessions: Vec<(String, Session)> = Vec::new();
        std::mem::swap(&mut sessions, &mut self.sessions);
        let n = sessions.len();
        let mut kept: Vec<(String, Session)> = Vec::new();
        let mut removed: usize = 0;
        let mut i: usize = 0;
        while i < n
            invariant
                n == sessions@.len(),
                sessions@.map_values(|e: (String, Session)| (e.0@, e.1@)) == before,
                reachable ==> cut == cutoff,
                !reachable ==> cutoff < i128::MIN,
                0 <= i <= n,
                kept@.map_values(|e: (String, Session)| (e.0@, e.1@)) == fresh_entries(before.subrange(0, i as int), cutoff),
                removed == i - kept@.len(),
                kept@.len() <= i,
            decreases n - i,
        {
            proof { lemma_fresh_len(before.subrange(0, i + 1), cutoff); }
            assert(before.subrange(0, i + 1).drop_last() =~= before.subrange(0, i as int));
            if reachable && sessions[i].1.updated_at < cut {
                removed = removed + 1;
            } else {
                let key = sessions[i].0.clone();
                let s = sessions[i].1.duplicate();
                let ghost b = kept@.map_values(|e: (String, Session)| (e.0@, e.1@));
                kept.push((key, s));
                assert(kept@.map_values(|e: (String, Session)| (e.0@, e.1@)) =~= b.push(before[i as int]));
            }
            i = i + 1;
        }
        assert(before.subrange(0, n as int) =~= before);
        proof { lemma_fresh_unique(before, cutoff); }
        self.sessions = kept;
        removed
    }

    /// Removes the sessions that have been idle for `max_idle_seconds` or
    /// more, by the clock; returns how many were removed.
    pub fn cleanup_stale_sessions(&mut self, max_idle_seconds: u64) -> (r: usize)
        requires
            max_idle_seconds <= i64::MAX / 1000,
        ensures
            r == old(self).entries().len() - final(self).entries().len(),
            exists|now: i128| final(self).entries() == #[trigger] fresh_entries(old(self).entries(), now - max_idle_seconds * 1_000_000_000),
            final(self).agents_view() == old(self).agents_view(),
            final(self).channels_view() == old(self).channels_view(),
    {
        let now = crate::clock::now_nanos();
        let r = self.cleanup_stale_sessions_at(max_idle_seconds, now);
        assert(self.entries() == fresh_entries(old(self).entries(), now - max_idle_seconds * 1_000_000_000));
        r
    }
}

proof fn lemma_fresh_len(s: Entries, cutoff: int)
    ensures
        fresh_entries(s, cutoff).len() <= s.len(),
    decreases s.len(),
{
    if s.len() > 0 {
        lemma_fresh_len(s.drop_last(), cutoff);
    }
}

proof fn lemma_fresh_subset(s: Entries, cutoff: int)
    ensures
        forall|i: int| 0 <= i < fresh_entries(s, cutoff).len() ==> s.contains(#[trigger] fresh_entries(s, cutoff)[i]),
    decreases s.len(),
{
    if s.len() > 0 {
        lemma_fresh_subset(s.drop_last(), cutoff);
        let r = fresh_entries(s.drop_last(), cutoff);
        assert forall|i: int| 0 <= i < fresh_entries(s, cutoff).len() implies s.contains(#[trigger] fresh_entries(s, cutoff)[i]) by {
            if i < r.len() {
                assert(s.drop_last().contains(r[i]));
                let j = choose|j: int| 0 <= j < s.drop_last().len() && s.drop_last()[j] == r[i];
                assert(s[j] == r[i]);
            } else {
                assert(s[s.len() - 1] == s.last());
            }
        }
    }
}

proof fn lemma_fresh_unique(s: Entries, cutoff: int)
    requires
        unique_keys(s),
    ensures
        unique_keys(fresh_entries(s, cutoff)),
    decreases s.len(),
{
    if s.len() > 0 {
        let p = s.drop_last();
        assert(unique_keys(p));
        lemma_fresh_unique(p, cutoff);
        lemma_fresh_subset(p, cutoff);
        let r = fresh_entries(p, cutoff);
        if !is_stale(s.last(), cutoff) {
            assert forall|i: int| 0 <= i < r.len() implies #[trigger] r[i].0 != s.last().0 by {
                assert(p.contains(r[i]));
                let j = choose|j: int| 0 <= j < p.len() && p[j] == r[i];
                assert(s[j] == p[j]);
                assert(s[s.len() - 1] == s.last());
            }
            assert(unique_keys(r.push(s.last())));
        }
    }
}


impl AgentIM {
    fn find_matching(&self, agent_id: &str, channel_id: &str, user_id: &str) -> (r: Option<usize>)
        ensures
            r matches Some(i) ==> i < self.sessions@.len() && matching_session(self.entries(), agent_id@, channel_id@, user_id@) == Some(i as int),
            r is None ==> matching_session(self.entries(), agent_id@, channel_id@, user_id@) is None,
    {
        let ghost e = self.entries();
        let mut i: usize = 0;
        while i < self.sessions.len()
            invariant
                e == self.entries(),
                0 <= i <= self.sessions@.len(),
                forall|j: int| 0 <= j < i ==> !session_matches(e[j].1, agent_id@, channel_id@, user_id@),
            decreases self.sessions@.len() - i,
        {
            let s = &self.sessions[i].1;
            if str_eq(s.agent_id.as_str(), agent_id) && str_eq(s.channel_id.as_str(), channel_id)
                && str_eq(s.user_id.as_str(), user_id) {
                proof {
                    assert(session_matches(e[i as int].1, agent_id@, channel_id@, user_id@));
                    let c = choose|k: int| 0 <= k < e.len() && #[trigger] session_matches(e[k].1, agent_id@, channel_id@, user_id@)
                        && forall|j: int| 0 <= j < k ==> !session_matches(e[j].1, agent_id@, channel_id@, user_id@);
                    if c < i {
                    } else if c > i {
                        assert(!session_matches(e[i as int].1, agent_id@, channel_id@, user_id@));
                    }
                }
                return Some(i);
            }
            i = i + 1;
        }
        None
    }

    /// The id of the session of this agent, channel and user: the first
    /// stored one when there is one, else a new session created with `id` and
    /// `now` (see `create_session_with`).
    pub fn find_or_create_session_with(&mut self, agent_id: &str, channel_id: &str, user_id: &str, id: String, now: i128) -> (r: Result<String, AgentError>)
        ensures
            matching_session(old(self).entries(), agent_id@, channel_id@, user_id@) matches Some(i) ==> {
                &&& r is Ok
                &&& r->Ok_0@ == old(self).entries()[i].1.id
                &&& final(self).entries() == old(self).entries()
            },
            matching_session(old(self).entries(), agent_id@, channel_id@, user_id@) is None ==> {
                &&& !old(self).agents_view().contains(agent_id@) ==> (r is Err && agent_not_found(r->Err_0, agent_id@))
                &&& old(self).agents_view().contains(agent_id@) && !old(self).channels_view().contains(channel_id@) ==>
                    (r is Err && channel_not_found(r->Err_0, channel_id@))
                &&& r is Err ==> final(self).entries() == old(self).entries()
                &&& old(self).agents_view().contains(agent_id@) && old(self).channels_view().contains(channel_id@) ==> {
                    &&& (r is Ok && r->Ok_0@ == id@)
                    &&& final(self).entries() == upsert(old(self).entries(), id@, SessionView {
                        id: id@, agent_id: agent_id@, channel_id: channel_id@, user_id: user_id@,
                        messages: seq![], created_at: now, updated_at: now, metadata: Map::empty(),
                    })
                }
            },
            final(self).agents_view() == old(self).agents_view(),
            final(self).channels_view() == old(self).channels_view(),
    {
        match self.find_matching(agent_id, channel_id, user_id) {
            Some(i) => {
                assert(self.entries()[i as int].1.id == self.sessions@[i as int].1.id@);
                Ok(self.sessions[i].1.id.clone())
            },
            None => self.create_session_with(String::from_str(agent_id), String::from_str(channel_id), String::from_str(user_id), id, now),
        }
    }

    /// The id of the session of this agent, channel and user, created with a
    /// fresh id now when there is none yet.
    pub fn find_or_create_session(&mut self, agent_id: &str, channel_id: &str, user_id: &str) -> (r: Result<String, AgentError>)
        ensures
            matching_session(old(self).entries(), agent_id@, channel_id@, user_id@) matches Some(i) ==> {
                &&& r is Ok
                &&& r->Ok_0@ == old(self).entries()[i].1.id
                &&& final(self).entries() == old(self).entries()
            },
            matching_session(old(self).entries(), agent_id@, channel_id@, user_id@) is None ==> {
                &&& r is Ok == (old(self).agents_view().contains(agent_id@) && old(self).channels_view().contains(channel_id@))
                &&& !old(self).agents_view().contains(agent_id@) ==> (r is Err && agent_not_found(r->Err_0, agent_id@))
                &&& old(self).agents_view().contains(agent_id@) && !old(self).channels_view().contains(channel_id@) ==>
                    (r is Err && channel_not_found(r->Err_0, channel_id@))
                &&& r is Err ==> final(self).entries() == old(self).entries()
                &&& r matches Ok(k) ==> k@.len() == 36 && exists|now: i128| final(self).entries() == #[trigger] upsert(
                    old(self).entries(), k@, new_session_view(k@, agent_id@, channel_id@, user_id@, now))
            },
            final(self).agents_view() == old(self).agents_view(),
            final(self).channels_view() == old(self).channels_view(),
    {
        let id = crate::clock::new_id();
        let now = crate::clock::now_nanos();
        let ghost idv = id@;
        let r = self.find_or_create_session_with(agent_id, channel_id, user_id, id, now);
        proof {
            if r is Ok && matching_session(old(self).entries(), agent_id@, channel_id@, user_id@) is None {
                assert(self.entries() == upsert(old(self).entries(), idv, new_session_view(idv, agent_id@, channel_id@, user_id@, now)));
            }
        }
        r
    }

    /// Stores restored sessions under their own ids, provided that every one
    /// of them names a registered agent and a registered channel; otherwise
    /// nothing is stored and the first unknown id is reported.
    pub fn load_sessions(&mut self, sessions: Vec<Session>) -> (r: Result<usize, AgentError>)
        ensures
            first_unknown(old(self).agents_view(), old(self).channels_view(), session_views(sessions@)) matches Some(u) ==> {
                &&& r is Err
                &&& u.0 ==> agent_not_found(r->Err_0, u.1)
                &&& !u.0 ==> channel_not_found(r->Err_0, u.1)
                &&& final(self).entries() == old(self).entries()
            },
            first_unknown(old(self).agents_view(), old(self).channels_view(), session_views(sessions@)) is None ==> {
                &&& r is Ok && r->Ok_0 == sessions@.len()
                &&& final(self).entries() == upsert_all(old(self).entries(), session_views(sessions@))
            },
            final(self).agents_view() == old(self).agents_view(),
            final(self).channels_view() == old(self).channels_view(),
    {
        let ghost ss = session_views(sessions@);
        assert(ss.subrange(0, ss.len() as int) =~= ss);
        let mut i: usize = 0;
        while i < sessions.len()
            invariant
                ss == session_views(sessions@),
                0 <= i <= sessions@.len(),
                first_unknown(self.agents_view(), self.channels_view(), ss)
                    == first_unknown(self.agents_view(), self.channels_view(), ss.subrange(i as int, ss.len() as int)),
            decreases sessions@.len() - i,
        {
            let ghost rest = ss.subrange(i as int, ss.len() as int);
            assert(rest[0] == sessions@[i as int]@);
            assert(rest.drop_first() =~= ss.subrange(i + 1, ss.len() as int));
            self.get_agent(sessions[i].agent_id.as_str())?;
            self.get_channel(sessions[i].channel_id.as_str())?;
            i = i + 1;
        }
        assert(ss.subrange(0, ss.len() as int) =~= ss);
        let count = sessions.len();
        let ghost e0 = self.entries();
        let mut j: usize = 0;
        while j < count
            invariant
                ss == session_views(sessions@),
                ss.len() == count,
                0 <= j <= count,
                upsert_all(e0, ss) == upsert_all(self.entries(), ss.subrange(j as int, count as int)),
                self.agents_view() == old(self).agents_view(),
                self.channels_view() == old(self).channels_view(),
            decreases count - j,
        {
            let ghost rest = ss.subrange(j as int, count as int);
            assert(rest[0] == ss[j as int]);
            assert(rest.drop_first() =~= ss.subrange(j + 1, count as int));
            let s = sessions[j].duplicate();
            let _ = self.update_session(sessions[j].id.as_str(), s);
            j = j + 1;
        }
        assert(ss.subrange(count as int, count as int) =~= Seq::<SessionView>::empty());
        Ok(count)
    }
}


/// The session stored under `k` (meaningful when `has_key(e, k)`).
pub open spec fn stored(e: Entries, k: Seq<char>) -> SessionView {
    e[key_pos(e, k)].1
}

/// The session after recording where its replies go.
pub open spec fn with_reply_target(v: SessionView, target: Seq<char>) -> SessionView {
    SessionView { metadata: v.metadata.insert(reply_target_key(), target), ..v }
}

/// The message that a turn records for `content`.
pub open spec fn turn_message(id: String, role: MessageRole, content: String, now: i128) -> Message {
    Message { id, role, content, timestamp: now }
}

impl AgentIM {
    /// Records that replies for the session stored under `session_id` go to
    /// `target`.
    pub fn set_reply_target(&mut self, session_id: &str, target: &str) -> (r: Result<(), AgentError>)
        ensures
            r is Ok == has_key(old(self).entries(), session_id@),
            r matches Err(e) ==> session_not_found(e, session_id@) && final(self).entries() == old(self).entries(),
            r is Ok ==> final(self).entries() == upsert(old(self).entries(), session_id@,
                with_reply_target(stored(old(self).entries(), session_id@), target@)),
            final(self).agents_view() == old(self).agents_view(),
            final(self).channels_view() == old(self).channels_view(),
    {
        let mut session = self.get_session(session_id)?;
        let _ = session.metadata.insert(String::from_str("reply_target"), String::from_str(target));
        assert(session@ == with_reply_target(stored(old(self).entries(), session_id@), target@));
        self.update_session(session_id, session)
    }

    /// Trims the history of the session stored under `session_id` to
    /// `max_messages` messages at time `now` (see `Session::trim_history_at`).
    pub fn trim_session_history_at(&mut self, session_id: &str, max_messages: usize, now: i128) -> (r: Result<(), AgentError>)
        ensures
            r is Ok == has_key(old(self).entries(), session_id@),
            r matches Err(e) ==> session_not_found(e, session_id@) && final(self).entries() == old(self).entries(),
            r is Ok ==> final(self).entries() == upsert(old(self).entries(), session_id@,
                trimmed(stored(old(self).entries(), session_id@), max_messages as nat, now)),
            final(self).agents_view() == old(self).agents_view(),
            final(self).channels_view() == old(self).channels_view(),
    {
        let mut session = self.get_session(session_id)?;
        session.trim_history_at(max_messages, now);
        self.update_session(session_id, session)
    }

    /// Trims the history of the session stored under `session_id` to
    /// `max_messages` messages, stamped now.
    pub fn trim_session_history(&mut self, session_id: &str, max_messages: usize) -> (r: Result<(), AgentError>)
        ensures
            r is Ok == has_key(old(self).entries(), session_id@),
            r matches Err(e) ==> session_not_found(e, session_id@) && final(self).entries() == old(self).entries(),
            r is Ok ==> exists|now: i128| final(self).entries() == #[trigger] upsert(old(self).entries(), session_id@,
                trimmed(stored(old(self).entries(), session_id@), max_messages as nat, now)),
            final(self).agents_view() == old(self).agents_view(),
            final(self).channels_view() == old(self).channels_view(),
    {
        let now = crate::clock::now_nanos();
        self.trim_session_history_at(session_id, max_messages, now)
    }

    /// Starts a turn: the stored session with the user's message appended
    /// (not stored yet) and the context to hand to its agent.
    pub fn begin_turn(&self, session_id: &str, user_message: String, context_message_limit: usize, message_id: String, now: i128) -> (r: Result<PendingTurn, AgentError>)
        ensures
            !has_key(self.entries(), session_id@) ==> r is Err && session_not_found(r->Err_0, session_id@),
            has_key(self.entries(), session_id@) && !self.agents_view().contains(stored(self.entries(), session_id@).agent_id) ==>
                r is Err && agent_not_found(r->Err_0, stored(self.entries(), session_id@).agent_id),
            has_key(self.entries(), session_id@) && self.agents_view().contains(stored(self.entries(), session_id@).agent_id) ==> {
                &&& r is Ok
                &&& r->Ok_0.session_id@ == session_id@
                &&& r->Ok_0.session@ == with_message(stored(self.entries(), session_id@),
                    turn_message(message_id, MessageRole::User, user_message, now), now)
                &&& is_context(r->Ok_0.session@, context_message_limit as nat, r->Ok_0.context@)
            },
    {
        let mut session = self.get_session(session_id)?;
        self.get_agent(session.agent_id.as_str())?;
        session.add_message_at(MessageRole::User, user_message, message_id, now, now);
        let context = session.get_context(context_message_limit);
        Ok(PendingTurn { session_id: String::from_str(session_id), session, context })
    }

    /// Finishes a turn with the agent's reply: stores the session of the turn
    /// with the reply appended under the turn's session id, and hands back
    /// the reply.
    pub fn finish_turn(&mut self, turn: PendingTurn, response: String, message_id: String, now: i128) -> (r: String)
        ensures
            r == response,
            final(self).entries() == upsert(old(self).entries(), turn.session_id@,
                with_message(turn.session@, turn_message(message_id, MessageRole::Assistant, response, now), now)),
            final(self).agents_view() == old(self).agents_view(),
            final(self).channels_view() == old(self).channels_view(),
    {
        let PendingTurn { session_id, session, context } = turn;
        let mut session = session;
        let reply = response.clone();
        session.add_message_at(MessageRole::Assistant, response, message_id, now, now);
        let _ = self.update_session(session_id.as_str(), session);
        reply
    }

    /// Where the reply of a turn goes: the session's channel and its reply
    /// target (the user when none was recorded).
    pub fn reply_route(&self, session_id: &str) -> (r: Result<(String, String), AgentError>)
        ensures
            !has_key(self.entries(), session_id@) ==> r is Err && session_not_found(r->Err_0, session_id@),
            has_key(self.entries(), session_id@) && !self.channels_view().contains(stored(self.entries(), session_id@).channel_id) ==>
                r is Err && channel_not_found(r->Err_0, stored(self.entries(), session_id@).channel_id),
            has_key(self.entries(), session_id@) && self.channels_view().contains(stored(self.entries(), session_id@).channel_id) ==> {
                &&& r is Ok
                &&& r->Ok_0.0@ == stored(self.entries(), session_id@).channel_id
                &&& r->Ok_0.1@ == reply_target_of(stored(self.entries(), session_id@))
            },
    {
        let session = self.get_session(session_id)?;
        self.get_channel(session.channel_id.as_str())?;
        let target = match session.metadata.get("reply_target") {
            Some(t) => t,
            None => session.user_id.clone(),
        };
        Ok((session.channel_id.clone(), target))
    }
}

/// A new session with no messages and no metadata.
pub open spec fn new_session_view(id: Seq<char>, agent_id: Seq<char>, channel_id: Seq<char>, user_id: Seq<char>, now: i128) -> SessionView {
    SessionView {
        id, agent_id, channel_id, user_id,
        messages: seq![], created_at: now, updated_at: now, metadata: Map::empty(),
    }
}

/// The session id that a message of `user_id` on `channel_id` for `agent_id`
/// goes to, and the entries afterwards: the first matching session, else a
/// new one stored under `id`.
pub open spec fn found_or_created(e: Entries, agent_id: Seq<char>, channel_id: Seq<char>, user_id: Seq<char>, id: Seq<char>, now: i128) -> (Seq<char>, Entries) {
    match matching_session(e, agent_id, channel_id, user_id) {
        Some(i) => (e[i].1.id, e),
        None => (id, upsert(e, id, new_session_view(id, agent_id, channel_id, user_id, now))),
    }
}

/// The entries after recording a reply target, when one is given, for the
/// session stored under `k`.
pub open spec fn targeted(e: Entries, k: Seq<char>, target: Option<Seq<char>>) -> Entries {
    match target {
        Some(t) => if has_key(e, k) { upsert(e, k, with_reply_target(stored(e, k), t)) } else { e },
        None => e,
    }
}

/// The view of an optional string.
pub open spec fn opt_view(o: Option<&str>) -> Option<Seq<char>> {
    match o {
        Some(t) => Some(t@),
        None => None,
    }
}

/// The entries after a turn's reply is stored and the history trimmed when
/// a limit is given.
pub open spec fn after_reply(e: Entries, turn_session: SessionView, sid: Seq<char>, reply: Message, now: i128, max_messages: Option<usize>) -> Entries {
    let e1 = upsert(e, sid, with_message(turn_session, reply, now));
    match max_messages {
        Some(m) => upsert(e1, sid, trimmed(stored(e1, sid), m as nat, now)),
        None => e1,
    }
}

/// A reply ready to be sent: the channel, the target on it and the text.
pub struct Reply {
    pub channel_id: String,
    pub target: String,
    pub content: String,
}

/// A turn that began on the session stored under `k` and finished with a
/// reply leaves every other entry as it was, and gives that session the
/// user's message and then the reply at the end of its history.
pub proof fn lemma_turn_appends(e: Entries, k: Seq<char>, user: Message, reply: Message, t1: i128, t2: i128)
    requires
        unique_keys(e),
        has_key(e, k),
    ensures
        upsert(e, k, with_message(with_message(stored(e, k), user, t1), reply, t2)).len() == e.len(),
        stored(upsert(e, k, with_message(with_message(stored(e, k), user, t1), reply, t2)), k).messages
            == stored(e, k).messages.push(user).push(reply),
        forall|i: int| 0 <= i < e.len() && e[i].0 != k ==>
            #[trigger] upsert(e, k, with_message(with_message(stored(e, k), user, t1), reply, t2))[i] == e[i],
{
    let v = with_message(with_message(stored(e, k), user, t1), reply, t2);
    lemma_upsert_lookup(e, k, v);
    let i0 = key_pos(e, k);
    assert(upsert(e, k, v) == e.update(i0, (k, v)));
}

impl AgentIM {
    /// The steps of handling an incoming message before the agent is asked:
    /// find or create the session (a new one gets `new_session_id` and
    /// `now`), record the reply target when one is given, and begin the turn.
    pub fn prepare_incoming(&mut self, agent_id: &str, channel_id: &str, user_id: &str, reply_target: Option<&str>,
        user_message: String, context_message_limit: usize, new_session_id: String, message_id: String, now: i128)
        -> (r: Result<PendingTurn, AgentError>)
        ensures
            final(self).agents_view() == old(self).agents_view(),
            final(self).channels_view() == old(self).channels_view(),
            matching_session(old(self).entries(), agent_id@, channel_id@, user_id@) is None && !old(self).agents_view().contains(agent_id@) ==>
                r is Err && agent_not_found(r->Err_0, agent_id@) && final(self).entries() == old(self).entries(),
            matching_session(old(self).entries(), agent_id@, channel_id@, user_id@) is None && old(self).agents_view().contains(agent_id@)
                && !old(self).channels_view().contains(channel_id@) ==>
                r is Err && channel_not_found(r->Err_0, channel_id@) && final(self).entries() == old(self).entries(),
            matching_session(old(self).entries(), agent_id@, channel_id@, user_id@) is Some
                || (old(self).agents_view().contains(agent_id@) && old(self).channels_view().contains(channel_id@)) ==> {
                let sid = found_or_created(old(self).entries(), agent_id@, channel_id@, user_id@, new_session_id@, now).0;
                let e2 = targeted(found_or_created(old(self).entries(), agent_id@, channel_id@, user_id@, new_session_id@, now).1, sid, opt_view(reply_target));
                &&& final(self).entries() == e2
                &&& !has_key(e2, sid) ==> r is Err && session_not_found(r->Err_0, sid)
                &&& has_key(e2, sid) && !old(self).agents_view().contains(stored(e2, sid).agent_id) ==>
                    r is Err && agent_not_found(r->Err_0, stored(e2, sid).agent_id)
                &&& has_key(e2, sid) && old(self).agents_view().contains(stored(e2, sid).agent_id) ==> {
                    &&& r is Ok
                    &&& r->Ok_0.session_id@ == sid
                    &&& r->Ok_0.session@ == with_message(stored(e2, sid), turn_message(message_id, MessageRole::User, user_message, now), now)
                    &&& is_context(r->Ok_0.session@, context_message_limit as nat, r->Ok_0.context@)
                }
            },
    {
        let ghost e0 = self.entries();
        let ghost nv = new_session_view(new_session_id@, agent_id@, channel_id@, user_id@, now);
        let sid = self.find_or_create_session_with(agent_id, channel_id, user_id, new_session_id, now)?;
        assert(nv.messages =~= Seq::<Message>::empty());
        assert(self.entries() == found_or_created(e0, agent_id@, channel_id@, user_id@, new_session_id@, now).1);
        assert(sid@ == found_or_created(e0, agent_id@, channel_id@, user_id@, new_session_id@, now).0);
        match reply_target {
            Some(t) => {
                self.set_reply_target(sid.as_str(), t)?;
            },
            None => {},
        }
        self.begin_turn(sid.as_str(), user_message, context_message_limit, message_id, now)
    }

    /// The steps of handling an incoming message after the agent replied:
    /// store the reply, trim the history when a limit is given, and find
    /// where the reply goes.
    pub fn complete_incoming(&mut self, turn: PendingTurn, response: String, message_id: String, now: i128, max_messages: Option<usize>)
        -> (r: Result<Reply, AgentError>)
        ensures
            final(self).agents_view() == old(self).agents_view(),
            final(self).channels_view() == old(self).channels_view(),
            ({
                let sid = turn.session_id@;
                let e2 = after_reply(old(self).entries(), turn.session@, sid,
                    turn_message(message_id, MessageRole::Assistant, response, now), now, max_messages);
                &&& final(self).entries() == e2
                &&& has_key(e2, sid)
                &&& !old(self).channels_view().contains(stored(e2, sid).channel_id) ==>
                    r is Err && channel_not_found(r->Err_0, stored(e2, sid).channel_id)
                &&& old(self).channels_view().contains(stored(e2, sid).channel_id) ==> {
                    &&& r is Ok
                    &&& r->Ok_0.channel_id@ == stored(e2, sid).channel_id
                    &&& r->Ok_0.target@ == reply_target_of(stored(e2, sid))
                    &&& r->Ok_0.content == response
                }
            }),
    {
        proof { use_type_invariant(&*self); }
        let ghost e0 = self.entries();
        let ghost tv = turn.session@;
        let ghost reply_msg = turn_message(message_id, MessageRole::Assistant, response, now);
        let sid = turn.session_id.clone();
        let content = self.finish_turn(turn, response, message_id, now);
        proof { lemma_upsert_lookup(e0, sid@, with_message(tv, reply_msg, now)); }
        let ghost e1 = self.entries();
        match max_messages {
            Some(m) => {
                self.trim_session_history_at(sid.as_str(), m, now)?;
                proof { lemma_upsert_lookup(e1, sid@, trimmed(stored(e1, sid@), m as nat, now)); }
            },
            None => {},
        }
        let (channel_id, target) = self.reply_route(sid.as_str())?;
        Ok(Reply { channel_id, target, content })
    }
}

/// Limits applied while handling one incoming message.
#[derive(Clone, Copy, Debug)]
pub struct MessageHandlingOptions {
    pub max_messages: Option<usize>,
    pub context_message_limit: usize,
    pub agent_timeout_ms: Option<u64>,
}

impl Default for MessageHandlingOptions {
    /// No history limit, a context of 10 messages and no agent timeout.
    fn default() -> (r: Self)
        ensures
            r.max_messages is None,
            r.context_message_limit == 10,
            r.agent_timeout_ms is None,
    {
        MessageHandlingOptions { max_messages: None, context_message_limit: 10, agent_timeout_ms: None }
    }
}

/// The sessions of a list of entries, in order.
pub open spec fn sessions_of(e: Entries) -> Seq<SessionView> {
    e.map_values(|x: (Seq<char>, SessionView)| x.1)
}

/// Every session is stored under its own id.
pub open spec fn keyed_by_id(e: Entries) -> bool {
    forall|i: int| 0 <= i < e.len() ==> #[trigger] e[i].0 == e[i].1.id
}

proof fn lemma_reload_from(e: Entries, j: int)
    requires
        unique_keys(e),
        keyed_by_id(e),
        0 <= j <= e.len(),
    ensures
        upsert_all(e.subrange(0, j), sessions_of(e).subrange(j, e.len() as int)) == e,
    decreases e.len() - j,
{
    let vs = sessions_of(e);
    if j == e.len() {
        assert(vs.subrange(j, e.len() as int) =~= Seq::<SessionView>::empty());
        assert(e.subrange(0, j) =~= e);
    } else {
        let pre = e.subrange(0, j);
        let rest = vs.subrange(j, e.len() as int);
        assert(rest[0] == e[j].1);
        assert(rest.drop_first() =~= vs.subrange(j + 1, e.len() as int));
        assert(!has_key(pre, e[j].0)) by {
            if has_key(pre, e[j].0) {
                let k = choose|k: int| 0 <= k < pre.len() && #[trigger] pre[k].0 == e[j].0;
                assert(e[k].0 == e[j].0);
            }
        }
        assert(e[j].1.id == e[j].0);
        assert(upsert(pre, rest[0].id, rest[0]) =~= e.subrange(0, j + 1));
        lemma_reload_from(e, j + 1);
    }
}

/// Loading the listed sessions into a registry without sessions restores
/// the same entries in the same order, when each session is stored under its
/// own id.
pub proof fn lemma_reload_roundtrip(e: Entries)
    requires
        unique_keys(e),
        keyed_by_id(e),
    ensures
        upsert_all(Seq::empty(), sessions_of(e)) == e,
{
    lemma_reload_from(e, 0);
    assert(e.subrange(0, 0) =~= Seq::<(Seq<char>, SessionView)>::empty());
    assert(sessions_of(e).subrange(0, e.len() as int) =~= sessions_of(e));
}
/// Finding or creating the session of an agent, a channel and a user twice
/// gives the same id the second time and stores nothing more: the first call
/// either found the session or stored one that the second call finds.
pub proof fn lemma_find_or_create_twice(e: Entries, agent_id: Seq<char>, channel_id: Seq<char>, user_id: Seq<char>,
    id1: Seq<char>, t1: i128, id2: Seq<char>, t2: i128)
    ensures
        found_or_created(found_or_created(e, agent_id, channel_id, user_id, id1, t1).1, agent_id, channel_id, user_id, id2, t2)
            == found_or_created(e, agent_id, channel_id, user_id, id1, t1),
{
    match matching_session(e, agent_id, channel_id, user_id) {
        Some(i) => {},
        None => {
            let nv = new_session_view(id1, agent_id, channel_id, user_id, t1);
            let e1 = upsert(e, id1, nv);
            assert(forall|k: int| 0 <= k < e.len() ==> !session_matches(#[trigger] e[k].1, agent_id, channel_id, user_id));
            let p: int = if has_key(e, id1) { key_pos(e, id1) } else { e.len() as int };
            assert(e1[p] == (id1, nv));
            assert(session_matches(e1[p].1, agent_id, channel_id, user_id));
            assert forall|k: int| 0 <= k < e1.len() && k != p implies !session_matches(#[trigger] e1[k].1, agent_id, channel_id, user_id) by {
                assert(e1[k] == e[k]);
            }
            let m = matching_session(e1, agent_id, channel_id, user_id);
            assert(m == Some(p));
        },
    }
}


proof fn lemma_first_match(e: Entries, agent_id: Seq<char>, channel_id: Seq<char>, user_id: Seq<char>, k: int)
    requires
        0 <= k < e.len(),
        session_matches(e[k].1, agent_id, channel_id, user_id),
    ensures
        exists|i: int| 0 <= i < e.len() && #[trigger] session_matches(e[i].1, agent_id, channel_id, user_id)
            && forall|j: int| 0 <= j < i ==> !session_matches(e[j].1, agent_id, channel_id, user_id),
    decreases k,
{
    if exists|j: int| 0 <= j < k && #[trigger] session_matches(e[j].1, agent_id, channel_id, user_id) {
        let j = choose|j: int| 0 <= j < k && #[trigger] session_matches(e[j].1, agent_id, channel_id, user_id);
        lemma_first_match(e, agent_id, channel_id, user_id, j);
    } else {
        assert(forall|j: int| 0 <= j < k ==> !session_matches(e[j].1, agent_id, channel_id, user_id));
    }
}

/// The session that a message is matched to belongs to the agent, the
/// channel and the user that sent it.
pub proof fn lemma_matching_session_owner(e: Entries, agent_id: Seq<char>, channel_id: Seq<char>, user_id: Seq<char>)
    ensures
        matching_session(e, agent_id, channel_id, user_id) matches Some(i) ==> {
            &&& 0 <= i < e.len()
            &&& e[i].1.agent_id == agent_id
            &&& e[i].1.channel_id == channel_id
            &&& e[i].1.user_id == user_id
        },
        matching_session(e, agent_id, channel_id, user_id) is None ==> forall|i: int| 0 <= i < e.len() ==>
            !(#[trigger] e[i].1.agent_id == agent_id && e[i].1.channel_id == channel_id && e[i].1.user_id == user_id),
{
    if exists|i: int| 0 <= i < e.len() && #[trigger] session_matches(e[i].1, agent_id, channel_id, user_id) {
        let k = choose|i: int| 0 <= i < e.len() && #[trigger] session_matches(e[i].1, agent_id, channel_id, user_id);
        lemma_first_match(e, agent_id, channel_id, user_id, k);
    }
    if matching_session(e, agent_id, channel_id, user_id) is None {
        assert forall|i: int| 0 <= i < e.len() implies
            !(#[trigger] e[i].1.agent_id == agent_id && e[i].1.channel_id == channel_id && e[i].1.user_id == user_id) by {
            if e[i].1.agent_id == agent_id && e[i].1.channel_id == channel_id && e[i].1.user_id == user_id {
                assert(session_matches(e[i].1, agent_id, channel_id, user_id));
            }
        }
    }
}

/// Finding or creating a session gives the id of a stored session that
/// belongs to the agent, the channel and the user asked for.
pub proof fn lemma_found_or_created_owner(e: Entries, agent_id: Seq<char>, channel_id: Seq<char>, user_id: Seq<char>,
    id: Seq<char>, now: i128)
    ensures ({
        let (k, e2) = found_or_created(e, agent_id, channel_id, user_id, id, now);
        exists|i: int| 0 <= i < e2.len() && #[trigger] e2[i].1.id == k && e2[i].1.agent_id == agent_id
            && e2[i].1.channel_id == channel_id && e2[i].1.user_id == user_id
    }),
{
    lemma_matching_session_owner(e, agent_id, channel_id, user_id);
    match matching_session(e, agent_id, channel_id, user_id) {
        Some(i) => {
            let r = found_or_created(e, agent_id, channel_id, user_id, id, now);
            assert(r.1 == e && r.0 == e[i].1.id);
            assert(r.1[i].1.id == r.0 && r.1[i].1.user_id == user_id);
        },
        None => {
            let nv = new_session_view(id, agent_id, channel_id, user_id, now);
            let e1 = upsert(e, id, nv);
            let r = found_or_created(e, agent_id, channel_id, user_id, id, now);
            assert(r.1 == e1 && r.0 == id);
            let p: int = if has_key(e, id) { key_pos(e, id) } else { e.len() as int };
            if has_key(e, id) {
                let q = key_pos(e, id);
                assert(0 <= q < e.len());
            }
            assert(0 <= p < e1.len());
            assert(e1[p] == (id, nv));
            assert(r.1[p].1.id == r.0 && r.1[p].1.user_id == user_id);
        },
    }
}

/// Two different users writing to the same agent on the same channel get
/// different sessions, when the registry stores each session under its own
/// id and the new ids are fresh.
pub proof fn lemma_distinct_users_distinct_sessions(e: Entries, agent_id: Seq<char>, channel_id: Seq<char>,
    user1: Seq<char>, id1: Seq<char>, t1: i128, user2: Seq<char>, id2: Seq<char>, t2: i128)
    requires
        unique_keys(e),
        keyed_by_id(e),
        user1 != user2,
        id1 != id2,
        !has_key(e, id2),
    ensures ({
        let (k1, e1) = found_or_created(e, agent_id, channel_id, user1, id1, t1);
        let (k2, e2) = found_or_created(e1, agent_id, channel_id, user2, id2, t2);
        k1 != k2
    }),
{
    let (k1, e1) = found_or_created(e, agent_id, channel_id, user1, id1, t1);
    lemma_matching_session_owner(e, agent_id, channel_id, user1);
    lemma_found_or_created_owner(e, agent_id, channel_id, user1, id1, t1);
    let nv = new_session_view(id1, agent_id, channel_id, user1, t1);
    if matching_session(e, agent_id, channel_id, user1) is None {
        lemma_upsert_lookup(e, id1, nv);
        assert forall|i: int| 0 <= i < e1.len() implies #[trigger] e1[i].0 == e1[i].1.id by {
            if has_key(e, id1) {
                if i != key_pos(e, id1) { assert(e1[i] == e[i]); }
            } else {
                if i < e.len() { assert(e1[i] == e[i]); }
            }
        }
    }
    assert(unique_keys(e1));
    assert(keyed_by_id(e1));
    lemma_matching_session_owner(e1, agent_id, channel_id, user2);
    match matching_session(e1, agent_id, channel_id, user2) {
        Some(j) => {
            let p = choose|p: int| 0 <= p < e1.len() && #[trigger] e1[p].1.id == k1 && e1[p].1.agent_id == agent_id
                && e1[p].1.channel_id == channel_id && e1[p].1.user_id == user1;
            assert(p != j);
            assert(e1[p].0 == k1);
            assert(e1[j].0 == e1[j].1.id);
        },
        None => {
            match matching_session(e, agent_id, channel_id, user1) {
                Some(i) => {
                    assert(e[i].0 == k1);
                },
                None => {},
            }
        },
    }
}

} // verus!

