use vstd::prelude::*;
use crate::strmap::StringMap;
use crate::text::str_eq;

verus! {

/// A message that a channel received: from whom, its text, and what the
/// platform said about it.
pub struct ChannelMessage {
    pub user_id: String,
    pub content: String,
    pub metadata: StringMap,
}

/// The views of a list of strings.
pub open spec fn texts(v: Seq<String>) -> Seq<Seq<char>> {
    v.map_values(|s: String| s@)
}

/// The queues of a pending store: user and the messages waiting for them.
pub type PendingView = Seq<(Seq<char>, Seq<Seq<char>>)>;

/// The store has a queue for `user`.
pub open spec fn has_queue(s: PendingView, user: Seq<char>) -> bool {
    exists|i: int| 0 <= i < s.len() && #[trigger] s[i].0 == user
}

/// The messages waiting for `user`, oldest first.
pub open spec fn queued(s: PendingView, user: Seq<char>) -> Seq<Seq<char>> {
    if has_queue(s, user) {
        s[choose|i: int| 0 <= i < s.len() && #[trigger] s[i].0 == user].1
    } else {
        seq![]
    }
}

/// Messages that wait for a user until they are taken.
pub struct PendingMessages {
    queues: Vec<(String, Vec<String>)>,
}

impl PendingMessages {
    /// The queues of the store.
    pub closed spec fn queues(&self) -> PendingView {
        self.queues@.map_values(|e: (String, Vec<String>)| (e.0@, texts(e.1@)))
    }

    #[verifier::type_invariant]
    closed spec fn inv(&self) -> bool {
        forall|i: int, j: int| 0 <= i < self.queues().len() && 0 <= j < self.queues().len() && i != j
            ==> self.queues()[i].0 != self.queues()[j].0
    }

    /// A store with no messages.
    pub fn new() -> (r: Self)
        ensures
            forall|u: Seq<char>| queued(r.queues(), u) == Seq::<Seq<char>>::empty(),
    {
        let r = PendingMessages { queues: Vec::new() };
        assert(r.queues() =~= Seq::<(Seq<char>, Seq<Seq<char>>)>::empty());
        r
    }

    fn position(&self, user: &str) -> (r: Option<usize>)
        ensures
            r matches Some(i) ==> i < self.queues().len() && self.queues()[i as int].0 == user@,
            r is None ==> !has_queue(self.queues(), user@),
    {
        let mut i: usize = 0;
        while i < self.queues.len()
            invariant
                0 <= i <= self.queues@.len(),
                forall|j: int| 0 <= j < i ==> self.queues()[j].0 != user@,
            decreases self.queues@.len() - i,
        {
            if str_eq(self.queues[i].0.as_str(), user) {
                return Some(i);
            }
            i = i + 1;
        }
        None
    }

    /// Queues `message` for `user`, after what waits for them already.
    pub fn add_pending_message(&mut self, user_id: String, message: String)
        ensures
            forall|u: Seq<char>| #[trigger] queued(final(self).queues(), u)
                == if u == user_id@ { queued(old(self).queues(), u).push(message@) } else { queued(old(self).queues(), u) },
    {
        proof { use_type_invariant(&*self); }
        let ghost before = self.queues();
        let ghost uv = user_id@;
        let ghost mv = message@;
        let pos = self.position(user_id.as_str());
        let mut queues: Vec<(String, Vec<String>)> = Vec::new();
        std::mem::swap(&mut queues, &mut self.queues);
        assert(queues@.map_values(|e: (String, Vec<String>)| (e.0@, texts(e.1@))) == before);
        match pos {
            Some(i) => {
                let mut list = queues[i].1.clone();
                let ghost old_list = texts(queues@[i as int].1@);
                proof {
                    assert(before[i as int].1 == old_list);
                }
                list.push(message);
                assert(texts(list@) =~= old_list.push(mv)) by {
                    assert(list@ == queues@[i as int].1@.push(list@.last()));
                }
                queues.set(i, (user_id, list));
                let ghost after = queues@.map_values(|e: (String, Vec<String>)| (e.0@, texts(e.1@)));
                assert(after =~= before.update(i as int, (uv, old_list.push(mv))));
                assert forall|u: Seq<char>| #[trigger] queued(after, u)
                    == if u == uv { queued(before, u).push(mv) } else { queued(before, u) } by {
                    if u == uv {
                        assert(after[i as int].0 == u);
                        assert(before[i as int].0 == u);
                    } else if has_queue(before, u) {
                        let j = choose|j: int| 0 <= j < before.len() && #[trigger] before[j].0 == u;
                        assert(after[j].0 == u);
                    } else {
                        if has_queue(after, u) {
                            let j = choose|j: int| 0 <= j < after.len() && #[trigger] after[j].0 == u;
                            assert(before[j].0 == u);
                        }
                    }
                }
            },
            None => {
                let mut list: Vec<String> = Vec::new();
                list.push(message);
                assert(texts(list@) =~= seq![mv]);
                queues.push((user_id, list));
                let ghost after = queues@.map_values(|e: (String, Vec<String>)| (e.0@, texts(e.1@)));
                assert(after =~= before.push((uv, seq![mv])));
                assert forall|u: Seq<char>| #[trigger] queued(after, u)
                    == if u == uv { queued(before, u).push(mv) } else { queued(before, u) } by {
                    if u == uv {
                        assert(after[before.len() as int].0 == u);
                        assert(seq![mv] =~= Seq::<Seq<char>>::empty().push(mv));
                    } else if has_queue(before, u) {
                        let j = choose|j: int| 0 <= j < before.len() && #[trigger] before[j].0 == u;
                        assert(after[j].0 == u);
                    } else {
                        if has_queue(after, u) {
                            let j = choose|j: int| 0 <= j < after.len() && #[trigger] after[j].0 == u;
                            assert(before[j].0 == u);
                        }
                    }
                }
            },
        }
        self.queues = queues;
    }

    /// Takes every message that waits for `user`, oldest first; none wait
    /// for them afterwards.
    pub fn get_pending_messages(&mut self, user_id: &str) -> (r: Vec<String>)
        ensures
            texts(r@) == queued(old(self).queues(), user_id@),
            forall|u: Seq<char>| #[trigger] queued(final(self).queues(), u)
                == if u == user_id@ { Seq::<Seq<char>>::empty() } else { queued(old(self).queues(), u) },
    {
        proof { use_type_invariant(&*self); }
        let ghost before = self.queues();
        let ghost uv = user_id@;
        match self.position(user_id) {
            None => {
                assert forall|u: Seq<char>| #[trigger] queued(self.queues(), u)
                    == if u == uv { Seq::<Seq<char>>::empty() } else { queued(before, u) } by {}
                Vec::new()
            },
            Some(i) => {
                let mut queues: Vec<(String, Vec<String>)> = Vec::new();
                std::mem::swap(&mut queues, &mut self.queues);
                assert(queues@.map_values(|e: (String, Vec<String>)| (e.0@, texts(e.1@))) == before);
                let (_, list) = queues.remove(i);
                let ghost after = queues@.map_values(|e: (String, Vec<String>)| (e.0@, texts(e.1@)));
                assert(after =~= before.remove(i as int));
                assert(texts(list@) == before[i as int].1);
                assert forall|u: Seq<char>| #[trigger] queued(after, u)
                    == if u == uv { Seq::<Seq<char>>::empty() } else { queued(before, u) } by {
                    if u == uv {
                        if has_queue(after, u) {
                            let j = choose|j: int| 0 <= j < after.len() && #[trigger] after[j].0 == u;
                            if j < i {
                                assert(before[j].0 == u);
                            } else {
                                assert(before[j + 1].0 == u);
                            }
                        }
                    } else if has_queue(before, u) {
                        let j = choose|j: int| 0 <= j < before.len() && #[trigger] before[j].0 == u;
                        if j < i {
                            assert(after[j].0 == u);
                            assert(after[j] == before[j]);
                        } else {
                            assert(j != i);
                            assert(after[j - 1].0 == u);
                            assert(after[j - 1] == before[j]);
                        }
                    } else {
                        if has_queue(after, u) {
                            let j = choose|j: int| 0 <= j < after.len() && #[trigger] after[j].0 == u;
                            if j < i {
                                assert(before[j].0 == u);
                            } else {
                                assert(before[j + 1].0 == u);
                            }
                        }
                    }
                }
                self.queues = queues;
                list
            },
        }
    }
}

/// Messages queued for a user come back in the order they were queued, and
/// taking them leaves none.
pub proof fn lemma_pending_fifo(before: PendingView, after_add: PendingView, after_take: PendingView, user: Seq<char>, message: Seq<char>, taken: Seq<Seq<char>>)
    requires
        forall|u: Seq<char>| #[trigger] queued(after_add, u) == if u == user { queued(before, u).push(message) } else { queued(before, u) },
        taken == queued(after_add, user),
        forall|u: Seq<char>| #[trigger] queued(after_take, u) == if u == user { Seq::<Seq<char>>::empty() } else { queued(after_add, u) },
    ensures
        taken == queued(before, user).push(message),
        taken.last() == message,
        queued(after_take, user).len() == 0,
{
    assert(queued(after_add, user) == queued(before, user).push(message));
    assert(queued(after_take, user) == Seq::<Seq<char>>::empty());
}

} // verus!
