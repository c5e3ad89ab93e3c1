use vstd::prelude::*;
use crate::text::{to_chars, from_chars};

verus! {

/// Where a listener resumes.
#[derive(Clone, Debug)]
pub struct ListenerCheckpoint {
    pub cursor: Option<String>,
}

impl Default for ListenerCheckpoint {
    /// No cursor.
    fn default() -> (r: Self)
        ensures
            r.cursor is None,
    {
        ListenerCheckpoint { cursor: None }
    }
}

/// How a listener supervisor retries and which lease it holds.
#[derive(Clone, Debug)]
pub struct ListenerRuntimeConfig {
    pub max_backoff_ms: u64,
    pub lease_key: Option<String>,
    pub lease_owner: String,
    pub lease_ttl_seconds: u64,
}

impl Default for ListenerRuntimeConfig {
    /// At most 30 s between retries, no lease, a fresh owner name
    /// `agentim-{uuid}`, and leases of 60 s.
    fn default() -> (r: Self)
        ensures
            r.max_backoff_ms == 30_000,
            r.lease_key is None,
            r.lease_owner@.len() == 8 + 36,
            r.lease_owner@.subrange(0, 8) == "agentim-"@,
            r.lease_ttl_seconds == 60,
    {
        let id = crate::clock::new_id();
        let mut v = to_chars("agentim-");
        proof { reveal_strlit("agentim-"); }
        crate::text::append_str(&mut v, id.as_str());
        let owner = from_chars(v.as_slice());
        assert(owner@.subrange(0, 8) =~= "agentim-"@);
        ListenerRuntimeConfig { max_backoff_ms: 30_000, lease_key: None, lease_owner: owner, lease_ttl_seconds: 60 }
    }
}

/// The checkpoint file of a listener: `{state_file}.{listener_id}.checkpoint.json`,
/// when there is a state file.
pub open spec fn checkpoint_path_spec(state_file: Option<Seq<char>>, listener_id: Seq<char>) -> Option<Seq<char>> {
    match state_file {
        Some(p) => Some(p + seq!['.'] + listener_id + ".checkpoint.json"@),
        None => None,
    }
}

/// The checkpoint file of a listener; see `checkpoint_path_spec`.
pub fn default_checkpoint_path(state_file: Option<&str>, listener_id: &str) -> (r: Option<String>)
    ensures
        match r {
            Some(p) => checkpoint_path_spec(crate::auth::oview(state_file), listener_id@) == Some(p@),
            None => state_file is None,
        },
{
    match state_file {
        Some(p) => {
            let mut v = to_chars(p);
            v.push('.');
            crate::text::append_str(&mut v, listener_id);
            crate::text::append_str(&mut v, ".checkpoint.json");
            Some(from_chars(v.as_slice()))
        },
        None => None,
    }
}

/// How one supervised cycle ended.
#[derive(Clone, Copy, Debug)]
pub enum CycleOutcome {
    /// The cycle ran; whether it handled anything.
    Completed(bool),
    /// The cycle failed.
    Failed,
}

/// The longest wait between retries: the configured one, at least 1 s.
pub open spec fn backoff_cap(max_backoff_ms: u64) -> int {
    if max_backoff_ms < 1000 { 1000 } else { max_backoff_ms as int }
}

/// The wait before the next retry: back to 1 s after a cycle that handled
/// something, unchanged after an idle one, doubled up to the cap after a
/// failure.
pub open spec fn next_backoff_spec(backoff_ms: u64, outcome: CycleOutcome, max_backoff_ms: u64) -> int {
    match outcome {
        CycleOutcome::Completed(true) => 1000,
        CycleOutcome::Completed(false) => backoff_ms as int,
        CycleOutcome::Failed => {
            let doubled = 2 * backoff_ms;
            if doubled < backoff_cap(max_backoff_ms) { doubled } else { backoff_cap(max_backoff_ms) }
        },
    }
}

/// The wait before the next retry; see `next_backoff_spec`.
pub fn next_backoff(backoff_ms: u64, outcome: CycleOutcome, max_backoff_ms: u64) -> (r: u64)
    ensures
        r == next_backoff_spec(backoff_ms, outcome, max_backoff_ms),
{
    match outcome {
        CycleOutcome::Completed(true) => 1000,
        CycleOutcome::Completed(false) => backoff_ms,
        CycleOutcome::Failed => {
            let cap: u64 = if max_backoff_ms < 1000 { 1000 } else { max_backoff_ms };
            if backoff_ms > cap / 2 {
                cap
            } else {
                let doubled = backoff_ms * 2;
                if doubled < cap { doubled } else { cap }
            }
        },
    }
}

/// The wait between retries stays between 1 s and the cap.
pub proof fn lemma_backoff_bounded(backoff_ms: u64, outcome: CycleOutcome, max_backoff_ms: u64)
    requires
        1000 <= backoff_ms <= backoff_cap(max_backoff_ms),
    ensures
        1000 <= next_backoff_spec(backoff_ms, outcome, max_backoff_ms) <= backoff_cap(max_backoff_ms),
{
}

/// Whether the supervisor must hold a lease before each cycle: only with a
/// lease store and a key.
pub fn needs_lease(has_store: bool, lease_key: &Option<String>) -> (r: bool)
    ensures
        r == (has_store && lease_key is Some),
{
    has_store && lease_key.is_some()
}


/// The polling offset that a checkpoint cursor holds: `Some(None)` without a
/// cursor, `None` when the cursor is not a number.
pub open spec fn cursor_offset_spec(cursor: Option<Seq<char>>) -> Option<Option<int>> {
    match cursor {
        None => Some(None),
        Some(c) => match crate::number::parse_i64_spec(c) {
            Some(n) => Some(Some(n)),
            None => None,
        },
    }
}

/// The polling offset that a checkpoint holds; see `cursor_offset_spec`.
pub fn cursor_offset(checkpoint: &ListenerCheckpoint) -> (r: Option<Option<i64>>)
    ensures
        match r {
            None => cursor_offset_spec(crate::inbound::os(checkpoint.cursor)) is None,
            Some(None) => cursor_offset_spec(crate::inbound::os(checkpoint.cursor)) == Some(None::<int>),
            Some(Some(n)) => cursor_offset_spec(crate::inbound::os(checkpoint.cursor)) == Some(Some(n as int)),
        },
{
    match &checkpoint.cursor {
        None => Some(None),
        Some(c) => match crate::number::parse_i64(to_chars(c.as_str()).as_slice()) {
            Some(n) => Some(Some(n)),
            None => None,
        },
    }
}

/// The checkpoint after a polling cycle: the offset written as a number, and
/// whether the cycle moved it (that is, handled anything).
pub fn checkpoint_after(previous: Option<i64>, updated: Option<i64>) -> (r: (ListenerCheckpoint, bool))
    ensures
        crate::inbound::os(r.0.cursor) == match updated { Some(n) => Some(crate::number::signed_decimal(n as int)), None => None },
        r.1 == (updated != previous),
{
    let cursor = match updated {
        Some(n) => Some(from_chars(crate::number::i64_decimal(n).as_slice())),
        None => None,
    };
    let moved = match (updated, previous) {
        (Some(a), Some(b)) => a != b,
        (None, None) => false,
        _ => true,
    };
    (ListenerCheckpoint { cursor }, moved)
}
/// The gateway sequence number that a checkpoint holds: its cursor read as
/// an unsigned number; none without a cursor or when it does not parse.
pub open spec fn cursor_sequence_spec(cursor: Option<Seq<char>>) -> Option<nat> {
    match cursor {
        None => None,
        Some(c) => crate::number::parse_unsigned_spec(c, u64::MAX as nat),
    }
}

/// The gateway sequence number that a checkpoint holds; see
/// `cursor_sequence_spec`.
pub fn cursor_sequence(checkpoint: &ListenerCheckpoint) -> (r: Option<u64>)
    ensures
        match r {
            Some(n) => cursor_sequence_spec(crate::inbound::os(checkpoint.cursor)) == Some(n as nat),
            None => cursor_sequence_spec(crate::inbound::os(checkpoint.cursor)) is None,
        },
{
    match &checkpoint.cursor {
        None => None,
        Some(c) => crate::number::parse_unsigned(to_chars(c.as_str()).as_slice(), u64::MAX),
    }
}

/// The checkpoint after a gateway connection that ended at sequence `last`:
/// the sequence written as a number, and whether the cursor changed.
pub fn checkpoint_after_sequence(before: &ListenerCheckpoint, last: Option<u64>) -> (r: (ListenerCheckpoint, bool))
    ensures
        crate::inbound::os(r.0.cursor) == match last { Some(n) => Some(crate::number::decimal(n as nat)), None => None },
        r.1 == (crate::inbound::os(r.0.cursor) != crate::inbound::os(before.cursor)),
{
    let cursor = match last {
        Some(n) => {
            let mut v: Vec<char> = Vec::new();
            crate::number::push_decimal(&mut v, n);
            assert(v@ =~= crate::number::decimal(n as nat));
            Some(from_chars(v.as_slice()))
        },
        None => None,
    };
    let moved = match (&cursor, &before.cursor) {
        (Some(a), Some(b)) => !crate::text::str_eq(a.as_str(), b.as_str()),
        (None, None) => false,
        _ => true,
    };
    (ListenerCheckpoint { cursor }, moved)
}
/// Where a listener supervisor stands in its cycle.
#[derive(Clone, Copy, Debug, PartialEq, Eq, Structural)]
pub enum SupervisorPhase {
    /// Not started yet.
    Idle,
    /// Waiting for the answer to a lease request.
    AwaitLease,
    /// Sleeping after the lease was refused.
    LeaseWait,
    /// Waiting for a cycle of the listener.
    Running,
    /// Waiting for the checkpoint to be saved after a cycle that handled
    /// something (`true`) or nothing.
    Persisting(bool),
    /// Waiting for the lease to be renewed.
    Renewing,
    /// Sleeping after a failed cycle.
    BackingOff,
    /// Waiting for the listener to be set up again.
    Reinitializing,
}

/// A supervisor's phase and the pause it takes after the next failure.
#[derive(Clone, Copy, Debug)]
pub struct SupervisorState {
    pub phase: SupervisorPhase,
    pub backoff_ms: u64,
}

/// What happened since the last step.
#[derive(Clone, Copy, Debug)]
pub enum SupervisorEvent {
    /// The supervisor starts.
    Started,
    /// The lease was granted (`true`) or refused.
    Lease(bool),
    /// A cycle of the listener ended: whether it handled something, or
    /// `None` when it failed.
    Ran(Option<bool>),
    /// The checkpoint was saved.
    Persisted,
    /// The lease was renewed.
    Renewed,
    /// A pause ended.
    Slept,
    /// The listener was set up again.
    Reinitialized,
}

/// What the supervisor does next.
#[derive(Clone, Copy, Debug, PartialEq, Eq, Structural)]
pub enum SupervisorAction {
    AcquireLease,
    /// Pause this many milliseconds.
    Sleep(u64),
    RunOnce,
    PersistCheckpoint,
    RenewLease,
    Reinitialize,
    /// The event does not belong to this phase.
    OutOfOrder,
}

/// How a cycle starts: with a lease request when the listener runs under a
/// lease, else with a run.
pub open spec fn cycle_start(backoff_ms: u64, leased: bool) -> (SupervisorState, SupervisorAction) {
    if leased {
        (SupervisorState { phase: SupervisorPhase::AwaitLease, backoff_ms }, SupervisorAction::AcquireLease)
    } else {
        (SupervisorState { phase: SupervisorPhase::Running, backoff_ms }, SupervisorAction::RunOnce)
    }
}

/// The step of a listener supervisor. Each cycle asks for the lease when
/// there is one and runs the listener only once it is granted; a refused
/// lease is waited out for 5 s. After a cycle that went through, the
/// checkpoint is saved, then the lease is renewed, and the pause resets when
/// the cycle handled something. After a failed cycle the supervisor pauses,
/// doubles the pause (see `next_backoff`) and sets the listener up again.
pub open spec fn supervisor_step_spec(st: SupervisorState, leased: bool, max_backoff_ms: u64, ev: SupervisorEvent)
    -> (SupervisorState, SupervisorAction)
{
    match (st.phase, ev) {
        (SupervisorPhase::Idle, SupervisorEvent::Started) => cycle_start(st.backoff_ms, leased),
        (SupervisorPhase::AwaitLease, SupervisorEvent::Lease(granted)) => if granted {
            (SupervisorState { phase: SupervisorPhase::Running, ..st }, SupervisorAction::RunOnce)
        } else {
            (SupervisorState { phase: SupervisorPhase::LeaseWait, ..st }, SupervisorAction::Sleep(5000))
        },
        (SupervisorPhase::LeaseWait, SupervisorEvent::Slept) => cycle_start(st.backoff_ms, leased),
        (SupervisorPhase::Running, SupervisorEvent::Ran(outcome)) => match outcome {
            Some(processed) => (SupervisorState { phase: SupervisorPhase::Persisting(processed), ..st }, SupervisorAction::PersistCheckpoint),
            None => (SupervisorState { phase: SupervisorPhase::BackingOff, ..st }, SupervisorAction::Sleep(st.backoff_ms)),
        },
        (SupervisorPhase::Persisting(processed), SupervisorEvent::Persisted) => {
            let b = next_backoff_spec(st.backoff_ms, CycleOutcome::Completed(processed), max_backoff_ms) as u64;
            if leased {
                (SupervisorState { phase: SupervisorPhase::Renewing, backoff_ms: b }, SupervisorAction::RenewLease)
            } else {
                cycle_start(b, leased)
            }
        },
        (SupervisorPhase::Renewing, SupervisorEvent::Renewed) => cycle_start(st.backoff_ms, leased),
        (SupervisorPhase::BackingOff, SupervisorEvent::Slept) => (
            SupervisorState {
                phase: SupervisorPhase::Reinitializing,
                backoff_ms: next_backoff_spec(st.backoff_ms, CycleOutcome::Failed, max_backoff_ms) as u64,
            },
            SupervisorAction::Reinitialize,
        ),
        (SupervisorPhase::Reinitializing, SupervisorEvent::Reinitialized) => cycle_start(st.backoff_ms, leased),
        _ => (st, SupervisorAction::OutOfOrder),
    }
}

fn start_cycle(backoff_ms: u64, leased: bool) -> (r: (SupervisorState, SupervisorAction))
    ensures
        r == cycle_start(backoff_ms, leased),
{
    if leased {
        (SupervisorState { phase: SupervisorPhase::AwaitLease, backoff_ms }, SupervisorAction::AcquireLease)
    } else {
        (SupervisorState { phase: SupervisorPhase::Running, backoff_ms }, SupervisorAction::RunOnce)
    }
}

/// The step of a listener supervisor; see `supervisor_step_spec`.
pub fn supervisor_step(st: SupervisorState, leased: bool, max_backoff_ms: u64, ev: SupervisorEvent) -> (r: (SupervisorState, SupervisorAction))
    ensures
        r == supervisor_step_spec(st, leased, max_backoff_ms, ev),
{
    match (st.phase, ev) {
        (SupervisorPhase::Idle, SupervisorEvent::Started) => start_cycle(st.backoff_ms, leased),
        (SupervisorPhase::AwaitLease, SupervisorEvent::Lease(granted)) => if granted {
            (SupervisorState { phase: SupervisorPhase::Running, backoff_ms: st.backoff_ms }, SupervisorAction::RunOnce)
        } else {
            (SupervisorState { phase: SupervisorPhase::LeaseWait, backoff_ms: st.backoff_ms }, SupervisorAction::Sleep(5000))
        },
        (SupervisorPhase::LeaseWait, SupervisorEvent::Slept) => start_cycle(st.backoff_ms, leased),
        (SupervisorPhase::Running, SupervisorEvent::Ran(outcome)) => match outcome {
            Some(processed) => (SupervisorState { phase: SupervisorPhase::Persisting(processed), backoff_ms: st.backoff_ms }, SupervisorAction::PersistCheckpoint),
            None => (SupervisorState { phase: SupervisorPhase::BackingOff, backoff_ms: st.backoff_ms }, SupervisorAction::Sleep(st.backoff_ms)),
        },
        (SupervisorPhase::Persisting(processed), SupervisorEvent::Persisted) => {
            let b = next_backoff(st.backoff_ms, CycleOutcome::Completed(processed), max_backoff_ms);
            if leased {
                (SupervisorState { phase: SupervisorPhase::Renewing, backoff_ms: b }, SupervisorAction::RenewLease)
            } else {
                start_cycle(b, leased)
            }
        },
        (SupervisorPhase::Renewing, SupervisorEvent::Renewed) => start_cycle(st.backoff_ms, leased),
        (SupervisorPhase::BackingOff, SupervisorEvent::Slept) => {
            let b = next_backoff(st.backoff_ms, CycleOutcome::Failed, max_backoff_ms);
            (SupervisorState { phase: SupervisorPhase::Reinitializing, backoff_ms: b }, SupervisorAction::Reinitialize)
        },
        (SupervisorPhase::Reinitializing, SupervisorEvent::Reinitialized) => start_cycle(st.backoff_ms, leased),
        _ => (st, SupervisorAction::OutOfOrder),
    }
}

/// A listener that runs under a lease runs only right after the lease was
/// granted; a cycle that went through is always followed by saving the
/// checkpoint, and under a lease the checkpoint is saved before the lease is
/// renewed.
pub proof fn lemma_supervisor_order(st: SupervisorState, leased: bool, max_backoff_ms: u64, ev: SupervisorEvent)
    ensures
        leased && supervisor_step_spec(st, leased, max_backoff_ms, ev).1 == SupervisorAction::RunOnce ==>
            st.phase == SupervisorPhase::AwaitLease && ev == SupervisorEvent::Lease(true),
        (st.phase == SupervisorPhase::Running && (ev matches SupervisorEvent::Ran(Some(_)))) ==>
            supervisor_step_spec(st, leased, max_backoff_ms, ev).1 == SupervisorAction::PersistCheckpoint,
        supervisor_step_spec(st, leased, max_backoff_ms, ev).1 == SupervisorAction::RenewLease ==>
            st.phase is Persisting && ev == SupervisorEvent::Persisted,
{
}

} // verus!


