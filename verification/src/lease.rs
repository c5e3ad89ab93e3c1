use vstd::prelude::*;
use crate::paths::{path_join, path_joined, path_parent, path_parent_of};
use crate::text::{str_eq, to_chars, from_chars};

verus! {

/// Who holds a lease, and until when (nanoseconds since the epoch).
#[derive(Clone, Debug)]
pub struct LeaseRecord {
    pub owner: String,
    pub expires_at: i128,
}

/// What a lease operation does: whether it was granted, and the record to
/// write, if any.
pub struct LeaseDecision {
    pub granted: bool,
    pub write: Option<LeaseRecord>,
}

/// A lease for `owner` that runs `ttl_seconds` from `now`.
pub open spec fn fresh_record(owner: Seq<char>, now: int, ttl_seconds: int) -> (Seq<char>, int) {
    (owner, now + ttl_seconds * 1_000_000_000)
}

/// The clock arithmetic of a lease stays in range.
pub open spec fn ttl_fits(now: i128, ttl_seconds: u64) -> bool {
    ttl_seconds <= i64::MAX / 1000 && now + ttl_seconds * 1_000_000_000 <= i128::MAX
}

/// Whether a lease of `ttl_seconds` taken at `now` (milliseconds) has an
/// expiry that an `i128` of nanoseconds can hold, for a lifetime that
/// `chrono::Duration::seconds` takes; see `ttl_fits`.
pub fn lease_ttl_fits(now: i128, ttl_seconds: u64) -> (r: bool)
    ensures
        r == ttl_fits(now, ttl_seconds),
{
    if ttl_seconds > 9_223_372_036_854_775u64 {
        false
    } else {
        let ns: i128 = (ttl_seconds as i128) * 1_000_000_000;
        now <= i128::MAX - ns
    }
}

/// The view of an optional record.
pub open spec fn rec(r: Option<LeaseRecord>) -> Option<(Seq<char>, int)> {
    match r {
        Some(x) => Some((x.owner@, x.expires_at as int)),
        None => None,
    }
}

/// Acquiring: granted when there is no record, the owner holds it already,
/// or it has expired; a granted lease is rewritten to run from now.
pub open spec fn acquire_spec(current: Option<(Seq<char>, int)>, owner: Seq<char>, now: int, ttl_seconds: int) -> (bool, Option<(Seq<char>, int)>) {
    match current {
        None => (true, Some(fresh_record(owner, now, ttl_seconds))),
        Some((o, exp)) => if o == owner || exp <= now {
            (true, Some(fresh_record(owner, now, ttl_seconds)))
        } else {
            (false, None)
        },
    }
}

/// Renewing: granted when the owner holds the lease or it has expired; there
/// is nothing to renew without a record.
pub open spec fn renew_spec(current: Option<(Seq<char>, int)>, owner: Seq<char>, now: int, ttl_seconds: int) -> (bool, Option<(Seq<char>, int)>) {
    match current {
        None => (false, None),
        Some((o, exp)) => if o == owner || exp <= now {
            (true, Some(fresh_record(owner, now, ttl_seconds)))
        } else {
            (false, None)
        },
    }
}

fn new_record(owner: &str, now: i128, ttl_seconds: u64) -> (r: LeaseRecord)
    requires
        ttl_fits(now, ttl_seconds),
    ensures
        (r.owner@, r.expires_at as int) == fresh_record(owner@, now as int, ttl_seconds as int),
{
    LeaseRecord { owner: String::from_str(owner), expires_at: now + (ttl_seconds as i128) * 1_000_000_000 }
}

/// Decides an acquisition at `now`; see `acquire_spec`.
pub fn decide_acquire(current: Option<&LeaseRecord>, owner: &str, now: i128, ttl_seconds: u64) -> (r: LeaseDecision)
    requires
        ttl_fits(now, ttl_seconds),
    ensures
        (r.granted, rec(r.write)) == acquire_spec(match current { Some(c) => rec(Some(*c)), None => None },
            owner@, now as int, ttl_seconds as int),
{
    match current {
        None => LeaseDecision { granted: true, write: Some(new_record(owner, now, ttl_seconds)) },
        Some(c) => {
            if str_eq(c.owner.as_str(), owner) || c.expires_at <= now {
                LeaseDecision { granted: true, write: Some(new_record(owner, now, ttl_seconds)) }
            } else {
                LeaseDecision { granted: false, write: None }
            }
        },
    }
}

/// Decides a renewal at `now`; see `renew_spec`.
pub fn decide_renew(current: Option<&LeaseRecord>, owner: &str, now: i128, ttl_seconds: u64) -> (r: LeaseDecision)
    requires
        ttl_fits(now, ttl_seconds),
    ensures
        (r.granted, rec(r.write)) == renew_spec(match current { Some(c) => rec(Some(*c)), None => None },
            owner@, now as int, ttl_seconds as int),
{
    match current {
        None => LeaseDecision { granted: false, write: None },
        Some(c) => {
            if str_eq(c.owner.as_str(), owner) || c.expires_at <= now {
                LeaseDecision { granted: true, write: Some(new_record(owner, now, ttl_seconds)) }
            } else {
                LeaseDecision { granted: false, write: None }
            }
        },
    }
}

/// Whether releasing removes the record: only its owner's release does.
pub fn decide_release(current: Option<&LeaseRecord>, owner: &str) -> (r: bool)
    ensures
        r == match current { Some(c) => c.owner@ == owner@, None => false },
{
    match current {
        Some(c) => str_eq(c.owner.as_str(), owner),
        None => false,
    }
}

/// While a lease granted to one owner runs, another owner's acquisition and
/// renewal are refused, and the holder's renewal is granted.
pub proof fn lemma_lease_exclusive(current: Option<(Seq<char>, int)>, a: Seq<char>, b: Seq<char>, t1: int, t2: int, ttl: int)
    requires
        acquire_spec(current, a, t1, ttl).0,
        a != b,
        t2 < t1 + ttl * 1_000_000_000,
    ensures
        acquire_spec(acquire_spec(current, a, t1, ttl).1, b, t2, ttl).0 == false,
        renew_spec(acquire_spec(current, a, t1, ttl).1, b, t2, ttl).0 == false,
        renew_spec(acquire_spec(current, a, t1, ttl).1, a, t2, ttl).0,
{
}

/// Leases kept as files in one directory.
#[derive(Clone, Debug)]
pub struct FileLeaseStore {
    base_dir: String,
}

impl FileLeaseStore {
    /// A store in `base_dir`.
    pub fn new(base_dir: String) -> (r: Self)
        ensures
            r.base_dir_view() == base_dir@,
    {
        FileLeaseStore { base_dir }
    }

    /// The store's directory.
    pub closed spec fn base_dir_view(&self) -> Seq<char> {
        self.base_dir@
    }

    /// The store's directory.
    pub fn base_dir(&self) -> (r: &str)
        ensures
            r@ == self.base_dir_view(),
    {
        self.base_dir.as_str()
    }

    /// The store beside a state file: `.agentim-leases` in the file's
    /// directory, or in the working directory when the path has none.
    pub fn from_state_file(path: &str) -> (r: Self)
        ensures
            r.base_dir_view() == match path_parent_of(path@) {
                Some(p) => path_joined(p, ".agentim-leases"@),
                None => ".agentim-leases"@,
            },
    {
        let base_dir = match path_parent(path) {
            Some(p) => path_join(p.as_str(), ".agentim-leases"),
            None => String::from_str(".agentim-leases"),
        };
        FileLeaseStore { base_dir }
    }

    /// The file that holds the lease `key`: `{key}.lease.json` in the store.
    pub fn lease_path(&self, key: &str) -> (r: String)
        ensures
            r@ == path_joined(self.base_dir_view(), key@ + ".lease.json"@),
    {
        let name = lease_file_name(key);
        path_join(self.base_dir.as_str(), name.as_str())
    }
}

/// The name of the file that holds the lease `key`: `{key}.lease.json`.
pub fn lease_file_name(key: &str) -> (r: String)
    ensures
        r@ == key@ + ".lease.json"@,
{
    let mut v = to_chars(key);
    crate::text::append_str(&mut v, ".lease.json");
    from_chars(v.as_slice())
}

} // verus!
