use vstd::prelude::*;
use crate::number::decimal;
use crate::paths::{path_file_name, path_file_name_of, path_with_file_name, path_with_name};
use crate::text::{to_chars, from_chars};
use crate::error::AgentError;

verus! {

/// The file name of backup `index` of a snapshot whose own file name is
/// `file_name` (`sessions` when the path has none): `{name}.bak.{index}`.
pub open spec fn backup_file_name_spec(file_name: Option<Seq<char>>, index: nat) -> Seq<char> {
    let name = match file_name {
        Some(n) => n,
        None => "sessions"@,
    };
    name + ".bak."@ + decimal(index)
}

/// The file name of backup `index`, from the file name of the snapshot (as
/// `Path::file_name` gives it); see `backup_file_name_spec`.
pub fn backup_file_name(file_name: Option<String>, index: usize) -> (r: String)
    ensures
        r@ == backup_file_name_spec(crate::inbound::os(file_name), index as nat),
{
    let name = match file_name {
        Some(n) => n,
        None => String::from_str("sessions"),
    };
    let mut v = to_chars(name.as_str());
    crate::text::append_str(&mut v, ".bak.");
    crate::number::push_decimal(&mut v, index as u64);
    from_chars(v.as_slice())
}

/// The path of backup `index` of the snapshot at `path`: the backup's file
/// name in the same directory.
pub open spec fn backup_path_spec(path: Seq<char>, index: nat) -> Seq<char> {
    path_with_name(path, backup_file_name_spec(path_file_name_of(path), index))
}

/// The path of backup `index` of the snapshot at `path`.
pub fn backup_path(path: &str, index: usize) -> (r: String)
    ensures
        r@ == backup_path_spec(path@, index as nat),
{
    let file = backup_file_name(path_file_name(path), index);
    path_with_file_name(path, file.as_str())
}

/// The step of a rotation that moves backup `index - 1` (the snapshot
/// itself for 1) to backup `index`.
pub open spec fn rotation_step(path: Seq<char>, index: nat) -> (Seq<char>, Seq<char>) {
    (if index == 1 { path } else { backup_path_spec(path, (index - 1) as nat) }, backup_path_spec(path, index))
}

/// The moves of a rotation of `count` backups of `path`, in the order they
/// are made: backup `count - 1` to `count` first, the snapshot to backup 1
/// last.
pub open spec fn rotation_moves(path: Seq<char>, count: nat) -> Seq<(Seq<char>, Seq<char>)> {
    Seq::new(count, |k: int| rotation_step(path, (count - k) as nat))
}

/// The files, by path, after `from` is renamed to `to` when it exists (a file
/// already at `to` is replaced); unchanged when `from` does not exist.
pub open spec fn file_moved(files: Map<Seq<char>, Seq<char>>, from: Seq<char>, to: Seq<char>) -> Map<Seq<char>, Seq<char>> {
    if files.contains_key(from) { files.remove(from).insert(to, files[from]) } else { files }
}

/// The files after the moves, made in order.
pub open spec fn files_after_moves(files: Map<Seq<char>, Seq<char>>, moves: Seq<(Seq<char>, Seq<char>)>) -> Map<Seq<char>, Seq<char>>
    decreases moves.len(),
{
    if moves.len() == 0 {
        files
    } else {
        let m = moves.last();
        file_moved(files_after_moves(files, moves.drop_last()), m.0, m.1)
    }
}

/// The files after a snapshot `content` is saved to `path` keeping `count`
/// backups: when there are backups to keep and the snapshot exists, the
/// rotation moves are made first; then `path` holds `content`.
pub open spec fn files_after_save(files: Map<Seq<char>, Seq<char>>, path: Seq<char>, count: nat, content: Seq<char>) -> Map<Seq<char>, Seq<char>> {
    let rotated = if count > 0 && files.contains_key(path) { files_after_moves(files, rotation_moves(path, count)) } else { files };
    rotated.insert(path, content)
}

/// That the snapshot path and its backup paths `1..=count` are all different.
pub open spec fn backup_paths_distinct(path: Seq<char>, count: nat) -> bool {
    &&& forall|i: nat| 1 <= i <= count ==> #[trigger] backup_path_spec(path, i) != path
    &&& forall|i: nat, j: nat| 1 <= i <= count && 1 <= j <= count && i != j
            ==> #[trigger] backup_path_spec(path, i) != #[trigger] backup_path_spec(path, j)
}

proof fn lemma_rotation_prefix(files: Map<Seq<char>, Seq<char>>, path: Seq<char>, count: nat, n: nat)
    requires
        n <= count,
        backup_paths_distinct(path, count),
    ensures ({
        let cur = files_after_moves(files, rotation_moves(path, count).take(n as int));
        &&& forall|j: nat| count - n < j <= count && files.contains_key(#[trigger] rotation_step(path, j).0)
                ==> cur.contains_key(backup_path_spec(path, j)) && cur[backup_path_spec(path, j)] == files[rotation_step(path, j).0]
        &&& forall|j: nat| 1 <= j < count - n ==> (cur.contains_key(#[trigger] backup_path_spec(path, j)) == files.contains_key(backup_path_spec(path, j))
                && cur[backup_path_spec(path, j)] == files[backup_path_spec(path, j)])
        &&& n < count ==> cur.contains_key(path) == files.contains_key(path) && cur[path] == files[path]
    }),
    decreases n,
{
    let moves = rotation_moves(path, count);
    if n == 0 {
        assert(moves.take(0) =~= Seq::<(Seq<char>, Seq<char>)>::empty());
    } else {
        let m = (n - 1) as nat;
        lemma_rotation_prefix(files, path, count, m);
        let prev = files_after_moves(files, moves.take(m as int));
        assert(moves.take(n as int).drop_last() =~= moves.take(m as int));
        let j0 = (count - m) as nat;
        assert(moves.take(n as int).last() == rotation_step(path, j0));
        let from = rotation_step(path, j0).0;
        let to = backup_path_spec(path, j0);
        let cur = files_after_moves(files, moves.take(n as int));
        assert(cur == file_moved(prev, from, to));
        if j0 > 1 {
            assert(from == backup_path_spec(path, (j0 - 1) as nat));
            assert(prev.contains_key(from) == files.contains_key(from) && prev[from] == files[from]);
        } else {
            assert(from == path);
        }
        assert forall|j: nat| count - n < j <= count && files.contains_key(#[trigger] rotation_step(path, j).0)
            implies cur.contains_key(backup_path_spec(path, j)) && cur[backup_path_spec(path, j)] == files[rotation_step(path, j).0] by {
            if j != j0 {
                assert(backup_path_spec(path, j) != to);
                if j0 > 1 {
                    assert(backup_path_spec(path, j) != backup_path_spec(path, (j0 - 1) as nat));
                } else {
                    assert(backup_path_spec(path, j) != path);
                }
            }
        }
        assert forall|j: nat| 1 <= j < count - n implies (cur.contains_key(#[trigger] backup_path_spec(path, j)) == files.contains_key(backup_path_spec(path, j))
            && cur[backup_path_spec(path, j)] == files[backup_path_spec(path, j)]) by {
            assert(backup_path_spec(path, j) != to);
            assert(backup_path_spec(path, j) != backup_path_spec(path, (j0 - 1) as nat));
            assert(prev.contains_key(backup_path_spec(path, j)) == files.contains_key(backup_path_spec(path, j)));
        }
        if n < count {
            assert(path != to);
            assert(path != backup_path_spec(path, (j0 - 1) as nat));
        }
    }
}

/// Saving a snapshot with rotation: the path then holds the new snapshot,
/// backup 1 holds what the path held, and backup `i + 1` holds what backup
/// `i` held, for each `i` below the count whose backup existed, when the
/// snapshot path and its backup paths are all different.
pub proof fn lemma_save_rotates(files: Map<Seq<char>, Seq<char>>, path: Seq<char>, count: nat, content: Seq<char>)
    requires
        backup_paths_distinct(path, count),
    ensures ({
        let after = files_after_save(files, path, count, content);
        &&& after.contains_key(path) && after[path] == content
        &&& count > 0 && files.contains_key(path) ==>
                after.contains_key(backup_path_spec(path, 1)) && after[backup_path_spec(path, 1)] == files[path]
        &&& count > 0 && files.contains_key(path) ==> forall|i: nat| 1 <= i < count && files.contains_key(#[trigger] backup_path_spec(path, i))
                ==> after.contains_key(backup_path_spec(path, i + 1)) && after[backup_path_spec(path, i + 1)] == files[backup_path_spec(path, i)]
    }),
{
    if count > 0 && files.contains_key(path) {
        lemma_rotation_prefix(files, path, count, count);
        let moves = rotation_moves(path, count);
        assert(moves.take(count as int) =~= moves);
        let cur = files_after_moves(files, moves);
        assert(rotation_step(path, 1).0 == path);
        assert(backup_path_spec(path, 1) != path);
        assert forall|i: nat| 1 <= i < count && files.contains_key(#[trigger] backup_path_spec(path, i))
            implies files_after_save(files, path, count, content).contains_key(backup_path_spec(path, i + 1))
                && files_after_save(files, path, count, content)[backup_path_spec(path, i + 1)] == files[backup_path_spec(path, i)] by {
            assert(rotation_step(path, i + 1).0 == backup_path_spec(path, i));
            assert(backup_path_spec(path, i + 1) != path);
        }
    }
}

/// The moves that rotate the backups of `path` before a new snapshot is
/// written, oldest first, so that no file is overwritten before it moved:
/// backup `count - 1` to `count`, and so on down to the snapshot to backup 1.
pub fn rotation_plan(path: &str, backup_count: usize) -> (r: Vec<(String, String)>)
    ensures
        r@.len() == backup_count,
        forall|k: int| 0 <= k < backup_count ==>
            (#[trigger] r@[k].0@, r@[k].1@) == rotation_step(path@, (backup_count - k) as nat),
        r@.map_values(|m: (String, String)| (m.0@, m.1@)) == rotation_moves(path@, backup_count as nat),
{
    let mut r: Vec<(String, String)> = Vec::new();
    let mut index = backup_count;
    while index >= 1
        invariant
            index <= backup_count,
            r@.len() == backup_count - index,
            forall|k: int| 0 <= k < r@.len() ==>
                (#[trigger] r@[k].0@, r@[k].1@) == rotation_step(path@, (backup_count - k) as nat),
        decreases index,
    {
        let from = if index == 1 { String::from_str(path) } else { backup_path(path, index - 1) };
        let to = backup_path(path, index);
        r.push((from, to));
        index = index - 1;
    }
    assert(r@.map_values(|m: (String, String)| (m.0@, m.1@)) =~= rotation_moves(path@, backup_count as nat));
    r
}

/// The snapshots to try when loading, in order: the file itself, then its
/// backups from the newest.
pub fn snapshot_candidates(path: &str, backup_count: usize) -> (r: Vec<String>)
    ensures
        r@.len() == backup_count + 1,
        r@[0]@ == path@,
        forall|k: int| 1 <= k <= backup_count ==> #[trigger] r@[k]@ == backup_path_spec(path@, k as nat),
{
    let mut r: Vec<String> = Vec::new();
    r.push(String::from_str(path));
    let mut k: usize = 0;
    while k < backup_count
        invariant
            k <= backup_count,
            r@.len() == k + 1,
            r@[0]@ == path@,
            forall|j: int| 1 <= j <= k ==> #[trigger] r@[j]@ == backup_path_spec(path@, j as nat),
        decreases backup_count - k,
    {
        r.push(backup_path(path, k + 1));
        k = k + 1;
    }
    r
}

/// Where sessions are saved, and how many backups are kept.
pub struct FileSessionStore {
    path: String,
    backup_count: usize,
}

impl FileSessionStore {
    /// A store that saves to `path` and keeps `backup_count` backups.
    pub fn new(path: String, backup_count: usize) -> (r: Self)
        ensures
            r.path_view() == path@,
            r.backup_count_view() == backup_count,
    {
        FileSessionStore { path, backup_count }
    }

    /// The snapshot's path.
    pub closed spec fn path_view(&self) -> Seq<char> {
        self.path@
    }

    /// The number of backups kept.
    pub closed spec fn backup_count_view(&self) -> usize {
        self.backup_count
    }

    /// The snapshot's path.
    pub fn path(&self) -> (r: &str)
        ensures
            r@ == self.path_view(),
    {
        self.path.as_str()
    }

    /// The number of backups kept.
    pub fn backup_count(&self) -> (r: usize)
        ensures
            r == self.backup_count_view(),
    {
        self.backup_count
    }

    /// The moves that rotate this store's backups before a save.
    pub fn rotation(&self) -> (r: Vec<(String, String)>)
        ensures
            r@.len() == self.backup_count_view(),
            forall|k: int| 0 <= k < self.backup_count_view() ==>
                (#[trigger] r@[k].0@, r@[k].1@) == rotation_step(self.path_view(), (self.backup_count_view() - k) as nat),
    {
        rotation_plan(self.path.as_str(), self.backup_count)
    }
}

/// What to do after trying to load snapshot candidate `index`.
pub enum FallbackAction {
    /// The candidate restored this many sessions: it is the one.
    Restored(usize),
    /// Try the candidate at this index.
    TryNext(usize),
    /// No candidate is left: fail with the last error.
    GiveUp(AgentError),
}

/// After trying candidate `index` of `count` existing snapshots: the first
/// that loads is the one restored; a failure moves on to the next, and the
/// failure of the last one is the error.
pub fn fallback_step(index: usize, count: usize, outcome: Result<usize, AgentError>) -> (r: FallbackAction)
    ensures
        outcome matches Ok(n) ==> r == FallbackAction::Restored(n),
        outcome is Err && index + 1 < count ==> r == FallbackAction::TryNext((index + 1) as usize),
        outcome is Err && index + 1 >= count ==> r == FallbackAction::GiveUp(outcome->Err_0),
{
    match outcome {
        Ok(n) => FallbackAction::Restored(n),
        Err(e) => if index < count && count - index > 1 { FallbackAction::TryNext(index + 1) } else { FallbackAction::GiveUp(e) },
    }
}

} // verus!

