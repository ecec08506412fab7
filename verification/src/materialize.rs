//! Rebuilding a package's directory from its file map: which directories
//! to create and which files to write, in chunks that can run side by side.

use vstd::prelude::*;
use crate::filemap::{
    file_map_view, lookup, paths_distinct, same_mapping_same_entries, EntryPair, FileEntry,
};
use crate::layout::{join, joined};
use crate::text::{chars_of, find_last, last_index_of, list_contains, string_of, strings_view};

verus! {

/// How many files one chunk of a materialization holds at most.
pub const CHUNK_SIZE: usize = 6;

/// One step of a materialization.
#[derive(Debug, PartialEq, Eq)]
pub enum Step {
    /// Create the directory `path` and the directories above it.
    CreateDir { path: String },
    /// Write the contents of the blob `digest` to the file `path`.
    WriteFile { path: String, digest: String },
}

/// The mathematical value of a [`Step`].
pub enum StepModel {
    CreateDir { path: Seq<char> },
    WriteFile { path: Seq<char>, digest: Seq<char> },
}

impl View for Step {
    type V = StepModel;

    open spec fn view(&self) -> StepModel {
        match self {
            Step::CreateDir { path } => StepModel::CreateDir { path: path@ },
            Step::WriteFile { path, digest } => StepModel::WriteFile {
                path: path@,
                digest: digest@,
            },
        }
    }
}

/// The views of a list of steps, in order.
pub open spec fn steps_view(list: Seq<Step>) -> Seq<StepModel> {
    list.map_values(|s: Step| s@)
}

/// The views of a list of chunks, in order.
pub open spec fn chunks_view(list: Seq<Vec<Step>>) -> Seq<Seq<StepModel>> {
    list.map_values(|c: Vec<Step>| steps_view(c@))
}

/// The directory of the file `path` below `root`: `root` itself for a file
/// that lies directly in it.
pub open spec fn dir_of(root: Seq<char>, path: Seq<char>) -> Seq<char> {
    let slash = last_index_of(path, '/');
    if slash < 0 {
        root
    } else {
        joined(root, path.take(slash))
    }
}

/// The step that writes the file of an entry below `root`.
pub open spec fn write_of(root: Seq<char>, entry: EntryPair) -> StepModel {
    StepModel::WriteFile { path: joined(root, entry.0), digest: entry.1 }
}

/// The directories that the first `n` entries need, each once, in the
/// order in which the entries first need them.
pub open spec fn dirs_upto(root: Seq<char>, entries: Seq<EntryPair>, n: int) -> Seq<Seq<char>>
    decreases n,
{
    if n <= 0 {
        Seq::empty()
    } else {
        let before = dirs_upto(root, entries, n - 1);
        let dir = dir_of(root, entries[n - 1].0);
        if before.contains(dir) {
            before
        } else {
            before.push(dir)
        }
    }
}

/// The steps for the first `n` entries: each file is written in turn, and
/// its directory is created just before the first file that lies in it.
pub open spec fn steps_upto(root: Seq<char>, entries: Seq<EntryPair>, n: int) -> Seq<StepModel>
    decreases n,
{
    if n <= 0 {
        Seq::empty()
    } else {
        let before = steps_upto(root, entries, n - 1);
        let dir = dir_of(root, entries[n - 1].0);
        let write = write_of(root, entries[n - 1]);
        if dirs_upto(root, entries, n - 1).contains(dir) {
            before.push(write)
        } else {
            before.push(StepModel::CreateDir { path: dir }).push(write)
        }
    }
}

/// The steps that materialize `entries` below `root`.
pub open spec fn plan_of(root: Seq<char>, entries: Seq<EntryPair>) -> Seq<StepModel> {
    steps_upto(root, entries, entries.len() as int)
}

/// How many chunks of at most `size` items `count` items make.
pub open spec fn chunk_count(count: int, size: int) -> int {
    (count + size - 1) / size
}

/// The bounds of chunk `k`: it begins after `k` full chunks and ends with
/// the items, or after `size` items, whichever comes first.
pub open spec fn chunk_bounds(count: int, size: int, k: int) -> (int, int) {
    (k * size, if (k + 1) * size <= count { (k + 1) * size } else { count })
}

/// The entries of chunk `k` of a file map.
pub open spec fn chunk_of(entries: Seq<EntryPair>, k: int) -> Seq<EntryPair> {
    let (from, to) = chunk_bounds(entries.len() as int, CHUNK_SIZE as int, k);
    entries.subrange(from, to)
}

/// The plan that materializes `entries` below `root`: one list of steps for
/// each chunk of the file map. A chunk creates the directories it needs
/// itself, so that chunks do not depend on each other.
pub open spec fn chunked_plan(root: Seq<char>, entries: Seq<EntryPair>) -> Seq<Seq<StepModel>> {
    Seq::new(
        chunk_count(entries.len() as int, CHUNK_SIZE as int) as nat,
        |k: int| plan_of(root, chunk_of(entries, k)),
    )
}

/// The writes among a list of steps, in order.
pub open spec fn writes_in(steps: Seq<StepModel>) -> Seq<StepModel> {
    steps.filter(|s: StepModel| s is WriteFile)
}

/// The directory of the file `path` below `root`.
pub fn directory_of(root: &str, path: &str) -> (dir: String)
    ensures
        dir@ == dir_of(root@, path@),
{
    let chars = chars_of(path);
    match find_last(&chars, '/') {
        Some(slash) => {
            let parent = string_of(&chars, 0, slash);
            assert(chars@.subrange(0, slash as int) == path@.take(slash as int));
            join(root, parent.as_str())
        },
        None => String::from_str(root),
    }
}

/// The steps that materialize `entries[from..to]` below `root`. Every file
/// gets one write, in the order of the entries; the directory of a file is
/// created once, just before the first file that lies in it.
pub fn plan_chunk(root: &str, entries: &Vec<FileEntry>, from: usize, to: usize) -> (steps: Vec<
    Step,
>)
    requires
        from <= to <= entries.len(),
    ensures
        steps_view(steps@) == plan_of(
            root@,
            file_map_view(entries@).subrange(from as int, to as int),
        ),
{
    let ghost chunk = file_map_view(entries@).subrange(from as int, to as int);
    let mut steps: Vec<Step> = Vec::new();
    let mut created: Vec<String> = Vec::new();
    assert(steps_view(steps@) =~= Seq::empty());
    assert(strings_view(created@) =~= Seq::empty());
    let mut i: usize = from;
    while i < to
        invariant
            from <= i <= to <= entries.len(),
            chunk == file_map_view(entries@).subrange(from as int, to as int),
            steps_view(steps@) == steps_upto(root@, chunk, i - from),
            strings_view(created@) == dirs_upto(root@, chunk, i - from),
        decreases to - i,
    {
        let entry = &entries[i];
        assert(chunk[i - from] == entry@);
        let dir = directory_of(root, entry.path.as_str());
        if !list_contains(&created, dir.as_str()) {
            let ghost before = steps_view(steps@);
            let ghost dirs = strings_view(created@);
            steps.push(Step::CreateDir { path: dir.clone() });
            created.push(dir);
            assert(steps_view(steps@) =~= before.push(StepModel::CreateDir { path: dir@ }));
            assert(strings_view(created@) =~= dirs.push(dir@));
        }
        let ghost before = steps_view(steps@);
        let write = Step::WriteFile {
            path: join(root, entry.path.as_str()),
            digest: entry.digest.clone(),
        };
        steps.push(write);
        assert(steps_view(steps@) =~= before.push(write_of(root@, entry@)));
        i = i + 1;
    }
    steps
}

/// The plan that materializes a file map below `root`: the entries are cut
/// into chunks of [`CHUNK_SIZE`] files, the last one taking what is left,
/// and each chunk gets its own list of steps.
pub fn materialize_plan(root: &str, entries: &Vec<FileEntry>) -> (chunks: Vec<Vec<Step>>)
    ensures
        chunks_view(chunks@) == chunked_plan(root@, file_map_view(entries@)),
{
    let count = entries.len();
    let ghost all = file_map_view(entries@);
    let mut chunks: Vec<Vec<Step>> = Vec::new();
    let mut from: usize = 0;
    while from < count
        invariant
            from <= count == entries.len(),
            all == file_map_view(entries@),
            from == chunks.len() * CHUNK_SIZE,
            forall|k: int|
                0 <= k < chunks.len() ==> steps_view((#[trigger] chunks[k])@) == plan_of(
                    root@,
                    chunk_of(all, k),
                ),
        decreases count - from,
    {
        let to = if count - from > CHUNK_SIZE {
            from + CHUNK_SIZE
        } else {
            count
        };
        let steps = plan_chunk(root, entries, from, to);
        assert(chunk_of(all, chunks.len() as int) == all.subrange(from as int, to as int));
        chunks.push(steps);
        from = to;
        if to == count {
            assert(chunks.len() == chunk_count(count as int, CHUNK_SIZE as int));
            assert(chunks_view(chunks@) =~= chunked_plan(root@, all));
            return chunks;
        }
    }
    assert(chunks_view(chunks@) =~= chunked_plan(root@, all));
    chunks
}

/// What to do with a file that is to hold given contents.
#[derive(Clone, Copy, Debug, PartialEq, Eq, Structural)]
pub enum WriteDecision {
    /// The file already holds the contents: it is left untouched.
    Keep,
    /// The file is missing or holds something else: it is written anew.
    Write,
}

/// Whether two runs of bytes are the same.
pub fn same_bytes(a: &[u8], b: &[u8]) -> (r: bool)
    ensures
        r == (a@ == b@),
{
    if a.len() != b.len() {
        return false;
    }
    let mut i: usize = 0;
    while i < a.len()
        invariant
            i <= a.len() == b.len(),
            forall|k: int| 0 <= k < i ==> a@[k] == b@[k],
        decreases a.len() - i,
    {
        if a[i] != b[i] {
            assert(a@[i as int] != b@[i as int]);
            return false;
        }
        i = i + 1;
    }
    assert(a@ =~= b@);
    true
}

/// What is done with a file that is to hold `contents` and holds
/// `existing` now, if it exists: it is written unless it holds the
/// contents already.
pub open spec fn decided(existing: Option<Seq<u8>>, contents: Seq<u8>) -> WriteDecision {
    match existing {
        Some(found) => if found == contents {
            WriteDecision::Keep
        } else {
            WriteDecision::Write
        },
        None => WriteDecision::Write,
    }
}

/// Decides whether a file has to be written. `existing` is what the file
/// holds now, if it exists.
pub fn write_decision(existing: Option<&[u8]>, contents: &[u8]) -> (decision: WriteDecision)
    ensures
        decision == decided(
            match existing {
                Some(found) => Some(found@),
                None => None,
            },
            contents@,
        ),
{
    match existing {
        Some(found) => {
            if same_bytes(found, contents) {
                WriteDecision::Keep
            } else {
                WriteDecision::Write
            }
        },
        None => WriteDecision::Write,
    }
}

/// Materializing a package again changes nothing: a file that was written
/// with the contents of its blob is kept when the same contents are to be
/// written to it, and a file that holds anything else is overwritten.
pub proof fn rewriting_keeps_files(existing: Seq<u8>, contents: Seq<u8>)
    ensures
        decided(None, contents) == WriteDecision::Write,
        decided(Some(contents), contents) == WriteDecision::Keep,
        existing != contents ==> decided(Some(existing), contents) == WriteDecision::Write,
{
}

/// The writes that a list of entries asks for below `root`, in order.
pub open spec fn writes_for(root: Seq<char>, entries: Seq<EntryPair>) -> Seq<StepModel> {
    entries.map_values(|e: EntryPair| write_of(root, e))
}

/// The plan for the first `n` entries writes exactly these entries: each
/// once, in order, under its path below `root` and with its digest.
pub proof fn plan_writes_each_entry_once(root: Seq<char>, entries: Seq<EntryPair>, n: int)
    requires
        0 <= n <= entries.len(),
    ensures
        writes_in(steps_upto(root, entries, n)) == writes_for(root, entries.take(n)),
    decreases n,
{
    reveal(Seq::filter);
    let keep = |s: StepModel| s is WriteFile;
    if n == 0 {
        assert(writes_for(root, entries.take(0)) =~= Seq::empty());
    } else {
        plan_writes_each_entry_once(root, entries, n - 1);
        let before = steps_upto(root, entries, n - 1);
        let dir = StepModel::CreateDir { path: dir_of(root, entries[n - 1].0) };
        let write = write_of(root, entries[n - 1]);
        assert(before.push(write).drop_last() =~= before);
        assert(before.push(dir).push(write).drop_last() =~= before.push(dir));
        assert(before.push(dir).drop_last() =~= before);
        assert(before.push(dir).filter(keep) == before.filter(keep));
        assert(writes_for(root, entries.take(n)) =~= writes_for(root, entries.take(n - 1)).push(
            write,
        ));
    }
}

/// Before a file is written, its directory exists: in the plan for the
/// first `n` entries, the write of every entry comes after a step that
/// creates the directory of the entry's file.
pub proof fn directory_precedes_write(root: Seq<char>, entries: Seq<EntryPair>, n: int, k: int)
    requires
        0 <= k < n <= entries.len(),
    ensures
        exists|d: int, w: int|
            {
                &&& 0 <= d < w < steps_upto(root, entries, n).len()
                &&& #[trigger] steps_upto(root, entries, n)[d] == (StepModel::CreateDir {
                    path: dir_of(root, entries[k].0),
                })
                &&& #[trigger] steps_upto(root, entries, n)[w] == write_of(root, entries[k])
            },
    decreases n,
{
    let steps = steps_upto(root, entries, n);
    let before = steps_upto(root, entries, n - 1);
    let last_dir = dir_of(root, entries[n - 1].0);
    let last_write = write_of(root, entries[n - 1]);
    if k < n - 1 {
        directory_precedes_write(root, entries, n - 1, k);
        let (d, w) = choose|d: int, w: int|
            {
                &&& 0 <= d < w < before.len()
                &&& #[trigger] before[d] == (StepModel::CreateDir {
                    path: dir_of(root, entries[k].0),
                })
                &&& #[trigger] before[w] == write_of(root, entries[k])
            };
        assert(steps[d] == before[d]);
        assert(steps[w] == before[w]);
    } else {
        if dirs_upto(root, entries, n - 1).contains(last_dir) {
            created_directories_are_planned(root, entries, n - 1, last_dir);
            let d = choose|d: int|
                0 <= d < before.len() && #[trigger] before[d] == (StepModel::CreateDir {
                    path: last_dir,
                });
            let w = before.len() as int;
            assert(steps[d] == before[d]);
            assert(steps[w] == last_write);
        } else {
            let d = before.len() as int;
            assert(steps[d] == (StepModel::CreateDir { path: last_dir }));
            assert(steps[d + 1] == last_write);
        }
    }
}

/// Every directory that the first `n` entries need is created by a step of
/// their plan.
pub proof fn created_directories_are_planned(
    root: Seq<char>,
    entries: Seq<EntryPair>,
    n: int,
    dir: Seq<char>,
)
    requires
        0 <= n <= entries.len(),
        dirs_upto(root, entries, n).contains(dir),
    ensures
        exists|d: int|
            0 <= d < steps_upto(root, entries, n).len() && #[trigger] steps_upto(
                root,
                entries,
                n,
            )[d] == (StepModel::CreateDir { path: dir }),
    decreases n,
{
    if n > 0 {
        let steps = steps_upto(root, entries, n);
        let before = steps_upto(root, entries, n - 1);
        let dirs = dirs_upto(root, entries, n - 1);
        let last_dir = dir_of(root, entries[n - 1].0);
        if dirs.contains(dir) {
            created_directories_are_planned(root, entries, n - 1, dir);
            let d = choose|d: int|
                0 <= d < before.len() && #[trigger] before[d] == (StepModel::CreateDir {
                    path: dir,
                });
            assert(steps[d] == before[d]);
        } else {
            assert(dirs_upto(root, entries, n) == dirs.push(last_dir));
            let added = dirs.push(last_dir);
            let i = choose|i: int| 0 <= i < added.len() && added[i] == dir;
            if i < dirs.len() {
                assert(dirs[i] == dir);
            }
            assert(dir == last_dir);
            assert(steps[before.len() as int] == (StepModel::CreateDir { path: last_dir }));
        }
    }
}

/// The chunks of a plan cover the file map: entry `i` lies in chunk
/// `i / CHUNK_SIZE`, at position `i % CHUNK_SIZE`, and the writes of that
/// chunk are the writes of its entries.
pub proof fn chunks_cover_file_map(root: Seq<char>, entries: Seq<EntryPair>, i: int)
    requires
        0 <= i < entries.len(),
    ensures
        0 <= i / 6 < chunked_plan(root, entries).len(),
        0 <= i % 6 < chunk_of(entries, i / 6).len() <= 6,
        chunk_of(entries, i / 6)[i % 6] == entries[i],
        writes_in(chunked_plan(root, entries)[i / 6]) == writes_for(root, chunk_of(entries, i / 6)),
{
    let chunk = chunk_of(entries, i / 6);
    plan_writes_each_entry_once(root, chunk, chunk.len() as int);
    assert(chunk.take(chunk.len() as int) =~= chunk);
}

/// Every write of a chunk is the write of one entry of the file map:
/// write `k` of chunk `c` is that of entry `6 c + k`.
pub proof fn chunk_writes_are_entries(root: Seq<char>, entries: Seq<EntryPair>, c: int, k: int)
    requires
        0 <= c < chunked_plan(root, entries).len(),
        0 <= k < writes_in(chunked_plan(root, entries)[c]).len(),
    ensures
        0 <= 6 * c + k < entries.len(),
        writes_in(chunked_plan(root, entries)[c])[k] == write_of(root, entries[6 * c + k]),
{
    let chunk = chunk_of(entries, c);
    plan_writes_each_entry_once(root, chunk, chunk.len() as int);
    assert(chunk.take(chunk.len() as int) =~= chunk);
}

/// Whether the plan for `entries` below `root` holds the step `write`, as
/// a write of one of its chunks.
pub open spec fn is_written(root: Seq<char>, entries: Seq<EntryPair>, write: StepModel) -> bool {
    exists|c: int, k: int|
        0 <= c < chunked_plan(root, entries).len() && 0 <= k < writes_in(
            chunked_plan(root, entries)[c],
        ).len() && #[trigger] writes_in(chunked_plan(root, entries)[c])[k] == write
}

/// A plan writes the entries of its file map and nothing else.
pub proof fn plan_writes_the_file_map(root: Seq<char>, entries: Seq<EntryPair>, write: StepModel)
    ensures
        is_written(root, entries, write) <==> exists|i: int|
            0 <= i < entries.len() && write_of(root, #[trigger] entries[i]) == write,
{
    if is_written(root, entries, write) {
        let (c, k) = choose|c: int, k: int|
            0 <= c < chunked_plan(root, entries).len() && 0 <= k < writes_in(
                chunked_plan(root, entries)[c],
            ).len() && #[trigger] writes_in(chunked_plan(root, entries)[c])[k] == write;
        chunk_writes_are_entries(root, entries, c, k);
        assert(write_of(root, entries[6 * c + k]) == write);
    }
    if exists|i: int| 0 <= i < entries.len() && write_of(root, #[trigger] entries[i]) == write {
        let i = choose|i: int|
            0 <= i < entries.len() && write_of(root, #[trigger] entries[i]) == write;
        chunks_cover_file_map(root, entries, i);
        let c = i / 6;
        let k = i % 6;
        assert(writes_in(chunked_plan(root, entries)[c])[k] == write);
    }
}

/// What a plan writes depends on the mapping of its file map alone: two
/// file maps without repeated paths that spell out one mapping give plans
/// with the same writes, in whatever order their entries come.
pub proof fn plans_of_one_mapping_write_the_same(
    root: Seq<char>,
    first: Seq<EntryPair>,
    second: Seq<EntryPair>,
    write: StepModel,
)
    requires
        paths_distinct(first),
        paths_distinct(second),
        lookup(first) == lookup(second),
    ensures
        is_written(root, first, write) <==> is_written(root, second, write),
{
    same_mapping_same_entries(first, second);
    plan_writes_the_file_map(root, first, write);
    plan_writes_the_file_map(root, second, write);
    if exists|i: int| 0 <= i < first.len() && write_of(root, #[trigger] first[i]) == write {
        let i = choose|i: int|
            0 <= i < first.len() && write_of(root, #[trigger] first[i]) == write;
        assert(first.contains(first[i]));
        let j = choose|j: int| 0 <= j < second.len() && second[j] == first[i];
        assert(write_of(root, second[j]) == write);
    }
    if exists|i: int| 0 <= i < second.len() && write_of(root, #[trigger] second[i]) == write {
        let i = choose|i: int|
            0 <= i < second.len() && write_of(root, #[trigger] second[i]) == write;
        assert(second.contains(second[i]));
        let j = choose|j: int| 0 <= j < first.len() && first[j] == second[i];
        assert(write_of(root, first[j]) == write);
    }
}

} // verus!
