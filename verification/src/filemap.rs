//! The file map of a package: which file lies under which path, by the
//! digest of its contents, and the form in which the store keeps it.

use vstd::prelude::*;
use crate::errors::{ErrorModel, InstallError};
use crate::extract::{
    file_paths_distinct, files_view, is_safe_path, path_is_safe, ExtractedFile, FileModel,
};
use crate::text::text_eq;

verus! {

/// One entry of a file map: a path below the package's root, and the
/// digest of the file's contents.
#[derive(Debug, PartialEq, Eq)]
pub struct FileEntry {
    pub path: String,
    pub digest: String,
}

/// A path and a digest, as a mathematical value.
pub type EntryPair = (Seq<char>, Seq<char>);

impl View for FileEntry {
    type V = EntryPair;

    open spec fn view(&self) -> EntryPair {
        (self.path@, self.digest@)
    }
}

/// The views of the entries of a file map, in order.
pub open spec fn file_map_view(list: Seq<FileEntry>) -> Seq<EntryPair> {
    list.map_values(|e: FileEntry| e@)
}

/// The entries that a list of extracted files gives, in order.
pub open spec fn entries_of_files(files: Seq<FileModel>) -> Seq<EntryPair> {
    files.map_values(|f: FileModel| (f.path, f.digest))
}

/// Whether no path occurs twice in a list of entries.
pub open spec fn paths_distinct(entries: Seq<EntryPair>) -> bool {
    forall|i: int, j: int|
        0 <= i < j < entries.len() ==> (#[trigger] entries[i]).0 != (#[trigger] entries[j]).0
}

/// Whether every path of a list of entries is safe.
pub open spec fn paths_safe(entries: Seq<EntryPair>) -> bool {
    forall|i: int| 0 <= i < entries.len() ==> is_safe_path((#[trigger] entries[i]).0)
}

/// The mapping from paths to digests that a list of entries spells out.
pub open spec fn lookup(entries: Seq<EntryPair>) -> Map<Seq<char>, Seq<char>> {
    Map::new(
        |path: Seq<char>|
            exists|i: int| 0 <= i < entries.len() && (#[trigger] entries[i]).0 == path,
        |path: Seq<char>|
            entries[choose|i: int| 0 <= i < entries.len() && (#[trigger] entries[i]).0 == path].1,
    )
}

/// Whether every path that a mapping knows is safe.
pub open spec fn map_paths_safe(map: Map<Seq<char>, Seq<char>>) -> bool {
    forall|path: Seq<char>| #[trigger] map.contains_key(path) ==> is_safe_path(path)
}

/// Whether a list of entries holds only safe paths depends on the mapping
/// it spells out alone, not on its order.
pub proof fn safety_depends_on_the_mapping(entries: Seq<EntryPair>)
    ensures
        paths_safe(entries) == map_paths_safe(lookup(entries)),
{
    let map = lookup(entries);
    if paths_safe(entries) {
        assert forall|path: Seq<char>| #[trigger] map.contains_key(path) implies is_safe_path(
            path,
        ) by {
            let i = choose|i: int| 0 <= i < entries.len() && (#[trigger] entries[i]).0 == path;
            assert(is_safe_path(entries[i].0));
        }
    }
    if map_paths_safe(map) {
        assert forall|i: int| 0 <= i < entries.len() implies is_safe_path(
            (#[trigger] entries[i]).0,
        ) by {
            assert(map.contains_key(entries[i].0));
        }
    }
}

/// In a list without repeated paths, the mapping gives every path the
/// digest that the list gives it.
pub proof fn lookup_finds_entries(entries: Seq<EntryPair>, i: int)
    requires
        paths_distinct(entries),
        0 <= i < entries.len(),
    ensures
        lookup(entries).contains_key(entries[i].0),
        lookup(entries)[entries[i].0] == entries[i].1,
{
    let path = entries[i].0;
    let k = choose|k: int| 0 <= k < entries.len() && (#[trigger] entries[k]).0 == path;
    if k < i {
        assert(entries[k].0 != entries[i].0);
    }
    if i < k {
        assert(entries[i].0 != entries[k].0);
    }
}

/// Two lists without repeated paths that spell out one mapping hold the
/// same entries, whatever their order.
pub proof fn same_mapping_same_entries(first: Seq<EntryPair>, second: Seq<EntryPair>)
    requires
        paths_distinct(first),
        paths_distinct(second),
        lookup(first) == lookup(second),
    ensures
        forall|entry: EntryPair| first.contains(entry) <==> second.contains(entry),
{
    assert forall|entry: EntryPair| first.contains(entry) implies second.contains(entry) by {
        one_mapping_one_entry(first, second, entry);
    }
    assert forall|entry: EntryPair| second.contains(entry) implies first.contains(entry) by {
        one_mapping_one_entry(second, first, entry);
    }
}

/// Whether two lists hold the same entries, in whatever order.
pub open spec fn same_entries(first: Seq<EntryPair>, second: Seq<EntryPair>) -> bool {
    forall|entry: EntryPair| first.contains(entry) <==> second.contains(entry)
}

/// Two lists without repeated paths spell out one mapping exactly when
/// they hold the same entries.
pub proof fn same_entries_same_mapping(first: Seq<EntryPair>, second: Seq<EntryPair>)
    requires
        paths_distinct(first),
        paths_distinct(second),
    ensures
        same_entries(first, second) <==> lookup(first) == lookup(second),
{
    if lookup(first) == lookup(second) {
        same_mapping_same_entries(first, second);
    }
    if same_entries(first, second) {
        let a = lookup(first);
        let b = lookup(second);
        assert forall|path: Seq<char>| #[trigger] a.dom().contains(path) implies b.dom().contains(
            path,
        ) && a[path] == b[path] by {
            let i = choose|i: int| 0 <= i < first.len() && (#[trigger] first[i]).0 == path;
            lookup_finds_entries(first, i);
            assert(first.contains(first[i]));
            let j = choose|j: int| 0 <= j < second.len() && second[j] == first[i];
            lookup_finds_entries(second, j);
        }
        assert forall|path: Seq<char>| #[trigger] b.dom().contains(path) implies a.dom().contains(
            path,
        ) by {
            let j = choose|j: int| 0 <= j < second.len() && (#[trigger] second[j]).0 == path;
            assert(second.contains(second[j]));
            let i = choose|i: int| 0 <= i < first.len() && first[i] == second[j];
            lookup_finds_entries(first, i);
        }
        assert(a.dom() =~= b.dom());
        assert(a =~= b);
    }
}

proof fn one_mapping_one_entry(first: Seq<EntryPair>, second: Seq<EntryPair>, entry: EntryPair)
    requires
        paths_distinct(first),
        paths_distinct(second),
        lookup(first) == lookup(second),
        first.contains(entry),
    ensures
        second.contains(entry),
{
    let i = choose|i: int| 0 <= i < first.len() && first[i] == entry;
    lookup_finds_entries(first, i);
    assert(lookup(second).contains_key(entry.0));
    let j = choose|j: int| 0 <= j < second.len() && (#[trigger] second[j]).0 == entry.0;
    lookup_finds_entries(second, j);
    assert(second[j] == entry);
}

/// The error of `serde_json`'s functions.
#[verifier::external_type_specification]
#[verifier::external_body]
pub struct ExJsonError(serde_json::Error);

/// The JSON text that `serde_json` writes for a list of entries with
/// distinct paths: one object from paths to digests, with the paths in
/// ascending order.
pub uninterp spec fn file_map_json(entries: Seq<EntryPair>) -> Option<Seq<u8>>;

/// The mapping from paths to digests that `serde_json` and `ssri` read from
/// a JSON text, where it is an object whose values are integrity strings.
pub uninterp spec fn json_file_map(bytes: Seq<u8>) -> Option<Map<Seq<char>, Seq<char>>>;

/// Writes a file map as JSON with `serde_json::to_vec`, as one object from
/// paths to digests. The entries, whose paths are distinct, go through an
/// ordered map, so the text depends on the entries alone.
#[verifier::external_body]
fn to_json(entries: &Vec<FileEntry>) -> (r: Result<Vec<u8>, serde_json::Error>)
    requires
        paths_distinct(file_map_view(entries@)),
    ensures
        match r {
            Ok(bytes) => file_map_json(file_map_view(entries@)) == Some(bytes@),
            Err(_) => file_map_json(file_map_view(entries@)) is None,
        },
{
    let map: std::collections::BTreeMap<&str, &str> = entries.iter().map(
        |e| (e.path.as_str(), e.digest.as_str()),
    ).collect();
    serde_json::to_vec(&map)
}

/// Reads a file map from JSON with `serde_json::from_slice`, as a hash map
/// from paths to `ssri::Integrity` values, and lists its entries with each
/// integrity printed. No path occurs twice in the list. The order of the
/// list is that of the hash map and is not determined by the text; the
/// mapping it spells out is.
#[verifier::external_body]
fn from_json(bytes: &[u8]) -> (r: Result<Vec<FileEntry>, serde_json::Error>)
    ensures
        match r {
            Ok(list) => paths_distinct(file_map_view(list@)) && json_file_map(bytes@) == Some(
                lookup(file_map_view(list@)),
            ),
            Err(_) => json_file_map(bytes@) is None,
        },
{
    let map: std::collections::HashMap<String, ssri::Integrity> = serde_json::from_slice(bytes)?;
    Ok(map.into_iter().map(|(path, sri)| FileEntry { path, digest: sri.to_string() }).collect())
}

/// The file map of a list of extracted files: one entry for each file, in
/// the same order.
pub fn file_map_of(files: &Vec<ExtractedFile>) -> (entries: Vec<FileEntry>)
    ensures
        file_map_view(entries@) == entries_of_files(files_view(files@)),
{
    let mut entries: Vec<FileEntry> = Vec::new();
    let mut i: usize = 0;
    while i < files.len()
        invariant
            i <= files.len(),
            entries.len() == i,
            forall|k: int|
                0 <= k < i ==> (#[trigger] entries[k])@ == (files[k].path@, files[k].digest@),
        decreases files.len() - i,
    {
        entries.push(FileEntry { path: files[i].path.clone(), digest: files[i].digest.clone() });
        i = i + 1;
    }
    assert(file_map_view(entries@) =~= entries_of_files(files_view(files@)));
    entries
}

/// The entries of files with distinct paths have distinct paths.
pub proof fn distinct_files_give_distinct_entries(files: Seq<FileModel>)
    requires
        file_paths_distinct(files),
    ensures
        paths_distinct(entries_of_files(files)),
{
    let entries = entries_of_files(files);
    assert forall|i: int, j: int| 0 <= i < j < entries.len() implies (#[trigger] entries[i]).0
        != (#[trigger] entries[j]).0 by {
        assert(files[i].path != files[j].path);
    }
}

/// Whether no path occurs twice in a file map.
pub fn has_distinct_paths(entries: &Vec<FileEntry>) -> (r: bool)
    ensures
        r == paths_distinct(file_map_view(entries@)),
{
    let ghost pairs = file_map_view(entries@);
    let mut j: usize = 0;
    while j < entries.len()
        invariant
            j <= entries.len(),
            pairs == file_map_view(entries@),
            forall|a: int, b: int|
                0 <= a < b < j ==> (#[trigger] pairs[a]).0 != (#[trigger] pairs[b]).0,
        decreases entries.len() - j,
    {
        let mut i: usize = 0;
        while i < j
            invariant
                i <= j < entries.len(),
                pairs == file_map_view(entries@),
                forall|a: int| 0 <= a < i ==> (#[trigger] pairs[a]).0 != pairs[j as int].0,
            decreases j - i,
        {
            if text_eq(entries[i].path.as_str(), entries[j].path.as_str()) {
                assert(pairs[i as int].0 == pairs[j as int].0);
                return false;
            }
            i = i + 1;
        }
        j = j + 1;
    }
    true
}

/// Whether `list` holds the entry of `path` and `digest`.
fn holds_entry(list: &Vec<FileEntry>, path: &str, digest: &str) -> (r: bool)
    ensures
        r == file_map_view(list@).contains((path@, digest@)),
{
    let mut i: usize = 0;
    while i < list.len()
        invariant
            i <= list.len(),
            forall|k: int| 0 <= k < i ==> file_map_view(list@)[k] != (path@, digest@),
        decreases list.len() - i,
    {
        if text_eq(list[i].path.as_str(), path) && text_eq(list[i].digest.as_str(), digest) {
            assert(file_map_view(list@)[i as int] == (path@, digest@));
            return true;
        }
        i = i + 1;
    }
    false
}

/// Whether every entry of `first` is an entry of `second`.
fn is_part_of(first: &Vec<FileEntry>, second: &Vec<FileEntry>) -> (r: bool)
    ensures
        r == (forall|entry: EntryPair|
            file_map_view(first@).contains(entry) ==> file_map_view(second@).contains(entry)),
{
    let ghost a = file_map_view(first@);
    let ghost b = file_map_view(second@);
    let mut i: usize = 0;
    while i < first.len()
        invariant
            i <= first.len(),
            a == file_map_view(first@),
            b == file_map_view(second@),
            forall|k: int| 0 <= k < i ==> b.contains(#[trigger] a[k]),
        decreases first.len() - i,
    {
        assert(a[i as int] == (first[i as int].path@, first[i as int].digest@));
        if !holds_entry(second, first[i].path.as_str(), first[i].digest.as_str()) {
            assert(a.contains(a[i as int]));
            return false;
        }
        i = i + 1;
    }
    assert forall|entry: EntryPair| a.contains(entry) implies b.contains(entry) by {
        let k = choose|k: int| 0 <= k < a.len() && a[k] == entry;
        assert(b.contains(a[k]));
    }
    true
}

/// Whether two file maps hold the same entries, in whatever order.
pub fn have_same_entries(first: &Vec<FileEntry>, second: &Vec<FileEntry>) -> (r: bool)
    ensures
        r == same_entries(file_map_view(first@), file_map_view(second@)),
{
    is_part_of(first, second) && is_part_of(second, first)
}

/// Whether every path of a file map is safe.
pub fn all_paths_safe(entries: &Vec<FileEntry>) -> (r: bool)
    ensures
        r == paths_safe(file_map_view(entries@)),
{
    let mut i: usize = 0;
    while i < entries.len()
        invariant
            i <= entries.len(),
            forall|k: int| 0 <= k < i ==> is_safe_path((#[trigger] file_map_view(entries@)[k]).0),
        decreases entries.len() - i,
    {
        if !path_is_safe(entries[i].path.as_str()) {
            assert(!is_safe_path(file_map_view(entries@)[i as int].0));
            return false;
        }
        i = i + 1;
    }
    true
}

/// Decides what a file map read from the store is worth. A text that could
/// not be read, and a map with a path that is not safe, are errors of the
/// store; every other map is handed on as it is.
pub fn admit_file_map(parsed: Result<Vec<FileEntry>, serde_json::Error>) -> (r: Result<
    Vec<FileEntry>,
    InstallError,
>)
    ensures
        match parsed {
            Ok(list) => if paths_safe(file_map_view(list@)) {
                r == Ok::<Vec<FileEntry>, InstallError>(list)
            } else {
                r is Err && r->Err_0@ == ErrorModel::Cas
            },
            Err(_) => r is Err && r->Err_0@ == ErrorModel::Cas,
        },
{
    match parsed {
        Ok(list) => {
            if all_paths_safe(&list) {
                Ok(list)
            } else {
                Err(InstallError::Cas)
            }
        },
        Err(_) => Err(InstallError::Cas),
    }
}

/// Reads the file map that the store keeps for a package. There is a map
/// exactly where the text is a JSON object from paths to integrity strings
/// and every path is safe; it spells out the mapping of the text and holds
/// no path twice. Everything else is an error of the store.
pub fn decode_file_map(bytes: &[u8]) -> (r: Result<Vec<FileEntry>, InstallError>)
    ensures
        match r {
            Ok(list) => {
                &&& json_file_map(bytes@) == Some(lookup(file_map_view(list@)))
                &&& paths_distinct(file_map_view(list@))
                &&& paths_safe(file_map_view(list@))
            },
            Err(e) => e@ == ErrorModel::Cas,
        },
        r is Ok <==> (json_file_map(bytes@) matches Some(map) && map_paths_safe(map)),
{
    let parsed = from_json(bytes);
    proof {
        if parsed is Ok {
            safety_depends_on_the_mapping(file_map_view(parsed->Ok_0@));
        }
    }
    admit_file_map(parsed)
}

/// Decides what a written file map is worth: the text where there is one,
/// an error of the store where there is none.
pub fn admit_json(written: Result<Vec<u8>, serde_json::Error>) -> (r: Result<
    Vec<u8>,
    InstallError,
>)
    ensures
        match written {
            Ok(bytes) => r == Ok::<Vec<u8>, InstallError>(bytes),
            Err(_) => r is Err && r->Err_0@ == ErrorModel::Cas,
        },
{
    match written {
        Ok(bytes) => Ok(bytes),
        Err(_) => Err(InstallError::Cas),
    }
}

/// Writes a file map, which holds no path twice, in the form in which the
/// store keeps it.
pub fn encode_file_map(entries: &Vec<FileEntry>) -> (r: Result<Vec<u8>, InstallError>)
    requires
        paths_distinct(file_map_view(entries@)),
    ensures
        match file_map_json(file_map_view(entries@)) {
            Some(bytes) => r is Ok && r->Ok_0@ == bytes,
            None => r is Err && r->Err_0@ == ErrorModel::Cas,
        },
{
    admit_json(to_json(entries))
}

} // verus!
