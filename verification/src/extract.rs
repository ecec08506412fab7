//! From the entries of a package's tar stream to the files that the store
//! keeps: which entries count, under which path, and with which digest.

use vstd::prelude::*;
use vstd::slice::slice_subrange;
use vstd::utf8::{decode_utf8, valid_utf8};
use crate::errors::{ErrorModel, InstallError};
use crate::integrity::{calc_hash, sri_digest, HashAlgorithm};
use crate::tar::{
    entries_from, entries_of, entries_view, header_at, list_entries, padded, EntryModel,
    HeaderModel, TarEntry,
};
use crate::text::{chars_of, starts_with, string_of, text_eq, utf8_text};

verus! {

/// What the extractor does with an entry of a given type.
#[derive(Clone, Copy, Debug, PartialEq, Eq, Structural)]
pub enum EntryClass {
    /// A regular file: it is kept.
    File,
    /// A directory or a global header: it is passed over.
    Skipped,
    /// Anything else, such as a link or a device: the stream is refused.
    Refused,
}

/// The class of an entry with the type flag `kind`. The flags `0`, zero
/// and `7` mark regular files, `5` a directory and `g` a global header.
/// A global header holds nothing that the files of a package need, so it
/// is passed over. A header that extends the entry after it (`x`, or a
/// long name) is refused like a link: passing it over would keep the next
/// file under a path that is not its own.
pub open spec fn class_of(kind: u8) -> EntryClass {
    if kind == 48 || kind == 0 || kind == 55 {
        EntryClass::File
    } else if kind == 53 || kind == 103 {
        EntryClass::Skipped
    } else {
        EntryClass::Refused
    }
}

/// A path without the directory `package/` that the archives of packages
/// put in front of every entry.
pub open spec fn strip_package(path: Seq<char>) -> Seq<char> {
    if "package/"@.is_prefix_of(path) {
        path.skip("package/"@.len() as int)
    } else {
        path
    }
}

/// Whether the component of `path` that begins at `i` is `..`.
pub open spec fn is_parent_at(path: Seq<char>, i: int) -> bool {
    &&& 0 <= i
    &&& i + 2 <= path.len()
    &&& path[i] == '.'
    &&& path[i + 1] == '.'
    &&& (i == 0 || path[i - 1] == '/')
    &&& (i + 2 == path.len() || path[i + 2] == '/')
}

/// Whether some component of `path` is `..`.
pub open spec fn has_parent_component(path: Seq<char>) -> bool {
    exists|i: int| is_parent_at(path, i)
}

/// Whether a relative path stays below the directory it is resolved in:
/// it is not empty, does not begin with a slash and has no component `..`.
pub open spec fn is_safe_path(path: Seq<char>) -> bool {
    &&& path.len() > 0
    &&& path[0] != '/'
    &&& !has_parent_component(path)
}

/// The path under which an entry named `raw` is kept, where it is safe.
pub open spec fn sanitized(raw: Seq<char>) -> Option<Seq<char>> {
    let path = strip_package(raw);
    if is_safe_path(path) {
        Some(path)
    } else {
        None
    }
}

/// A file of a package: its path below the package's root, the digest of
/// its contents, and where the contents lie in the tar stream.
#[derive(Debug, PartialEq, Eq)]
pub struct ExtractedFile {
    pub path: String,
    pub digest: String,
    pub start: usize,
    pub size: usize,
}

/// The mathematical value of an [`ExtractedFile`].
pub struct FileModel {
    pub path: Seq<char>,
    pub digest: Seq<char>,
    pub start: int,
    pub size: int,
}

impl View for ExtractedFile {
    type V = FileModel;

    open spec fn view(&self) -> FileModel {
        FileModel {
            path: self.path@,
            digest: self.digest@,
            start: self.start as int,
            size: self.size as int,
        }
    }
}

/// The views of a list of files, in order.
pub open spec fn files_view(list: Seq<ExtractedFile>) -> Seq<FileModel> {
    list.map_values(|f: ExtractedFile| f@)
}

/// The digest under which the store keeps a file with the given contents.
pub open spec fn blob_digest(contents: Seq<u8>) -> Seq<char> {
    sri_digest(HashAlgorithm::Sha256, contents)
}

/// The file that a regular entry of `archive` stands for: none where its
/// name is not valid UTF-8 or its path is not safe.
pub open spec fn file_of(archive: Seq<u8>, entry: EntryModel) -> Option<FileModel> {
    if valid_utf8(entry.name) {
        match sanitized(decode_utf8(entry.name)) {
            Some(path) => Some(
                FileModel {
                    path,
                    digest: blob_digest(archive.subrange(entry.start, entry.start + entry.size)),
                    start: entry.start,
                    size: entry.size,
                },
            ),
            None => None,
        }
    } else {
        None
    }
}

/// Whether one of `files` lies under `path`.
pub open spec fn has_path(files: Seq<FileModel>, path: Seq<char>) -> bool {
    exists|i: int| 0 <= i < files.len() && (#[trigger] files[i]).path == path
}

/// Whether no two of `files` lie under one path.
pub open spec fn file_paths_distinct(files: Seq<FileModel>) -> bool {
    forall|i: int, j: int|
        0 <= i < j < files.len() ==> (#[trigger] files[i]).path != (#[trigger] files[j]).path
}

/// The files among the first `n` entries, in order: none at all where one
/// of these entries is refused or stands for no file, or where two of them
/// stand for files under one path.
pub open spec fn files_of(archive: Seq<u8>, entries: Seq<EntryModel>, n: int) -> Option<
    Seq<FileModel>,
>
    decreases n,
{
    if n <= 0 {
        Some(Seq::empty())
    } else {
        match files_of(archive, entries, n - 1) {
            None => None,
            Some(files) => match class_of(entries[n - 1].kind) {
                EntryClass::Skipped => Some(files),
                EntryClass::Refused => None,
                EntryClass::File => match file_of(archive, entries[n - 1]) {
                    Some(file) => if has_path(files, file.path) {
                        None
                    } else {
                        Some(files.push(file))
                    },
                    None => None,
                },
            },
        }
    }
}

/// The files of the package whose tar stream is `archive`.
pub open spec fn extracted(archive: Seq<u8>) -> Option<Seq<FileModel>> {
    match entries_of(archive) {
        Some(entries) => files_of(archive, entries, entries.len() as int),
        None => None,
    }
}

/// The data of every entry of a well-formed stream lies inside the stream.
pub proof fn entries_lie_in_stream(archive: Seq<u8>, pos: int)
    requires
        entries_from(archive, pos) is Some,
    ensures
        forall|k: int|
            0 <= k < entries_from(archive, pos)->0.len() ==> {
                let e = #[trigger] entries_from(archive, pos)->0[k];
                0 <= e.start && 0 <= e.size && e.start + e.size <= archive.len()
            },
    decreases archive.len() - pos,
{
    if pos < archive.len() {
        match header_at(archive, pos) {
            HeaderModel::Entry(e) => {
                let next = e.start + padded(e.size);
                entries_lie_in_stream(archive, next);
                let rest = entries_from(archive, next)->0;
                let all = entries_from(archive, pos)->0;
                assert(all == seq![e] + rest);
                assert forall|k: int| 0 <= k < all.len() implies {
                    let x = #[trigger] all[k];
                    0 <= x.start && 0 <= x.size && x.start + x.size <= archive.len()
                } by {
                    if k > 0 {
                        assert(all[k] == rest[k - 1]);
                    }
                }
            },
            _ => {},
        }
    }
}

/// The class of an entry with the type flag `kind`.
pub fn classify(kind: u8) -> (class: EntryClass)
    ensures
        class == class_of(kind),
{
    if kind == 48 || kind == 0 || kind == 55 {
        EntryClass::File
    } else if kind == 53 || kind == 103 {
        EntryClass::Skipped
    } else {
        EntryClass::Refused
    }
}

/// Whether the component of `path` that begins at `i` is `..`.
fn parent_at(path: &Vec<char>, i: usize) -> (r: bool)
    requires
        i < path.len(),
    ensures
        r == is_parent_at(path@, i as int),
{
    let n = path.len();
    if n - i < 2 {
        return false;
    }
    path[i] == '.' && path[i + 1] == '.' && (i == 0 || path[i - 1] == '/') && (n - i == 2
        || path[i + 2] == '/')
}

/// Whether a relative path stays below the directory it is resolved in.
pub fn path_is_safe(path: &str) -> (r: bool)
    ensures
        r == is_safe_path(path@),
{
    let chars = chars_of(path);
    if chars.len() == 0 {
        return false;
    }
    if chars[0] == '/' {
        return false;
    }
    let mut i: usize = 0;
    while i < chars.len()
        invariant
            i <= chars.len(),
            chars@ == path@,
            forall|k: int| 0 <= k < i ==> !is_parent_at(chars@, k),
        decreases chars.len() - i,
    {
        if parent_at(&chars, i) {
            return false;
        }
        i = i + 1;
    }
    true
}

/// The path under which an entry named `raw` is kept: `raw` without a
/// leading `package/`. There is none where what remains is empty, begins
/// with a slash or has a component `..`.
pub fn sanitize_path(raw: &str) -> (path: Option<String>)
    ensures
        match path {
            Some(p) => sanitized(raw@) == Some(p@),
            None => sanitized(raw@) is None,
        },
{
    let chars = chars_of(raw);
    let skip = if starts_with(raw, "package/") {
        "package/".unicode_len()
    } else {
        0
    };
    let kept = string_of(&chars, skip, chars.len());
    assert(kept@ =~= strip_package(raw@));
    if path_is_safe(kept.as_str()) {
        Some(kept)
    } else {
        None
    }
}

/// The file that the regular entry `entry` of `archive` stands for.
pub fn extract_file(archive: &[u8], entry: &TarEntry) -> (file: Option<ExtractedFile>)
    requires
        entry.start + entry.size <= archive@.len(),
    ensures
        match file {
            Some(f) => file_of(archive@, entry@) == Some(f@),
            None => file_of(archive@, entry@) is None,
        },
{
    broadcast use vstd::utf8::encode_utf8_decode_utf8, vstd::utf8::encode_utf8_valid_utf8;

    let name = match utf8_text(entry.name.as_slice()) {
        Some(name) => name,
        None => {
            return None;
        },
    };
    let path = match sanitize_path(name.as_str()) {
        Some(path) => path,
        None => {
            return None;
        },
    };
    // Reading the length tells that it, and so the end of the contents, fits in `usize`.
    let len = archive.len();
    let contents = slice_subrange(archive, entry.start, entry.start + entry.size);
    let digest = calc_hash(contents, HashAlgorithm::Sha256);
    Some(ExtractedFile { path, digest, start: entry.start, size: entry.size })
}

/// Whether one of `files` lies under `path`.
fn holds_path(files: &Vec<ExtractedFile>, path: &str) -> (r: bool)
    ensures
        r == has_path(files_view(files@), path@),
{
    let mut i: usize = 0;
    while i < files.len()
        invariant
            i <= files.len(),
            forall|k: int| 0 <= k < i ==> (#[trigger] files_view(files@)[k]).path != path@,
        decreases files.len() - i,
    {
        if text_eq(files[i].path.as_str(), path) {
            assert(files_view(files@)[i as int].path == path@);
            return true;
        }
        i = i + 1;
    }
    false
}

/// The files of a package, from its tar stream. Every regular file of the
/// stream gives one file, in the order of the stream, under its sanitized
/// path and with the digest of its contents. Directories and global
/// headers are passed over. The stream is refused with a tar error where
/// it is malformed, where it holds an entry of another type (a symbolic
/// link among them), where the name of a regular file is not valid UTF-8
/// or its path is not safe, and where two regular files have one path.
pub fn extract_tarball(archive: &[u8]) -> (r: Result<Vec<ExtractedFile>, InstallError>)
    ensures
        match extracted(archive@) {
            Some(files) => r is Ok && files_view(r->Ok_0@) == files,
            None => r is Err && r->Err_0@ == ErrorModel::Tar,
        },
{
    let entries = match list_entries(archive) {
        Some(entries) => entries,
        None => {
            return Err(InstallError::Tar);
        },
    };
    proof {
        entries_lie_in_stream(archive@, 0);
    }
    let ghost all = entries_view(entries@);
    let mut files: Vec<ExtractedFile> = Vec::new();
    assert(files_view(files@) =~= Seq::empty());
    let mut i: usize = 0;
    while i < entries.len()
        invariant
            i <= entries.len(),
            all == entries_view(entries@),
            entries_of(archive@) == Some(all),
            forall|k: int|
                0 <= k < all.len() ==> {
                    let e = #[trigger] all[k];
                    0 <= e.start && 0 <= e.size && e.start + e.size <= archive@.len()
                },
            files_of(archive@, all, i as int) == Some(files_view(files@)),
        decreases entries.len() - i,
    {
        let entry = &entries[i];
        assert(all[i as int] == entry@);
        match classify(entry.kind) {
            EntryClass::Skipped => {},
            EntryClass::Refused => {
                assert(files_of(archive@, all, i + 1) is None);
                proof {
                    refusal_is_final(archive@, all, i + 1, all.len() as int);
                }
                return Err(InstallError::Tar);
            },
            EntryClass::File => {
                match extract_file(archive, entry) {
                    Some(file) => {
                        if holds_path(&files, file.path.as_str()) {
                            assert(files_of(archive@, all, i + 1) is None);
                            proof {
                                refusal_is_final(archive@, all, i + 1, all.len() as int);
                            }
                            return Err(InstallError::Tar);
                        }
                        let ghost before = files_view(files@);
                        files.push(file);
                        assert(files_view(files@) =~= before.push(file@));
                    },
                    None => {
                        assert(files_of(archive@, all, i + 1) is None);
                        proof {
                            refusal_is_final(archive@, all, i + 1, all.len() as int);
                        }
                        return Err(InstallError::Tar);
                    },
                }
            },
        }
        i = i + 1;
    }
    Ok(files)
}

/// Once the first `n` entries give no list of files, no longer run of
/// entries gives one.
proof fn refusal_is_final(archive: Seq<u8>, entries: Seq<EntryModel>, n: int, m: int)
    requires
        0 <= n <= m,
        files_of(archive, entries, n) is None,
    ensures
        files_of(archive, entries, m) is None,
    decreases m - n,
{
    if n < m {
        refusal_is_final(archive, entries, n, m - 1);
    }
}

/// Every file that the first `n` entries give has a safe path, and its
/// digest is the digest of the bytes that its entry has in the archive.
/// No two of the files have the same path.
pub proof fn files_are_sound(archive: Seq<u8>, entries: Seq<EntryModel>, n: int)
    requires
        files_of(archive, entries, n) is Some,
    ensures
        forall|i: int|
            0 <= i < files_of(archive, entries, n)->0.len() ==> {
                let f = #[trigger] files_of(archive, entries, n)->0[i];
                &&& is_safe_path(f.path)
                &&& f.digest == blob_digest(archive.subrange(f.start, f.start + f.size))
            },
        file_paths_distinct(files_of(archive, entries, n)->0),
    decreases n,
{
    if n > 0 {
        files_are_sound(archive, entries, n - 1);
        let before = files_of(archive, entries, n - 1)->0;
        let after = files_of(archive, entries, n)->0;
        if after != before {
            let file = file_of(archive, entries[n - 1])->0;
            assert(after == before.push(file));
            assert forall|i: int, j: int| 0 <= i < j < after.len() implies (#[trigger] after[
                i
            ]).path != (#[trigger] after[j]).path by {
                if j < before.len() {
                    assert(before[i].path != before[j].path);
                } else {
                    assert(after[i] == before[i]);
                }
            }
        }
    }
}

} // verus!
