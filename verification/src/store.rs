//! What goes into the content-addressed store for a package: its blobs,
//! each once, and the key of its file map.

use vstd::prelude::*;
use crate::extract::{
    blob_digest, extracted, file_of, files_are_sound, files_view, ExtractedFile, FileModel,
};
use crate::tar::{entries_of, EntryModel};
use crate::errors::{ErrorModel, InstallError};
use crate::text::text_eq;

verus! {

/// A blob to write to the store: the digest that addresses it, and where
/// its contents lie in the package's tar stream.
#[derive(Debug, PartialEq, Eq)]
pub struct Blob {
    pub digest: String,
    pub start: usize,
    pub size: usize,
}

/// The mathematical value of a [`Blob`].
pub struct BlobModel {
    pub digest: Seq<char>,
    pub start: int,
    pub size: int,
}

impl View for Blob {
    type V = BlobModel;

    open spec fn view(&self) -> BlobModel {
        BlobModel { digest: self.digest@, start: self.start as int, size: self.size as int }
    }
}

/// The views of a list of blobs, in order.
pub open spec fn blobs_view(list: Seq<Blob>) -> Seq<BlobModel> {
    list.map_values(|b: Blob| b@)
}

/// Whether a list of blobs holds one with the digest `digest`.
pub open spec fn has_digest(blobs: Seq<BlobModel>, digest: Seq<char>) -> bool {
    exists|i: int| 0 <= i < blobs.len() && (#[trigger] blobs[i]).digest == digest
}

/// The blobs of the first `n` files: one for each digest, taken from the
/// first file that has it.
pub open spec fn blobs_upto(files: Seq<FileModel>, n: int) -> Seq<BlobModel>
    decreases n,
{
    if n <= 0 {
        Seq::empty()
    } else {
        let before = blobs_upto(files, n - 1);
        let file = files[n - 1];
        if has_digest(before, file.digest) {
            before
        } else {
            before.push(BlobModel { digest: file.digest, start: file.start, size: file.size })
        }
    }
}

/// The blobs to write for a list of files.
pub open spec fn blobs_of(files: Seq<FileModel>) -> Seq<BlobModel> {
    blobs_upto(files, files.len() as int)
}

/// Whether `blobs` holds a blob with the digest `digest`.
fn holds_digest(blobs: &Vec<Blob>, digest: &str) -> (r: bool)
    ensures
        r == has_digest(blobs_view(blobs@), digest@),
{
    let mut i: usize = 0;
    while i < blobs.len()
        invariant
            i <= blobs.len(),
            forall|k: int| 0 <= k < i ==> (#[trigger] blobs_view(blobs@)[k]).digest != digest@,
        decreases blobs.len() - i,
    {
        if text_eq(blobs[i].digest.as_str(), digest) {
            assert(blobs_view(blobs@)[i as int].digest == digest@);
            return true;
        }
        i = i + 1;
    }
    false
}

/// The blobs to write to the store for the files of a package: one blob
/// for each digest that occurs, in the order in which the digests first
/// occur. Files with the same digest share one blob.
pub fn unique_blobs(files: &Vec<ExtractedFile>) -> (blobs: Vec<Blob>)
    ensures
        blobs_view(blobs@) == blobs_of(files_view(files@)),
{
    let ghost all = files_view(files@);
    let mut blobs: Vec<Blob> = Vec::new();
    assert(blobs_view(blobs@) =~= Seq::empty());
    let mut i: usize = 0;
    while i < files.len()
        invariant
            i <= files.len(),
            all == files_view(files@),
            blobs_view(blobs@) == blobs_upto(all, i as int),
        decreases files.len() - i,
    {
        let file = &files[i];
        assert(all[i as int] == file@);
        if !holds_digest(&blobs, file.digest.as_str()) {
            let ghost before = blobs_view(blobs@);
            let blob = Blob { digest: file.digest.clone(), start: file.start, size: file.size };
            blobs.push(blob);
            assert(blobs_view(blobs@) =~= before.push(blob@));
        }
        i = i + 1;
    }
    blobs
}

/// Holds the digest under which the store has written a blob against the
/// digest that was planned for it. A blob that the store addresses
/// otherwise than planned could not be found again: that is an error of
/// the store.
pub fn confirm_blob(blob: &Blob, written: &str) -> (r: Result<(), InstallError>)
    ensures
        written@ == blob.digest@ ==> r is Ok,
        written@ != blob.digest@ ==> r is Err && r->Err_0@ == ErrorModel::Cas,
{
    if text_eq(written, blob.digest.as_str()) {
        Ok(())
    } else {
        Err(InstallError::Cas)
    }
}

/// No two blobs of a list of files have the same digest, and the digest of
/// every file is the digest of one of the blobs.
pub proof fn blobs_are_unique(files: Seq<FileModel>, n: int)
    requires
        0 <= n <= files.len(),
    ensures
        forall|i: int, j: int|
            0 <= i < j < blobs_upto(files, n).len() ==> (#[trigger] blobs_upto(files, n)[i]).digest
                != (#[trigger] blobs_upto(files, n)[j]).digest,
        forall|k: int|
            0 <= k < n ==> has_digest(blobs_upto(files, n), (#[trigger] files[k]).digest),
    decreases n,
{
    if n > 0 {
        blobs_are_unique(files, n - 1);
        let before = blobs_upto(files, n - 1);
        let after = blobs_upto(files, n);
        let file = files[n - 1];
        if has_digest(before, file.digest) {
            assert(after == before);
        } else {
            let blob = BlobModel { digest: file.digest, start: file.start, size: file.size };
            assert(after == before.push(blob));
            assert(after[before.len() as int].digest == file.digest);
            assert forall|k: int| 0 <= k < n implies has_digest(
                after,
                (#[trigger] files[k]).digest,
            ) by {
                if k < n - 1 {
                    let i = choose|i: int|
                        0 <= i < before.len() && (#[trigger] before[i]).digest == files[k].digest;
                    assert(after[i].digest == files[k].digest);
                }
            }
            assert forall|i: int, j: int| 0 <= i < j < after.len() implies (#[trigger] after[
                i
            ]).digest != (#[trigger] after[j]).digest by {
                if j == before.len() {
                    assert(before[i].digest != file.digest);
                } else {
                    assert(before[i].digest != before[j].digest);
                }
            }
        }
    }
}

/// Whether every file is listed with the digest of the bytes it has in `archive`.
pub open spec fn digests_are_of_contents(archive: Seq<u8>, files: Seq<FileModel>) -> bool {
    forall|i: int|
        0 <= i < files.len() ==> (#[trigger] files[i]).digest == blob_digest(
            archive.subrange(files[i].start, files[i].start + files[i].size),
        )
}

/// The bytes of `archive` that a blob holds.
pub open spec fn blob_bytes(archive: Seq<u8>, blob: BlobModel) -> Seq<u8> {
    archive.subrange(blob.start, blob.start + blob.size)
}

/// Every blob is addressed by the digest of the bytes it holds.
pub proof fn blobs_hold_what_they_address(archive: Seq<u8>, files: Seq<FileModel>, n: int)
    requires
        digests_are_of_contents(archive, files),
        0 <= n <= files.len(),
    ensures
        forall|k: int|
            0 <= k < blobs_upto(files, n).len() ==> (#[trigger] blobs_upto(files, n)[k]).digest
                == blob_digest(blob_bytes(archive, blobs_upto(files, n)[k])),
    decreases n,
{
    if n > 0 {
        blobs_hold_what_they_address(archive, files, n - 1);
        let before = blobs_upto(files, n - 1);
        let after = blobs_upto(files, n);
        let file = files[n - 1];
        assert forall|k: int| 0 <= k < after.len() implies (#[trigger] after[k]).digest
            == blob_digest(blob_bytes(archive, after[k])) by {
            if k < before.len() {
                assert(after[k] == before[k]);
            } else {
                assert(after[k] == BlobModel {
                    digest: file.digest,
                    start: file.start,
                    size: file.size,
                });
            }
        }
    }
}

/// The store is asked to keep the bytes of a package's files once each: of
/// the blobs of an accepted archive, no two hold the same bytes, and every
/// file of the archive has its digest among them.
pub proof fn each_content_is_stored_once(archive: Seq<u8>, i: int, j: int)
    requires
        extracted(archive) is Some,
        0 <= i < j < blobs_of(extracted(archive)->0).len(),
    ensures
        ({
            let blobs = blobs_of(extracted(archive)->0);
            blob_bytes(archive, blobs[i]) != blob_bytes(archive, blobs[j])
        }),
        forall|k: int|
            0 <= k < extracted(archive)->0.len() ==> has_digest(
                blobs_of(extracted(archive)->0),
                (#[trigger] extracted(archive)->0[k]).digest,
            ),
{
    let files = extracted(archive)->0;
    let listed = entries_of(archive)->0;
    files_are_sound(archive, listed, listed.len() as int);
    blobs_hold_what_they_address(archive, files, files.len() as int);
    blobs_are_unique(files, files.len() as int);
}

/// The digest of a file depends on its contents alone: two regular entries
/// with the same bytes, in one archive or in two, get the same digest, and
/// so address the same blob of the store.
pub proof fn same_contents_share_a_blob(
    first_archive: Seq<u8>,
    first: EntryModel,
    second_archive: Seq<u8>,
    second: EntryModel,
)
    requires
        file_of(first_archive, first) is Some,
        file_of(second_archive, second) is Some,
        first_archive.subrange(first.start, first.start + first.size) == second_archive.subrange(
            second.start,
            second.start + second.size,
        ),
    ensures
        file_of(first_archive, first)->0.digest == file_of(second_archive, second)->0.digest,
{
}

} // verus!
