//! Decompression of gzip streams into a buffer sized from the stream's trailer.

use vstd::prelude::*;
use crate::errors::{ErrorModel, InstallError};

verus! {

/// The error of `libdeflater`'s decompression functions.
#[verifier::external_type_specification]
#[verifier::external_body]
pub struct ExDecompressionError(libdeflater::DecompressionError);

/// What `libdeflater` yields for the gzip stream `gz` and an output buffer
/// of `capacity` bytes: the decompressed bytes of the stream's first member,
/// or nothing where the stream is invalid or the buffer too small.
pub uninterp spec fn gzip_inflated(gz: Seq<u8>, capacity: nat) -> Option<Seq<u8>>;

/// Decompresses `gz` into `out` with `libdeflater`'s
/// `Decompressor::gzip_decompress`. The buffer keeps its length. On success
/// the call returns how many bytes it wrote, at most the buffer's length,
/// and the buffer begins with the decompressed bytes. The outcome depends
/// on the stream and the buffer's length alone. A fresh decompressor is
/// allocated for the call; like any allocation, that aborts when memory
/// runs out.
#[verifier::external_body]
fn inflate_gzip(gz: &[u8], out: &mut Vec<u8>) -> (written: Result<
    usize,
    libdeflater::DecompressionError,
>)
    ensures
        final(out)@.len() == old(out)@.len(),
        match written {
            Ok(n) => n <= old(out)@.len() && gzip_inflated(gz@, old(out)@.len()) == Some(
                final(out)@.take(n as int),
            ),
            Err(_) => gzip_inflated(gz@, old(out)@.len()) is None,
        },
{
    libdeflater::Decompressor::new().gzip_decompress(gz, out.as_mut_slice())
}

/// The number that the last four bytes of a gzip stream hold, least
/// significant byte first: the length of the decompressed data modulo 2^32.
pub open spec fn trailer_size(gz: Seq<u8>) -> nat
    recommends
        gz.len() >= 4,
{
    let n = gz.len() as int;
    (gz[n - 4] as nat) + 256 * (gz[n - 3] as nat) + 65536 * (gz[n - 2] as nat) + 16777216 * (gz[n
        - 1] as nat)
}

/// What decompression of `gz` gives, given what the decompressor made of
/// the stream with a buffer of the size that the trailer announces: the
/// decompressed bytes where there are exactly as many as announced, and
/// nothing otherwise.
pub open spec fn admitted(size: nat, inflated: Option<Seq<u8>>) -> Option<Seq<u8>> {
    match inflated {
        Some(data) => if data.len() == size {
            Some(data)
        } else {
            None
        },
        None => None,
    }
}

/// The decompressed contents of the gzip stream `gz`, where it has any.
pub open spec fn decompressed(gz: Seq<u8>) -> Option<Seq<u8>> {
    if gz.len() < 4 {
        None
    } else {
        admitted(trailer_size(gz), gzip_inflated(gz, trailer_size(gz)))
    }
}

/// Reads the length of the decompressed data from the trailer of `gz`.
pub fn read_trailer_size(gz: &[u8]) -> (size: Option<u32>)
    ensures
        gz@.len() < 4 ==> size is None,
        gz@.len() >= 4 ==> size == Some(trailer_size(gz@) as u32) && size->0 == trailer_size(gz@),
{
    let n = gz.len();
    if n < 4 {
        return None;
    }
    let b0: u32 = gz[n - 4] as u32;
    let b1: u32 = gz[n - 3] as u32;
    let b2: u32 = gz[n - 2] as u32;
    let b3: u32 = gz[n - 1] as u32;
    let size: u32 = b0 + 256 * b1 + 65536 * b2 + 16777216 * b3;
    Some(size)
}

/// Decides what a finished decompression is worth. `buffer` is the output
/// buffer after the call and `written` what the decompressor returned. The
/// buffer is handed out where the decompressor filled it to the last byte;
/// a failure, or a shorter output, is a decompression error.
pub fn finish_decompress(
    written: Result<usize, libdeflater::DecompressionError>,
    buffer: Vec<u8>,
) -> (r: Result<Vec<u8>, InstallError>)
    ensures
        match written {
            Ok(n) => if n == buffer@.len() {
                r == Ok::<Vec<u8>, InstallError>(buffer)
            } else {
                r is Err && r->Err_0@ == ErrorModel::Decompress
            },
            Err(_) => r is Err && r->Err_0@ == ErrorModel::Decompress,
        },
{
    match written {
        Ok(n) => {
            if n == buffer.len() {
                Ok(buffer)
            } else {
                Err(InstallError::Decompress)
            }
        },
        Err(_) => Err(InstallError::Decompress),
    }
}

/// Decompresses a gzip stream. The last four bytes of the stream announce
/// the length of the decompressed data; the output buffer is allocated with
/// that length once, and the result has exactly that length. A stream of
/// fewer than four bytes, a stream that the decompressor rejects and a
/// stream whose data is shorter or longer than announced are decompression
/// errors.
pub fn decompress_gzip(gz_data: &[u8]) -> (r: Result<Vec<u8>, InstallError>)
    ensures
        match decompressed(gz_data@) {
            Some(data) => r is Ok && r->Ok_0@ == data && data.len() == trailer_size(gz_data@),
            None => r is Err && r->Err_0@ == ErrorModel::Decompress,
        },
{
    let size = match read_trailer_size(gz_data) {
        Some(size) => size as usize,
        None => {
            return Err(InstallError::Decompress);
        },
    };
    let mut outbuf: Vec<u8> = vec![0u8; size];
    let written = inflate_gzip(gz_data, &mut outbuf);
    proof {
        if let Ok(n) = written {
            if n == outbuf@.len() {
                assert(outbuf@.take(n as int) =~= outbuf@);
            }
        }
    }
    finish_decompress(written, outbuf)
}

} // verus!
