//! Subresource-integrity strings: computing the digest of fetched bytes
//! and holding it against the digest that a package declares.

use vstd::prelude::*;
use crate::errors::{ErrorModel, InstallError};
use crate::text::{contains_char, starts_with, text_eq};

verus! {

/// The hash functions the engine uses: SHA-1 and SHA-512 for the archives
/// of packages, SHA-256 for the files it keeps in the store.
#[derive(Clone, Copy, Debug, PartialEq, Eq, Structural)]
pub enum HashAlgorithm {
    Sha1,
    Sha256,
    Sha512,
}

/// The integrity string of `data` under `algorithm`: the algorithm's name,
/// a hyphen and the digest in base64.
pub uninterp spec fn sri_digest(algorithm: HashAlgorithm, data: Seq<u8>) -> Seq<char>;

/// What the integrity strings of an algorithm begin with: its name in
/// lower case and a hyphen.
pub open spec fn algorithm_prefix(algorithm: HashAlgorithm) -> Seq<char> {
    match algorithm {
        HashAlgorithm::Sha1 => "sha1-"@,
        HashAlgorithm::Sha256 => "sha256-"@,
        HashAlgorithm::Sha512 => "sha512-"@,
    }
}

/// Computes the integrity string of `data` with `ssri`: an `IntegrityOpts`
/// with the one algorithm, fed with `data`, finished and printed. The
/// result depends on the algorithm and the bytes alone, and begins with
/// the algorithm's name in lower case and a hyphen, as `ssri` prints every
/// hash.
#[verifier::external_body]
fn compute_sri(data: &[u8], algorithm: HashAlgorithm) -> (sri: String)
    ensures
        sri@ == sri_digest(algorithm, data@),
        algorithm_prefix(algorithm).is_prefix_of(sri@),
{
    let algorithm = match algorithm {
        HashAlgorithm::Sha1 => ssri::Algorithm::Sha1,
        HashAlgorithm::Sha256 => ssri::Algorithm::Sha256,
        HashAlgorithm::Sha512 => ssri::Algorithm::Sha512,
    };
    ssri::IntegrityOpts::new().algorithm(algorithm).chain(data).result().to_string()
}

/// The algorithm that an integrity string asks for. Only SHA-1 and SHA-512
/// are supported: a string that does not begin with `sha1` is held against
/// the SHA-512 digest.
pub open spec fn algorithm_of(sri: Seq<char>) -> HashAlgorithm {
    if "sha1"@.is_prefix_of(sri) {
        HashAlgorithm::Sha1
    } else {
        HashAlgorithm::Sha512
    }
}

/// Whether an integrity string offers several digests, separated by spaces.
/// Such a string is never accepted.
pub open spec fn offers_alternatives(sri: Seq<char>) -> bool {
    sri.contains(' ')
}

/// Whether an integrity string names one of the two algorithms that
/// archives may be verified with. A string that names neither is never
/// accepted.
pub open spec fn names_supported_algorithm(sri: Seq<char>) -> bool {
    "sha1-"@.is_prefix_of(sri) || "sha512-"@.is_prefix_of(sri)
}

/// Whether the digest `actual` is the declared string `expected`. The
/// declared string has to name a supported algorithm and offer one digest;
/// then the whole strings are compared, prefix and base64 text included.
pub open spec fn digest_accepted(actual: Seq<char>, expected: Seq<char>) -> bool {
    &&& names_supported_algorithm(expected)
    &&& !offers_alternatives(expected)
    &&& actual == expected
}

/// Whether `data` has the integrity that `expected` declares.
pub open spec fn checksum_matches(data: Seq<u8>, expected: Seq<char>) -> bool {
    digest_accepted(sri_digest(algorithm_of(expected), data), expected)
}

/// The algorithm that the integrity string `sri` asks for.
pub fn select_algorithm(sri: &str) -> (algorithm: HashAlgorithm)
    ensures
        algorithm == algorithm_of(sri@),
{
    if starts_with(sri, "sha1") {
        HashAlgorithm::Sha1
    } else {
        HashAlgorithm::Sha512
    }
}

/// Whether the integrity string `sri` names SHA-1 or SHA-512.
pub fn is_supported(sri: &str) -> (r: bool)
    ensures
        r == names_supported_algorithm(sri@),
{
    starts_with(sri, "sha1-") || starts_with(sri, "sha512-")
}

/// The integrity string of `data` under `algorithm`.
pub fn calc_hash(data: &[u8], algorithm: HashAlgorithm) -> (sri: String)
    ensures
        sri@ == sri_digest(algorithm, data@),
        algorithm_prefix(algorithm).is_prefix_of(sri@),
{
    compute_sri(data, algorithm)
}

/// Holds a computed digest against the declared one. The answer is
/// `(true, None)` where they agree, and `(false, Some(actual))` where
/// they do not, so that the caller can report what was found.
pub fn judge_checksum(actual: String, expected: &str) -> (verdict: (bool, Option<String>))
    ensures
        verdict.0 == digest_accepted(actual@, expected@),
        verdict.0 ==> verdict.1 is None,
        !verdict.0 ==> verdict.1 == Some(actual),
{
    if is_supported(expected) && !contains_char(expected, ' ') && text_eq(
        actual.as_str(),
        expected,
    ) {
        (true, None)
    } else {
        (false, Some(actual))
    }
}

/// Verifies fetched bytes against the integrity string that the package
/// declares. The prefix of the string selects the hash function; the
/// digest of `response` is computed and compared with the whole string. A
/// string that begins with neither `sha1-` nor `sha512-`, and a string
/// that offers several digests, is never verified.
pub fn verify_checksum(response: &[u8], expected_checksum: &str) -> (verdict: (
    bool,
    Option<String>,
))
    ensures
        verdict.0 == checksum_matches(response@, expected_checksum@),
        verdict.0 ==> verdict.1 is None,
        !verdict.0 ==> verdict.1 is Some && verdict.1->0@ == sri_digest(
            algorithm_of(expected_checksum@),
            response@,
        ),
{
    let algorithm = select_algorithm(expected_checksum);
    let calculated_checksum = calc_hash(response, algorithm);
    judge_checksum(calculated_checksum, expected_checksum)
}

/// What the integrity gate answers for `data` and the declared string.
pub open spec fn integrity_outcome(data: Seq<u8>, expected: Seq<char>) -> Result<(), ErrorModel> {
    if checksum_matches(data, expected) {
        Ok(())
    } else {
        Err(
            ErrorModel::Integrity {
                expected,
                actual: sri_digest(algorithm_of(expected), data),
            },
        )
    }
}

/// The integrity gate: passes the bytes whose digest is the declared one,
/// and fails all others with an integrity error that names both digests.
pub fn check_integrity(data: &[u8], expected: &str) -> (r: Result<(), InstallError>)
    ensures
        match r {
            Ok(()) => integrity_outcome(data@, expected@) is Ok,
            Err(e) => integrity_outcome(data@, expected@) == Err::<(), ErrorModel>(e@),
        },
{
    match verify_checksum(data, expected).1 {
        None => Ok(()),
        Some(actual) => Err(
            InstallError::Integrity { expected: String::from_str(expected), actual },
        ),
    }
}

/// An integrity string that begins with neither `sha1-` nor `sha512-`
/// never matches, whatever the bytes are: no other algorithm is supported.
pub proof fn other_algorithms_are_rejected(data: Seq<u8>, expected: Seq<char>)
    requires
        !names_supported_algorithm(expected),
    ensures
        !checksum_matches(data, expected),
        integrity_outcome(data, expected) is Err,
{
}

/// An integrity string that offers several digests never matches, whatever
/// the bytes are.
pub proof fn alternatives_are_rejected(data: Seq<u8>, expected: Seq<char>)
    requires
        offers_alternatives(expected),
    ensures
        !checksum_matches(data, expected),
        integrity_outcome(data, expected) is Err,
{
}

} // verus!
