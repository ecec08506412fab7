use volt::integrity::{
    calc_hash, check_integrity, is_supported, judge_checksum, select_algorithm, verify_checksum,
    HashAlgorithm,
};
use volt::errors::InstallError;

#[test]
fn sha1_of_known_bytes() {
    assert_eq!(calc_hash(b"abc", HashAlgorithm::Sha1), "sha1-qZk+NkcGgWq6PiVxeFDCbJzQ2J0=");
    assert_eq!(calc_hash(b"", HashAlgorithm::Sha1), "sha1-2jmj7l5rSw0yVb/vlWAYkK/YBwk=");
}

#[test]
fn sha512_of_known_bytes() {
    assert_eq!(
        calc_hash(b"hello world", HashAlgorithm::Sha512),
        "sha512-MJ7MSJwS1utMxA9QyQLytNDtd+5RGnx6m808qG1M2G+YndNbxf9JlnDaNCVbRbDP2DDoH2Bdz33FVC6TrpzXbw=="
    );
}

#[test]
fn sha256_of_known_bytes() {
    assert_eq!(
        calc_hash(b"hello world", HashAlgorithm::Sha256),
        "sha256-uU0nuZNNPgilLlLX2n2r+sSE7+N6U4DukIj3rOLvzek="
    );
}

#[test]
fn prefix_selects_the_algorithm() {
    assert_eq!(select_algorithm("sha1-AAAA"), HashAlgorithm::Sha1);
    assert_eq!(select_algorithm("sha512-AAAA"), HashAlgorithm::Sha512);
    assert_eq!(select_algorithm("md5-AAAA"), HashAlgorithm::Sha512);
    assert_eq!(select_algorithm(""), HashAlgorithm::Sha512);
}

#[test]
fn matching_checksum_is_accepted() {
    assert_eq!(verify_checksum(b"abc", "sha1-qZk+NkcGgWq6PiVxeFDCbJzQ2J0="), (true, None));
    assert!(check_integrity(b"abc", "sha1-qZk+NkcGgWq6PiVxeFDCbJzQ2J0=").is_ok());
}

#[test]
fn mismatch_reports_the_actual_digest() {
    let (ok, actual) = verify_checksum(b"abc", "sha1-AAAAAAAAAAAAAAAAAAAAAAAAAAA=");
    assert!(!ok);
    assert_eq!(actual, Some("sha1-qZk+NkcGgWq6PiVxeFDCbJzQ2J0=".to_string()));
    match check_integrity(b"abc", "sha1-AAAAAAAAAAAAAAAAAAAAAAAAAAA=") {
        Err(InstallError::Integrity { expected, actual }) => {
            assert_eq!(expected, "sha1-AAAAAAAAAAAAAAAAAAAAAAAAAAA=");
            assert_eq!(actual, "sha1-qZk+NkcGgWq6PiVxeFDCbJzQ2J0=");
        }
        other => panic!("expected an integrity error, got {:?}", other),
    }
}

#[test]
fn several_digests_are_rejected() {
    let both = "sha1-qZk+NkcGgWq6PiVxeFDCbJzQ2J0= sha1-2jmj7l5rSw0yVb/vlWAYkK/YBwk=";
    assert!(!verify_checksum(b"abc", both).0);
    assert_eq!(
        judge_checksum(both.to_string(), both),
        (false, Some(both.to_string()))
    );
}

#[test]
fn other_algorithms_never_verify() {
    // The declared string is the true SHA-256 digest of the bytes, and is refused all the same.
    let sha256 = "sha256-ungWv48Bz+pBQUDeXa4iI7ADYaOWF3qctBD/YfIAFa0=";
    assert_eq!(calc_hash(b"abc", HashAlgorithm::Sha256), sha256);
    let (ok, actual) = verify_checksum(b"abc", sha256);
    assert!(!ok);
    assert_eq!(actual, Some(calc_hash(b"abc", HashAlgorithm::Sha512)));
    assert!(!verify_checksum(b"abc", "md5-kAFQmDzST7DWlj99KOF/cg==").0);
    assert!(!verify_checksum(b"abc", "").0);
    assert!(!verify_checksum(b"abc", "sha1").0);
    assert!(check_integrity(b"abc", sha256).is_err());
}

#[test]
fn a_digest_is_accepted_only_under_a_supported_prefix() {
    assert_eq!(judge_checksum("sha1-x".to_string(), "sha1-x"), (true, None));
    assert_eq!(judge_checksum("sha512-x".to_string(), "sha512-x"), (true, None));
    assert_eq!(
        judge_checksum("sha256-x".to_string(), "sha256-x"),
        (false, Some("sha256-x".to_string()))
    );
    assert_eq!(judge_checksum("x".to_string(), "x"), (false, Some("x".to_string())));
    assert_eq!(judge_checksum("sha1x".to_string(), "sha1x"), (false, Some("sha1x".to_string())));
    assert!(is_supported("sha1-") && is_supported("sha512-abc"));
    assert!(!is_supported("sha384-abc") && !is_supported("SHA1-abc") && !is_supported(""));
}

#[test]
fn digests_begin_with_the_name_of_their_algorithm() {
    assert!(calc_hash(b"x", HashAlgorithm::Sha1).starts_with("sha1-"));
    assert!(calc_hash(b"x", HashAlgorithm::Sha256).starts_with("sha256-"));
    assert!(calc_hash(b"x", HashAlgorithm::Sha512).starts_with("sha512-"));
}
