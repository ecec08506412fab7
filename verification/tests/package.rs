use volt::package::{Dependency, FlatPackage, PackageId};

#[test]
fn new_package_has_no_limits_and_no_dependencies() {
    let p = FlatPackage::new("left-pad", "1.3.0", "https://r/left-pad.tgz", "sha1-abc=");
    assert_eq!(p.name, "left-pad");
    assert_eq!(p.version, "1.3.0");
    assert_eq!(p.tarball_url, "https://r/left-pad.tgz");
    assert_eq!(p.integrity, "sha1-abc=");
    assert_eq!(p.os, None);
    assert_eq!(p.cpu, None);
    assert_eq!(p.bin, None);
    assert!(p.dependencies.is_empty());
    assert_eq!(p.id(), PackageId::new("left-pad", "1.3.0"));
}

#[test]
fn key_is_made_of_name_version_and_integrity() {
    let p = FlatPackage::new("@babel/core", "7.0.0", "https://r/c.tgz", "sha512-xyz==");
    assert_eq!(p.cacache_key(), "pkg::@babel/core::7.0.0::sha512-xyz==");
}

#[test]
fn key_differs_where_the_integrity_differs() {
    let a = FlatPackage::new("a", "1.0.0", "https://r/a.tgz", "sha1-one");
    let b = FlatPackage::new("a", "1.0.0", "https://r/a.tgz", "sha1-two");
    assert_ne!(a.cacache_key(), b.cacache_key());
    let c = FlatPackage::new("a", "1.0.0", "https://mirror/a.tgz", "sha1-one");
    assert_eq!(a.cacache_key(), c.cacache_key());
}

#[test]
fn identifiers_compare_by_name_and_version() {
    let id = PackageId::new("debug", "4.0.0");
    assert!(id.is("debug", "4.0.0"));
    assert!(!id.is("debug", "4.0.1"));
    assert!(!id.is("debug2", "4.0.0"));
    assert_eq!(id.duplicate(), id);
    let d = Dependency::new("ms", "2.0.0");
    assert_eq!((d.name.as_str(), d.version.as_str()), ("ms", "2.0.0"));
}
