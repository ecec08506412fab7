use volt::commands::{find_version, Add, Install, PackageSpec, VersionSpec};
use volt::package::{Dependency, PackageId};

#[test]
fn registry_specifier_of_a_plain_name() {
    assert_eq!(
        PackageSpec::registry("left-pad"),
        PackageSpec::Npm { scope: None, name: "left-pad".to_string(), requested: None }
    );
}

#[test]
fn registry_specifier_of_a_scoped_name() {
    assert_eq!(
        PackageSpec::registry("@babel/core"),
        PackageSpec::Npm {
            scope: Some("babel".to_string()),
            name: "@babel/core".to_string(),
            requested: None
        }
    );
    assert_eq!(
        PackageSpec::registry("@babel"),
        PackageSpec::Npm { scope: None, name: "@babel".to_string(), requested: None }
    );
    assert_eq!(
        PackageSpec::registry("a/b"),
        PackageSpec::Npm { scope: None, name: "a/b".to_string(), requested: None }
    );
    assert_eq!(
        PackageSpec::registry(""),
        PackageSpec::Npm { scope: None, name: String::new(), requested: None }
    );
}

#[test]
fn first_resolved_version_counts() {
    let resolved = vec![
        PackageId::new("debug", "4.0.0"),
        PackageId::new("ms", "2.0.0"),
        PackageId::new("debug", "3.0.0"),
    ];
    assert_eq!(find_version(&resolved, "debug"), Some("4.0.0".to_string()));
    assert_eq!(find_version(&resolved, "ms"), Some("2.0.0".to_string()));
    assert_eq!(find_version(&resolved, "left-pad"), None);
    assert_eq!(find_version(&Vec::new(), "debug"), None);
}

#[test]
fn roots_are_the_requested_packages_at_their_resolved_versions() {
    let add = Add::new(vec![
        PackageSpec::Npm {
            scope: None,
            name: "left-pad".to_string(),
            requested: Some(VersionSpec::Range("^1.0.0".to_string())),
        },
        PackageSpec::Dir { path: "../local".to_string() },
        PackageSpec::registry("unknown"),
        PackageSpec::registry("@babel/core"),
    ]);
    let resolved = vec![
        PackageId::new("debug", "4.0.0"),
        PackageId::new("@babel/core", "7.0.0"),
        PackageId::new("left-pad", "1.3.0"),
    ];
    assert_eq!(
        add.requested_roots(&resolved),
        vec![PackageId::new("left-pad", "1.3.0"), PackageId::new("@babel/core", "7.0.0")]
    );
    assert_eq!(add.requested_roots(&Vec::new()), Vec::new());
}

#[test]
fn install_adds_every_declared_dependency() {
    let deps = vec![Dependency::new("left-pad", "^1.3.0"), Dependency::new("@babel/core", "7.x")];
    assert_eq!(
        Install::packages(&deps),
        Add::new(vec![PackageSpec::registry("left-pad"), PackageSpec::registry("@babel/core")])
    );
    assert_eq!(Install::packages(&Vec::new()), Add::new(Vec::new()));
    assert_eq!(Install, Install);
}
