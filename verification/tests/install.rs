use volt::errors::InstallError;
use volt::install::{
    admissible, check_package, finish_install, has_open_dependency, is_closed, merge_package,
    plan_install, tree_has, validate_tree, Failure, InputError, InputFault, InstallPlan,
    InstallReport, Timing, MAX_IN_FLIGHT,
};
use volt::layout::{InstallConfig, LinkSlot};
use volt::package::{Dependency, FlatPackage, PackageId};
use volt::pipeline::Outcome;

fn host(os: &str, cpu: &str) -> InstallConfig {
    InstallConfig { node_modules: "./nm".to_string(), os: os.to_string(), cpu: cpu.to_string() }
}

fn pkg(name: &str, version: &str) -> FlatPackage {
    FlatPackage::new(name, version, "https://registry/x.tgz", "sha1-leRwR0FCbnHoAQHvkKan39A4NMM=")
}

fn chokidar_tree() -> Vec<FlatPackage> {
    let mut fsevents = pkg("fsevents", "2.3.2");
    fsevents.os = Some(vec!["darwin".to_string()]);
    let mut chokidar = pkg("chokidar", "3.5.0");
    chokidar.dependencies.push(Dependency::new("fsevents", "2.3.2"));
    vec![fsevents, chokidar]
}

#[test]
fn well_formed_tree_is_accepted() {
    assert_eq!(validate_tree(&chokidar_tree()), Ok(()));
    assert_eq!(validate_tree(&Vec::new()), Ok(()));
    assert_eq!(check_package(&chokidar_tree(), 1), None);
}

#[test]
fn cyclic_tree_is_accepted() {
    let mut a = pkg("a", "1.0.0");
    a.dependencies.push(Dependency::new("b", "1.0.0"));
    let mut b = pkg("b", "1.0.0");
    b.dependencies.push(Dependency::new("a", "1.0.0"));
    assert_eq!(validate_tree(&vec![a, b]), Ok(()));
}

#[test]
fn empty_version_is_a_fault() {
    let tree = vec![pkg("a", "1.0.0"), pkg("b", "")];
    assert_eq!(
        validate_tree(&tree),
        Err(InputError { package: 1, fault: InputFault::EmptyVersion })
    );
}

#[test]
fn empty_integrity_is_a_fault() {
    let tree = vec![FlatPackage::new("a", "1.0.0", "https://r/a.tgz", "")];
    assert_eq!(
        validate_tree(&tree),
        Err(InputError { package: 0, fault: InputFault::EmptyIntegrity })
    );
}

#[test]
fn ambiguous_platform_is_a_fault() {
    let mut a = pkg("a", "1.0.0");
    a.os = Some(vec!["linux".to_string(), "!linux".to_string()]);
    assert_eq!(
        validate_tree(&vec![a]),
        Err(InputError { package: 0, fault: InputFault::AmbiguousPlatform })
    );
    let mut b = pkg("b", "1.0.0");
    b.cpu = Some(vec!["!x64".to_string(), "x64".to_string()]);
    assert_eq!(check_package(&vec![b], 0), Some(InputFault::AmbiguousPlatform));
}

#[test]
fn repeated_package_is_a_fault_of_the_later_one() {
    let tree = vec![pkg("a", "1.0.0"), pkg("a", "2.0.0"), pkg("a", "1.0.0")];
    assert_eq!(
        validate_tree(&tree),
        Err(InputError { package: 2, fault: InputFault::DuplicatePackage })
    );
    assert_eq!(check_package(&tree, 0), None);
    assert_eq!(check_package(&tree, 1), None);
}

#[test]
fn tree_with_an_open_dependency_is_installed() {
    let mut core = pkg("@babel/core", "7.0.0");
    core.dependencies.push(Dependency::new("debug", "4.0.0"));
    let tree = vec![core];
    assert_eq!(validate_tree(&tree), Ok(()));
    assert!(!is_closed(&tree));
    assert!(has_open_dependency(&tree, 0));
    let plan = plan_install(&host("linux", "x64"), &tree).unwrap();
    assert_eq!(plan.scheduled, vec![0]);
    assert_eq!(plan.incompatible, Vec::new());
}

#[test]
fn closed_graph_is_recognized() {
    assert!(is_closed(&chokidar_tree()));
    assert!(is_closed(&Vec::new()));
    let mut a = pkg("a", "1.0.0");
    a.dependencies.push(Dependency::new("b", "1.0.0"));
    let tree = vec![a, pkg("b", "2.0.0")];
    assert!(!is_closed(&tree));
    assert!(has_open_dependency(&tree, 0));
    assert!(!has_open_dependency(&tree, 1));
    assert!(tree_has(&tree, "b", "2.0.0"));
    assert!(!tree_has(&tree, "b", "1.0.0"));
}

#[test]
fn dependency_name_twice_is_a_fault() {
    let mut a = pkg("a", "1.0.0");
    a.dependencies.push(Dependency::new("b", "1.0.0"));
    a.dependencies.push(Dependency::new("c", "1.0.0"));
    a.dependencies.push(Dependency::new("b", "2.0.0"));
    let tree = vec![pkg("b", "1.0.0"), a];
    assert_eq!(
        validate_tree(&tree),
        Err(InputError { package: 1, fault: InputFault::DuplicateDependency })
    );
    assert_eq!(check_package(&tree, 0), None);
}

#[test]
fn first_fault_of_the_first_faulty_package_is_reported() {
    let mut a = FlatPackage::new("a", "", "https://r/a.tgz", "");
    a.dependencies.push(Dependency::new("zz", "1"));
    let tree = vec![pkg("ok", "1"), a, pkg("b", "")];
    assert_eq!(
        validate_tree(&tree),
        Err(InputError { package: 1, fault: InputFault::EmptyVersion })
    );
    assert_eq!(plan_install(&host("linux", "x64"), &tree), validate_tree(&tree).map(|_| {
        InstallPlan { store_dir: String::new(), scheduled: Vec::new(), incompatible: Vec::new() }
    }));
}

#[test]
fn incompatible_package_is_left_out_on_linux() {
    let plan = plan_install(&host("linux", "x64"), &chokidar_tree()).unwrap();
    assert_eq!(
        plan,
        InstallPlan {
            store_dir: "./nm/.volt".to_string(),
            scheduled: vec![1],
            incompatible: vec![PackageId::new("fsevents", "2.3.2")],
        }
    );
}

#[test]
fn every_package_is_scheduled_where_it_fits() {
    let plan = plan_install(&host("darwin", "arm64"), &chokidar_tree()).unwrap();
    assert_eq!(plan.scheduled, vec![0, 1]);
    assert_eq!(plan.incompatible, Vec::new());
}

#[test]
fn refused_system_is_left_out() {
    let mut a = pkg("a", "1.0.0");
    a.os = Some(vec!["!win32".to_string()]);
    let tree = vec![a, pkg("b", "1.0.0")];
    assert_eq!(plan_install(&host("linux", "x64"), &tree).unwrap().scheduled, vec![0, 1]);
    let windows = plan_install(&host("win32", "x64"), &tree).unwrap();
    assert_eq!(windows.scheduled, vec![1]);
    assert_eq!(windows.incompatible, vec![PackageId::new("a", "1.0.0")]);
}

#[test]
fn at_most_32_pipelines_run_at_a_time() {
    assert_eq!(MAX_IN_FLIGHT, 32);
    assert_eq!(admissible(100, 0), 32);
    assert_eq!(admissible(100, 30), 2);
    assert_eq!(admissible(100, 32), 0);
    assert_eq!(admissible(100, 40), 0);
    assert_eq!(admissible(5, 0), 5);
    assert_eq!(admissible(5, 31), 1);
    assert_eq!(admissible(0, 0), 0);
}

#[test]
fn report_sorts_packages_by_their_result() {
    let mut report = InstallReport::new(vec![PackageId::new("fsevents", "2.3.2")]);
    report.record(PackageId::new("a", "1.0.0"), Ok(Outcome::Installed), 12);
    report.record(PackageId::new("b", "1.0.0"), Ok(Outcome::SkippedExisting), 3);
    report.record(PackageId::new("c", "1.0.0"), Err(InstallError::Tar), 7);
    report.record(PackageId::new("d", "1.0.0"), Err(InstallError::Network), 9);
    assert_eq!(report.installed, vec![PackageId::new("a", "1.0.0")]);
    assert_eq!(report.skipped_existing, vec![PackageId::new("b", "1.0.0")]);
    assert_eq!(report.incompatible, vec![PackageId::new("fsevents", "2.3.2")]);
    assert_eq!(
        report.failed,
        vec![
            Failure { package: PackageId::new("c", "1.0.0"), error: InstallError::Tar },
            Failure { package: PackageId::new("d", "1.0.0"), error: InstallError::Network },
        ]
    );
    assert_eq!(
        report.durations,
        vec![
            Timing { package: PackageId::new("a", "1.0.0"), millis: 12 },
            Timing { package: PackageId::new("b", "1.0.0"), millis: 3 },
            Timing { package: PackageId::new("c", "1.0.0"), millis: 7 },
            Timing { package: PackageId::new("d", "1.0.0"), millis: 9 },
        ]
    );
    assert_eq!(report.first_error(), Some(InstallError::Tar));
    assert!(report.holds("a", "1.0.0"));
    assert!(report.holds("b", "1.0.0"));
    assert!(!report.holds("c", "1.0.0"));
    assert!(!report.holds("fsevents", "2.3.2"));
}

#[test]
fn fresh_report_is_empty() {
    let report = InstallReport::new(Vec::new());
    assert_eq!(report.first_error(), None);
    assert!(report.installed.is_empty() && report.skipped_existing.is_empty());
    assert!(report.failed.is_empty() && report.durations.is_empty());
    assert!(!report.holds("a", "1"));
}

#[test]
fn requested_root_is_linked_after_success() {
    let mut report = InstallReport::new(Vec::new());
    report.record(PackageId::new("left-pad", "1.3.0"), Ok(Outcome::Installed), 1);
    let roots = vec![PackageId::new("left-pad", "1.3.0")];
    assert_eq!(
        finish_install(&host("linux", "x64"), &report, &roots),
        Ok(vec![LinkSlot {
            link_path: "./nm/left-pad".to_string(),
            target_path: "./nm/.volt/left-pad@1.3.0/node_modules/left-pad".to_string(),
        }])
    );
}

#[test]
fn skipped_root_is_linked_and_absent_root_is_not() {
    let mut report = InstallReport::new(vec![PackageId::new("fsevents", "2.3.2")]);
    report.record(PackageId::new("chokidar", "3.5.0"), Ok(Outcome::SkippedExisting), 1);
    let roots = vec![
        PackageId::new("fsevents", "2.3.2"),
        PackageId::new("chokidar", "3.5.0"),
        PackageId::new("chokidar", "9.9.9"),
    ];
    let slots = finish_install(&host("linux", "x64"), &report, &roots).unwrap();
    assert_eq!(slots.len(), 1);
    assert_eq!(slots[0].link_path, "./nm/chokidar");
}

#[test]
fn failure_surfaces_the_first_error_and_links_nothing() {
    let mut report = InstallReport::new(Vec::new());
    report.record(PackageId::new("a", "1.0.0"), Ok(Outcome::Installed), 1);
    report.record(
        PackageId::new("b", "1.0.0"),
        Err(InstallError::Registry { status: 503 }),
        1,
    );
    report.record(PackageId::new("c", "1.0.0"), Err(InstallError::Cas), 1);
    let roots = vec![PackageId::new("a", "1.0.0")];
    assert_eq!(
        finish_install(&host("linux", "x64"), &report, &roots),
        Err(InstallError::Registry { status: 503 })
    );
}

#[test]
fn store_error_aborts_the_install() {
    let mut report = InstallReport::new(Vec::new());
    assert!(!report.aborted());
    report.record(PackageId::new("a", "1.0.0"), Err(InstallError::Network), 1);
    report.record(PackageId::new("b", "1.0.0"), Ok(Outcome::Installed), 1);
    assert!(!report.aborted());
    report.record(PackageId::new("c", "1.0.0"), Err(InstallError::Cas), 1);
    assert!(report.aborted());
    report.record(PackageId::new("d", "1.0.0"), Err(InstallError::Tar), 1);
    assert!(report.aborted());
}

#[test]
fn merging_keeps_the_first_copy_of_a_package() {
    let mut tree = Vec::new();
    assert!(merge_package(&mut tree, pkg("a", "1.0.0")));
    assert!(merge_package(&mut tree, pkg("b", "1.0.0")));
    let mut later = FlatPackage::new("a", "1.0.0", "https://mirror/a.tgz", "sha1-other");
    later.dependencies.push(Dependency::new("b", "1.0.0"));
    assert!(!merge_package(&mut tree, later));
    assert!(merge_package(&mut tree, pkg("a", "2.0.0")));
    assert_eq!(tree, vec![pkg("a", "1.0.0"), pkg("b", "1.0.0"), pkg("a", "2.0.0")]);
    assert_eq!(validate_tree(&tree), Ok(()));
}

#[test]
fn nothing_is_admitted_once_the_install_has_to_stop() {
    let mut report = InstallReport::new(Vec::new());
    assert_eq!(report.admits(100, 0), 32);
    assert_eq!(report.admits(3, 31), 1);
    assert_eq!(report.admits(3, 32), 0);
    report.record(PackageId::new("a", "1.0.0"), Err(InstallError::Tar), 1);
    assert_eq!(report.admits(100, 0), 32);
    report.record(PackageId::new("b", "1.0.0"), Err(InstallError::Cas), 1);
    assert_eq!(report.admits(100, 0), 0);
    assert_eq!(report.admits(0, 0), 0);
}
