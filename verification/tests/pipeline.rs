use volt::errors::InstallError;
use volt::filemap::FileEntry;
use volt::integrity::{calc_hash, HashAlgorithm};
use volt::layout::{link_dependencies, InstallConfig, LinkSlot};
use volt::materialize::Step;
use volt::package::{holds_id, Dependency, FlatPackage, PackageId};
use volt::pipeline::{fetched, install_package, probed, Action, Event, Outcome, Stage};
use volt::store::Blob;

fn linux() -> InstallConfig {
    InstallConfig {
        node_modules: "./nm".to_string(),
        os: "linux".to_string(),
        cpu: "x64".to_string(),
    }
}

fn tar_block(name: &str, contents: &[u8], kind: u8) -> Vec<u8> {
    let mut block = vec![0u8; 512];
    block[..name.len()].copy_from_slice(name.as_bytes());
    block[100..108].copy_from_slice(b"0000644\0");
    block[124..136].copy_from_slice(format!("{:011o}\0", contents.len()).as_bytes());
    block[156] = kind;
    block[257..263].copy_from_slice(b"ustar\0");
    block[263..265].copy_from_slice(b"00");
    let mut sum: u64 = 0;
    for (i, b) in block.iter().enumerate() {
        sum += if (148..156).contains(&i) { 32 } else { *b as u64 };
    }
    block[148..156].copy_from_slice(format!("{:06o}\0 ", sum).as_bytes());
    block.extend_from_slice(contents);
    while block.len() % 512 != 0 {
        block.push(0);
    }
    block
}

fn left_pad_tar() -> Vec<u8> {
    let mut tar = tar_block("package/", b"", b'5');
    tar.extend(tar_block("package/package.json", b"{\"name\":\"left-pad\"}", b'0'));
    tar.extend(tar_block("package/index.js", b"module.exports = leftPad;\n", b'0'));
    tar.extend(tar_block("package/test/copy.js", b"module.exports = leftPad;\n", b'0'));
    tar.extend(vec![0u8; 1024]);
    tar
}

fn gzipped(data: &[u8]) -> Vec<u8> {
    let mut compressor = libdeflater::Compressor::new(libdeflater::CompressionLvl::default());
    let mut out = vec![0u8; compressor.gzip_compress_bound(data.len())];
    let n = compressor.gzip_compress(data, &mut out).unwrap();
    out.truncate(n);
    out
}

fn left_pad(body: &[u8]) -> FlatPackage {
    FlatPackage::new(
        "left-pad",
        "1.3.0",
        "https://registry.npmjs.org/left-pad/-/left-pad-1.3.0.tgz",
        &calc_hash(body, HashAlgorithm::Sha1),
    )
}

fn left_pad_files() -> Vec<FileEntry> {
    vec![
        FileEntry {
            path: "package.json".to_string(),
            digest: calc_hash(b"{\"name\":\"left-pad\"}", HashAlgorithm::Sha256),
        },
        FileEntry {
            path: "index.js".to_string(),
            digest: calc_hash(b"module.exports = leftPad;\n", HashAlgorithm::Sha256),
        },
        FileEntry {
            path: "test/copy.js".to_string(),
            digest: calc_hash(b"module.exports = leftPad;\n", HashAlgorithm::Sha256),
        },
    ]
}

fn left_pad_materialize() -> Action {
    let root = "./nm/.volt/left-pad@1.3.0/node_modules/left-pad";
    let files = left_pad_files();
    Action::Materialize {
        directories: vec![
            "./nm/.volt/left-pad@1.3.0".to_string(),
            "./nm/.volt/left-pad@1.3.0/node_modules".to_string(),
            root.to_string(),
        ],
        chunks: vec![vec![
            Step::CreateDir { path: root.to_string() },
            Step::WriteFile {
                path: format!("{}/package.json", root),
                digest: files[0].digest.clone(),
            },
            Step::WriteFile { path: format!("{}/index.js", root), digest: files[1].digest.clone() },
            Step::CreateDir { path: format!("{}/test", root) },
            Step::WriteFile {
                path: format!("{}/test/copy.js", root),
                digest: files[2].digest.clone(),
            },
        ]],
    }
}

#[test]
fn pipeline_begins_by_probing_the_store() {
    let body = gzipped(&left_pad_tar());
    let package = left_pad(&body);
    let (stage, action) =
        install_package(&linux(), &package, &Vec::new(), Stage::Start, Event::Begin);
    assert_eq!(stage, Stage::Probing);
    assert_eq!(
        action,
        Action::ProbeCache { key: format!("pkg::left-pad::1.3.0::{}", package.integrity) }
    );
}

#[test]
fn cold_store_fetches_the_archive() {
    let package = left_pad(b"x");
    let (stage, action) =
        install_package(&linux(), &package, &Vec::new(), Stage::Probing, Event::CacheMiss);
    assert_eq!(stage, Stage::Fetching);
    assert_eq!(
        action,
        Action::Fetch { url: "https://registry.npmjs.org/left-pad/-/left-pad-1.3.0.tgz".to_string() }
    );
}

#[test]
fn fetched_archive_is_verified_and_stored() {
    let tar = left_pad_tar();
    let body = gzipped(&tar);
    let package = left_pad(&body);
    let (stage, action) = install_package(
        &linux(),
        &package,
        &Vec::new(),
        Stage::Fetching,
        Event::Fetched { body },
    );
    assert_eq!(stage, Stage::Storing { files: left_pad_files() });
    match action {
        Action::Store { key, archive, blobs, file_map } => {
            assert_eq!(key, package.cacache_key());
            assert_eq!(archive, tar);
            // Two files have the same contents: they share one blob.
            assert_eq!(
                blobs,
                vec![
                    Blob { digest: left_pad_files()[0].digest.clone(), start: 1024, size: 19 },
                    Blob { digest: left_pad_files()[1].digest.clone(), start: 2048, size: 26 },
                ]
            );
            for blob in &blobs {
                let contents = &archive[blob.start..blob.start + blob.size];
                assert_eq!(calc_hash(contents, HashAlgorithm::Sha256), blob.digest);
            }
            let text = String::from_utf8(file_map).unwrap();
            assert!(text.starts_with("{\"index.js\":\"sha256-"));
            assert!(text.contains("\"test/copy.js\":\"sha256-"));
        }
        other => panic!("expected a store action, got {:?}", other),
    }
}

#[test]
fn stored_package_is_materialized() {
    let package = left_pad(b"x");
    let (stage, action) = install_package(
        &linux(),
        &package,
        &Vec::new(),
        Stage::Storing { files: left_pad_files() },
        Event::Stored,
    );
    assert_eq!(stage, Stage::Materializing { warm: false });
    assert_eq!(action, left_pad_materialize());
}

#[test]
fn cold_install_runs_to_installed() {
    let tar = left_pad_tar();
    let body = gzipped(&tar);
    let package = left_pad(&body);
    let config = linux();
    let none = Vec::new();
    let events = vec![
        Event::Begin,
        Event::CacheMiss,
        Event::Fetched { body },
        Event::Stored,
        Event::Materialized,
        Event::Linked,
    ];
    let mut stage = Stage::Start;
    let mut kinds = Vec::new();
    for event in events {
        let (next, action) = install_package(&config, &package, &none, stage, event);
        stage = next;
        kinds.push(match action {
            Action::ProbeCache { .. } => "probe",
            Action::Fetch { .. } => "fetch",
            Action::Store { .. } => "store",
            Action::Materialize { .. } => "materialize",
            Action::Link { .. } => "link",
            Action::Finish => "finish",
            Action::Wait => "wait",
        });
    }
    assert_eq!(stage, Stage::Done { outcome: Outcome::Installed });
    assert_eq!(kinds, vec!["probe", "fetch", "store", "materialize", "link", "finish"]);
}

#[test]
fn warm_store_installs_without_fetching() {
    let package = left_pad(b"x");
    let config = linux();
    let none = Vec::new();
    let (stage, action) = install_package(&config, &package, &none, Stage::Start, Event::Begin);
    assert!(matches!(action, Action::ProbeCache { .. }));
    let (stage, action) =
        install_package(&config, &package, &none, stage, Event::CacheHit { files: left_pad_files() });
    assert_eq!(stage, Stage::Materializing { warm: true });
    assert_eq!(action, left_pad_materialize());
    let (stage, action) = install_package(&config, &package, &none, stage, Event::Materialized);
    assert_eq!(stage, Stage::Linking { warm: true });
    assert_eq!(action, Action::Link { slots: Vec::new() });
    let (stage, action) = install_package(&config, &package, &none, stage, Event::Linked);
    assert_eq!(stage, Stage::Done { outcome: Outcome::SkippedExisting });
    assert_eq!(action, Action::Finish);
}

#[test]
fn integrity_failure_ends_the_pipeline() {
    let body = gzipped(&left_pad_tar());
    let actual = calc_hash(&body, HashAlgorithm::Sha1);
    let package = FlatPackage::new(
        "left-pad",
        "1.3.0",
        "https://registry.npmjs.org/left-pad/-/left-pad-1.3.0.tgz",
        "sha1-AAAAAAAAAAAAAAAAAAAAAAAAAAA=",
    );
    let config = linux();
    let none = Vec::new();
    let (stage, action) =
        install_package(&config, &package, &none, Stage::Fetching, Event::Fetched { body });
    assert_eq!(
        stage,
        Stage::Failed {
            error: InstallError::Integrity {
                expected: "sha1-AAAAAAAAAAAAAAAAAAAAAAAAAAA=".to_string(),
                actual,
            }
        }
    );
    assert_eq!(action, Action::Finish);
    // Nothing is written afterwards, whatever is reported.
    let mut stage = stage;
    for event in [Event::Stored, Event::Materialized, Event::Linked, Event::Begin] {
        let (next, action) = install_package(&config, &package, &none, stage, event);
        assert_eq!(action, Action::Finish);
        assert!(matches!(next, Stage::Failed { error: InstallError::Integrity { .. } }));
        stage = next;
    }
}

#[test]
fn body_that_is_no_gzip_is_a_decompress_error() {
    let body = b"this is not a gzip stream".to_vec();
    let package = left_pad(&body);
    let (stage, action) = install_package(
        &linux(),
        &package,
        &Vec::new(),
        Stage::Fetching,
        Event::Fetched { body },
    );
    assert_eq!(stage, Stage::Failed { error: InstallError::Decompress });
    assert_eq!(action, Action::Finish);
}

#[test]
fn archive_with_a_symbolic_link_is_a_tar_error() {
    let mut tar = tar_block("package/index.js", b"x", b'0');
    tar.extend(tar_block("package/link", b"", b'2'));
    tar.extend(vec![0u8; 1024]);
    let body = gzipped(&tar);
    let package = left_pad(&body);
    let (stage, action) = install_package(
        &linux(),
        &package,
        &Vec::new(),
        Stage::Fetching,
        Event::Fetched { body },
    );
    assert_eq!(stage, Stage::Failed { error: InstallError::Tar });
    assert_eq!(action, Action::Finish);
}

#[test]
fn file_map_with_unsafe_path_is_a_store_error() {
    let package = left_pad(b"x");
    let files = vec![FileEntry { path: "../escape".to_string(), digest: "sha256-x".to_string() }];
    let (stage, action) = install_package(
        &linux(),
        &package,
        &Vec::new(),
        Stage::Probing,
        Event::CacheHit { files },
    );
    assert_eq!(stage, Stage::Failed { error: InstallError::Cas });
    assert_eq!(action, Action::Finish);
}

#[test]
fn reported_failure_ends_the_pipeline() {
    let package = left_pad(b"x");
    let config = linux();
    let none = Vec::new();
    let stages = vec![
        Stage::Start,
        Stage::Probing,
        Stage::Fetching,
        Stage::Storing { files: Vec::new() },
        Stage::Materializing { warm: false },
        Stage::Linking { warm: true },
    ];
    for stage in stages {
        let (next, action) = install_package(
            &config,
            &package,
            &none,
            stage,
            Event::Failed { error: InstallError::Registry { status: 404 } },
        );
        assert_eq!(next, Stage::Failed { error: InstallError::Registry { status: 404 } });
        assert_eq!(action, Action::Finish);
    }
}

#[test]
fn ended_pipeline_stays_where_it_is() {
    let package = left_pad(b"x");
    let config = linux();
    let none = Vec::new();
    let (stage, action) = install_package(
        &config,
        &package,
        &none,
        Stage::Done { outcome: Outcome::Installed },
        Event::Failed { error: InstallError::Network },
    );
    assert_eq!(stage, Stage::Done { outcome: Outcome::Installed });
    assert_eq!(action, Action::Finish);
    let (stage, action) = install_package(
        &config,
        &package,
        &none,
        Stage::Failed { error: InstallError::Tar },
        Event::Begin,
    );
    assert_eq!(stage, Stage::Failed { error: InstallError::Tar });
    assert_eq!(action, Action::Finish);
}

#[test]
fn event_out_of_turn_is_ignored() {
    let package = left_pad(b"x");
    let config = linux();
    let none = Vec::new();
    let (stage, action) = install_package(&config, &package, &none, Stage::Start, Event::Linked);
    assert_eq!((stage, action), (Stage::Start, Action::Wait));
    let (stage, action) =
        install_package(&config, &package, &none, Stage::Fetching, Event::CacheMiss);
    assert_eq!((stage, action), (Stage::Fetching, Action::Wait));
    let (stage, action) = install_package(
        &config,
        &package,
        &none,
        Stage::Materializing { warm: true },
        Event::Fetched { body: vec![1] },
    );
    assert_eq!((stage, action), (Stage::Materializing { warm: true }, Action::Wait));
}

#[test]
fn link_to_an_excluded_dependency_is_not_created() {
    let mut chokidar =
        FlatPackage::new("chokidar", "3.5.0", "https://r/chokidar.tgz", "sha1-abc=");
    chokidar.dependencies.push(Dependency::new("fsevents", "2.3.2"));
    chokidar.dependencies.push(Dependency::new("anymatch", "3.1.0"));
    let excluded = vec![PackageId::new("fsevents", "2.3.2")];
    let (stage, action) = install_package(
        &linux(),
        &chokidar,
        &excluded,
        Stage::Materializing { warm: false },
        Event::Materialized,
    );
    assert_eq!(stage, Stage::Linking { warm: false });
    assert_eq!(
        action,
        Action::Link {
            slots: vec![LinkSlot {
                link_path: "./nm/.volt/chokidar@3.5.0/node_modules/anymatch".to_string(),
                target_path: "./nm/.volt/anymatch@3.1.0/node_modules/anymatch".to_string(),
            }]
        }
    );
    assert_eq!(link_dependencies(&chokidar, &linux(), &Vec::new()).len(), 2);
    assert!(holds_id(&excluded, "fsevents", "2.3.2"));
    assert!(!holds_id(&excluded, "fsevents", "2.3.3"));
}

#[test]
fn scoped_package_is_materialized_below_its_scope() {
    let mut core = FlatPackage::new("@babel/core", "7.0.0", "https://r/core.tgz", "sha1-abc=");
    core.dependencies.push(Dependency::new("debug", "4.0.0"));
    let config = linux();
    let none = Vec::new();
    let files = vec![FileEntry { path: "lib/index.js".to_string(), digest: "sha256-x".to_string() }];
    let (stage, action) =
        install_package(&config, &core, &none, Stage::Probing, Event::CacheHit { files });
    match action {
        Action::Materialize { directories, chunks } => {
            assert_eq!(
                directories.last().unwrap(),
                "./nm/.volt/@babel+core@7.0.0/node_modules/@babel/core"
            );
            assert_eq!(
                chunks[0][1],
                Step::WriteFile {
                    path: "./nm/.volt/@babel+core@7.0.0/node_modules/@babel/core/lib/index.js"
                        .to_string(),
                    digest: "sha256-x".to_string()
                }
            );
        }
        other => panic!("expected a materialize action, got {:?}", other),
    }
    let (_, action) = install_package(&config, &core, &none, stage, Event::Materialized);
    assert_eq!(
        action,
        Action::Link {
            slots: vec![LinkSlot {
                link_path: "./nm/.volt/@babel+core@7.0.0/node_modules/debug".to_string(),
                target_path: "./nm/.volt/debug@4.0.0/node_modules/debug".to_string(),
            }]
        }
    );
}

#[test]
fn answer_of_the_registry_becomes_an_event() {
    assert_eq!(fetched(Some((200, vec![1, 2]))), Event::Fetched { body: vec![1, 2] });
    assert_eq!(fetched(Some((299, Vec::new()))), Event::Fetched { body: Vec::new() });
    assert_eq!(
        fetched(Some((404, vec![1]))),
        Event::Failed { error: InstallError::Registry { status: 404 } }
    );
    assert_eq!(
        fetched(Some((503, Vec::new()))),
        Event::Failed { error: InstallError::Registry { status: 503 } }
    );
    assert_eq!(
        fetched(Some((199, Vec::new()))),
        Event::Failed { error: InstallError::Registry { status: 199 } }
    );
    assert_eq!(
        fetched(Some((300, Vec::new()))),
        Event::Failed { error: InstallError::Registry { status: 300 } }
    );
    assert_eq!(fetched(None), Event::Failed { error: InstallError::Network });
}

#[test]
fn answer_of_the_store_becomes_an_event() {
    assert_eq!(probed(None), Event::CacheMiss);
    assert_eq!(probed(Some(b"{}")), Event::CacheHit { files: Vec::new() });
    assert_eq!(
        probed(Some(b"{\"index.js\":\"sha256-47DEQpj8HBSa+/TImW+5JCeuQeRkm5NMpJWZG3hSuFU=\"}")),
        Event::CacheHit {
            files: vec![FileEntry {
                path: "index.js".to_string(),
                digest: "sha256-47DEQpj8HBSa+/TImW+5JCeuQeRkm5NMpJWZG3hSuFU=".to_string(),
            }]
        }
    );
    assert_eq!(probed(Some(b"not json")), Event::Failed { error: InstallError::Cas });
    assert_eq!(
        probed(Some(b"{\"../x\":\"sha256-47DEQpj8HBSa+/TImW+5JCeuQeRkm5NMpJWZG3hSuFU=\"}")),
        Event::Failed { error: InstallError::Cas }
    );
}

#[test]
fn only_an_ended_pipeline_has_a_result() {
    assert_eq!(Stage::Done { outcome: Outcome::Installed }.result(), Some(Ok(Outcome::Installed)));
    assert_eq!(
        Stage::Done { outcome: Outcome::SkippedExisting }.result(),
        Some(Ok(Outcome::SkippedExisting))
    );
    assert_eq!(Stage::Failed { error: InstallError::Tar }.result(), Some(Err(InstallError::Tar)));
    assert_eq!(Stage::Start.result(), None);
    assert_eq!(Stage::Probing.result(), None);
    assert_eq!(Stage::Fetching.result(), None);
    assert_eq!(Stage::Storing { files: Vec::new() }.result(), None);
    assert_eq!(Stage::Materializing { warm: true }.result(), None);
    assert_eq!(Stage::Linking { warm: false }.result(), None);
}

#[test]
fn stored_file_map_is_found_again() {
    // What one install stores is what the next one materializes from.
    let tar = left_pad_tar();
    let body = gzipped(&tar);
    let package = left_pad(&body);
    let (_, action) = install_package(
        &linux(),
        &package,
        &Vec::new(),
        Stage::Fetching,
        Event::Fetched { body },
    );
    let file_map = match action {
        Action::Store { file_map, .. } => file_map,
        other => panic!("expected a store action, got {:?}", other),
    };
    let mut files = match probed(Some(&file_map)) {
        Event::CacheHit { files } => files,
        other => panic!("expected a hit, got {:?}", other),
    };
    let mut expected = left_pad_files();
    files.sort_by(|a, b| a.path.cmp(&b.path));
    expected.sort_by(|a, b| a.path.cmp(&b.path));
    assert_eq!(files, expected);
}

#[test]
fn two_installs_of_one_archive_ask_for_the_same_store_entries() {
    let tar = left_pad_tar();
    let body = gzipped(&tar);
    let package = left_pad(&body);
    let first = install_package(
        &linux(),
        &package,
        &Vec::new(),
        Stage::Fetching,
        Event::Fetched { body: body.clone() },
    );
    let second =
        install_package(&linux(), &package, &Vec::new(), Stage::Fetching, Event::Fetched { body });
    assert_eq!(first, second);
    match first.1 {
        Action::Store { blobs, .. } => {
            for (i, a) in blobs.iter().enumerate() {
                for b in blobs.iter().skip(i + 1) {
                    assert_ne!(a.digest, b.digest);
                }
            }
        }
        other => panic!("expected a store action, got {:?}", other),
    }
}

#[test]
fn archive_with_one_path_twice_is_a_tar_error() {
    let mut tar = tar_block("package/index.js", b"first", b'0');
    tar.extend(tar_block("package/lib/a.js", b"a", b'0'));
    tar.extend(tar_block("package/index.js", b"second", b'0'));
    tar.extend(vec![0u8; 1024]);
    let body = gzipped(&tar);
    let package = left_pad(&body);
    let (stage, action) = install_package(
        &linux(),
        &package,
        &Vec::new(),
        Stage::Fetching,
        Event::Fetched { body },
    );
    assert_eq!(stage, Stage::Failed { error: InstallError::Tar });
    assert_eq!(action, Action::Finish);
}

#[test]
fn file_map_with_one_path_twice_is_a_store_error() {
    let package = left_pad(b"x");
    let twice = || {
        vec![
            FileEntry { path: "a.js".to_string(), digest: "sha256-x".to_string() },
            FileEntry { path: "b.js".to_string(), digest: "sha256-y".to_string() },
            FileEntry { path: "a.js".to_string(), digest: "sha256-z".to_string() },
        ]
    };
    let (stage, action) = install_package(
        &linux(),
        &package,
        &Vec::new(),
        Stage::Probing,
        Event::CacheHit { files: twice() },
    );
    assert_eq!(stage, Stage::Failed { error: InstallError::Cas });
    assert_eq!(action, Action::Finish);
    let (stage, _) = install_package(
        &linux(),
        &package,
        &Vec::new(),
        Stage::Storing { files: twice() },
        Event::Stored,
    );
    assert_eq!(stage, Stage::Failed { error: InstallError::Cas });
}

#[test]
fn warm_and_cold_install_ask_for_the_same_files() {
    let package = left_pad(b"x");
    let cold = install_package(
        &linux(),
        &package,
        &Vec::new(),
        Stage::Storing { files: left_pad_files() },
        Event::Stored,
    );
    // The store may hand the entries back in another order.
    let mut found = left_pad_files();
    found.reverse();
    let warm = install_package(
        &linux(),
        &package,
        &Vec::new(),
        Stage::Probing,
        Event::CacheHit { files: found },
    );
    let writes = |action: &Action| -> Vec<(String, String)> {
        let mut all = Vec::new();
        if let Action::Materialize { chunks, .. } = action {
            for chunk in chunks {
                for step in chunk {
                    if let Step::WriteFile { path, digest } = step {
                        all.push((path.clone(), digest.clone()));
                    }
                }
            }
        }
        all.sort();
        all
    };
    assert_eq!(writes(&cold.1).len(), 3);
    assert_eq!(writes(&cold.1), writes(&warm.1));
}
