use volt::filemap::FileEntry;
use volt::materialize::{
    directory_of, materialize_plan, plan_chunk, same_bytes, write_decision, Step, WriteDecision,
    CHUNK_SIZE,
};

fn map_entry(path: &str, digest: &str) -> FileEntry {
    FileEntry { path: path.to_string(), digest: digest.to_string() }
}

fn create(path: &str) -> Step {
    Step::CreateDir { path: path.to_string() }
}

fn write(path: &str, digest: &str) -> Step {
    Step::WriteFile { path: path.to_string(), digest: digest.to_string() }
}

#[test]
fn chunks_hold_six_files() {
    assert_eq!(CHUNK_SIZE, 6);
}

#[test]
fn directory_of_a_file() {
    assert_eq!(directory_of("r", "index.js"), "r");
    assert_eq!(directory_of("r", "lib/index.js"), "r/lib");
    assert_eq!(directory_of("r", "lib/deep/x.js"), "r/lib/deep");
    assert_eq!(directory_of("r/", "lib/x.js"), "r/lib");
}

#[test]
fn directories_are_created_once_and_before_their_files() {
    let entries = vec![
        map_entry("index.js", "d1"),
        map_entry("lib/a.js", "d2"),
        map_entry("package.json", "d3"),
        map_entry("lib/b.js", "d4"),
        map_entry("lib/deep/c.js", "d5"),
    ];
    assert_eq!(
        plan_chunk("nm/.volt/p@1/node_modules/p", &entries, 0, 5),
        vec![
            create("nm/.volt/p@1/node_modules/p"),
            write("nm/.volt/p@1/node_modules/p/index.js", "d1"),
            create("nm/.volt/p@1/node_modules/p/lib"),
            write("nm/.volt/p@1/node_modules/p/lib/a.js", "d2"),
            write("nm/.volt/p@1/node_modules/p/package.json", "d3"),
            write("nm/.volt/p@1/node_modules/p/lib/b.js", "d4"),
            create("nm/.volt/p@1/node_modules/p/lib/deep"),
            write("nm/.volt/p@1/node_modules/p/lib/deep/c.js", "d5"),
        ]
    );
}

#[test]
fn part_of_a_file_map_is_planned_on_its_own() {
    let entries = vec![map_entry("a", "1"), map_entry("x/b", "2"), map_entry("x/c", "3")];
    assert_eq!(plan_chunk("r", &entries, 2, 3), vec![create("r/x"), write("r/x/c", "3")]);
    assert_eq!(plan_chunk("r", &entries, 1, 1), Vec::new());
}

#[test]
fn file_map_is_cut_into_chunks_of_six() {
    let entries: Vec<FileEntry> =
        (0..14).map(|i| map_entry(&format!("f{}.js", i), &format!("d{}", i))).collect();
    let plan = materialize_plan("r", &entries);
    assert_eq!(plan.len(), 3);
    let writes: Vec<usize> = plan
        .iter()
        .map(|c| c.iter().filter(|s| matches!(s, Step::WriteFile { .. })).count())
        .collect();
    assert_eq!(writes, vec![6, 6, 2]);
    // Every chunk creates the directory it writes to.
    for chunk in &plan {
        assert_eq!(chunk[0], create("r"));
    }
    assert_eq!(plan[2], vec![create("r"), write("r/f12.js", "d12"), write("r/f13.js", "d13")]);
}

#[test]
fn chunk_counts_at_the_edges() {
    let make = |n: usize| -> Vec<FileEntry> {
        (0..n).map(|i| map_entry(&format!("f{}", i), "d")).collect()
    };
    assert_eq!(materialize_plan("r", &make(0)).len(), 0);
    assert_eq!(materialize_plan("r", &make(1)).len(), 1);
    assert_eq!(materialize_plan("r", &make(6)).len(), 1);
    assert_eq!(materialize_plan("r", &make(7)).len(), 2);
    assert_eq!(materialize_plan("r", &make(12)).len(), 2);
    assert_eq!(materialize_plan("r", &make(13)).len(), 3);
}

#[test]
fn every_entry_is_written_exactly_once() {
    let entries: Vec<FileEntry> = (0..20)
        .map(|i| map_entry(&format!("d{}/f{}.js", i % 3, i), &format!("sha256-{}", i)))
        .collect();
    let plan = materialize_plan("root", &entries);
    let mut written = Vec::new();
    for chunk in &plan {
        let mut made: Vec<&str> = Vec::new();
        for step in chunk {
            match step {
                Step::CreateDir { path } => {
                    assert!(!made.contains(&path.as_str()));
                    made.push(path);
                }
                Step::WriteFile { path, digest } => {
                    let dir = &path[..path.rfind('/').unwrap()];
                    assert!(made.contains(&dir));
                    written.push((path.clone(), digest.clone()));
                }
            }
        }
    }
    let expected: Vec<(String, String)> =
        entries.iter().map(|e| (format!("root/{}", e.path), e.digest.clone())).collect();
    assert_eq!(written, expected);
}

#[test]
fn equal_contents_are_left_untouched() {
    assert_eq!(write_decision(Some(b"abc"), b"abc"), WriteDecision::Keep);
    assert_eq!(write_decision(Some(b""), b""), WriteDecision::Keep);
}

#[test]
fn missing_or_different_contents_are_written() {
    assert_eq!(write_decision(None, b"abc"), WriteDecision::Write);
    assert_eq!(write_decision(None, b""), WriteDecision::Write);
    assert_eq!(write_decision(Some(b"abd"), b"abc"), WriteDecision::Write);
    assert_eq!(write_decision(Some(b"ab"), b"abc"), WriteDecision::Write);
    assert_eq!(write_decision(Some(b"abcd"), b"abc"), WriteDecision::Write);
}

#[test]
fn bytes_are_compared_in_full() {
    assert!(same_bytes(b"", b""));
    assert!(same_bytes(b"xyz", b"xyz"));
    assert!(!same_bytes(b"xyz", b"xyZ"));
    assert!(!same_bytes(b"xyz", b"xy"));
}
