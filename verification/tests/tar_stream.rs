use volt::tar::{list_entries, parse_octal, read_header, Header, TarEntry, BLOCK};

fn octal_field(value: u64, width: usize) -> Vec<u8> {
    let mut field = format!("{:0w$o}", value, w = width - 1).into_bytes();
    field.push(0);
    field
}

fn stream_header(name: &str, prefix: &str, size: usize, kind: u8, ustar: bool) -> Vec<u8> {
    let mut block = vec![0u8; 512];
    block[..name.len()].copy_from_slice(name.as_bytes());
    block[100..108].copy_from_slice(&octal_field(0o644, 8));
    block[108..116].copy_from_slice(&octal_field(0, 8));
    block[116..124].copy_from_slice(&octal_field(0, 8));
    block[124..136].copy_from_slice(&octal_field(size as u64, 12));
    block[136..148].copy_from_slice(&octal_field(0, 12));
    block[156] = kind;
    if ustar {
        block[257..263].copy_from_slice(b"ustar\0");
        block[263..265].copy_from_slice(b"00");
    }
    block[345..345 + prefix.len()].copy_from_slice(prefix.as_bytes());
    let mut sum: u64 = 0;
    for (i, b) in block.iter().enumerate() {
        sum += if (148..156).contains(&i) { 32 } else { *b as u64 };
    }
    let text = format!("{:06o}\0 ", sum);
    block[148..156].copy_from_slice(text.as_bytes());
    block
}

fn stream_entry(name: &str, contents: &[u8], kind: u8) -> Vec<u8> {
    let mut out = stream_header(name, "", contents.len(), kind, true);
    out.extend_from_slice(contents);
    while out.len() % 512 != 0 {
        out.push(0);
    }
    out
}

fn stream_end() -> Vec<u8> {
    vec![0u8; 1024]
}

#[test]
fn block_size_is_512() {
    assert_eq!(BLOCK, 512);
}

#[test]
fn octal_fields_are_read() {
    assert_eq!(parse_octal(b"0000644\0"), Some(0o644));
    assert_eq!(parse_octal(b"00000000013\0"), Some(11));
    assert_eq!(parse_octal(b"   17 \0"), Some(15));
    assert_eq!(parse_octal(b"7"), Some(7));
    assert_eq!(parse_octal(b"0"), Some(0));
    assert_eq!(parse_octal(b"010707\0 "), Some(0o10707));
}

#[test]
fn octal_fields_without_a_number_are_refused() {
    assert_eq!(parse_octal(b""), None);
    assert_eq!(parse_octal(b"\0\0\0\0"), None);
    assert_eq!(parse_octal(b"    "), None);
    assert_eq!(parse_octal(b"12a\0"), None);
    assert_eq!(parse_octal(b"8"), None);
    assert_eq!(parse_octal(b"12 3"), None);
    assert_eq!(parse_octal(b"\x80\0\0\0\0\0\0\x05"), None);
}

#[test]
fn octal_fields_that_do_not_fit_are_refused() {
    assert_eq!(parse_octal(b"1777777777777777777777"), Some(u64::MAX));
    assert_eq!(parse_octal(b"2000000000000000000000"), None);
    assert_eq!(parse_octal(b"77777777777777777777777777"), None);
}

#[test]
fn header_of_a_file_is_read() {
    let mut archive = stream_entry("package/index.js", b"hello", b'0');
    archive.extend(stream_end());
    assert_eq!(
        read_header(&archive, 0),
        Header::Entry(TarEntry {
            name: b"package/index.js".to_vec(),
            kind: b'0',
            start: 512,
            size: 5
        })
    );
    assert_eq!(read_header(&archive, 1024), Header::End);
}

#[test]
fn prefix_is_joined_in_posix_headers_only() {
    let mut posix = stream_header("core.js", "package/lib", 0, b'0', true);
    posix.extend(stream_end());
    match read_header(&posix, 0) {
        Header::Entry(e) => assert_eq!(e.name, b"package/lib/core.js".to_vec()),
        other => panic!("expected an entry, got {:?}", other),
    }
    let mut old = stream_header("core.js", "package/lib", 0, b'0', false);
    old.extend(stream_end());
    match read_header(&old, 0) {
        Header::Entry(e) => assert_eq!(e.name, b"core.js".to_vec()),
        other => panic!("expected an entry, got {:?}", other),
    }
}

#[test]
fn wrong_checksum_is_malformed() {
    let mut archive = stream_entry("package/a", b"x", b'0');
    archive[0] = b'q';
    archive.extend(stream_end());
    assert_eq!(read_header(&archive, 0), Header::Malformed);
    assert_eq!(list_entries(&archive), None);
}

#[test]
fn missing_data_is_malformed() {
    let header = stream_header("package/a", "", 600, b'0', true);
    let mut archive = header.clone();
    archive.extend(vec![7u8; 600]);
    // The data needs two blocks; only 600 bytes follow.
    assert_eq!(read_header(&archive, 0), Header::Malformed);
    archive.extend(vec![0u8; 424]);
    assert_eq!(
        read_header(&archive, 0),
        Header::Entry(TarEntry { name: b"package/a".to_vec(), kind: b'0', start: 512, size: 600 })
    );
}

#[test]
fn entries_are_listed_in_order() {
    let mut archive = stream_entry("package/", b"", b'5');
    archive.extend(stream_entry("package/index.js", b"module.exports = 1;\n", b'0'));
    archive.extend(stream_entry("package/lib/a.js", &vec![b'a'; 513], b'0'));
    archive.extend(stream_end());
    let entries = list_entries(&archive).unwrap();
    assert_eq!(
        entries,
        vec![
            TarEntry { name: b"package/".to_vec(), kind: b'5', start: 512, size: 0 },
            TarEntry { name: b"package/index.js".to_vec(), kind: b'0', start: 1024, size: 20 },
            TarEntry { name: b"package/lib/a.js".to_vec(), kind: b'0', start: 2048, size: 513 },
        ]
    );
    assert_eq!(&archive[1024..1044], b"module.exports = 1;\n");
}

#[test]
fn empty_stream_has_no_entries() {
    assert_eq!(list_entries(&[]), Some(Vec::new()));
    assert_eq!(list_entries(&stream_end()), Some(Vec::new()));
}

#[test]
fn stream_may_end_without_zero_blocks() {
    let archive = stream_entry("package/a", b"x", b'0');
    assert_eq!(list_entries(&archive).unwrap().len(), 1);
}

#[test]
fn entries_after_the_end_marker_are_not_listed() {
    let mut archive = stream_entry("package/a", b"x", b'0');
    archive.extend(vec![0u8; 512]);
    archive.extend(stream_entry("package/b", b"y", b'0'));
    assert_eq!(list_entries(&archive).unwrap().len(), 1);
}

#[test]
fn truncated_header_is_refused() {
    let mut archive = stream_entry("package/a", b"x", b'0');
    archive.extend(vec![1u8; 100]);
    assert_eq!(list_entries(&archive), None);
    assert_eq!(list_entries(&[0u8; 10]), None);
}
