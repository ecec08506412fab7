use volt::errors::InstallError;
use volt::gzip::{decompress_gzip, finish_decompress, read_trailer_size};

// "hello world", compressed with gzip.
const HELLO_GZ: [u8; 31] = [
    31, 139, 8, 0, 0, 0, 0, 0, 2, 255, 203, 72, 205, 201, 201, 87, 40, 207, 47, 202, 73, 1, 0, 133,
    17, 74, 13, 11, 0, 0, 0,
];

// The empty input, compressed with gzip.
const EMPTY_GZ: [u8; 20] = [31, 139, 8, 0, 0, 0, 0, 0, 2, 255, 3, 0, 0, 0, 0, 0, 0, 0, 0, 0];

#[test]
fn trailer_is_read_least_significant_byte_first() {
    assert_eq!(read_trailer_size(&HELLO_GZ), Some(11));
    assert_eq!(read_trailer_size(&[1, 2, 3, 4]), Some(0x04030201));
    assert_eq!(read_trailer_size(&[9, 9, 0, 1, 0, 0]), Some(256));
    assert_eq!(read_trailer_size(&[255, 255, 255, 255]), Some(u32::MAX));
}

#[test]
fn trailer_needs_four_bytes() {
    assert_eq!(read_trailer_size(&[]), None);
    assert_eq!(read_trailer_size(&[1, 2, 3]), None);
}

#[test]
fn gzip_stream_is_decompressed() {
    assert_eq!(decompress_gzip(&HELLO_GZ), Ok(b"hello world".to_vec()));
}

#[test]
fn output_has_the_length_of_the_trailer() {
    let out = decompress_gzip(&HELLO_GZ).unwrap();
    assert_eq!(out.len() as u32, read_trailer_size(&HELLO_GZ).unwrap());
}

#[test]
fn empty_member_gives_empty_output() {
    assert_eq!(decompress_gzip(&EMPTY_GZ), Ok(Vec::new()));
}

#[test]
fn short_input_is_a_decompress_error() {
    assert_eq!(decompress_gzip(&[]), Err(InstallError::Decompress));
    assert_eq!(decompress_gzip(&[31, 139, 8]), Err(InstallError::Decompress));
}

#[test]
fn corrupt_stream_is_a_decompress_error() {
    let mut bad = HELLO_GZ.to_vec();
    bad[12] ^= 0x55;
    assert_eq!(decompress_gzip(&bad), Err(InstallError::Decompress));
    assert_eq!(decompress_gzip(&[0, 0, 0, 0, 0, 0, 0, 0]), Err(InstallError::Decompress));
}

#[test]
fn wrong_trailer_is_a_decompress_error() {
    // The announced length is smaller than the data: no room in the buffer.
    let mut short = HELLO_GZ.to_vec();
    let n = short.len();
    short[n - 4] = 3;
    assert_eq!(decompress_gzip(&short), Err(InstallError::Decompress));
    // Bytes after the member change what the last four bytes say.
    let mut trailing = HELLO_GZ.to_vec();
    trailing.extend_from_slice(&[20, 0, 0, 0]);
    assert_eq!(decompress_gzip(&trailing), Err(InstallError::Decompress));
}

#[test]
fn finished_decompression_is_judged_by_its_count() {
    assert_eq!(finish_decompress(Ok(3), vec![1, 2, 3]), Ok(vec![1, 2, 3]));
    assert_eq!(finish_decompress(Ok(2), vec![1, 2, 3]), Err(InstallError::Decompress));
    assert_eq!(finish_decompress(Ok(0), Vec::new()), Ok(Vec::new()));
    assert_eq!(
        finish_decompress(Err(libdeflater::DecompressionError::BadData), vec![0; 4]),
        Err(InstallError::Decompress)
    );
    assert_eq!(
        finish_decompress(Err(libdeflater::DecompressionError::InsufficientSpace), vec![0; 4]),
        Err(InstallError::Decompress)
    );
}
