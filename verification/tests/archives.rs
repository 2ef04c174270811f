use std::io::Write;

use clash_launcher::archive::{extract_archive, parse_tar, ArchiveEntry};
use clash_launcher::errors::LauncherError;

fn b(s: &str) -> Vec<u8> {
    s.as_bytes().to_vec()
}

fn tar_header(name: &str, size: usize, typeflag: u8) -> Vec<u8> {
    let mut h = vec![0u8; 512];
    let name_bytes = name.as_bytes();
    h[..name_bytes.len()].copy_from_slice(name_bytes);
    let size_field = format!("{:011o}\0", size);
    h[124..136].copy_from_slice(size_field.as_bytes());
    h[156] = typeflag;
    h
}

fn tar_file(name: &str, data: &[u8]) -> Vec<u8> {
    let mut out = tar_header(name, data.len(), b'0');
    out.extend_from_slice(data);
    let pad = (512 - data.len() % 512) % 512;
    out.extend(std::iter::repeat(0u8).take(pad));
    out
}

fn tar_dir(name: &str) -> Vec<u8> {
    tar_header(name, 0, b'5')
}

fn tar_end() -> Vec<u8> {
    vec![0u8; 1024]
}

fn gzip(data: &[u8]) -> Vec<u8> {
    let mut enc =
        flate2::write::GzEncoder::new(Vec::new(), flate2::Compression::default());
    enc.write_all(data).unwrap();
    enc.finish().unwrap()
}

#[test]
fn extraction_reproduces_archive_structure() {
    let mut tar = Vec::new();
    tar.extend(tar_dir("pkg/"));
    tar.extend(tar_file("pkg/hello.txt", b"hello world\n"));
    let big: Vec<u8> = (0u16..600).map(|i| (i % 256) as u8).collect();
    tar.extend(tar_file("pkg/big.bin", &big));
    tar.extend(tar_end());
    let archive = gzip(&tar);

    let entries = extract_archive(&archive, &b("updates/client.tar.gz"), &b("client_update"))
        .expect("well-formed archive extracts");
    assert_eq!(entries.len(), 3);
    assert_eq!(entries[0].path, b("pkg/"));
    assert!(entries[0].is_dir);
    assert_eq!(entries[0].data, Vec::<u8>::new());
    assert_eq!(entries[1].path, b("pkg/hello.txt"));
    assert!(!entries[1].is_dir);
    assert_eq!(entries[1].data, b"hello world\n".to_vec());
    assert_eq!(entries[2].path, b("pkg/big.bin"));
    assert_eq!(entries[2].data, big);
}

#[test]
fn extraction_rejects_non_gzip_input() {
    let r = extract_archive(&b("this is not a gzip stream"), &b("updates/server.tar.gz"),
        &b("server_update"));
    assert_eq!(
        r,
        Err(LauncherError::ExtractionError {
            archive: b("updates/server.tar.gz"),
            dest: b("server_update"),
        })
    );
}

#[test]
fn extraction_rejects_truncated_tar() {
    let mut tar = tar_file("a.txt", b"data");
    tar.truncate(600);
    let archive = gzip(&tar);
    let r = extract_archive(&archive, &b("updates/client.tar.gz"), &b("client_update"));
    assert_eq!(
        r,
        Err(LauncherError::ExtractionError {
            archive: b("updates/client.tar.gz"),
            dest: b("client_update"),
        })
    );
}

#[test]
fn empty_tar_has_no_entries() {
    assert_eq!(parse_tar(&Vec::new()), Some(Vec::<ArchiveEntry>::new()));
    assert_eq!(parse_tar(&tar_end()), Some(Vec::<ArchiveEntry>::new()));
}

#[test]
fn malformed_size_field_is_rejected() {
    let mut h = tar_header("weird", 0, b'0');
    h[124] = b'9';
    assert_eq!(parse_tar(&h), None);
}

#[test]
fn unreported_entry_types_are_skipped() {
    let mut tar = Vec::new();
    tar.extend(tar_header("a-symlink", 0, b'2'));
    tar.extend(tar_file("real.txt", b"x"));
    tar.extend(tar_end());
    let entries = parse_tar(&tar).expect("parses");
    assert_eq!(entries.len(), 1);
    assert_eq!(entries[0].path, b("real.txt"));
}
