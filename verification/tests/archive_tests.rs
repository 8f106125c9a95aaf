use sagens::archive::{member_from_scan, tar_gz_member, TarMember, TarStage};
use sagens::bundle::{
    check_krunfw_kernel, decompression_outcome, libkrunfw_kernel_disabled, libkrunfw_kernel_path,
    materialize_asset, Compression, EmbeddedAsset,
};
use sagens::error::SandboxError;
use std::io::Write;

fn tar_gz(members: &[(&str, &[u8])]) -> Vec<u8> {
    let mut builder = tar::Builder::new(Vec::new());
    for (path, contents) in members {
        let mut header = tar::Header::new_gnu();
        header.set_size(contents.len() as u64);
        header.set_mode(0o644);
        header.set_cksum();
        builder.append_data(&mut header, path, *contents).unwrap();
    }
    let tar = builder.into_inner().unwrap();
    let mut encoder = flate2::write::GzEncoder::new(Vec::new(), flate2::Compression::default());
    encoder.write_all(&tar).unwrap();
    encoder.finish().unwrap()
}

#[test]
fn extracts_named_member_from_tar_gz() {
    let archive = tar_gz(&[("DESCRIPTION", b"v3.23"), ("APKINDEX", b"P:musl\nV:1.2.5\n")]);
    let member = tar_gz_member(&archive, "APKINDEX.tar.gz", "APKINDEX").unwrap();
    assert_eq!(member, b"P:musl\nV:1.2.5\n".to_vec());
}

#[test]
fn extracts_member_behind_leading_dot() {
    let archive = tar_gz(&[("./APKINDEX", b"index")]);
    let member = tar_gz_member(&archive, "idx.tar.gz", "APKINDEX").unwrap();
    assert_eq!(member, b"index".to_vec());
}

#[test]
fn reports_missing_tar_member() {
    let archive = tar_gz(&[("DESCRIPTION", b"v3.23")]);
    let error = tar_gz_member(&archive, "idx.tar.gz", "APKINDEX").unwrap_err();
    assert_eq!(error, "missing tar member APKINDEX in idx.tar.gz");
}

#[test]
fn reports_undecodable_gzip_with_context() {
    let error = tar_gz_member(b"not gzip", "idx.tar.gz", "APKINDEX").unwrap_err();
    assert!(error.starts_with("reading tar entry from idx.tar.gz: "));
}

fn noise(n: usize) -> Vec<u8> {
    let mut x: u32 = 12345;
    (0..n)
        .map(|_| {
            x = x.wrapping_mul(1103515245).wrapping_add(12345);
            (x >> 16) as u8
        })
        .collect()
}

fn member(path: &str, size: u64, contents: &[u8]) -> TarMember {
    TarMember { path: path.to_string(), size, contents: contents.to_vec() }
}

#[test]
fn first_matching_member_wins() {
    let members = vec![member("a", 1, b"1"), member("./b", 1, b"2"), member("b", 1, b"3")];
    assert_eq!(member_from_scan("x.tar", "b", &members, None, &None), Ok(b"2".to_vec()));
    assert_eq!(
        member_from_scan("x.tar", "c", &members, None, &None),
        Err("missing tar member c in x.tar".to_string())
    );
    let error = member_from_scan("x.tar", "m", &Vec::new(), Some((TarStage::Entry, "bad header".to_string())), &None);
    assert_eq!(error, Err("reading tar entry from x.tar: bad header".to_string()));
    let error = member_from_scan("x.tar", "m", &Vec::new(), Some((TarStage::Entries, "no".to_string())), &None);
    assert_eq!(error, Err("reading tar entries from x.tar: no".to_string()));
    let error = member_from_scan("x.tar", "m", &Vec::new(), Some((TarStage::Path, "bad".to_string())), &None);
    assert_eq!(error, Err("reading tar path from x.tar: bad".to_string()));
}

#[test]
fn gzip_failures_are_told_where_they_struck() {
    let gz = Some("corrupt deflate stream".to_string());
    let cut = vec![member("a", 1, b"1"), member("m", 10, b"12")];
    assert_eq!(
        member_from_scan("x.tar.gz", "m", &cut, None, &gz),
        Err("extracting m from x.tar.gz: corrupt deflate stream".to_string())
    );
    assert_eq!(
        member_from_scan("x.tar.gz", "z", &cut, None, &gz),
        Err("reading tar entry from x.tar.gz: corrupt deflate stream".to_string())
    );
    assert_eq!(member_from_scan("x.tar.gz", "a", &cut, None, &gz), Ok(b"1".to_vec()));
    let stopped = Some((TarStage::Contents("m".to_string()), "short".to_string()));
    assert_eq!(
        member_from_scan("x.tar.gz", "m", &Vec::new(), stopped, &None),
        Err("extracting m from x.tar.gz: short".to_string())
    );
}

#[test]
fn member_before_damaged_data_is_still_extracted() {
    let tail = noise(200_000);
    let archive = tar_gz(&[("APKINDEX", b"P:musl\n"), ("big", &tail)]);
    let damaged = &archive[..archive.len() * 2 / 3];
    assert_eq!(tar_gz_member(damaged, "idx.tar.gz", "APKINDEX").unwrap(), b"P:musl\n".to_vec());
    let error = tar_gz_member(damaged, "idx.tar.gz", "big").unwrap_err();
    assert!(error.starts_with("extracting big from idx.tar.gz: "), "{error}");
    let error = tar_gz_member(damaged, "idx.tar.gz", "other").unwrap_err();
    assert!(error.starts_with("reading tar entry from idx.tar.gz: "), "{error}");
}

#[test]
fn materializes_zstd_asset() {
    let original = b"kernel image bytes kernel image bytes".to_vec();
    let compressed = zstd::encode_all(&original[..], 3).unwrap();
    let asset = EmbeddedAsset {
        file_name: "vmlinux".to_string(),
        bytes: compressed,
        compression: Compression::Zstd,
        mode: 0o644,
    };
    assert_eq!(materialize_asset(&asset).unwrap(), original);
    let plain = EmbeddedAsset { compression: Compression::Uncompressed, ..asset.clone() };
    assert_eq!(materialize_asset(&plain).unwrap(), asset.bytes);
}

#[test]
fn reports_bad_zstd_asset() {
    let asset = EmbeddedAsset {
        file_name: "rootfs.ext4".to_string(),
        bytes: b"plain".to_vec(),
        compression: Compression::Zstd,
        mode: 0o644,
    };
    match materialize_asset(&asset) {
        Err(SandboxError::Backend(message)) => {
            assert!(message.starts_with("decompressing embedded asset rootfs.ext4: "))
        }
        other => panic!("unexpected {other:?}"),
    }
    match decompression_outcome("lib.so", Err("Unknown frame descriptor".to_string())) {
        Err(SandboxError::Backend(message)) => {
            assert_eq!(message, "decompressing embedded asset lib.so: Unknown frame descriptor")
        }
        other => panic!("unexpected {other:?}"),
    }
}

#[test]
fn libkrunfw_kernel_settings_and_checks() {
    for off in ["0", "false", "no", "off"] {
        assert!(libkrunfw_kernel_disabled(Some(off)));
    }
    assert!(!libkrunfw_kernel_disabled(Some("1")));
    assert!(!libkrunfw_kernel_disabled(Some("OFF")));
    assert!(!libkrunfw_kernel_disabled(None));
    assert_eq!(libkrunfw_kernel_path("/state/bundle"), "/state/bundle/libkrunfw-kernel.Image");
    assert!(check_krunfw_kernel(false, 4096, 0x8000, 0x8000).is_ok());
    match check_krunfw_kernel(true, 4096, 1, 1) {
        Err(SandboxError::Backend(m)) => assert_eq!(m, "libkrunfw returned an empty kernel bundle"),
        other => panic!("unexpected {other:?}"),
    }
    match check_krunfw_kernel(false, 4096, 0, 1) {
        Err(SandboxError::Backend(m)) => assert_eq!(m, "libkrunfw returned an invalid kernel load address"),
        other => panic!("unexpected {other:?}"),
    }
}
