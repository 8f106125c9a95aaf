use sagens::config::{GuestConfig, GuestKernelFormat, HostPlatform};
use sagens::digest::{decode_hex, decode_hex_nibble, hex_sha256, hex_string, verify_sha256};
use sagens::images::{
    base_manifest, default_guest_arch, image_files, rootfs_tar_name, validate_image_name,
    GuestSource, ImageBuildSpec, ImageLookup, ImageStore, VmImageManifest, BASE_IMAGE_NAME,
};
use sagens::packages::{
    first_field, join_fields, load_indexes, normalize_dep, package_fields, resolve_packages,
    strip_constraint, wanted_apk_packages, Package,
};
use sagens::paths::{archive_member_matches, ext4_path, join_path};
use sagens::textmap::TextMap;

fn host() -> HostPlatform {
    HostPlatform { os: "linux".to_string(), arch: "x86_64".to_string() }
}

fn guest() -> GuestConfig {
    GuestConfig {
        libkrun_library: "/lib/libkrun.so".to_string(),
        kernel_image: "/box/vmlinux".to_string(),
        kernel_format: GuestKernelFormat::Raw,
        rootfs_image: "/box/rootfs.raw".to_string(),
        firmware: None,
        guest_agent_path: "/usr/local/bin/sagens-guest-agent".to_string(),
        guest_vsock_port: 11_000,
        boot_timeout_ms: 30_000,
        guest_uid: 65_534,
        guest_gid: 65_534,
        guest_tmpfs_mib: 256,
    }
}

#[test]
fn validates_image_names() {
    assert!(validate_image_name("chromium").is_ok());
    assert!(validate_image_name("py_312").is_ok());
    assert!(validate_image_name("../nope").is_err());
}

#[test]
fn rejects_empty_and_hidden_image_names() {
    assert!(validate_image_name("").is_err());
    assert!(validate_image_name(".hidden").is_err());
    assert!(validate_image_name(&"a".repeat(129)).is_err());
    assert!(validate_image_name(&"a".repeat(128)).is_ok());
}

#[test]
fn base_image_name_is_stable() {
    assert_eq!(BASE_IMAGE_NAME, "base");
}

#[test]
fn wanted_apk_packages_include_base_and_extra() {
    let wanted = wanted_apk_packages(&vec!["chromium".to_string(), "python3".to_string()], false);
    assert!(wanted.iter().any(|package| package == "chromium"));
    assert!(wanted.iter().any(|package| package == "python3"));
    assert!(wanted.iter().any(|package| package == "linux-virt"));
}

#[test]
fn wanted_apk_packages_include_npm_when_cache_requested() {
    let wanted = wanted_apk_packages(&vec![], true);
    assert!(wanted.iter().any(|package| package == "npm"));
}

#[test]
fn wanted_apk_packages_are_sorted_trimmed_and_unique() {
    let wanted = wanted_apk_packages(&vec!["  zsh ".to_string(), "bash".to_string(), "   ".to_string()], false);
    assert_eq!(
        wanted,
        vec![
            "bash",
            "busybox-binsh",
            "ca-certificates-bundle",
            "linux-virt",
            "py3-pip",
            "python3",
            "zsh"
        ]
    );
}

#[test]
fn normalizes_virtual_providers() {
    let mut providers = TextMap::new();
    providers.insert("cmd:chromium".to_string(), "chromium".to_string());
    providers.insert("so:libx.so.1".to_string(), "libx".to_string());
    assert_eq!(normalize_dep(&providers, "cmd:chromium"), Some("chromium".to_string()));
    assert_eq!(normalize_dep(&providers, "so:libx.so.1>=1"), Some("libx".to_string()));
    assert_eq!(normalize_dep(&providers, "bash"), Some("bash".to_string()));
    assert_eq!(strip_constraint("pkg>=1"), "pkg");
}

#[test]
fn unknown_virtual_names_and_blank_tokens_name_nothing() {
    let providers: TextMap<String> = TextMap::new();
    assert_eq!(normalize_dep(&providers, "so:libmissing.so"), None);
    assert_eq!(normalize_dep(&providers, "  "), None);
    assert_eq!(normalize_dep(&providers, "!conflict"), None);
    assert_eq!(strip_constraint(" musl~1.2 "), "musl");
}

#[test]
fn reads_package_fields_in_order() {
    let fields = package_fields("P:bash\nV:5.2\nD:so:libc.musl.so.1 readline\nD:ncurses\nnot a field");
    assert_eq!(first_field(&fields, "P"), Some("bash".to_string()));
    assert_eq!(first_field(&fields, "X"), None);
    assert_eq!(join_fields(&fields, "D"), vec!["so:libc.musl.so.1", "readline", "ncurses"]);
}

const MAIN_INDEX: &str = "P:bash\nV:5.2-r0\nD:so:libreadline.so.8 musl\np:cmd:bash=5.2\n\nP:readline\nV:8.2-r1\nD:musl\np:so:libreadline.so.8=8.2\n\nP:musl\nV:1.2.5-r0\n";
const COMMUNITY_INDEX: &str = "P:chromium\nV:130-r0\nD:bash missing-lib\n";

#[test]
fn resolves_dependencies_through_providers_sorted_by_name() {
    let (packages, providers) = load_indexes(MAIN_INDEX, "");
    let resolved = resolve_packages(&packages, &providers, &vec!["cmd:bash".to_string()]).expect("resolve");
    let names: Vec<&str> = resolved.iter().map(|p| p.name.as_str()).collect();
    assert_eq!(names, vec!["bash", "musl", "readline"]);
    assert_eq!(resolved[0].file_name(), "bash-5.2-r0.apk");
    assert_eq!(resolved[0].repo, "main");
}

#[test]
fn reports_a_needed_package_missing_from_the_index() {
    let (packages, providers) = load_indexes(MAIN_INDEX, COMMUNITY_INDEX);
    let error = resolve_packages(&packages, &providers, &vec!["chromium".to_string()]).unwrap_err();
    assert_eq!(error, "missing package in APKINDEX: missing-lib");
}

#[test]
fn reports_the_missing_package_met_first() {
    let (packages, providers) = load_indexes(MAIN_INDEX, "");
    let wanted = vec!["alpha-missing".to_string(), "bash".to_string(), "omega-missing".to_string()];
    let error = resolve_packages(&packages, &providers, &wanted).unwrap_err();
    assert_eq!(error, "missing package in APKINDEX: omega-missing");
    let wanted = vec!["alpha-missing".to_string(), "bash".to_string()];
    let error = resolve_packages(&packages, &providers, &wanted).unwrap_err();
    assert_eq!(error, "missing package in APKINDEX: alpha-missing");
}

#[test]
fn package_file_name_joins_name_and_version() {
    let package = Package {
        name: "bash".to_string(),
        version: "5.2-r0".to_string(),
        repo: "main".to_string(),
        depends: vec![],
        provides: vec![],
    };
    assert_eq!(package.file_name(), "bash-5.2-r0.apk");
}

#[test]
fn image_store_paths() {
    let store = ImageStore::new("/var/lib/sagens".to_string());
    assert_eq!(store.images_dir(), "/var/lib/sagens/images");
    assert_eq!(store.image_dir("chromium"), "/var/lib/sagens/images/chromium");
    assert_eq!(store.package_cache_dir(), "/var/lib/sagens/package-cache");
    let layout = store.ensure_layout();
    assert_eq!(layout[0].1, "creating images directory");
    assert_eq!(layout[1].0, "/var/lib/sagens/package-cache");
}

#[test]
fn inspect_knows_the_base_image_and_finds_stored_manifests() {
    let store = ImageStore::new("/state".to_string());
    match store.inspect("base", &host()).expect("base") {
        ImageLookup::Base(manifest) => {
            assert_eq!(manifest.arch, "x86_64");
            assert_eq!(manifest.package_count, 6);
            assert_eq!(manifest.kernel_image, "default runtime kernel");
        }
        ImageLookup::Stored { .. } => panic!("base image is not stored"),
    }
    match store.inspect("chromium", &host()).expect("stored") {
        ImageLookup::Stored { manifest_path } => assert_eq!(manifest_path, "/state/images/chromium/image.json"),
        ImageLookup::Base(_) => panic!("not the base image"),
    }
    assert!(store.inspect("../etc", &host()).is_err());
}

#[test]
fn base_image_cannot_be_removed() {
    let store = ImageStore::new("/state".to_string());
    assert_eq!(
        store.removal_target("base").unwrap_err().to_message(),
        "invalid configuration: base image cannot be removed"
    );
    assert_eq!(store.removal_target("py").unwrap(), "/state/images/py");
}

#[test]
fn resolves_stored_image_guest_files() {
    let store = ImageStore::new("/state".to_string());
    let (dir, _) = match store.resolve_guest("py", &guest()).expect("resolve") {
        GuestSource::Stored { image_dir, manifest_path } => (image_dir, manifest_path),
        GuestSource::Base(_) => panic!("stored image expected"),
    };
    let manifest = VmImageManifest {
        version: 1,
        name: "py".to_string(),
        arch: "x86_64".to_string(),
        alpine_version: "3.23.4".to_string(),
        created_at_ms: 5,
        apk: vec![],
        pip: vec![],
        npm: vec![],
        kernel_image: "vmlinuz-virt".to_string(),
        rootfs_image: "rootfs.raw".to_string(),
        cache_image: Some("cache.raw".to_string()),
        package_count: 1,
    };
    let files = image_files(&dir, &manifest);
    assert_eq!(files.kernel_image, "/state/images/py/vmlinuz-virt");
    assert_eq!(files.cache_image, Some("/state/images/py/cache.raw".to_string()));
    match store.resolve_guest("base", &guest()).expect("base") {
        GuestSource::Base(resolved) => assert_eq!(resolved.guest.rootfs_image, "/box/rootfs.raw"),
        GuestSource::Stored { .. } => panic!("base expected"),
    }
}

#[test]
fn plans_an_image_build() {
    let store = ImageStore::new("/state".to_string());
    let spec = ImageBuildSpec {
        state_dir: "/state".to_string(),
        name: "py".to_string(),
        apk: vec!["git".to_string()],
        pip: vec![],
        npm: vec![],
        min_image_mib: 100,
        force_refresh: false,
        base_guest: guest(),
    };
    let plan = store.build(&spec, &host(), false, 0x0123_4567_89ab_cdef_0123_4567_89ab_cdef).expect("plan");
    assert_eq!(plan.build_dir, "/state/images/.build-py-0123456789abcdef0123456789abcdef");
    assert_eq!(plan.apk_dir, "/state/package-cache/alpine/v3.23/x86_64/apk");
    assert_eq!(plan.rootfs_tar_name, "alpine-minirootfs-3.23.4-x86_64.tar.gz");
    assert_eq!(plan.rootfs_mib, 512);
    let error = store.build(&spec, &host(), true, 1).unwrap_err();
    assert_eq!(
        error.to_message(),
        "backend failure: building image py: image py already exists; pass --force-refresh to rebuild it"
    );
    let mut reserved = spec.clone();
    reserved.name = "base".to_string();
    assert_eq!(
        store.build(&reserved, &host(), false, 1).unwrap_err().to_message(),
        "backend failure: building image base: base image is reserved"
    );
}

#[test]
fn default_guest_arch_follows_the_host() {
    assert_eq!(default_guest_arch(&host()).unwrap(), "x86_64");
    let arm = HostPlatform { os: "macos".to_string(), arch: "aarch64".to_string() };
    assert_eq!(default_guest_arch(&arm).unwrap(), "aarch64");
    let other = HostPlatform { os: "windows".to_string(), arch: "x86_64".to_string() };
    assert!(default_guest_arch(&other).is_err());
    assert_eq!(base_manifest(&other).arch, "unknown");
}

#[test]
fn rootfs_tarball_is_named_by_arch() {
    assert_eq!(rootfs_tar_name("aarch64"), "alpine-minirootfs-3.23.4-aarch64.tar.gz");
}

#[test]
fn decodes_hex_digests() {
    assert_eq!(decode_hex(b"00ff10Ab").unwrap(), vec![0x00, 0xff, 0x10, 0xab]);
    assert_eq!(decode_hex(b"abc").unwrap_err(), "hex string has odd length");
    assert_eq!(decode_hex(b"zz").unwrap_err(), "invalid hex byte z");
    assert_eq!(decode_hex_nibble(b'F').unwrap(), 15);
}

#[test]
fn hex_text_decodes_back() {
    let bytes = vec![0u8, 1, 127, 128, 255, 16];
    let text = hex_string(&bytes);
    assert_eq!(text, "00017f80ff10");
    assert_eq!(decode_hex(text.as_bytes()).unwrap(), bytes);
}

#[test]
fn sha256_hex_matches_known_digest() {
    assert_eq!(
        hex_sha256(b"abc"),
        "ba7816bf8f01cfea414140de5dae2223b00361a396177a9cb410ff61f20015ad"
    );
}

#[test]
fn checks_sha256_files() {
    let digest = decode_hex(hex_sha256(b"payload").as_bytes()).unwrap();
    let line = format!("{}  rootfs.tar.gz\n", hex_sha256(b"payload"));
    assert!(verify_sha256("/d/rootfs.tar.gz", "rootfs.tar.gz", &line, &digest).is_ok());
    assert_eq!(
        verify_sha256("/d/rootfs.tar.gz", "other.tar.gz", &line, &digest).unwrap_err(),
        "checksum file name does not match payload name"
    );
    assert_eq!(
        verify_sha256("/d/rootfs.tar.gz", "rootfs.tar.gz", "no separator", &digest).unwrap_err(),
        "invalid .sha256 format"
    );
    assert_eq!(
        verify_sha256("/d/rootfs.tar.gz", "rootfs.tar.gz", &line, &[0u8; 32]).unwrap_err(),
        "sha256 mismatch for /d/rootfs.tar.gz"
    );
}

#[test]
fn matches_tar_members_with_or_without_dot_prefix() {
    assert!(archive_member_matches("APKINDEX", "APKINDEX"));
    assert!(archive_member_matches("./APKINDEX", "APKINDEX"));
    assert!(archive_member_matches("a//b/./c", "a/b/c"));
    assert!(!archive_member_matches("other/APKINDEX", "APKINDEX"));
    assert!(!archive_member_matches("/APKINDEX", "APKINDEX"));
}

#[test]
fn ext4_paths_are_absolute_with_forward_slashes() {
    assert_eq!(ext4_path("usr\\bin/bash"), "/usr/bin/bash");
    assert_eq!(ext4_path(""), "/");
}

#[test]
fn joins_paths_like_the_standard_library() {
    assert_eq!(join_path("/a", "b"), "/a/b");
    assert_eq!(join_path("/a/", "b"), "/a/b");
    assert_eq!(join_path("/a", "/b"), "/b");
    assert_eq!(join_path("", "b"), "b");
}
