//! VM images: their names, the manifest stored beside each image, where the
//! image store keeps them, and how an image turns into a guest
//! configuration. Building one is planned here and carried out by the host.

use vstd::prelude::*;
use crate::config::{GuestConfig, GuestKernelFormat, HostPlatform};
use crate::error::SandboxError;
use crate::ids::{uuid_hex, uuid_simple};
use crate::paths::{join_path, path_join};
use crate::protocol::strs;
use crate::text::{chars_eq, chars_of, owned, string_of, text2, text3, str_lt, str_lt_exec, lemma_str_lt_total, lemma_str_lt_transitive, lemma_str_lt_asymmetric};
use vstd::seq_lib::to_multiset_insert;

verus! {

/// The image every BOX gets unless it names another; it is the runtime's
/// own guest and cannot be built or removed.
pub const BASE_IMAGE_NAME: &'static str = "base";

/// The Alpine release images are built from.
pub const ALPINE_VERSION: &'static str = "3.23.4";

/// The file, in an image's directory, that describes the image.
pub const IMAGE_MANIFEST: &'static str = "image.json";

/// The smallest root filesystem an image gets, in MiB.
pub const DEFAULT_IMAGE_MIB: u64 = 512;

/// The size of an image's package cache filesystem, in MiB.
pub const CACHE_IMAGE_MIB: u64 = 64;

/// The Alpine packages every image holds.
pub open spec fn base_apk_packages() -> Seq<Seq<char>> {
    seq!["bash"@, "python3"@, "py3-pip"@, "ca-certificates-bundle"@, "busybox-binsh"@, "linux-virt"@]
}

pub fn base_apk_package_list() -> (v: Vec<String>)
    ensures
        strs(v@) == base_apk_packages(),
{
    let v = vec![
        owned("bash"),
        owned("python3"),
        owned("py3-pip"),
        owned("ca-certificates-bundle"),
        owned("busybox-binsh"),
        owned("linux-virt"),
    ];
    assert(strs(v@) =~= base_apk_packages());
    v
}

/// What `image.json` records about an image.
#[derive(Debug, Clone)]
pub struct VmImageManifest {
    pub version: u32,
    pub name: String,
    pub arch: String,
    pub alpine_version: String,
    pub created_at_ms: u64,
    pub apk: Vec<String>,
    pub pip: Vec<String>,
    pub npm: Vec<String>,
    pub kernel_image: String,
    pub rootfs_image: String,
    pub cache_image: Option<String>,
    pub package_count: usize,
}

/// What to build: the image's name, its extra packages, and the guest it
/// starts from.
#[derive(Debug, Clone)]
pub struct ImageBuildSpec {
    pub state_dir: String,
    pub name: String,
    pub apk: Vec<String>,
    pub pip: Vec<String>,
    pub npm: Vec<String>,
    pub min_image_mib: u64,
    pub force_refresh: bool,
    pub base_guest: GuestConfig,
}

/// The guest an image boots, and its package cache filesystem if it has one.
#[derive(Debug, Clone)]
pub struct ResolvedImageGuest {
    pub guest: GuestConfig,
    pub cache_image: Option<String>,
}

/// A character allowed in a persisted id.
pub open spec fn id_char(c: char) -> bool {
    ('a' <= c && c <= 'z') || ('A' <= c && c <= 'Z') || ('0' <= c && c <= '9') || c == '-' || c == '_'
        || c == '.'
}

/// Why `value` cannot name something stored on disk, if it cannot: it is
/// used as a single path component, so it must be short, made of a safe
/// alphabet, and must not start with a dot.
pub open spec fn persisted_id_problem(value: Seq<char>, label: Seq<char>) -> Option<Seq<char>> {
    if value.len() == 0 {
        Some(label + " must not be empty"@)
    } else if value.len() > 128 {
        Some(label + " must be at most 128 characters"@)
    } else if value[0] == '.' {
        Some(label + " must not start with '.'"@)
    } else if exists|i: int| 0 <= i < value.len() && !id_char(#[trigger] value[i]) {
        Some(label + " may only contain ASCII letters, digits, '-', '_' and '.'"@)
    } else {
        None
    }
}

fn id_char_exec(c: char) -> (r: bool)
    ensures
        r == id_char(c),
{
    ('a' <= c && c <= 'z') || ('A' <= c && c <= 'Z') || ('0' <= c && c <= '9') || c == '-' || c == '_'
        || c == '.'
}

fn invalid_with(label: &str, rest: &str) -> (e: SandboxError)
    ensures
        e is InvalidConfig && e->InvalidConfig_0@ == label@ + rest@,
{
    SandboxError::invalid(text3(label, &Vec::new(), rest))
}

/// Checks that `value` can name something kept on disk (see
/// `persisted_id_problem`); `label` says what it names.
pub fn validate_persisted_id(value: &str, label: &str) -> (r: Result<(), SandboxError>)
    ensures
        match r {
            Ok(()) => persisted_id_problem(value@, label@) is None,
            Err(e) => e is InvalidConfig && persisted_id_problem(value@, label@) == Some(e->InvalidConfig_0@),
        },
{
    let v = chars_of(value);
    let n = v.len();
    if n == 0 {
        return Err(invalid_with(label, " must not be empty"));
    }
    if n > 128 {
        return Err(invalid_with(label, " must be at most 128 characters"));
    }
    if v[0] == '.' {
        return Err(invalid_with(label, " must not start with '.'"));
    }
    let mut i: usize = 0;
    while i < n
        invariant
            n == v@.len(),
            v@ == value@,
            0 < n <= 128,
            v@[0] != '.',
            i <= n,
            forall|j: int| 0 <= j < i ==> id_char(#[trigger] v@[j]),
        decreases n - i,
    {
        if !id_char_exec(v[i]) {
            assert(!id_char(value@[i as int]));
            return Err(invalid_with(label, " may only contain ASCII letters, digits, '-', '_' and '.'"));
        }
        i = i + 1;
    }
    Ok(())
}

/// Checks an image name (see `persisted_id_problem`).
pub fn validate_image_name(name: &str) -> (r: Result<(), SandboxError>)
    ensures
        match r {
            Ok(()) => persisted_id_problem(name@, "image name"@) is None,
            Err(e) => e is InvalidConfig && persisted_id_problem(name@, "image name"@) == Some(e->InvalidConfig_0@),
        },
{
    validate_persisted_id(name, "image name")
}

/// The guest architecture images are built for on `host`.
pub open spec fn guest_arch(host: HostPlatform) -> Option<Seq<char>> {
    if (host.os@ == "macos"@ || host.os@ == "linux"@) && host.arch@ == "aarch64"@ {
        Some("aarch64"@)
    } else if (host.os@ == "macos"@ || host.os@ == "linux"@) && host.arch@ == "x86_64"@ {
        Some("x86_64"@)
    } else {
        None
    }
}

fn str_is(s: &String, lit: &str) -> (r: bool)
    ensures
        r == (s@ == lit@),
{
    chars_eq(&chars_of(s.as_str()), &chars_of(lit))
}

/// The guest architecture for the host, or the unsupported-host error the
/// daemon reports.
pub fn default_guest_arch(host: &HostPlatform) -> (r: Result<String, SandboxError>)
    ensures
        match r {
            Ok(a) => guest_arch(*host) == Some(a@),
            Err(e) => guest_arch(*host) is None && e is UnsupportedHost
                && e->UnsupportedHost_0@ == "unsupported host platform for guest image defaults: "@
                + host.os@ + "/"@ + host.arch@,
        },
{
    let known_os = str_is(&host.os, "macos") || str_is(&host.os, "linux");
    if known_os && str_is(&host.arch, "aarch64") {
        return Ok(owned("aarch64"));
    }
    if known_os && str_is(&host.arch, "x86_64") {
        return Ok(owned("x86_64"));
    }
    let m = text3("unsupported host platform for guest image defaults: ", &chars_of(host.os.as_str()), "/");
    let m = string_of(&crate::text::concat_chars(&chars_of(m.as_str()), &chars_of(host.arch.as_str())));
    Err(SandboxError::UnsupportedHost(m))
}

/// The manifest shown for the base image on `host`.
pub open spec fn is_base_manifest(m: VmImageManifest, host: HostPlatform) -> bool {
    &&& m.version == 1
    &&& m.name@ == "base"@
    &&& m.arch@ == match guest_arch(host) {
        Some(a) => a,
        None => "unknown"@,
    }
    &&& m.alpine_version@ == "3.23.4"@
    &&& m.created_at_ms == 0
    &&& strs(m.apk@) == base_apk_packages()
    &&& m.pip@.len() == 0
    &&& m.npm@.len() == 0
    &&& m.kernel_image@ == "default runtime kernel"@
    &&& m.rootfs_image@ == "default runtime rootfs"@
    &&& m.cache_image is None
    &&& m.package_count == 6
}

pub fn base_manifest(host: &HostPlatform) -> (m: VmImageManifest)
    ensures
        is_base_manifest(m, *host),
{
    let arch = match default_guest_arch(host) {
        Ok(a) => a,
        Err(_) => owned("unknown"),
    };
    let apk = base_apk_package_list();
    let count = apk.len();
    assert(strs(apk@).len() == apk@.len());
    let name = owned(BASE_IMAGE_NAME);
    assert(name@ == "base"@);
    let alpine = owned(ALPINE_VERSION);
    assert(alpine@ == "3.23.4"@);
    VmImageManifest {
        version: 1,
        name,
        arch,
        alpine_version: alpine,
        created_at_ms: 0,
        apk,
        pip: Vec::new(),
        npm: Vec::new(),
        kernel_image: owned("default runtime kernel"),
        rootfs_image: owned("default runtime rootfs"),
        cache_image: None,
        package_count: count,
    }
}

/// A valid image name names one directory right inside the images
/// directory: it holds no `/`, does not start with a dot (so it is neither
/// `.` nor `..`), and the image's directory is the images directory, a
/// separator and the name.
pub proof fn lemma_valid_name_stays_in_store(store: ImageStore, name: Seq<char>)
    requires
        persisted_id_problem(name, "image name"@) is None,
    ensures
        forall|i: int| 0 <= i < name.len() ==> name[i] != '/',
        name.len() > 0 && name[0] != '.',
        store.image_path(name) == store.images_path() + seq!['/'] + name,
{
    reveal_strlit("images");
    assert forall|i: int| 0 <= i < name.len() implies name[i] != '/' by {
        assert(id_char(name[i]));
    }
    let images = store.images_path();
    assert(images.len() > 0 && images.last() != '/') by {
        let state = store.state_dir();
        let part = "images"@;
        assert(part[0] == 'i');
        if state.len() == 0 {
            assert(images == part);
        } else if state.last() == '/' {
            assert(images == state + part);
            assert(images.last() == part.last());
        } else {
            assert(images == state + seq!['/'] + part);
            assert(images.last() == part.last());
        }
    }
}

/// Where images are kept under a state directory.
pub struct ImageStore {
    state_dir: String,
}

/// The file name of the Alpine minimal root filesystem for `arch`.
pub open spec fn rootfs_tar(arch: Seq<char>) -> Seq<char> {
    "alpine-minirootfs-3.23.4-"@ + arch + ".tar.gz"@
}

pub fn rootfs_tar_name(arch: &str) -> (r: String)
    ensures
        r@ == rootfs_tar(arch@),
{
    text3("alpine-minirootfs-3.23.4-", &chars_of(arch), ".tar.gz")
}

/// Where an image's manifest is, or the base image's manifest itself.
#[derive(Debug)]
pub enum ImageLookup {
    Base(VmImageManifest),
    Stored { manifest_path: String },
}

/// Where the guest of an image comes from: the runtime's own guest for the
/// base image, or the files of a stored image, described by its manifest.
#[derive(Debug)]
pub enum GuestSource {
    Base(ResolvedImageGuest),
    Stored { image_dir: String, manifest_path: String },
}

/// The files a stored image boots from.
#[derive(Debug)]
pub struct ImageFiles {
    pub kernel_image: String,
    pub rootfs_image: String,
    pub cache_image: Option<String>,
}

/// Where each part of an image build goes.
#[derive(Debug)]
pub struct BuildPlan {
    pub arch: String,
    pub image_dir: String,
    pub remove_existing: bool,
    pub build_dir: String,
    pub downloads: String,
    pub apk_dir: String,
    pub index_dir: String,
    pub rootfs_dir: String,
    pub work_rootfs: String,
    pub work_cache: String,
    pub guest_agent: String,
    pub rootfs_tar_name: String,
    pub rootfs_tar: String,
    pub rootfs_image: String,
    pub cache_image: String,
    pub kernel_copy: String,
    pub rootfs_mib: u64,
}

/// The error an image build reports, wrapping the reason it stopped.
pub open spec fn build_failure(name: Seq<char>, reason: Seq<char>) -> Seq<char> {
    "building image "@ + name + ": "@ + reason
}

fn build_error(name: &str, reason: &str) -> (e: SandboxError)
    ensures
        e is Backend && e->Backend_0@ == build_failure(name@, reason@),
{
    let head = text3("building image ", &chars_of(name), ": ");
    SandboxError::backend(text2(head.as_str(), &chars_of(reason)))
}

impl ImageStore {
    pub closed spec fn state_dir(&self) -> Seq<char> {
        self.state_dir@
    }

    pub open spec fn images_path(&self) -> Seq<char> {
        path_join(self.state_dir(), "images"@)
    }

    pub open spec fn image_path(&self, name: Seq<char>) -> Seq<char> {
        path_join(self.images_path(), name)
    }

    pub open spec fn package_cache_path(&self) -> Seq<char> {
        path_join(self.state_dir(), "package-cache"@)
    }

    pub open spec fn manifest_path(&self, name: Seq<char>) -> Seq<char> {
        path_join(self.image_path(name), "image.json"@)
    }

    pub fn new(state_dir: String) -> (s: ImageStore)
        ensures
            s.state_dir() == state_dir@,
    {
        ImageStore { state_dir }
    }

    pub fn images_dir(&self) -> (r: String)
        ensures
            r@ == self.images_path(),
    {
        join_path(self.state_dir.as_str(), "images")
    }

    pub fn image_dir(&self, name: &str) -> (r: String)
        ensures
            r@ == self.image_path(name@),
    {
        join_path(self.images_dir().as_str(), name)
    }

    pub fn package_cache_dir(&self) -> (r: String)
        ensures
            r@ == self.package_cache_path(),
    {
        join_path(self.state_dir.as_str(), "package-cache")
    }

    /// The directories the store needs, in the order they are created,
    /// each with the context an error creating it is reported with.
    pub fn ensure_layout(&self) -> (r: Vec<(String, String)>)
        ensures
            r@.len() == 2,
            r@[0].0@ == self.images_path(),
            r@[0].1@ == "creating images directory"@,
            r@[1].0@ == self.package_cache_path(),
            r@[1].1@ == "creating package cache directory"@,
    {
        vec![
            (self.images_dir(), owned("creating images directory")),
            (self.package_cache_dir(), owned("creating package cache directory")),
        ]
    }

    /// Looks an image up by name: the base image's manifest is known, any
    /// other is read from its directory.
    pub fn inspect(&self, name: &str, host: &HostPlatform) -> (r: Result<ImageLookup, SandboxError>)
        ensures
            match r {
                Ok(ImageLookup::Base(m)) => persisted_id_problem(name@, "image name"@) is None
                    && name@ == "base"@ && is_base_manifest(m, *host),
                Ok(ImageLookup::Stored { manifest_path }) => persisted_id_problem(name@, "image name"@) is None
                    && name@ != "base"@ && manifest_path@ == self.manifest_path(name@),
                Err(e) => e is InvalidConfig && persisted_id_problem(name@, "image name"@) == Some(e->InvalidConfig_0@),
            },
    {
        validate_image_name(name)?;
        if chars_eq(&chars_of(name), &chars_of(BASE_IMAGE_NAME)) {
            return Ok(ImageLookup::Base(base_manifest(host)));
        }
        let path = join_path(self.image_dir(name).as_str(), IMAGE_MANIFEST);
        Ok(ImageLookup::Stored { manifest_path: path })
    }

    /// The directory to delete when removing an image; the base image
    /// cannot be removed.
    pub fn removal_target(&self, name: &str) -> (r: Result<String, SandboxError>)
        ensures
            match r {
                Ok(dir) => persisted_id_problem(name@, "image name"@) is None && name@ != "base"@
                    && dir@ == self.image_path(name@),
                Err(e) => e is InvalidConfig && if persisted_id_problem(name@, "image name"@) is Some {
                    persisted_id_problem(name@, "image name"@) == Some(e->InvalidConfig_0@)
                } else {
                    name@ == "base"@ && e->InvalidConfig_0@ == "base image cannot be removed"@
                },
            },
    {
        validate_image_name(name)?;
        if chars_eq(&chars_of(name), &chars_of(BASE_IMAGE_NAME)) {
            return Err(SandboxError::invalid(owned("base image cannot be removed")));
        }
        Ok(self.image_dir(name))
    }

    /// Where the guest of image `name` comes from (see `GuestSource`).
    pub fn resolve_guest(&self, name: &str, base_guest: &GuestConfig) -> (r: Result<GuestSource, SandboxError>)
        ensures
            match r {
                Ok(GuestSource::Base(g)) => persisted_id_problem(name@, "image name"@) is None
                    && name@ == "base"@ && g.guest == *base_guest && g.cache_image is None,
                Ok(GuestSource::Stored { image_dir, manifest_path }) => persisted_id_problem(name@, "image name"@) is None
                    && name@ != "base"@ && image_dir@ == self.image_path(name@)
                    && manifest_path@ == self.manifest_path(name@),
                Err(e) => e is InvalidConfig && persisted_id_problem(name@, "image name"@) == Some(e->InvalidConfig_0@),
            },
    {
        validate_image_name(name)?;
        if chars_eq(&chars_of(name), &chars_of(BASE_IMAGE_NAME)) {
            return Ok(GuestSource::Base(ResolvedImageGuest { guest: base_guest.copied(), cache_image: None }));
        }
        let dir = self.image_dir(name);
        let manifest_path = join_path(dir.as_str(), IMAGE_MANIFEST);
        Ok(GuestSource::Stored { image_dir: dir, manifest_path })
    }
}

/// The files named by a stored image's manifest, inside its directory.
pub fn image_files(image_dir: &str, manifest: &VmImageManifest) -> (f: ImageFiles)
    ensures
        f.kernel_image@ == path_join(image_dir@, manifest.kernel_image@),
        f.rootfs_image@ == path_join(image_dir@, manifest.rootfs_image@),
        match manifest.cache_image {
            Some(c) => f.cache_image matches Some(p) && p@ == path_join(image_dir@, c@),
            None => f.cache_image is None,
        },
{
    let cache_image = match &manifest.cache_image {
        Some(c) => Some(join_path(image_dir, c.as_str())),
        None => None,
    };
    ImageFiles {
        kernel_image: join_path(image_dir, manifest.kernel_image.as_str()),
        rootfs_image: join_path(image_dir, manifest.rootfs_image.as_str()),
        cache_image,
    }
}

/// The error for an image file that is not there.
pub fn missing_image_file(label: &str, path: &str) -> (e: SandboxError)
    ensures
        e is NotFound && e->NotFound_0@ == label@ + " "@ + path@,
{
    SandboxError::not_found(text3(label, &chars_of(" "), path))
}

/// The error for removing an image that does not exist.
pub fn missing_image(name: &str) -> (e: SandboxError)
    ensures
        e is NotFound && e->NotFound_0@ == "image "@ + name@,
{
    SandboxError::not_found(text2("image ", &chars_of(name)))
}

/// The guest of a stored image: the base guest with the image's kernel,
/// its kernel format as detected from the kernel file, and its root
/// filesystem.
pub fn image_guest(base_guest: &GuestConfig, files: ImageFiles, kernel_format: GuestKernelFormat) -> (r: ResolvedImageGuest)
    ensures
        r.guest == (GuestConfig {
            kernel_image: files.kernel_image,
            kernel_format,
            rootfs_image: files.rootfs_image,
            ..*base_guest
        }),
        r.cache_image == files.cache_image,
{
    let mut guest = base_guest.copied();
    guest.kernel_image = files.kernel_image;
    guest.kernel_format = kernel_format;
    guest.rootfs_image = files.rootfs_image;
    ResolvedImageGuest { guest, cache_image: files.cache_image }
}

/// Where each part of a build of image `name` for `arch` goes; `build_id`
/// keeps concurrent builds apart.
pub open spec fn planned(store: ImageStore, spec: ImageBuildSpec, arch: Seq<char>, build_id: u128, image_exists: bool, p: BuildPlan) -> bool {
    let name = spec.name@;
    let downloads = path_join(path_join(path_join(store.package_cache_path(), "alpine"@), "v3.23"@), arch);
    let build_dir = path_join(store.images_path(), ".build-"@ + name + "-"@ + uuid_hex(build_id));
    let rootfs_dir = path_join(downloads, "rootfs"@);
    let image_dir = store.image_path(name);
    &&& p.arch@ == arch
    &&& p.image_dir@ == image_dir
    &&& p.remove_existing == image_exists
    &&& p.build_dir@ == build_dir
    &&& p.downloads@ == downloads
    &&& p.apk_dir@ == path_join(downloads, "apk"@)
    &&& p.index_dir@ == path_join(downloads, "index"@)
    &&& p.rootfs_dir@ == rootfs_dir
    &&& p.work_rootfs@ == path_join(build_dir, "rootfs"@)
    &&& p.work_cache@ == path_join(build_dir, "cache"@)
    &&& p.guest_agent@ == path_join(build_dir, "sagens-guest-agent"@)
    &&& p.rootfs_tar_name@ == rootfs_tar(arch)
    &&& p.rootfs_tar@ == path_join(rootfs_dir, rootfs_tar(arch))
    &&& p.kernel_copy@ == path_join(image_dir, "vmlinuz-virt"@)
    &&& p.rootfs_image@ == path_join(image_dir, "rootfs.raw"@)
    &&& p.cache_image@ == path_join(image_dir, "cache.raw"@)
    &&& p.rootfs_mib == if spec.min_image_mib > 512 { spec.min_image_mib } else { 512 }
}

/// Why an image cannot be built, if it cannot: a bad or reserved name, an
/// unsupported host, or an existing image that is not to be rebuilt.
pub open spec fn build_problem(spec: ImageBuildSpec, host: HostPlatform, image_exists: bool) -> Option<Seq<char>> {
    let name = spec.name@;
    if persisted_id_problem(name, "image name"@) is Some {
        Some("invalid configuration: "@ + persisted_id_problem(name, "image name"@)->0)
    } else if name == "base"@ {
        Some("base image is reserved"@)
    } else if guest_arch(host) is None {
        Some("unsupported host: "@ + ("unsupported host platform for guest image defaults: "@ + host.os@ + "/"@ + host.arch@))
    } else if image_exists && !spec.force_refresh {
        Some("image "@ + name + " already exists; pass --force-refresh to rebuild it"@)
    } else {
        None
    }
}

impl ImageStore {
    /// Plans a build of `spec.name` on `host` (see `planned`), or says why
    /// there is none (see `build_problem`); `image_exists` tells whether the
    /// image's directory is already there. A failure is reported as a
    /// backend failure of the build.
    pub fn build(&self, spec: &ImageBuildSpec, host: &HostPlatform, image_exists: bool, build_id: u128) -> (r: Result<BuildPlan, SandboxError>)
        ensures
            match r {
                Ok(p) => build_problem(*spec, *host, image_exists) is None
                    && planned(*self, *spec, guest_arch(*host)->0, build_id, image_exists, p),
                Err(e) => e is Backend && (build_problem(*spec, *host, image_exists) matches Some(reason)
                    && e->Backend_0@ == build_failure(spec.name@, reason)),
            },
    {
        let name = spec.name.as_str();
        if let Err(e) = validate_image_name(name) {
            let reason = e.to_message();
            return Err(build_error(name, reason.as_str()));
        }
        if chars_eq(&chars_of(name), &chars_of(BASE_IMAGE_NAME)) {
            return Err(build_error(name, "base image is reserved"));
        }
        let arch = match default_guest_arch(host) {
            Ok(a) => a,
            Err(e) => {
                let reason = e.to_message();
                return Err(build_error(name, reason.as_str()));
            },
        };
        let image_dir = self.image_dir(name);
        if image_exists && !spec.force_refresh {
            let reason = text3("image ", &chars_of(name), " already exists; pass --force-refresh to rebuild it");
            return Err(build_error(name, reason.as_str()));
        }
        let label = text3(".build-", &chars_of(name), "-");
        let label = string_of(&crate::text::concat_chars(&chars_of(label.as_str()), &chars_of(uuid_simple(build_id).as_str())));
        let build_dir = join_path(self.images_dir().as_str(), label.as_str());
        let downloads = join_path(join_path(join_path(self.package_cache_dir().as_str(), "alpine").as_str(), "v3.23").as_str(), arch.as_str());
        let rootfs_dir = join_path(downloads.as_str(), "rootfs");
        let tar_name = rootfs_tar_name(arch.as_str());
        let rootfs_tar = join_path(rootfs_dir.as_str(), tar_name.as_str());
        let plan = BuildPlan {
            arch: arch,
            image_dir: image_dir.clone(),
            remove_existing: image_exists,
            build_dir: build_dir.clone(),
            downloads: downloads.clone(),
            apk_dir: join_path(downloads.as_str(), "apk"),
            index_dir: join_path(downloads.as_str(), "index"),
            rootfs_dir: rootfs_dir.clone(),
            work_rootfs: join_path(build_dir.as_str(), "rootfs"),
            work_cache: join_path(build_dir.as_str(), "cache"),
            guest_agent: join_path(build_dir.as_str(), "sagens-guest-agent"),
            rootfs_tar_name: tar_name,
            rootfs_tar,
            kernel_copy: join_path(image_dir.as_str(), "vmlinuz-virt"),
            rootfs_image: join_path(image_dir.as_str(), "rootfs.raw"),
            cache_image: join_path(image_dir.as_str(), "cache.raw"),
            rootfs_mib: if spec.min_image_mib > DEFAULT_IMAGE_MIB { spec.min_image_mib } else { DEFAULT_IMAGE_MIB },
        };
        Ok(plan)
    }
}

/// The manifest written for a built image.
pub open spec fn is_built_manifest(m: VmImageManifest, spec: ImageBuildSpec, arch: Seq<char>, created_at_ms: u64, package_count: usize) -> bool {
    &&& m.version == 1
    &&& m.name@ == spec.name@
    &&& m.arch@ == arch
    &&& m.alpine_version@ == "3.23.4"@
    &&& m.created_at_ms == created_at_ms
    &&& m.apk@ == spec.apk@
    &&& m.pip@ == spec.pip@
    &&& m.npm@ == spec.npm@
    &&& m.kernel_image@ == "vmlinuz-virt"@
    &&& m.rootfs_image@ == "rootfs.raw"@
    &&& m.cache_image matches Some(c) && c@ == "cache.raw"@
    &&& m.package_count == package_count
}

/// The manifest of an image built from `spec` for `arch`, with
/// `package_count` resolved packages.
pub fn built_manifest(spec: ImageBuildSpec, arch: String, created_at_ms: u64, package_count: usize) -> (m: VmImageManifest)
    ensures
        is_built_manifest(m, spec, arch@, created_at_ms, package_count),
{
    let alpine = owned(ALPINE_VERSION);
    assert(alpine@ == "3.23.4"@);
    VmImageManifest {
        version: 1,
        name: spec.name,
        arch,
        alpine_version: alpine,
        created_at_ms,
        apk: spec.apk,
        pip: spec.pip,
        npm: spec.npm,
        kernel_image: owned("vmlinuz-virt"),
        rootfs_image: owned("rootfs.raw"),
        cache_image: Some(owned("cache.raw")),
        package_count,
    }
}

/// The wheel platform `pip download` is asked for on `arch`.
pub open spec fn pip_platform_for(arch: Seq<char>) -> Option<Seq<char>> {
    if arch == "aarch64"@ {
        Some("musllinux_1_2_aarch64"@)
    } else if arch == "x86_64"@ {
        Some("musllinux_1_2_x86_64"@)
    } else {
        None
    }
}

pub fn pip_platform(arch: &str) -> (r: Result<String, String>)
    ensures
        match r {
            Ok(p) => pip_platform_for(arch@) == Some(p@),
            Err(m) => pip_platform_for(arch@) is None && m@ == "unsupported pip cache arch: "@ + arch@,
        },
{
    let a = chars_of(arch);
    if chars_eq(&a, &chars_of("aarch64")) {
        return Ok(owned("musllinux_1_2_aarch64"));
    }
    if chars_eq(&a, &chars_of("x86_64")) {
        return Ok(owned("musllinux_1_2_x86_64"));
    }
    Err(text2("unsupported pip cache arch: ", &a))
}

/// The arguments of `python3` that download the wheels of `requirements`
/// for the guest into `dest`.
pub open spec fn pip_args(dest: Seq<char>, platform: Seq<char>, requirements: Seq<Seq<char>>) -> Seq<Seq<char>> {
    seq![
        "-m"@, "pip"@, "download"@, "--dest"@, dest, "--only-binary=:all:"@, "--platform"@, platform,
        "--implementation"@, "cp"@, "--python-version"@, "312"@, "--abi"@, "cp312"@,
    ] + requirements
}

pub fn pip_download_args(dest: &str, platform: &str, requirements: &Vec<String>) -> (r: Vec<String>)
    ensures
        strs(r@) == pip_args(dest@, platform@, strs(requirements@)),
{
    let mut out = vec![
        owned("-m"), owned("pip"), owned("download"), owned("--dest"), owned(dest),
        owned("--only-binary=:all:"), owned("--platform"), owned(platform), owned("--implementation"),
        owned("cp"), owned("--python-version"), owned("312"), owned("--abi"), owned("cp312"),
    ];
    let ghost head = strs(out@);
    let n = requirements.len();
    let mut i: usize = 0;
    while i < n
        invariant
            n == requirements@.len(),
            i <= n,
            strs(out@) == head + strs(requirements@).subrange(0, i as int),
        decreases n - i,
    {
        let ghost before = strs(out@);
        out.push(requirements[i].clone());
        assert(strs(out@) =~= before.push(requirements@[i as int]@));
        assert(strs(requirements@).subrange(0, i + 1) =~= strs(requirements@).subrange(0, i as int).push(requirements@[i as int]@));
        i = i + 1;
    }
    assert(strs(requirements@).subrange(0, n as int) =~= strs(requirements@));
    assert(head =~= seq![
        "-m"@, "pip"@, "download"@, "--dest"@, dest@, "--only-binary=:all:"@, "--platform"@, platform@,
        "--implementation"@, "cp"@, "--python-version"@, "312"@, "--abi"@, "cp312"@,
    ]);
    out
}

/// The arguments of `npm` that add `package` to the cache in `cache_dir`.
pub open spec fn npm_args(package: Seq<char>, cache_dir: Seq<char>) -> Seq<Seq<char>> {
    seq!["cache"@, "add"@, package, "--cache"@, cache_dir, "--prefer-online"@, "--no-audit"@, "--fund=false"@]
}

pub fn npm_cache_args(package: &str, cache_dir: &str) -> (r: Vec<String>)
    ensures
        strs(r@) == npm_args(package@, cache_dir@),
{
    let out = vec![
        owned("cache"), owned("add"), owned(package), owned("--cache"), owned(cache_dir),
        owned("--prefer-online"), owned("--no-audit"), owned("--fund=false"),
    ];
    assert(strs(out@) =~= npm_args(package@, cache_dir@));
    out
}

/// Manifests listed by image name, in the order of `str`.
pub open spec fn sorted_by_name(s: Seq<VmImageManifest>) -> bool {
    forall|i: int, j: int| 0 <= i < j < s.len() ==> !str_lt(s[j].name@, s[i].name@)
}

fn insert_by_name(v: &mut Vec<VmImageManifest>, m: VmImageManifest)
    requires
        sorted_by_name(old(v)@),
    ensures
        sorted_by_name(final(v)@),
        final(v)@.to_multiset() == old(v)@.to_multiset().insert(m),
{
    let mc = chars_of(m.name.as_str());
    let n = v.len();
    let mut i: usize = n;
    while i > 0
        invariant
            n == v@.len(),
            i <= n,
            mc@ == m.name@,
            forall|j: int| i <= j < n ==> str_lt(m.name@, v@[j].name@),
        ensures
            i > 0 ==> !str_lt(m.name@, v@[i - 1].name@),
        decreases i,
    {
        if !str_lt_exec(&mc, &chars_of(v[i - 1].name.as_str())) {
            break;
        }
        i = i - 1;
    }
    let ghost s0 = v@;
    proof {
        to_multiset_insert(s0, i as int, m);
    }
    v.insert(i, m);
    proof {
        let s1 = v@;
        assert(s1 =~= s0.insert(i as int, m));
        assert forall|a: int, b: int| 0 <= a < b < s1.len() implies !str_lt(s1[b].name@, s1[a].name@) by {
            if a < i && b == i {
                let x = s0[a].name@;
                let y = s0[i - 1].name@;
                let z = m.name@;
                if str_lt(z, x) {
                    if a < i - 1 {
                        lemma_str_lt_total(x, y);
                        if str_lt(x, y) {
                            lemma_str_lt_transitive(z, x, y);
                        } else if str_lt(y, x) {
                            assert(!str_lt(y, x));
                        } else {
                        }
                    }
                }
            } else if a == i && b > i {
                lemma_str_lt_asymmetric(m.name@, s0[b - 1].name@);
            } else if a < i && b > i {
                let x = s0[a].name@;
                let y = s0[b - 1].name@;
                if str_lt(y, x) {
                    assert(!str_lt(y, x));
                }
            } else if a > i {
                assert(!str_lt(s0[b - 1].name@, s0[a - 1].name@));
            }
        }
    }
}

/// The manifests ordered by image name.
pub fn sort_manifests(manifests: Vec<VmImageManifest>) -> (r: Vec<VmImageManifest>)
    ensures
        sorted_by_name(r@),
        r@.to_multiset() == manifests@.to_multiset(),
{
    let mut rest = manifests;
    let mut out: Vec<VmImageManifest> = Vec::new();
    proof {
        broadcast use vstd::seq_lib::group_to_multiset_ensures;
        assert(out@.to_multiset() =~= vstd::multiset::Multiset::empty());
    }
    while rest.len() > 0
        invariant
            sorted_by_name(out@),
            out@.to_multiset().add(rest@.to_multiset()) == manifests@.to_multiset(),
        decreases rest@.len(),
    {
        let ghost r0 = rest@;
        let x = rest.pop().unwrap();
        proof {
            broadcast use vstd::seq_lib::group_to_multiset_ensures;
            assert(r0 =~= rest@.push(x));
        }
        insert_by_name(&mut out, x);
        proof {
            broadcast use vstd::seq_lib::group_to_multiset_ensures;
            assert(out@.to_multiset().add(rest@.to_multiset()) =~= manifests@.to_multiset());
        }
    }
    proof {
        broadcast use vstd::seq_lib::group_to_multiset_ensures;
        assert(rest@.len() == 0);
        assert(out@.to_multiset().add(rest@.to_multiset()) =~= out@.to_multiset());
    }
    out
}

} // verus!
