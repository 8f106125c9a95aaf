//! Runtime assets that may be embedded in the host binary (the libkrun
//! library, a kernel, a root filesystem, firmware, support libraries), and
//! how the guest's paths are chosen between what is configured and what is
//! embedded.

use vstd::prelude::*;
use crate::archive::{copy_bytes, zstd_decode, zstd_decoded};
use crate::config::{GuestConfig, GuestKernelFormat, kernel_format_of_probe, detect_kernel_format_from_probe};
use crate::error::SandboxError;
use crate::paths::{join_path, path_join};
use crate::text::{chars_of, concat_chars, string_of, text2};

verus! {

/// How an embedded asset's bytes are stored.
#[derive(Debug, Clone, Copy, PartialEq, Eq, Structural)]
pub enum Compression {
    /// Stored as is.
    Uncompressed,
    /// Stored as a zstd frame.
    Zstd,
}

/// One embedded file.
#[derive(Debug, Clone)]
pub struct EmbeddedAsset {
    pub file_name: String,
    pub bytes: Vec<u8>,
    pub compression: Compression,
    pub mode: u32,
}

/// Everything the binary carries.
#[derive(Debug, Clone)]
pub struct EmbeddedBundle {
    pub libkrun: Option<EmbeddedAsset>,
    pub kernel: Option<EmbeddedAsset>,
    pub rootfs: Option<EmbeddedAsset>,
    pub firmware: Option<EmbeddedAsset>,
    pub runtime_support: Vec<EmbeddedAsset>,
}

/// The binary carries at least one asset.
pub open spec fn carries_assets(b: EmbeddedBundle) -> bool {
    b.libkrun is Some || b.kernel is Some || b.rootfs is Some || b.firmware is Some || b.runtime_support@.len() > 0
}

pub fn has_embedded_assets(bundle: &EmbeddedBundle) -> (r: bool)
    ensures
        r == carries_assets(*bundle),
{
    bundle.libkrun.is_some() || bundle.kernel.is_some() || bundle.rootfs.is_some() || bundle.firmware.is_some()
        || bundle.runtime_support.len() > 0
}

/// The failure text when the zstd frame of the embedded asset `file_name`
/// does not decode.
pub open spec fn decompress_failure(file_name: Seq<char>, cause: Seq<char>) -> Seq<char> {
    "decompressing embedded asset "@ + file_name + ": "@ + cause
}

/// Turns what decoding the embedded asset `file_name` gave into its bytes,
/// or into a backend failure that names the asset.
pub fn decompression_outcome(file_name: &str, decoded: Result<Vec<u8>, String>) -> (r: Result<Vec<u8>, SandboxError>)
    ensures
        match decoded {
            Ok(b) => r matches Ok(x) && x@ == b@,
            Err(cause) => r matches Err(SandboxError::Backend(m)) && m@ == decompress_failure(file_name@, cause@),
        },
{
    match decoded {
        Ok(b) => Ok(b),
        Err(cause) => {
            let head = concat_chars(&chars_of("decompressing embedded asset "), &chars_of(file_name));
            let tail = concat_chars(&chars_of(": "), &chars_of(cause.as_str()));
            proof {
                reveal_strlit("decompressing embedded asset ");
                reveal_strlit(": ");
            }
            let m = concat_chars(&head, &tail);
            assert(m@ =~= decompress_failure(file_name@, cause@));
            Err(SandboxError::Backend(string_of(&m)))
        },
    }
}

/// The bytes an embedded asset stands for: its stored bytes, or the zstd
/// decoding of them; a frame that does not decode is a backend failure.
pub fn materialize_asset(asset: &EmbeddedAsset) -> (r: Result<Vec<u8>, SandboxError>)
    ensures
        asset.compression == Compression::Uncompressed ==> (r matches Ok(b) && b@ == asset.bytes@),
        asset.compression == Compression::Zstd ==> match zstd_decoded(asset.bytes@) {
            Ok(b) => r matches Ok(x) && x@ == b,
            Err(cause) => r matches Err(SandboxError::Backend(m)) && m@ == decompress_failure(asset.file_name@, cause),
        },
{
    match asset.compression {
        Compression::Uncompressed => Ok(copy_bytes(&asset.bytes)),
        Compression::Zstd => decompression_outcome(asset.file_name.as_str(), zstd_decode(asset.bytes.as_slice())),
    }
}

/// The setting `SAGENS_USE_LIBKRUNFW_KERNEL` turns the libkrunfw kernel
/// off with `0`, `false`, `no` or `off`.
pub open spec fn libkrunfw_kernel_off(setting: Option<Seq<char>>) -> bool {
    setting matches Some(v) && (v == "0"@ || v == "false"@ || v == "no"@ || v == "off"@)
}

/// Whether the kernel inside libkrunfw is not to be used (macOS).
pub fn libkrunfw_kernel_disabled(setting: Option<&str>) -> (r: bool)
    ensures
        r == libkrunfw_kernel_off(match setting { Some(v) => Some(v@), None => None }),
{
    match setting {
        None => false,
        Some(v) => {
            proof {
                reveal_strlit("0");
                reveal_strlit("false");
                reveal_strlit("no");
                reveal_strlit("off");
            }
            let c = chars_of(v);
            let zero = chars_of("0");
            let f = chars_of("false");
            let no = chars_of("no");
            let off = chars_of("off");
            crate::text::chars_eq(&c, &zero) || crate::text::chars_eq(&c, &f) || crate::text::chars_eq(&c, &no)
                || crate::text::chars_eq(&c, &off)
        },
    }
}

/// Where the kernel taken out of libkrunfw is written in the bundle
/// directory.
pub fn libkrunfw_kernel_path(bundle_dir: &str) -> (r: String)
    ensures
        r@ == path_join(bundle_dir@, "libkrunfw-kernel.Image"@),
{
    join_path(bundle_dir, "libkrunfw-kernel.Image")
}

/// What `krunfw_get_kernel` handed back is a kernel only if it is a
/// non-empty region with non-zero load and entry addresses.
pub fn check_krunfw_kernel(null_pointer: bool, size: usize, load_addr: usize, entry_addr: usize) -> (r: Result<(), SandboxError>)
    ensures
        (null_pointer || size == 0) ==> (r matches Err(SandboxError::Backend(m))
            && m@ == "libkrunfw returned an empty kernel bundle"@),
        !(null_pointer || size == 0) && (load_addr == 0 || entry_addr == 0) ==> (r matches Err(SandboxError::Backend(m))
            && m@ == "libkrunfw returned an invalid kernel load address"@),
        !(null_pointer || size == 0) && !(load_addr == 0 || entry_addr == 0) ==> r is Ok,
{
    if null_pointer || size == 0 {
        return Err(SandboxError::backend(crate::text::owned("libkrunfw returned an empty kernel bundle")));
    }
    if load_addr == 0 || entry_addr == 0 {
        return Err(SandboxError::backend(crate::text::owned("libkrunfw returned an invalid kernel load address")));
    }
    Ok(())
}

/// Where one of the guest's files comes from.
pub enum PathChoice {
    /// The configured path is used as it is.
    Configured(String),
    /// The embedded asset is written to this path.
    Extracted(String),
    /// Neither is there; the path stays empty.
    Unset,
}

/// The guest's files, chosen before anything is written.
pub struct GuestPathPlan {
    pub bundle_dir: String,
    pub runtime_support: Vec<String>,
    pub libkrun_library: PathChoice,
    pub kernel_image: PathChoice,
    pub rootfs_image: PathChoice,
    pub firmware: Option<PathChoice>,
}

/// The directory assets of `bundle_id` are written to.
pub open spec fn bundle_path(state_dir: Seq<char>, bundle_id: Seq<char>) -> Seq<char> {
    path_join(path_join(state_dir, "embedded-bundle"@), bundle_id)
}

/// A configured path wins; otherwise an embedded asset is extracted into
/// the bundle directory; otherwise there is no file.
pub open spec fn chosen(dir: Seq<char>, configured: Seq<char>, embedded: Option<EmbeddedAsset>, c: PathChoice) -> bool {
    if configured.len() > 0 {
        c matches PathChoice::Configured(p) && p@ == configured
    } else {
        match embedded {
            Some(a) => c matches PathChoice::Extracted(p) && p@ == path_join(dir, a.file_name@),
            None => c is Unset,
        }
    }
}

fn choose_path(dir: &String, configured: &String, embedded: &Option<EmbeddedAsset>) -> (c: PathChoice)
    ensures
        chosen(dir@, configured@, *embedded, c),
{
    if chars_of(configured.as_str()).len() > 0 {
        return PathChoice::Configured(configured.clone());
    }
    match embedded {
        Some(a) => PathChoice::Extracted(join_path(dir.as_str(), a.file_name.as_str())),
        None => PathChoice::Unset,
    }
}

/// The error for a file that is neither configured nor embedded.
pub open spec fn missing_asset(dir: Seq<char>) -> Seq<char> {
    "missing required embedded asset and no explicit path was configured for "@ + dir
}

/// Chooses where each of the guest's files comes from. A file that is
/// neither configured nor embedded leaves its path empty; only a binary
/// that carries no embedded asset at all refuses to go on without the
/// library and the root filesystem. Firmware is configured when its path is
/// not empty.
pub fn plan_guest_paths(bundle: &EmbeddedBundle, state_dir: &str, bundle_id: &str, guest: &GuestConfig) -> (r: Result<GuestPathPlan, SandboxError>)
    ensures
        ({
            let dir = bundle_path(state_dir@, bundle_id@);
            match r {
                Ok(p) => {
                    &&& p.bundle_dir@ == dir
                    &&& p.runtime_support@.len() == bundle.runtime_support@.len()
                    &&& forall|i: int| 0 <= i < p.runtime_support@.len() ==> (#[trigger] p.runtime_support@[i])@
                        == path_join(dir, bundle.runtime_support@[i].file_name@)
                    &&& chosen(dir, guest.libkrun_library@, bundle.libkrun, p.libkrun_library)
                    &&& chosen(dir, guest.kernel_image@, bundle.kernel, p.kernel_image)
                    &&& chosen(dir, guest.rootfs_image@, bundle.rootfs, p.rootfs_image)
                    &&& !carries_assets(*bundle) ==> !(p.libkrun_library is Unset) && !(p.rootfs_image is Unset)
                    &&& match guest.firmware {
                        Some(f) if f@.len() > 0 => p.firmware matches Some(PathChoice::Configured(c)) && c@ == f@,
                        _ => match bundle.firmware {
                            Some(a) => p.firmware matches Some(PathChoice::Extracted(c)) && c@ == path_join(dir, a.file_name@),
                            None => p.firmware is None,
                        },
                    }
                },
                Err(e) => e is InvalidConfig && e->InvalidConfig_0@ == missing_asset(dir) && !carries_assets(*bundle)
                    && ((guest.libkrun_library@.len() == 0 && bundle.libkrun is None)
                    || (guest.rootfs_image@.len() == 0 && bundle.rootfs is None)),
            }
        }),
{
    let dir = join_path(join_path(state_dir, "embedded-bundle").as_str(), bundle_id);
    let mut support: Vec<String> = Vec::new();
    let n = bundle.runtime_support.len();
    let mut i: usize = 0;
    while i < n
        invariant
            n == bundle.runtime_support@.len(),
            i <= n,
            support@.len() == i,
            forall|j: int| 0 <= j < i ==> (#[trigger] support@[j])@ == path_join(dir@, bundle.runtime_support@[j].file_name@),
        decreases n - i,
    {
        support.push(join_path(dir.as_str(), bundle.runtime_support[i].file_name.as_str()));
        i = i + 1;
    }
    let carries = has_embedded_assets(bundle);
    let libkrun_library = choose_path(&dir, &guest.libkrun_library, &bundle.libkrun);
    if !carries && matches!(libkrun_library, PathChoice::Unset) {
        return Err(SandboxError::invalid(text2("missing required embedded asset and no explicit path was configured for ", &chars_of(dir.as_str()))));
    }
    let kernel_image = choose_path(&dir, &guest.kernel_image, &bundle.kernel);
    let rootfs_image = choose_path(&dir, &guest.rootfs_image, &bundle.rootfs);
    if !carries && matches!(rootfs_image, PathChoice::Unset) {
        return Err(SandboxError::invalid(text2("missing required embedded asset and no explicit path was configured for ", &chars_of(dir.as_str()))));
    }
    let configured_firmware = match &guest.firmware {
        Some(f) => if chars_of(f.as_str()).len() > 0 { Some(f.clone()) } else { None },
        None => None,
    };
    let firmware = match configured_firmware {
        Some(f) => Some(PathChoice::Configured(f)),
        None => match &bundle.firmware {
            Some(a) => Some(PathChoice::Extracted(join_path(dir.as_str(), a.file_name.as_str()))),
            None => None,
        },
    };
    Ok(GuestPathPlan { bundle_dir: dir, runtime_support: support, libkrun_library, kernel_image, rootfs_image, firmware })
}

/// The path a choice ends in (empty when nothing was chosen).
pub open spec fn choice_path(c: PathChoice) -> Seq<char> {
    match c {
        PathChoice::Configured(p) => p@,
        PathChoice::Extracted(p) => p@,
        PathChoice::Unset => Seq::empty(),
    }
}

pub fn path_of(c: &PathChoice) -> (r: String)
    ensures
        r@ == choice_path(*c),
{
    match c {
        PathChoice::Configured(p) => p.clone(),
        PathChoice::Extracted(p) => p.clone(),
        PathChoice::Unset => String::new(),
    }
}

/// The kernel format of a kernel file: the configured format for an empty
/// path or a file that could not be read, otherwise what its first bytes
/// (`probe`) show.
pub open spec fn kernel_format_after_read(path: Seq<char>, probe: Option<Seq<u8>>, fallback: GuestKernelFormat) -> GuestKernelFormat {
    if path.len() == 0 {
        fallback
    } else {
        match probe {
            Some(p) => kernel_format_of_probe(p, fallback),
            None => fallback,
        }
    }
}

pub fn detect_kernel_format(path: &str, probe: Option<&[u8]>, fallback: GuestKernelFormat) -> (f: GuestKernelFormat)
    ensures
        f == kernel_format_after_read(path@, match probe {
            Some(p) => Some(p@),
            None => None,
        }, fallback),
{
    if chars_of(path).len() == 0 {
        return fallback;
    }
    match probe {
        Some(p) => detect_kernel_format_from_probe(p, fallback),
        None => fallback,
    }
}

/// The guest with the chosen files and the detected kernel format; the
/// rest of the configuration is kept.
pub fn resolved_guest(guest: &GuestConfig, plan: &GuestPathPlan, kernel_format: GuestKernelFormat) -> (g: GuestConfig)
    ensures
        g.libkrun_library@ == choice_path(plan.libkrun_library),
        g.kernel_image@ == choice_path(plan.kernel_image),
        g.rootfs_image@ == choice_path(plan.rootfs_image),
        g.kernel_format == kernel_format,
        match plan.firmware {
            Some(c) => g.firmware matches Some(f) && f@ == choice_path(c),
            None => g.firmware is None,
        },
        g.guest_agent_path == guest.guest_agent_path,
        g.guest_vsock_port == guest.guest_vsock_port,
        g.boot_timeout_ms == guest.boot_timeout_ms,
        g.guest_uid == guest.guest_uid,
        g.guest_gid == guest.guest_gid,
        g.guest_tmpfs_mib == guest.guest_tmpfs_mib,
{
    GuestConfig {
        libkrun_library: path_of(&plan.libkrun_library),
        kernel_image: path_of(&plan.kernel_image),
        kernel_format,
        rootfs_image: path_of(&plan.rootfs_image),
        firmware: match &plan.firmware {
            Some(c) => Some(path_of(c)),
            None => None,
        },
        guest_agent_path: guest.guest_agent_path.clone(),
        guest_vsock_port: guest.guest_vsock_port,
        boot_timeout_ms: guest.boot_timeout_ms,
        guest_uid: guest.guest_uid,
        guest_gid: guest.guest_gid,
        guest_tmpfs_mib: guest.guest_tmpfs_mib,
    }
}

} // verus!
