//! Where image builds get Alpine from, what they trust, and the files they
//! lay into a root filesystem.

use vstd::prelude::*;
use sequoia_openpgp::parse::Parse as _;
use crate::packages::{Package, names_of};
use crate::protocol::strs;
use crate::text::{chars_eq, chars_of, concat_chars, join, join_exec, owned, string_of, text2, text3, trim, trim_chars, views};

verus! {

/// The Alpine release every image is built from.
pub const BASE_URL: &'static str = "https://dl-cdn.alpinelinux.org/alpine/v3.23";

/// The key that signs Alpine releases.
pub const ALPINE_RELEASE_KEY_URL: &'static str = "https://alpinelinux.org/keys/ncopa.asc";

/// The fingerprint of the only certificate release signatures are checked
/// against.
pub const EXPECTED_SIGNING_FINGERPRINT: &'static str = "0482D84022F52DF1C4E7CD43293ACD0907D9495A";

pub open spec fn base_url() -> Seq<char> {
    "https://dl-cdn.alpinelinux.org/alpine/v3.23"@
}

fn base() -> (s: String)
    ensures
        s@ == base_url(),
{
    owned(BASE_URL)
}

/// The minimal root filesystem of `arch`.
pub fn rootfs_url(arch: &str, tar_name: &str) -> (r: String)
    ensures
        r@ == base_url() + "/releases/"@ + arch@ + "/"@ + tar_name@,
{
    let head = text3(base().as_str(), &chars_of("/releases/"), arch);
    text3(head.as_str(), &chars_of("/"), tar_name)
}

/// The package index of `repo` for `arch`.
pub fn index_url(repo: &str, arch: &str) -> (r: String)
    ensures
        r@ == base_url() + "/"@ + repo@ + "/"@ + arch@ + "/APKINDEX.tar.gz"@,
{
    let head = text3(base().as_str(), &chars_of("/"), repo);
    let head = text3(head.as_str(), &chars_of("/"), arch);
    text2(head.as_str(), &chars_of("/APKINDEX.tar.gz"))
}

/// A package file of `repo` for `arch`.
pub fn package_url(repo: &str, arch: &str, file_name: &str) -> (r: String)
    ensures
        r@ == base_url() + "/"@ + repo@ + "/"@ + arch@ + "/"@ + file_name@,
{
    let head = text3(base().as_str(), &chars_of("/"), repo);
    let head = text3(head.as_str(), &chars_of("/"), arch);
    text3(head.as_str(), &chars_of("/"), file_name)
}

/// The downloaded index archive of `repo`, and the index taken out of it.
pub fn index_file_names(repo: &str) -> (r: (String, String))
    ensures
        r.0@ == "APKINDEX-"@ + repo@ + ".tar.gz"@,
        r.1@ == "APKINDEX-"@ + repo@,
{
    (text3("APKINDEX-", &chars_of(repo), ".tar.gz"), text2("APKINDEX-", &chars_of(repo)))
}

/// Only the expected certificate may vouch for a release.
pub fn check_signer(fingerprint: &str) -> (r: Result<(), String>)
    ensures
        fingerprint@ == "0482D84022F52DF1C4E7CD43293ACD0907D9495A"@ ==> r is Ok,
        fingerprint@ != "0482D84022F52DF1C4E7CD43293ACD0907D9495A"@ ==> (r matches Err(m)
            && m@ == "unexpected signing cert fingerprint"@),
{
    if chars_eq(&chars_of(fingerprint), &chars_of(EXPECTED_SIGNING_FINGERPRINT)) {
        Ok(())
    } else {
        Err(owned("unexpected signing cert fingerprint"))
    }
}

/// What parsing a keyring gives: for each certificate in it, in order, its
/// fingerprint as uppercase hexadecimal or the text of the error met there;
/// or the text of the error that kept parsing from starting.
pub uninterp spec fn keyring_parsed(data: Seq<u8>) -> Result<Seq<Result<Seq<char>, Seq<char>>>, Seq<char>>;

/// The keyring items as plain sequences.
pub open spec fn item_views(v: Seq<Result<String, String>>) -> Seq<Result<Seq<char>, Seq<char>>> {
    v.map_values(|i: Result<String, String>| match i {
        Ok(f) => Ok(f@),
        Err(m) => Err(m@),
    })
}

/// Parses an OpenPGP keyring (armored or binary) with
/// `sequoia_openpgp::cert::CertParser::from_bytes` and reads, for each
/// certificate the parser yields, the `Display` of its fingerprint (40
/// uppercase hexadecimal digits for a version 4 key) or the display text of
/// the error it yields there. The contract names the result.
#[verifier::external_body]
fn keyring_fingerprints(data: &[u8]) -> (r: Result<Vec<Result<String, String>>, String>)
    ensures
        match r {
            Ok(v) => keyring_parsed(data@) == Ok::<Seq<Result<Seq<char>, Seq<char>>>, Seq<char>>(item_views(v@)),
            Err(m) => keyring_parsed(data@) == Err::<Seq<Result<Seq<char>, Seq<char>>>, Seq<char>>(m@),
        },
{
    let parser = sequoia_openpgp::cert::CertParser::from_bytes(data).map_err(|error| error.to_string())?;
    Ok(parser.map(|item| item.map(|cert| cert.fingerprint().to_string()).map_err(|error| error.to_string())).collect())
}

/// The position of the release signing certificate among the keyring's
/// items: the first item that is either that certificate or an error
/// decides; an error there is the outcome.
pub open spec fn signing_cert_choice(items: Seq<Result<Seq<char>, Seq<char>>>, from: int) -> Result<int, Seq<char>>
    decreases items.len() - from,
{
    if from < 0 || from >= items.len() {
        Err("expected Alpine release signing cert not found"@)
    } else {
        match items[from] {
            Err(m) => Err(m),
            Ok(f) => if f == "0482D84022F52DF1C4E7CD43293ACD0907D9495A"@ {
                Ok(from)
            } else {
                signing_cert_choice(items, from + 1)
            },
        }
    }
}

/// Picks the release signing certificate among parsed keyring items (see
/// `signing_cert_choice`).
pub fn select_signing_cert(items: &Vec<Result<String, String>>) -> (r: Result<usize, String>)
    ensures
        match r {
            Ok(i) => signing_cert_choice(item_views(items@), 0) == Ok::<int, Seq<char>>(i as int),
            Err(m) => signing_cert_choice(item_views(items@), 0) == Err::<int, Seq<char>>(m@),
        },
{
    let ghost v = item_views(items@);
    let expected = chars_of(EXPECTED_SIGNING_FINGERPRINT);
    proof {
        reveal_strlit("0482D84022F52DF1C4E7CD43293ACD0907D9495A");
    }
    let mut i: usize = 0;
    while i < items.len()
        invariant
            i <= items@.len(),
            v == item_views(items@),
            expected@ == "0482D84022F52DF1C4E7CD43293ACD0907D9495A"@,
            signing_cert_choice(v, i as int) == signing_cert_choice(v, 0),
        decreases items@.len() - i,
    {
        match &items[i] {
            Err(m) => {
                return Err(string_of(&chars_of(m.as_str())));
            },
            Ok(f) => {
                if chars_eq(&chars_of(f.as_str()), &expected) {
                    return Ok(i);
                }
            },
        }
        i = i + 1;
    }
    proof {
        reveal_strlit("expected Alpine release signing cert not found");
    }
    Err(owned("expected Alpine release signing cert not found"))
}

/// The failure when a keyring cannot be parsed at all.
pub open spec fn keyring_failure(cause: Seq<char>) -> Seq<char> {
    "parsing Alpine release signing keyring: "@ + cause
}

/// Where the release signing certificate stands in the downloaded keyring
/// `data`: the keyring is parsed, then the certificate is picked.
pub fn signing_cert_index(data: &[u8]) -> (r: Result<usize, String>)
    ensures
        match keyring_parsed(data@) {
            Err(cause) => r matches Err(m) && m@ == keyring_failure(cause),
            Ok(items) => match r {
                Ok(i) => signing_cert_choice(items, 0) == Ok::<int, Seq<char>>(i as int),
                Err(m) => signing_cert_choice(items, 0) == Err::<int, Seq<char>>(m@),
            },
        },
{
    match keyring_fingerprints(data) {
        Err(cause) => {
            proof {
                reveal_strlit("parsing Alpine release signing keyring: ");
            }
            Err(text2("parsing Alpine release signing keyring: ", &chars_of(cause.as_str())))
        },
        Ok(items) => select_signing_cert(&items),
    }
}

/// The first layer of a detached signature check's results.
pub enum SignatureLayer {
    /// There was no layer.
    Missing,
    /// A group of signatures; whether any of them checked out.
    Group { any_valid: bool },
    /// Anything else.
    Other,
}

/// A detached signature is accepted when one signature of its group checks
/// out.
pub fn signature_verdict(layer: SignatureLayer) -> (r: Result<(), String>)
    ensures
        match layer {
            SignatureLayer::Missing => r matches Err(m) && m@ == "missing detached signature results"@,
            SignatureLayer::Group { any_valid } => if any_valid {
                r is Ok
            } else {
                r matches Err(m) && m@ == "detached signature did not validate"@
            },
            SignatureLayer::Other => r matches Err(m) && m@ == "unexpected OpenPGP message structure"@,
        },
{
    match layer {
        SignatureLayer::Missing => Err(owned("missing detached signature results")),
        SignatureLayer::Group { any_valid } => if any_valid {
            Ok(())
        } else {
            Err(owned("detached signature did not validate"))
        },
        SignatureLayer::Other => Err(owned("unexpected OpenPGP message structure")),
    }
}

/// A cached download is used again when its recorded digest (the trimmed
/// text of its `.sha256.local` file) matches the file; without a record,
/// when the file is not empty.
pub fn cached_download_valid(recorded: Option<&str>, file_len: u64, actual_hex: &str) -> (r: bool)
    ensures
        r == match recorded {
            Some(t) => trim(t@) == actual_hex@,
            None => file_len > 0,
        },
{
    match recorded {
        Some(t) => chars_eq(&trim_chars(&chars_of(t)), &chars_of(actual_hex)),
        None => file_len > 0,
    }
}

/// The list of resolved packages written beside the downloads: their
/// names, one per line.
pub fn package_manifest_text(resolved: &Vec<Package>) -> (r: String)
    ensures
        r@ == join(names_of(resolved@), seq!['\n']) + seq!['\n'],
{
    let mut names: Vec<Vec<char>> = Vec::new();
    let n = resolved.len();
    let mut i: usize = 0;
    while i < n
        invariant
            n == resolved@.len(),
            i <= n,
            views(names@) == names_of(resolved@).subrange(0, i as int),
        decreases n - i,
    {
        let ghost before = views(names@);
        names.push(chars_of(resolved[i].name.as_str()));
        assert(views(names@) =~= before.push(resolved@[i as int].name@));
        assert(names_of(resolved@).subrange(0, i + 1) =~= names_of(resolved@).subrange(0, i as int).push(resolved@[i as int].name@));
        i = i + 1;
    }
    assert(names_of(resolved@).subrange(0, n as int) =~= names_of(resolved@));
    let nl: Vec<char> = vec!['\n'];
    assert(nl@ =~= seq!['\n']);
    string_of(&concat_chars(&join_exec(&names, &nl), &nl))
}

/// The directories every image's root filesystem has.
pub open spec fn mountpoints() -> Seq<Seq<char>> {
    seq![
        "proc"@, "sys"@, "dev"@, "home"@, "tmp"@, "workspace"@, "usr/local/bin"@, "var/cache/apk"@,
        "opt/sagens-cache"@,
    ]
}

pub fn rootfs_mountpoints() -> (r: Vec<String>)
    ensures
        strs(r@) == mountpoints(),
{
    let r = vec![
        owned("proc"), owned("sys"), owned("dev"), owned("home"), owned("tmp"), owned("workspace"),
        owned("usr/local/bin"), owned("var/cache/apk"), owned("opt/sagens-cache"),
    ];
    assert(strs(r@) =~= mountpoints());
    r
}

/// The directories of an image's package cache filesystem.
pub fn cache_layout() -> (r: Vec<String>)
    ensures
        strs(r@) == seq!["apk"@, "pip/wheels"@, "npm"@],
{
    let r = vec![owned("apk"), owned("pip/wheels"), owned("npm")];
    assert(strs(r@) =~= seq!["apk"@, "pip/wheels"@, "npm"@]);
    r
}

/// The guest's `/etc/inittab`: mount the kernel filesystems, run the
/// guest agent once, unmount on shutdown.
pub open spec fn inittab() -> Seq<char> {
    "::sysinit:/bin/mount -t proc proc /proc\n::sysinit:/bin/mount -t sysfs sysfs /sys\n::sysinit:/bin/mount -t devtmpfs devtmpfs /dev\n::once:/usr/local/bin/sagens-guest-agent\n::shutdown:/bin/umount -a -r\n"@
}

pub fn guest_inittab() -> (r: String)
    ensures
        r@ == inittab(),
{
    owned("::sysinit:/bin/mount -t proc proc /proc\n::sysinit:/bin/mount -t sysfs sysfs /sys\n::sysinit:/bin/mount -t devtmpfs devtmpfs /dev\n::once:/usr/local/bin/sagens-guest-agent\n::shutdown:/bin/umount -a -r\n")
}

/// The package manager settings an image gets: pip and npm then install
/// from the image's cache only, each when its cache was filled.
pub open spec fn manager_defaults(pip: bool, npm: bool) -> Seq<(Seq<char>, Seq<char>)> {
    let p = if pip {
        seq![("etc/pip.conf"@, "[global]\nno-index = true\nfind-links = /opt/sagens-cache/pip/wheels\n"@)]
    } else {
        Seq::empty()
    };
    let n = if npm {
        seq![("etc/npmrc"@, "offline=true\nprefer-offline=true\ncache=/opt/sagens-cache/npm\n"@)]
    } else {
        Seq::empty()
    };
    p + n
}

pub fn package_manager_defaults(pip: bool, npm: bool) -> (r: Vec<(String, String)>)
    ensures
        crate::protocol::pairs(r@) == manager_defaults(pip, npm),
{
    let mut r: Vec<(String, String)> = Vec::new();
    if pip {
        r.push((owned("etc/pip.conf"), owned("[global]\nno-index = true\nfind-links = /opt/sagens-cache/pip/wheels\n")));
    }
    if npm {
        r.push((owned("etc/npmrc"), owned("offline=true\nprefer-offline=true\ncache=/opt/sagens-cache/npm\n")));
    }
    assert(crate::protocol::pairs(r@) =~= manager_defaults(pip, npm));
    r
}

} // verus!
