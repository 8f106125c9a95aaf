//! Compressed archives as bytes: gzip streams through `flate2`, tar
//! archives through `tar`, zstd frames through `zstd`, and the search for
//! one member of a gzipped tar archive.

use vstd::prelude::*;
use crate::paths::{archive_member_matches, member_matches};
use crate::text::{chars_of, concat_chars, string_of};

verus! {

/// What decoding a (possibly multi-member) gzip stream gives: the bytes
/// decoded before it ended or failed, and the text of the failure if it
/// failed.
pub uninterp spec fn gunzip_prefix(data: Seq<u8>) -> (Seq<u8>, Option<Seq<char>>);

/// Where reading a tar archive stopped with an error: starting the
/// listing, reading an entry's header, reading an entry's path, or reading
/// the contents of the entry with this path.
pub enum TarStage {
    Entries,
    Entry,
    Path,
    Contents(String),
}

/// A `TarStage` as a plain value.
pub enum TarStop {
    Entries,
    Entry,
    Path,
    Contents(Seq<char>),
}

pub open spec fn stop_of(s: TarStage) -> TarStop {
    match s {
        TarStage::Entries => TarStop::Entries,
        TarStage::Entry => TarStop::Entry,
        TarStage::Path => TarStop::Path,
        TarStage::Contents(p) => TarStop::Contents(p@),
    }
}

/// One member of a tar archive: its path, the size its header gives, and
/// the contents that could be read (fewer bytes than the size when the
/// archive ends early).
pub struct TarMember {
    pub path: String,
    pub size: u64,
    pub contents: Vec<u8>,
}

pub open spec fn member_view(m: TarMember) -> (Seq<char>, u64, Seq<u8>) {
    (m.path@, m.size, m.contents@)
}

pub open spec fn members_view(v: Seq<TarMember>) -> Seq<(Seq<char>, u64, Seq<u8>)> {
    v.map_values(|m: TarMember| member_view(m))
}

/// What reading a tar archive gives: its members in archive order, up to
/// the first error, and that error with where it happened.
pub uninterp spec fn tar_scanned(data: Seq<u8>) -> (Seq<(Seq<char>, u64, Seq<u8>)>, Option<(TarStop, Seq<char>)>);

/// What decoding zstd frames gives: the uncompressed bytes, or the text of
/// the decoding error.
pub uninterp spec fn zstd_decoded(data: Seq<u8>) -> Result<Seq<u8>, Seq<char>>;

/// Decodes a whole gzip stream, every member of it, with
/// `flate2::read::MultiGzDecoder` read to its end by `Read::read_to_end`,
/// which keeps the bytes decoded before a failure; the failure is returned
/// as the error's display text. The contract names the result.
#[verifier::external_body]
fn gunzip(data: &[u8]) -> (r: (Vec<u8>, Option<String>))
    ensures
        gunzip_prefix(data@) == (r.0@, match r.1 { Some(m) => Some(m@), None => None::<Seq<char>> }),
{
    let mut decoder = flate2::read::MultiGzDecoder::new(data);
    let mut out = Vec::new();
    match std::io::Read::read_to_end(&mut decoder, &mut out) {
        Ok(_) => (out, None),
        Err(error) => (out, Some(error.to_string())),
    }
}

/// Reads a tar archive with `tar::Archive::entries`: for each entry in
/// archive order, its `Entry::path` (as text, lossily where it is not
/// UTF-8), `Entry::size` and contents are appended to `listed`; the first
/// error ends the reading and is returned with where it happened and its
/// display text. The contract names the result.
#[verifier::external_body]
fn tar_scan(data: &[u8], listed: &mut Vec<TarMember>) -> (r: Result<(), (TarStage, String)>)
    requires
        old(listed)@.len() == 0,
    ensures
        tar_scanned(data@) == (members_view(final(listed)@), match r {
            Ok(()) => None::<(TarStop, Seq<char>)>,
            Err((stage, message)) => Some((stop_of(stage), message@)),
        }),
{
    let mut archive = tar::Archive::new(data);
    for entry in archive.entries().map_err(|error| (TarStage::Entries, error.to_string()))? {
        let mut entry = entry.map_err(|error| (TarStage::Entry, error.to_string()))?;
        let path = entry.path().map_err(|error| (TarStage::Path, error.to_string()))?.to_string_lossy().into_owned();
        let reading = path.clone();
        let mut contents = Vec::new();
        std::io::Read::read_to_end(&mut entry, &mut contents).map_err(|error| (TarStage::Contents(reading), error.to_string()))?;
        listed.push(TarMember { path, size: entry.size(), contents });
    }
    Ok(())
}

/// Decodes zstd frames with `zstd::stream::decode_all`; a failure is
/// returned as the error's display text. The contract names the result.
#[verifier::external_body]
pub(crate) fn zstd_decode(data: &[u8]) -> (r: Result<Vec<u8>, String>)
    ensures
        match r {
            Ok(bytes) => zstd_decoded(data@) == Ok::<Seq<u8>, Seq<char>>(bytes@),
            Err(message) => zstd_decoded(data@) == Err::<Seq<u8>, Seq<char>>(message@),
        },
{
    zstd::stream::decode_all(data).map_err(|error| error.to_string())
}

pub(crate) fn copy_bytes(b: &Vec<u8>) -> (r: Vec<u8>)
    ensures
        r@ == b@,
{
    let r = b.clone();
    assert(r@ =~= b@);
    r
}

/// `context`, `": "` and `message`, the way a failure with a context reads.
pub open spec fn with_context(context: Seq<char>, message: Seq<char>) -> Seq<char> {
    context + ": "@ + message
}

/// The label of a failure while starting to read the members of `archive`.
pub open spec fn reading_entries(archive: Seq<char>) -> Seq<char> {
    "reading tar entries from "@ + archive
}

/// The label of a failure while reading one entry of `archive`.
pub open spec fn reading_entry(archive: Seq<char>) -> Seq<char> {
    "reading tar entry from "@ + archive
}

/// The label of a failure while reading an entry's path in `archive`.
pub open spec fn reading_path(archive: Seq<char>) -> Seq<char> {
    "reading tar path from "@ + archive
}

/// The label of a failure while extracting `member` from `archive`.
pub open spec fn extracting(member: Seq<char>, archive: Seq<char>) -> Seq<char> {
    "extracting "@ + member + " from "@ + archive
}

/// The failure when no member of `archive` names `member`.
pub open spec fn missing_member(member: Seq<char>, archive: Seq<char>) -> Seq<char> {
    "missing tar member "@ + member + " in "@ + archive
}

/// The message of a failure met in the tar archive: the gzip stream's own
/// failure when it failed (the archive was cut there), else the tar error.
pub open spec fn cause(gz_error: Option<Seq<char>>, tar_error: Seq<char>) -> Seq<char> {
    match gz_error {
        Some(e) => e,
        None => tar_error,
    }
}

/// How the search ends once every member read was passed over.
pub open spec fn end_outcome(
    archive: Seq<char>,
    member: Seq<char>,
    stop: Option<(TarStop, Seq<char>)>,
    gz_error: Option<Seq<char>>,
) -> Result<Seq<u8>, Seq<char>> {
    match stop {
        Some((TarStop::Entries, m)) => Err(with_context(reading_entries(archive), cause(gz_error, m))),
        Some((TarStop::Entry, m)) => Err(with_context(reading_entry(archive), cause(gz_error, m))),
        Some((TarStop::Path, m)) => Err(with_context(reading_path(archive), cause(gz_error, m))),
        Some((TarStop::Contents(p), m)) => if member_matches(p, member) {
            Err(with_context(extracting(member, archive), cause(gz_error, m)))
        } else {
            Err(with_context(reading_entry(archive), cause(gz_error, m)))
        },
        None => match gz_error {
            Some(e) => Err(with_context(reading_entry(archive), e)),
            None => Err(missing_member(member, archive)),
        },
    }
}

/// What the search for `member` in the tar archive labelled `archive` ends
/// in, given the members read (in order), where reading stopped, and the
/// failure of the gzip stream the archive came from. Members are taken in
/// order: the first whose path names `member` gives its contents; a member
/// cut short by the gzip failure ends the search with that failure, as
/// extracting when it is the one sought and as reading the next entry
/// otherwise.
pub open spec fn scan_outcome(
    archive: Seq<char>,
    member: Seq<char>,
    members: Seq<(Seq<char>, u64, Seq<u8>)>,
    stop: Option<(TarStop, Seq<char>)>,
    gz_error: Option<Seq<char>>,
) -> Result<Seq<u8>, Seq<char>>
    decreases members.len(),
{
    if members.len() == 0 {
        end_outcome(archive, member, stop, gz_error)
    } else {
        let m = members[0];
        if m.2.len() < m.1 && gz_error is Some {
            if member_matches(m.0, member) {
                Err(with_context(extracting(member, archive), gz_error->0))
            } else {
                Err(with_context(reading_entry(archive), gz_error->0))
            }
        } else if member_matches(m.0, member) {
            Ok(m.2)
        } else {
            scan_outcome(archive, member, members.drop_first(), stop, gz_error)
        }
    }
}

/// What the search for `member` in the gzipped tar archive `data`,
/// labelled `archive`, ends in.
pub open spec fn gz_member(data: Seq<u8>, archive: Seq<char>, member: Seq<char>) -> Result<Seq<u8>, Seq<char>> {
    let (tar, gz_error) = gunzip_prefix(data);
    let (members, stop) = tar_scanned(tar);
    scan_outcome(archive, member, members, stop, gz_error)
}

/// A byte result as plain sequences.
pub open spec fn bytes_view(r: Result<Vec<u8>, String>) -> Result<Seq<u8>, Seq<char>> {
    match r {
        Ok(b) => Ok(b@),
        Err(m) => Err(m@),
    }
}

pub open spec fn opt_text(o: Option<String>) -> Option<Seq<char>> {
    match o {
        Some(m) => Some(m@),
        None => None,
    }
}

pub open spec fn stop_view(o: Option<(TarStage, String)>) -> Option<(TarStop, Seq<char>)> {
    match o {
        Some((s, m)) => Some((stop_of(s), m@)),
        None => None,
    }
}

/// `head`, `a`, `mid` and `b` as one text.
fn text4(head: &str, a: &str, mid: &str, b: &str) -> (r: String)
    ensures
        r@ == head@ + a@ + mid@ + b@,
{
    let x = concat_chars(&chars_of(head), &chars_of(a));
    let y = concat_chars(&x, &chars_of(mid));
    string_of(&concat_chars(&y, &chars_of(b)))
}

/// `context` and `message` the way a failure with a context reads.
fn context_text(context: String, message: &String) -> (r: String)
    ensures
        r@ == with_context(context@, message@),
{
    proof {
        reveal_strlit(": ");
        reveal_strlit("");
    }
    let r = text4(context.as_str(), ": ", message.as_str(), "");
    assert(r@ =~= with_context(context@, message@));
    r
}

fn entry_failure(archive: &str, cause: &String) -> (r: String)
    ensures
        r@ == with_context(reading_entry(archive@), cause@),
{
    proof {
        reveal_strlit("reading tar entry from ");
        reveal_strlit("");
    }
    context_text(text4("reading tar entry from ", archive, "", ""), cause)
}

fn extract_failure(member: &str, archive: &str, cause: &String) -> (r: String)
    ensures
        r@ == with_context(extracting(member@, archive@), cause@),
{
    proof {
        reveal_strlit("extracting ");
        reveal_strlit(" from ");
    }
    let label = text4("extracting ", member, " from ", archive);
    assert(label@ =~= extracting(member@, archive@));
    context_text(label, cause)
}

fn end_failure(archive: &str, member: &str, stop: Option<(TarStage, String)>, gz_error: &Option<String>) -> (r: String)
    ensures
        Err::<Seq<u8>, Seq<char>>(r@) == end_outcome(archive@, member@, stop_view(stop), opt_text(*gz_error)),
{
    proof {
        reveal_strlit("reading tar entries from ");
        reveal_strlit("reading tar path from ");
        reveal_strlit("missing tar member ");
        reveal_strlit(" in ");
        reveal_strlit("");
    }
    match stop {
        Some((stage, m)) => {
            let message = match gz_error {
                Some(e) => string_of(&chars_of(e.as_str())),
                None => m,
            };
            match stage {
                TarStage::Entries => context_text(text4("reading tar entries from ", archive, "", ""), &message),
                TarStage::Entry => entry_failure(archive, &message),
                TarStage::Path => context_text(text4("reading tar path from ", archive, "", ""), &message),
                TarStage::Contents(p) => if archive_member_matches(p.as_str(), member) {
                    extract_failure(member, archive, &message)
                } else {
                    entry_failure(archive, &message)
                },
            }
        },
        None => match gz_error {
            Some(e) => entry_failure(archive, e),
            None => {
                let r = text4("missing tar member ", member, " in ", archive);
                assert(r@ =~= missing_member(member@, archive@));
                r
            },
        },
    }
}

/// The member `member` out of what was read of the tar archive labelled
/// `archive` (see `scan_outcome`): the members read, where reading stopped,
/// and the failure of the gzip stream it came from.
pub fn member_from_scan(
    archive: &str,
    member: &str,
    members: &Vec<TarMember>,
    stop: Option<(TarStage, String)>,
    gz_error: &Option<String>,
) -> (r: Result<Vec<u8>, String>)
    ensures
        bytes_view(r) == scan_outcome(archive@, member@, members_view(members@), stop_view(stop), opt_text(*gz_error)),
{
    let ghost all = members_view(members@);
    let ghost st = stop_view(stop);
    let ghost gz = opt_text(*gz_error);
    let n = members.len();
    assert(all.subrange(0, n as int) =~= all);
    let mut i: usize = 0;
    while i < n
        invariant
            n == members@.len(),
            all == members_view(members@),
            gz == opt_text(*gz_error),
            st == stop_view(stop),
            i <= n,
            scan_outcome(archive@, member@, all.subrange(i as int, n as int), st, gz)
                == scan_outcome(archive@, member@, all, st, gz),
        decreases n - i,
    {
        let ghost rest = all.subrange(i as int, n as int);
        assert(rest[0] == member_view(members@[i as int]));
        let m = &members[i];
        if (m.contents.len() as u64) < m.size {
            if let Some(e) = gz_error {
                assert(gz == Some(e@));
                assert(rest[0].2.len() < rest[0].1);
                if archive_member_matches(m.path.as_str(), member) {
                    return Err(extract_failure(member, archive, e));
                } else {
                    return Err(entry_failure(archive, e));
                }
            }
        }
        if archive_member_matches(m.path.as_str(), member) {
            return Ok(copy_bytes(&m.contents));
        }
        assert(rest.drop_first() =~= all.subrange(i + 1, n as int));
        i = i + 1;
    }
    Err(end_failure(archive, member, stop, gz_error))
}

/// Extracts the member `member` from the bytes of a gzipped tar archive
/// labelled `archive`: the gzip stream is decoded as far as it goes, the
/// tar archive read as far as it goes, and the first member whose path
/// names `member` is returned (see `scan_outcome`).
pub fn tar_gz_member(data: &[u8], archive: &str, member: &str) -> (r: Result<Vec<u8>, String>)
    ensures
        bytes_view(r) == gz_member(data@, archive@, member@),
{
    let (tar, gz_error) = gunzip(data);
    let mut members: Vec<TarMember> = Vec::new();
    let scanned = tar_scan(tar.as_slice(), &mut members);
    let stop = match scanned {
        Ok(()) => None,
        Err(failure) => Some(failure),
    };
    member_from_scan(archive, member, &members, stop, &gz_error)
}

} // verus!
