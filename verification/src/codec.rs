//! Byte encodings the daemon uses: base64 payloads on the websocket and
//! SHA-256 digests of downloads, through the `base64` and `sha2` crates.

use vstd::prelude::*;
use base64::Engine as _;
use sha2::Digest as _;

verus! {

/// The character of the standard base64 alphabet for a 6-bit value.
pub open spec fn base64_digit(v: int) -> char {
    if v < 26 {
        (65 + v) as char
    } else if v < 52 {
        (97 + v - 26) as char
    } else if v < 62 {
        (48 + v - 52) as char
    } else if v == 62 {
        '+'
    } else {
        '/'
    }
}

/// The four characters for a group of three bytes read as the 24-bit
/// number `n`, of which only the first `kept` characters are digits and the
/// rest are `=` padding.
pub open spec fn base64_group(n: int, kept: int) -> Seq<char> {
    seq![
        base64_digit(n / 262144),
        base64_digit((n / 4096) % 64),
        if kept >= 3 { base64_digit((n / 64) % 64) } else { '=' },
        if kept >= 4 { base64_digit(n % 64) } else { '=' },
    ]
}

/// The standard (padded) base64 text of a byte sequence: each group of
/// three bytes becomes four characters; a last group of one or two bytes is
/// padded with `=`.
pub open spec fn base64_encoded(data: Seq<u8>) -> Seq<char>
    decreases data.len(),
{
    if data.len() == 0 {
        Seq::empty()
    } else if data.len() == 1 {
        base64_group(data[0] as int * 65536, 2)
    } else if data.len() == 2 {
        base64_group(data[0] as int * 65536 + data[1] as int * 256, 3)
    } else {
        base64_group(data[0] as int * 65536 + data[1] as int * 256 + data[2] as int, 4)
            + base64_encoded(data.subrange(3, data.len() as int))
    }
}

/// What the standard base64 engine makes of a text: the decoded bytes, or
/// the text of its decoding error.
pub uninterp spec fn base64_decoded(text: Seq<char>) -> Result<Seq<u8>, Seq<char>>;

/// A text made by encoding some bytes decodes to those bytes.
pub open spec fn round_trips(text: Seq<char>, r: Result<Vec<u8>, String>) -> bool {
    forall|b: Seq<u8>| text == base64_encoded(b) ==> (r matches Ok(v) && v@ == b)
}

/// Decodes standard (padded) base64 with
/// `base64::engine::general_purpose::STANDARD.decode`; a failure is
/// returned as the error's display text. The contract names the result,
/// and states the engine's round trip: a text that `STANDARD.encode` made
/// from some bytes decodes to those bytes.
#[verifier::external_body]
pub(crate) fn base64_decode(text: &str) -> (r: Result<Vec<u8>, String>)
    ensures
        match r {
            Ok(bytes) => base64_decoded(text@) == Ok::<Seq<u8>, Seq<char>>(bytes@),
            Err(message) => base64_decoded(text@) == Err::<Seq<u8>, Seq<char>>(message@),
        },
        round_trips(text@, r),
{
    base64::engine::general_purpose::STANDARD.decode(text).map_err(|error| error.to_string())
}


/// Encodes with `base64::engine::general_purpose::STANDARD.encode`, the
/// padded standard alphabet, as `base64_encoded` states.
#[verifier::external_body]
pub(crate) fn base64_encode(data: &[u8]) -> (s: String)
    ensures
        s@ == base64_encoded(data@),
{
    base64::engine::general_purpose::STANDARD.encode(data)
}

/// The SHA-256 digest of a byte sequence.
pub uninterp spec fn sha256_of(data: Seq<u8>) -> Seq<u8>;

/// Hashes with `sha2::Sha256::digest`; the digest is 32 bytes long.
#[verifier::external_body]
pub(crate) fn sha256(data: &[u8]) -> (d: Vec<u8>)
    ensures
        d@ == sha256_of(data@),
        d@.len() == 32,
{
    sha2::Sha256::digest(data).to_vec()
}

} // verus!
