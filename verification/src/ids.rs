//! Identifiers: BOX, sandbox, shell and admin ids are 128-bit UUIDs, held
//! here as `u128` and rendered or parsed by the `uuid` crate.

use vstd::prelude::*;
use vstd::arithmetic::power::pow;

verus! {

/// The lowercase hexadecimal digit for `d` (`d < 16`).
pub open spec fn hex_digit(d: nat) -> char {
    if d < 10 {
        (48 + d) as char
    } else {
        (87 + d) as char
    }
}

/// The `k`-th of the 32 hexadecimal digits of `id`, most significant first.
pub open spec fn uuid_nibble(id: u128, k: int) -> nat {
    ((id as nat / pow(16, (31 - k) as nat) as nat) % 16) as nat
}

/// The 32 lowercase hexadecimal digits of `id`, most significant first.
pub open spec fn uuid_hex(id: u128) -> Seq<char> {
    Seq::new(32, |k: int| hex_digit(uuid_nibble(id, k)))
}

/// The hyphenated form `xxxxxxxx-xxxx-xxxx-xxxx-xxxxxxxxxxxx` of `id`.
pub open spec fn uuid_text(id: u128) -> Seq<char> {
    let h = uuid_hex(id);
    h.subrange(0, 8) + seq!['-'] + h.subrange(8, 12) + seq!['-'] + h.subrange(12, 16) + seq!['-']
        + h.subrange(16, 20) + seq!['-'] + h.subrange(20, 32)
}

/// What `Uuid::parse_str` gives for a text: `Some` of the id it accepts.
pub uninterp spec fn uuid_parsed(text: Seq<char>) -> Option<u128>;

/// Renders `id` through `uuid::Uuid::from_u128(id).to_string()`; the
/// crate's `Display` writes the hyphenated lowercase form of the 16
/// big-endian bytes, which is what the contract states.
#[verifier::external_body]
pub(crate) fn uuid_string(id: u128) -> (s: String)
    ensures
        s@ == uuid_text(id),
{
    uuid::Uuid::from_u128(id).to_string()
}

/// Renders `id` through `uuid::Uuid::from_u128(id).simple().to_string()`:
/// the 32 lowercase hexadecimal digits without hyphens.
#[verifier::external_body]
pub(crate) fn uuid_simple(id: u128) -> (s: String)
    ensures
        s@ == uuid_hex(id),
{
    uuid::Uuid::from_u128(id).simple().to_string()
}

/// Parses a UUID with `uuid::Uuid::parse_str`; the contract only names the
/// result (the crate accepts the simple, hyphenated, braced and URN forms).
#[verifier::external_body]
pub(crate) fn uuid_parse(text: &str) -> (r: Option<u128>)
    ensures
        r == uuid_parsed(text@),
{
    uuid::Uuid::parse_str(text).ok().map(|id| id.as_u128())
}

} // verus!
