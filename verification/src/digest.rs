//! SHA-256 digests as lowercase hexadecimal text, and the `.sha256` files
//! published beside downloads.

use vstd::prelude::*;
use crate::codec::{sha256, sha256_of};
use crate::ids::hex_digit;
use crate::text::{
    chars_of, chars_eq, owned, split_once, split_once_exec, string_of, text3, trim,
    trim_chars,
};

verus! {

/// The value of a hexadecimal digit byte, either case.
pub open spec fn nibble_value(b: u8) -> Option<u8> {
    if 48 <= b && b <= 57 {
        Some((b - 48) as u8)
    } else if 97 <= b && b <= 102 {
        Some((b - 87) as u8)
    } else if 65 <= b && b <= 70 {
        Some((b - 55) as u8)
    } else {
        None
    }
}

/// The error for a byte that is not a hexadecimal digit.
pub open spec fn bad_hex_byte(b: u8) -> Seq<char> {
    "invalid hex byte "@ + seq![b as char]
}

pub fn decode_hex_nibble(byte: u8) -> (r: Result<u8, String>)
    ensures
        match r {
            Ok(v) => nibble_value(byte) == Some(v),
            Err(m) => nibble_value(byte) is None && m@ == bad_hex_byte(byte),
        },
{
    if 48 <= byte && byte <= 57 {
        Ok(byte - 48)
    } else if 97 <= byte && byte <= 102 {
        Ok(byte - 87)
    } else if 65 <= byte && byte <= 70 {
        Ok(byte - 55)
    } else {
        let c: char = byte as char;
        let one: Vec<char> = vec![c];
        let m = text3("invalid hex byte ", &one, "");
        proof {
            reveal_strlit("");
            assert(m@ =~= bad_hex_byte(byte));
        }
        Err(m)
    }
}

/// Whether every byte of `s` is a hexadecimal digit.
pub open spec fn all_hex(s: Seq<u8>) -> bool {
    forall|i: int| 0 <= i < s.len() ==> (#[trigger] nibble_value(s[i])) is Some
}

/// The bytes a hexadecimal text of even length spells, two digits each.
pub open spec fn hex_bytes(s: Seq<u8>) -> Seq<u8> {
    Seq::new(s.len() / 2, |k: int| (nibble_value(s[2 * k])->0 * 16 + nibble_value(s[2 * k + 1])->0) as u8)
}

/// The first byte that is not a hexadecimal digit.
pub open spec fn first_bad(s: Seq<u8>) -> int
    decreases s.len(),
{
    if s.len() == 0 {
        0
    } else if nibble_value(s[0]) is None {
        0
    } else {
        1 + first_bad(s.drop_first())
    }
}

proof fn lemma_first_bad(s: Seq<u8>, i: int)
    requires
        0 <= i < s.len(),
        nibble_value(s[i]) is None,
        forall|j: int| 0 <= j < i ==> (#[trigger] nibble_value(s[j])) is Some,
    ensures
        first_bad(s) == i,
    decreases s.len(),
{
    if i > 0 {
        lemma_first_bad(s.drop_first(), i - 1);
    }
}

/// Decodes a hexadecimal text: an odd length is an error, and so is the
/// first byte that is not a digit.
pub fn decode_hex(input: &[u8]) -> (r: Result<Vec<u8>, String>)
    ensures
        match r {
            Ok(bytes) => input@.len() % 2 == 0 && all_hex(input@) && bytes@ == hex_bytes(input@),
            Err(m) => if input@.len() % 2 != 0 {
                m@ == "hex string has odd length"@
            } else {
                !all_hex(input@) && m@ == bad_hex_byte(input@[first_bad(input@)])
            },
        },
{
    let n = input.len();
    if n % 2 != 0 {
        return Err(owned("hex string has odd length"));
    }
    let mut out: Vec<u8> = Vec::new();
    let mut k: usize = 0;
    while k < n / 2
        invariant
            n == input@.len(),
            n % 2 == 0,
            k <= n / 2,
            forall|j: int| 0 <= j < 2 * k ==> (#[trigger] nibble_value(input@[j])) is Some,
            out@ == hex_bytes(input@).subrange(0, k as int),
        decreases n / 2 - k,
    {
        let hi = match decode_hex_nibble(input[2 * k]) {
            Ok(v) => v,
            Err(m) => {
                proof {
                    lemma_first_bad(input@, 2 * k as int);
                }
                return Err(m);
            },
        };
        let lo = match decode_hex_nibble(input[2 * k + 1]) {
            Ok(v) => v,
            Err(m) => {
                proof {
                    lemma_first_bad(input@, 2 * k + 1);
                }
                return Err(m);
            },
        };
        assert(hi < 16 && lo < 16);
        let b: u8 = hi * 16 + lo;
        out.push(b);
        assert(out@ =~= hex_bytes(input@).subrange(0, k + 1));
        k = k + 1;
    }
    assert(out@ =~= hex_bytes(input@));
    Ok(out)
}

/// The two lowercase hexadecimal digits of each byte (`{:02x}`), as bytes.
pub open spec fn hex_lower(bytes: Seq<u8>) -> Seq<u8> {
    Seq::new(2 * bytes.len(), |i: int| {
        let b = bytes[i / 2];
        let d = if i % 2 == 0 { b / 16 } else { b % 16 };
        (if d < 10 { 48 + d } else { 87 + d }) as u8
    })
}

/// The same digits as characters.
pub open spec fn hex_text(bytes: Seq<u8>) -> Seq<char> {
    Seq::new(2 * bytes.len(), |i: int| {
        let b = bytes[i / 2];
        hex_digit((if i % 2 == 0 { b / 16 } else { b % 16 }) as nat)
    })
}

fn hex_char(d: u8) -> (c: char)
    requires
        d < 16,
    ensures
        c == hex_digit(d as nat),
{
    if d < 10 {
        (48 + d) as char
    } else {
        (87 + d) as char
    }
}

/// Lowercase hexadecimal text of the bytes.
pub fn hex_string(bytes: &[u8]) -> (s: String)
    ensures
        s@ == hex_text(bytes@),
{
    let n = bytes.len();
    let mut out: Vec<char> = Vec::new();
    let mut i: usize = 0;
    while i < n
        invariant
            n == bytes@.len(),
            i <= n,
            out@ == hex_text(bytes@).subrange(0, 2 * i as int),
        decreases n - i,
    {
        let b = bytes[i];
        out.push(hex_char(b / 16));
        out.push(hex_char(b % 16));
        assert(out@ =~= hex_text(bytes@).subrange(0, 2 * (i + 1)));
        i = i + 1;
    }
    assert(out@ =~= hex_text(bytes@));
    string_of(&out)
}

/// The SHA-256 digest of a download's bytes.
pub fn file_sha256(bytes: &[u8]) -> (d: Vec<u8>)
    ensures
        d@ == sha256_of(bytes@),
        d@.len() == 32,
{
    sha256(bytes)
}

/// The lowercase hexadecimal SHA-256 digest of `bytes`.
pub fn hex_sha256(bytes: &[u8]) -> (s: String)
    ensures
        s@ == hex_text(sha256_of(bytes@)),
{
    let digest = sha256(bytes);
    hex_string(&digest)
}

/// The UTF-8 bytes of the hexadecimal text of some bytes are the ASCII
/// digits `hex_lower` names.
pub proof fn lemma_hex_text_bytes(bytes: Seq<u8>)
    ensures
        vstd::utf8::encode_utf8(hex_text(bytes)) == hex_lower(bytes),
{
    let t = hex_text(bytes);
    assert(vstd::utf8::is_ascii_chars(t)) by {
        assert forall|i: int| 0 <= i < t.len() implies '\0' <= #[trigger] t[i] <= '\u{7f}' by {
            let b = bytes[i / 2];
            let d = if i % 2 == 0 { b / 16 } else { b % 16 };
            assert(d < 16);
        }
    }
    vstd::utf8::is_ascii_chars_encode_utf8(t);
    let e = vstd::utf8::encode_utf8(t);
    assert forall|i: int| 0 <= i < e.len() implies e[i] == hex_lower(bytes)[i] by {
        assert(t[i] as u8 == e[i]);
        let b = bytes[i / 2];
        let d = if i % 2 == 0 { b / 16 } else { b % 16 };
        assert(d < 16);
    }
    assert(e =~= hex_lower(bytes));
}

/// Decoding the hexadecimal text of bytes, read as UTF-8, gives the bytes
/// back: a digest written as text is read back unchanged.
pub proof fn lemma_hex_roundtrip(bytes: Seq<u8>)
    ensures
        vstd::utf8::encode_utf8(hex_text(bytes)).len() % 2 == 0,
        all_hex(vstd::utf8::encode_utf8(hex_text(bytes))),
        hex_bytes(vstd::utf8::encode_utf8(hex_text(bytes))) == bytes,
{
    lemma_hex_text_bytes(bytes);
    let h = hex_lower(bytes);
    assert forall|i: int| 0 <= i < h.len() implies (#[trigger] nibble_value(h[i])) is Some by {
        let b = bytes[i / 2];
        let d = if i % 2 == 0 { b / 16 } else { b % 16 };
        assert(d < 16);
    }
    assert forall|k: int| 0 <= k < bytes.len() implies hex_bytes(h)[k] == bytes[k] by {
        let b = bytes[k];
        assert((2 * k) / 2 == k);
        assert((2 * k + 1) / 2 == k);
        assert((2 * k) % 2 == 0);
        assert((2 * k + 1) % 2 == 1);
        let hi = b / 16;
        let lo = b % 16;
        assert(nibble_value(h[2 * k]) == Some(hi as u8));
        assert(nibble_value(h[2 * k + 1]) == Some(lo as u8));
        assert(hi * 16 + lo == b);
    }
    assert(hex_bytes(h) =~= bytes);
}

/// Why a `.sha256` file does not vouch for a download, if it does not: it
/// must read `<hex digest>  <file name>`, name the downloaded file, and
/// give the download's digest (`actual`).
pub open spec fn checksum_problem(payload_path: Seq<char>, payload_name: Seq<char>, checksum_file: Seq<char>, actual: Seq<u8>) -> Option<Seq<char>> {
    match split_once(checksum_file, "  "@) {
        None => Some("invalid .sha256 format"@),
        Some((hex, file_name)) => {
            let expected = vstd::utf8::encode_utf8(trim(hex));
            if trim(file_name) != payload_name {
                Some("checksum file name does not match payload name"@)
            } else if expected.len() % 2 != 0 {
                Some("hex string has odd length"@)
            } else if !all_hex(expected) {
                Some(bad_hex_byte(expected[first_bad(expected)]))
            } else if hex_bytes(expected) != actual {
                Some("sha256 mismatch for "@ + payload_path)
            } else {
                None
            }
        },
    }
}

/// Checks a download against the text of its `.sha256` file;
/// `payload_name` is the download's file name and `actual` its digest.
pub fn verify_sha256(payload_path: &str, payload_name: &str, checksum_file: &str, actual: &[u8]) -> (r: Result<(), String>)
    ensures
        match r {
            Ok(()) => checksum_problem(payload_path@, payload_name@, checksum_file@, actual@) is None,
            Err(m) => checksum_problem(payload_path@, payload_name@, checksum_file@, actual@) == Some(m@),
        },
{
    let sep = chars_of("  ");
    let (hex, file_name) = match split_once_exec(&chars_of(checksum_file), &sep) {
        Some(parts) => parts,
        None => return Err(owned("invalid .sha256 format")),
    };
    if !chars_eq(&trim_chars(&file_name), &chars_of(payload_name)) {
        return Err(owned("checksum file name does not match payload name"));
    }
    let hex_text = string_of(&trim_chars(&hex));
    let expected = decode_hex(hex_text.as_str().as_bytes())?;
    let n = actual.len();
    let mut same = expected.len() == n;
    let mut i: usize = 0;
    if same {
        while i < n
            invariant
                n == actual@.len(),
                expected@.len() == n,
                i <= n,
                same == forall|j: int| 0 <= j < i ==> expected@[j] == actual@[j],
            decreases n - i,
        {
            same = same && expected[i] == actual[i];
            i = i + 1;
        }
    }
    if !same {
        proof {
            if expected@.len() == n {
                let j = choose|j: int| 0 <= j < n && expected@[j] != actual@[j];
                assert(expected@[j] != actual@[j]);
            }
        }
        let m = text3("sha256 mismatch for ", &chars_of(payload_path), "");
        proof {
            reveal_strlit("");
            assert(m@ =~= "sha256 mismatch for "@ + payload_path@);
        }
        return Err(m);
    }
    assert(expected@ =~= actual@);
    Ok(())
}

} // verus!
