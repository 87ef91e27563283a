//! Hexadecimal text of bytes: two lowercase digits per byte, as the `hex`
//! crate writes it, and the reading back of such text, which accepts
//! either case.

use vstd::prelude::*;

use crate::text::{chars_of, push_char};

verus! {

/// The lowercase hexadecimal digit of a value below 16.
pub open spec fn hex_digit(d: nat) -> char {
    if d < 10 {
        (48 + d) as char
    } else {
        (87 + d) as char
    }
}

/// The value of a hexadecimal digit of either case.
pub open spec fn hex_value(c: char) -> Option<nat> {
    if '0' <= c <= '9' {
        Some((c as nat - 48) as nat)
    } else if 'a' <= c <= 'f' {
        Some((c as nat - 87) as nat)
    } else if 'A' <= c <= 'F' {
        Some((c as nat - 55) as nat)
    } else {
        None
    }
}

/// The hexadecimal text of bytes: the high digit of each byte, then its low
/// digit.
pub open spec fn hex_encode(b: Seq<u8>) -> Seq<char> {
    Seq::new(
        2 * b.len(),
        |i: int|
            if i % 2 == 0 {
                hex_digit((b[i / 2] / 16) as nat)
            } else {
                hex_digit((b[i / 2] % 16) as nat)
            },
    )
}

/// Whether a text is an even number of hexadecimal digits.
pub open spec fn is_hex_text(s: Seq<char>) -> bool {
    s.len() % 2 == 0 && forall|i: int| 0 <= i < s.len() ==> (#[trigger] hex_value(s[i])) is Some
}

/// The bytes a hexadecimal text denotes, two digits per byte; `None` for a
/// text of odd length or with a character that is not a hexadecimal digit.
pub open spec fn hex_decode(s: Seq<char>) -> Option<Seq<u8>> {
    if is_hex_text(s) {
        Some(
            Seq::new(
                s.len() / 2,
                |i: int| (hex_value(s[2 * i])->0 * 16 + hex_value(s[2 * i + 1])->0) as u8,
            ),
        )
    } else {
        None
    }
}

/// The digit of a value below 16.
fn digit(d: u8) -> (r: char)
    requires
        d < 16,
    ensures
        r == hex_digit(d as nat),
{
    if d < 10 {
        (48 + d) as char
    } else {
        (87 + d) as char
    }
}

/// The value of a hexadecimal digit.
fn digit_value(c: char) -> (r: Option<u8>)
    ensures
        match r {
            Some(v) => hex_value(c) == Some(v as nat) && v < 16,
            None => hex_value(c) is None,
        },
{
    if '0' <= c && c <= '9' {
        Some((c as u32 - 48) as u8)
    } else if 'a' <= c && c <= 'f' {
        Some((c as u32 - 87) as u8)
    } else if 'A' <= c && c <= 'F' {
        Some((c as u32 - 55) as u8)
    } else {
        None
    }
}

/// The hexadecimal text of `data` (`hex::encode`).
pub fn encode(data: &[u8]) -> (r: String)
    ensures
        r@ == hex_encode(data@),
{
    let mut out = String::new();
    let mut i: usize = 0;
    while i < data.len()
        invariant
            i <= data.len(),
            out@ == hex_encode(data@.take(i as int)),
        decreases data.len() - i,
    {
        let b = data[i];
        push_char(&mut out, digit(b / 16));
        push_char(&mut out, digit(b % 16));
        proof {
            assert(out@ =~= hex_encode(data@.take(i + 1)));
        }
        i = i + 1;
    }
    proof {
        assert(data@.take(data.len() as int) =~= data@);
    }
    out
}

/// The bytes the hexadecimal text `s` denotes, if it is one
/// (`hex::decode`).
pub fn decode(s: &str) -> (r: Option<Vec<u8>>)
    ensures
        match r {
            Some(v) => hex_decode(s@) == Some(v@),
            None => hex_decode(s@) is None,
        },
{
    let cs = chars_of(s);
    decode_chars(cs.as_slice())
}

/// The bytes the hexadecimal text `cs` denotes, if it is one.
pub fn decode_chars(cs: &[char]) -> (r: Option<Vec<u8>>)
    ensures
        match r {
            Some(v) => hex_decode(cs@) == Some(v@),
            None => hex_decode(cs@) is None,
        },
{
    if cs.len() % 2 != 0 {
        return None;
    }
    let mut out: Vec<u8> = Vec::new();
    let mut i: usize = 0;
    while i < cs.len()
        invariant
            cs.len() % 2 == 0,
            i % 2 == 0,
            i <= cs.len(),
            out.len() == i / 2,
            forall|k: int| 0 <= k < i ==> (#[trigger] hex_value(cs@[k])) is Some,
            forall|k: int|
                0 <= k < out.len() ==> out@[k] == (hex_value(cs@[2 * k])->0 * 16 + hex_value(
                    cs@[2 * k + 1],
                )->0) as u8,
        decreases cs.len() - i,
    {
        let hi = match digit_value(cs[i]) {
            Some(v) => v,
            None => return None,
        };
        let lo = match digit_value(cs[i + 1]) {
            Some(v) => v,
            None => return None,
        };
        out.push(hi * 16 + lo);
        i = i + 2;
    }
    proof {
        assert(out@ =~= hex_decode(cs@)->0);
    }
    Some(out)
}

/// Reading back the hexadecimal text of bytes gives the bytes.
pub proof fn lemma_decode_encode(b: Seq<u8>)
    ensures
        hex_decode(hex_encode(b)) == Some(b),
{
    let s = hex_encode(b);
    assert forall|i: int| 0 <= i < s.len() implies (#[trigger] hex_value(s[i])) is Some by {
        let d = if i % 2 == 0 { (b[i / 2] / 16) as nat } else { (b[i / 2] % 16) as nat };
        assert(d < 16);
    }
    assert forall|k: int| 0 <= k < b.len() implies ((hex_value(s[2 * k])->0 * 16 + hex_value(
        s[2 * k + 1],
    )->0) as u8) == b[k] by {
        assert((2 * k) % 2 == 0);
        assert((2 * k + 1) % 2 == 1);
        assert((2 * k) / 2 == k);
        assert((2 * k + 1) / 2 == k);
        let x = b[k];
        assert(hex_value(hex_digit((x / 16) as nat)) == Some((x / 16) as nat));
        assert(hex_value(hex_digit((x % 16) as nat)) == Some((x % 16) as nat));
    }
    assert(hex_decode(s)->0 =~= b);
}

/// Hexadecimal text holds no `:`.
pub proof fn lemma_encode_has_no_colon(b: Seq<u8>)
    ensures
        forall|i: int| 0 <= i < hex_encode(b).len() ==> hex_encode(b)[i] != ':',
{
}

} // verus!
