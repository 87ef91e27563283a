//! IPv4 addresses: the 32-bit value, its dotted-quad text and the parser of
//! that text.

use vstd::prelude::*;

use crate::text::{
    all_digits, chars_of, decimal, digits_value, is_digit, is_digit_char, lemma_decimal_digits,
    lemma_decimal_len, lemma_split_four, push_char, push_decimal, split_chars, split_on,
};

verus! {

/// An IPv4 address.
#[derive(Debug, Clone, Copy, PartialEq, Eq, Structural)]
pub struct Ipv4Addr {
    bits: u32,
}

impl View for Ipv4Addr {
    type V = u32;

    /// The address as a 32-bit number, first octet most significant.
    closed spec fn view(&self) -> u32 {
        self.bits
    }
}

/// The address with octets `a.b.c.d`.
pub open spec fn from_octets(a: nat, b: nat, c: nat, d: nat) -> nat {
    a * 16777216 + b * 65536 + c * 256 + d
}

/// The four octets of an address, most significant first.
pub open spec fn octets_of(x: u32) -> Seq<nat> {
    seq![
        (x / 16777216) as nat,
        ((x / 65536) % 256) as nat,
        ((x / 256) % 256) as nat,
        (x % 256) as nat,
    ]
}

/// The dotted-quad text of an address, e.g. `192.168.1.10`.
pub open spec fn ipv4_text(x: u32) -> Seq<char> {
    let o = octets_of(x);
    decimal(o[0]) + seq!['.'] + decimal(o[1]) + seq!['.'] + decimal(o[2]) + seq!['.'] + decimal(
        o[3],
    )
}

/// The value of one dotted-quad field: one to three ASCII digits, no
/// leading zero unless the field is `0`, at most 255.
pub open spec fn octet_field(p: Seq<char>) -> Option<nat> {
    if 1 <= p.len() <= 3 && all_digits(p) && !(p.len() > 1 && p[0] == '0') && digits_value(p)
        <= 255 {
        Some(digits_value(p))
    } else {
        None
    }
}

/// The address a text denotes in dotted-quad notation: exactly four fields
/// separated by `.`, each a valid octet field.
pub open spec fn parse_ipv4_text(s: Seq<char>) -> Option<u32> {
    let ps = split_on(s, '.');
    if ps.len() == 4 && octet_field(ps[0]) is Some && octet_field(ps[1]) is Some && octet_field(
        ps[2],
    ) is Some && octet_field(ps[3]) is Some {
        Some(
            from_octets(
                octet_field(ps[0])->0,
                octet_field(ps[1])->0,
                octet_field(ps[2])->0,
                octet_field(ps[3])->0,
            ) as u32,
        )
    } else {
        None
    }
}

/// Reads one dotted-quad field.
fn parse_octet(p: &[char]) -> (r: Option<u32>)
    ensures
        match r {
            Some(v) => octet_field(p@) == Some(v as nat),
            None => octet_field(p@) is None,
        },
{
    if p.len() < 1 || p.len() > 3 {
        return None;
    }
    if p.len() > 1 && p[0] == '0' {
        return None;
    }
    let mut value: u32 = 0;
    let mut i: usize = 0;
    proof {
        assert(p@.take(0) =~= Seq::<char>::empty());
    }
    while i < p.len()
        invariant
            1 <= p.len() <= 3,
            i <= p.len(),
            all_digits(p@.take(i as int)),
            value == digits_value(p@.take(i as int)),
            i == 0 ==> value == 0,
            i == 1 ==> value < 10,
            i == 2 ==> value < 100,
            value < 1000,
        decreases p.len() - i,
    {
        if !is_digit_char(p[i]) {
            proof {
                assert(!is_digit(p@[i as int]));
            }
            return None;
        }
        proof {
            assert(p@.take(i + 1).drop_last() =~= p@.take(i as int));
            assert(p@.take(i + 1).last() == p@[i as int]);
            assert(value * 10 + (p@[i as int] as u32 - '0' as u32) < 10000);
        }
        value = value * 10 + (p[i] as u32 - '0' as u32);
        i = i + 1;
    }
    proof {
        assert(p@.take(p.len() as int) =~= p@);
    }
    if value > 255 {
        return None;
    }
    Some(value)
}

impl Ipv4Addr {
    /// The address `a.b.c.d`.
    pub fn new(a: u8, b: u8, c: u8, d: u8) -> (r: Ipv4Addr)
        ensures
            r@ == from_octets(a as nat, b as nat, c as nat, d as nat),
    {
        Ipv4Addr { bits: a as u32 * 16777216 + b as u32 * 65536 + c as u32 * 256 + d as u32 }
    }

    /// The address with the given 32-bit value.
    pub fn from_bits(bits: u32) -> (r: Ipv4Addr)
        ensures
            r@ == bits,
    {
        Ipv4Addr { bits }
    }

    /// The 32-bit value of the address.
    pub fn to_bits(&self) -> (r: u32)
        ensures
            r == self@,
    {
        self.bits
    }

    /// The four octets, most significant first.
    pub fn octets(&self) -> (r: [u8; 4])
        ensures
            r@.map_values(|o: u8| o as nat) == octets_of(self@),
    {
        let x = self.bits;
        let r = [(x / 16777216) as u8, ((x / 65536) % 256) as u8, ((x / 256) % 256) as u8, (x % 256) as u8];
        proof {
            assert(r@.map_values(|o: u8| o as nat) =~= octets_of(self@));
        }
        r
    }

    /// The dotted-quad text of the address.
    pub fn to_string(&self) -> (r: String)
        ensures
            r@ == ipv4_text(self@),
    {
        let x = self.bits;
        let mut out = String::new();
        push_decimal(&mut out, (x / 16777216) as u64);
        push_char(&mut out, '.');
        push_decimal(&mut out, ((x / 65536) % 256) as u64);
        push_char(&mut out, '.');
        push_decimal(&mut out, ((x / 256) % 256) as u64);
        push_char(&mut out, '.');
        push_decimal(&mut out, (x % 256) as u64);
        proof {
            assert(out@ =~= ipv4_text(self@));
        }
        out
    }

    /// Reads an address in dotted-quad notation (`192.168.1.10`).
    pub fn parse_chars(s: &[char]) -> (r: Option<Ipv4Addr>)
        ensures
            match r {
                Some(a) => parse_ipv4_text(s@) == Some(a@),
                None => parse_ipv4_text(s@) is None,
            },
    {
        let parts = split_chars(s, '.');
        let ghost ps = split_on(s@, '.');
        if parts.len() != 4 {
            return None;
        }
        proof {
            assert(parts@.map_values(|p: Vec<char>| p@)[0] == parts@[0]@);
            assert(parts@.map_values(|p: Vec<char>| p@)[1] == parts@[1]@);
            assert(parts@.map_values(|p: Vec<char>| p@)[2] == parts@[2]@);
            assert(parts@.map_values(|p: Vec<char>| p@)[3] == parts@[3]@);
        }
        let a = match parse_octet(parts[0].as_slice()) {
            Some(v) => v,
            None => return None,
        };
        let b = match parse_octet(parts[1].as_slice()) {
            Some(v) => v,
            None => return None,
        };
        let c = match parse_octet(parts[2].as_slice()) {
            Some(v) => v,
            None => return None,
        };
        let d = match parse_octet(parts[3].as_slice()) {
            Some(v) => v,
            None => return None,
        };
        Some(Ipv4Addr { bits: a * 16777216 + b * 65536 + c * 256 + d })
    }

    /// Reads an address in dotted-quad notation (`192.168.1.10`).
    pub fn parse(s: &str) -> (r: Option<Ipv4Addr>)
        ensures
            match r {
                Some(a) => parse_ipv4_text(s@) == Some(a@),
                None => parse_ipv4_text(s@) is None,
            },
    {
        let cs = chars_of(s);
        Self::parse_chars(cs.as_slice())
    }
}

/// The decimal text of an octet is a valid dotted-quad field of that
/// value, and holds no `.`.
proof fn lemma_octet_field_decimal(n: nat)
    requires
        n <= 255,
    ensures
        octet_field(decimal(n)) == Some(n),
        forall|i: int| 0 <= i < decimal(n).len() ==> decimal(n)[i] != '.',
{
    lemma_decimal_digits(n);
    lemma_decimal_len(n);
    assert forall|i: int| 0 <= i < decimal(n).len() implies decimal(n)[i] != '.' by {
        assert(is_digit(decimal(n)[i]));
    }
}

/// The dotted-quad text of an address holds only digits and dots.
pub proof fn lemma_ipv4_text_chars(x: u32)
    ensures
        forall|i: int|
            0 <= i < ipv4_text(x).len() ==> is_digit(#[trigger] ipv4_text(x)[i]) || ipv4_text(x)[i]
                == '.',
{
    let o = octets_of(x);
    lemma_decimal_digits(o[0]);
    lemma_decimal_digits(o[1]);
    lemma_decimal_digits(o[2]);
    lemma_decimal_digits(o[3]);
    let t = ipv4_text(x);
    let d0 = decimal(o[0]);
    let d1 = decimal(o[1]);
    let d2 = decimal(o[2]);
    let d3 = decimal(o[3]);
    assert forall|i: int| 0 <= i < t.len() implies is_digit(#[trigger] t[i]) || t[i] == '.' by {
        let a = d0.len() as int;
        let b = a + 1 + d1.len();
        let c = b + 1 + d2.len();
        if i < a {
            assert(t[i] == d0[i]);
        } else if i == a {
        } else if i < b {
            assert(t[i] == d1[i - a - 1]);
        } else if i == b {
        } else if i < c {
            assert(t[i] == d2[i - b - 1]);
        } else if i == c {
        } else {
            assert(t[i] == d3[i - c - 1]);
        }
    }
}

/// Reading back the dotted-quad text of an address gives the address.
pub proof fn lemma_parse_ipv4_text(x: u32)
    ensures
        parse_ipv4_text(ipv4_text(x)) == Some(x),
{
    let o = octets_of(x);
    assert(x / 16777216 < 256) by (bit_vector);
    lemma_octet_field_decimal(o[0]);
    lemma_octet_field_decimal(o[1]);
    lemma_octet_field_decimal(o[2]);
    lemma_octet_field_decimal(o[3]);
    lemma_split_four(decimal(o[0]), decimal(o[1]), decimal(o[2]), decimal(o[3]), '.');
    assert((x / 16777216) * 16777216 + ((x / 65536) % 256) * 65536 + ((x / 256) % 256) * 256 + (x
        % 256) == x) by (bit_vector);
}

} // verus!
