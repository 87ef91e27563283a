//! IPv4 subnets: an address with a prefix length, and everything derived
//! from it (mask, network, broadcast, host range, host count).

use vstd::prelude::*;
use vstd::arithmetic::power2::pow2;
use vstd::bits::lemma_u64_shl_is_mul;

use crate::error::{NetworkError, NetworkErrorView};
use crate::network::ipv4::{ipv4_text, lemma_ipv4_text_chars, lemma_parse_ipv4_text, parse_ipv4_text, Ipv4Addr};
use crate::text::{
    chars_of, decimal, find_char, find_char_index, is_digit, lemma_decimal_digits, lemma_find_char,
    parse_u8, parse_u8_text, slice_chars, string_of,
};

verus! {

/// An IPv4 subnet such as `192.168.1.10/24`: the address as given and the
/// prefix length, at most 32.
#[derive(Debug, Clone, Copy)]
pub struct Subnet {
    ip: Ipv4Addr,
    prefix: u8,
}

impl View for Subnet {
    type V = (u32, u8);

    /// The address as a 32-bit number and the prefix length.
    closed spec fn view(&self) -> (u32, u8) {
        (self.ip@, self.prefix)
    }
}

/// The mask of a prefix length: `p` one bits from the left.
pub open spec fn mask_of(p: u8) -> u32 {
    if p == 0 {
        0
    } else {
        u32::MAX << ((32 - p) as u32)
    }
}

/// The network address: the host bits of `ip` cleared.
pub open spec fn network_of(ip: u32, p: u8) -> u32 {
    ip & mask_of(p)
}

/// The broadcast address: the host bits of `ip` set.
pub open spec fn broadcast_of(ip: u32, p: u8) -> u32 {
    (ip & mask_of(p)) | !mask_of(p)
}

/// The first usable host: the one after the network address. A /31 or a
/// /32 has no classic host range, so it has none.
pub open spec fn first_host_of(ip: u32, p: u8) -> Option<u32> {
    if p >= 31 {
        None
    } else {
        Some((network_of(ip, p) + 1) as u32)
    }
}

/// The last usable host: the one before the broadcast address. A /31 or a
/// /32 has no classic host range, so it has none.
pub open spec fn last_host_of(ip: u32, p: u8) -> Option<u32> {
    if p >= 31 {
        None
    } else {
        Some((broadcast_of(ip, p) - 1) as u32)
    }
}

/// The number of usable hosts: 1 on a /32, 2 on a /31, otherwise the size
/// of the block less the network and broadcast addresses.
pub open spec fn usable_hosts_of(p: u8) -> nat {
    if p == 32 {
        1
    } else if p == 31 {
        2
    } else {
        (pow2((32 - p) as nat) - 2) as nat
    }
}

/// What `ip/prefix` text denotes: the first `/` separates the address from
/// the prefix; each part is checked in that order.
pub open spec fn parse_subnet_text(s: Seq<char>) -> Result<(u32, u8), NetworkErrorView> {
    match find_char(s, '/') {
        None => Err(NetworkErrorView::InvalidFormat),
        Some(i) => {
            let ip = s.take(i as int);
            let pre = s.skip(i + 1 as int);
            match parse_ipv4_text(ip) {
                None => Err(NetworkErrorView::InvalidIp(ip)),
                Some(a) => match parse_u8_text(pre) {
                    None => Err(NetworkErrorView::InvalidPrefix(pre)),
                    Some(p) => if p > 32 {
                        Err(NetworkErrorView::PrefixOutOfRange(p))
                    } else {
                        Ok((a, p))
                    },
                },
            }
        },
    }
}

impl Subnet {
    #[verifier::type_invariant]
    spec fn prefix_in_range(self) -> bool {
        self.prefix <= 32
    }

    /// The subnet of `ip` with prefix length `prefix`; a prefix above 32 is
    /// refused.
    pub fn new(ip: Ipv4Addr, prefix: u8) -> (r: Result<Subnet, NetworkError>)
        ensures
            prefix > 32 ==> r == Err::<Subnet, NetworkError>(NetworkError::PrefixOutOfRange(prefix)),
            prefix <= 32 ==> r is Ok && r->Ok_0@ == (ip@, prefix),
    {
        if prefix > 32 {
            return Err(NetworkError::PrefixOutOfRange(prefix));
        }
        Ok(Subnet { ip, prefix })
    }

    /// Reads `ip/prefix` text such as `192.168.1.10/24`.
    pub fn parse(girdi: &str) -> (r: Result<Subnet, NetworkError>)
        ensures
            match r {
                Ok(n) => parse_subnet_text(girdi@) == Ok::<(u32, u8), NetworkErrorView>(n@),
                Err(e) => parse_subnet_text(girdi@) == Err::<(u32, u8), NetworkErrorView>(e@),
            },
    {
        let cs = chars_of(girdi);
        let slash = match find_char_index(cs.as_slice(), '/') {
            Some(i) => i,
            None => return Err(NetworkError::InvalidFormat),
        };
        let ip_part = slice_chars(cs.as_slice(), 0, slash);
        let prefix_part = slice_chars(cs.as_slice(), slash + 1, cs.len());
        proof {
            assert(ip_part@ =~= girdi@.take(slash as int));
            assert(prefix_part@ =~= girdi@.skip(slash + 1 as int));
        }
        let ip = match Ipv4Addr::parse_chars(ip_part.as_slice()) {
            Some(a) => a,
            None => return Err(NetworkError::InvalidIp(string_of(ip_part.as_slice()))),
        };
        let prefix = match parse_u8(prefix_part.as_slice()) {
            Some(p) => p,
            None => return Err(NetworkError::InvalidPrefix(string_of(prefix_part.as_slice()))),
        };
        Self::new(ip, prefix)
    }

    /// The address the subnet was given.
    pub fn ip(&self) -> (r: Ipv4Addr)
        ensures
            r@ == self@.0,
    {
        self.ip
    }

    /// The prefix length.
    pub fn prefix(&self) -> (r: u8)
        ensures
            r == self@.1,
            r <= 32,
    {
        proof {
            use_type_invariant(self);
        }
        self.prefix
    }

    /// The mask as a 32-bit number.
    fn mask_u32(&self) -> (r: u32)
        ensures
            r == mask_of(self@.1),
    {
        proof {
            use_type_invariant(self);
        }
        if self.prefix == 0 {
            0
        } else {
            u32::MAX << (32 - self.prefix) as u32
        }
    }

    /// The subnet mask, e.g. `255.255.255.0` for a /24.
    pub fn mask(&self) -> (r: Ipv4Addr)
        ensures
            r@ == mask_of(self@.1),
    {
        Ipv4Addr::from_bits(self.mask_u32())
    }

    /// The network address.
    pub fn network(&self) -> (r: Ipv4Addr)
        ensures
            r@ == network_of(self@.0, self@.1),
    {
        Ipv4Addr::from_bits(self.ip.to_bits() & self.mask_u32())
    }

    /// The broadcast address.
    pub fn broadcast(&self) -> (r: Ipv4Addr)
        ensures
            r@ == broadcast_of(self@.0, self@.1),
    {
        let m = self.mask_u32();
        Ipv4Addr::from_bits((self.ip.to_bits() & m) | !m)
    }

    /// The first usable host; `None` on a /31 or /32, which have no
    /// classic host range.
    pub fn first_host(&self) -> (r: Option<Ipv4Addr>)
        ensures
            match r {
                Some(a) => first_host_of(self@.0, self@.1) == Some(a@),
                None => first_host_of(self@.0, self@.1) is None,
            },
    {
        proof {
            use_type_invariant(self);
        }
        if self.prefix >= 31 {
            None
        } else {
            let n = self.network().to_bits();
            proof {
                lemma_host_part(self@.0, self@.1);
            }
            Some(Ipv4Addr::from_bits(n + 1))
        }
    }

    /// The last usable host; `None` on a /31 or /32, which have no classic
    /// host range.
    pub fn last_host(&self) -> (r: Option<Ipv4Addr>)
        ensures
            match r {
                Some(a) => last_host_of(self@.0, self@.1) == Some(a@),
                None => last_host_of(self@.0, self@.1) is None,
            },
    {
        proof {
            use_type_invariant(self);
        }
        if self.prefix >= 31 {
            None
        } else {
            let b = self.broadcast().to_bits();
            proof {
                lemma_host_part(self@.0, self@.1);
            }
            Some(Ipv4Addr::from_bits(b - 1))
        }
    }

    /// The number of usable hosts (a `u64`: a /0 has nearly 2^32).
    pub fn usable_hosts(&self) -> (r: u64)
        ensures
            r == usable_hosts_of(self@.1),
    {
        proof {
            use_type_invariant(self);
        }
        if self.prefix == 32 {
            1
        } else if self.prefix == 31 {
            2
        } else {
            let host_bits: u64 = (32 - self.prefix) as u64;
            proof {
                vstd::arithmetic::power2::lemma2_to64();
                if host_bits > 2 {
                    vstd::arithmetic::power2::lemma_pow2_strictly_increases(2, host_bits as nat);
                }
                vstd::bits::lemma_u64_pow2_no_overflow(host_bits as nat);
                lemma_u64_shl_is_mul(1, host_bits);
            }
            (1u64 << host_bits) - 2
        }
    }
}

/// On a prefix of at most 30, the network address has its two lowest bits
/// clear and the broadcast address has them set, so neither the step up
/// from the one nor the step down from the other leaves 32 bits.
proof fn lemma_host_part(ip: u32, p: u8)
    requires
        p <= 30,
    ensures
        network_of(ip, p) + 1 <= u32::MAX,
        broadcast_of(ip, p) >= 1,
{
    let s: u32 = (32 - p) as u32;
    if p == 0 {
        assert(ip & 0 == 0) by (bit_vector);
        assert((ip & 0u32) | !0u32 == u32::MAX) by (bit_vector);
    } else {
        assert(2 <= s < 32);
        assert((ip & (u32::MAX << s)) + 1 <= u32::MAX) by (bit_vector)
            requires
                2 <= s < 32,
        ;
        assert(((ip & (u32::MAX << s)) | !(u32::MAX << s)) >= 1) by (bit_vector)
            requires
                2 <= s < 32,
        ;
    }
}

/// The network address, the address itself and the broadcast address come
/// in that order.
pub proof fn lemma_network_le_ip_le_broadcast(ip: u32, p: u8)
    requires
        p <= 32,
    ensures
        network_of(ip, p) <= ip <= broadcast_of(ip, p),
{
    let m = mask_of(p);
    assert((ip & m) <= ip) by (bit_vector);
    assert(ip <= ((ip & m) | !m)) by (bit_vector);
}

/// On a prefix of at most 30, the host range runs from the address after
/// the network address to the one before the broadcast address, and holds
/// exactly as many addresses as the subnet has usable hosts.
pub proof fn lemma_host_range_counts_usable(ip: u32, p: u8)
    requires
        p <= 30,
    ensures
        first_host_of(ip, p) is Some && last_host_of(ip, p) is Some,
        network_of(ip, p) < first_host_of(ip, p)->0 <= last_host_of(ip, p)->0 < broadcast_of(ip, p),
        last_host_of(ip, p)->0 - first_host_of(ip, p)->0 + 1 == usable_hosts_of(p),
{
    let s: u32 = (32 - p) as u32;
    lemma_host_part(ip, p);
    vstd::arithmetic::power2::lemma2_to64();
    if s > 2 {
        vstd::arithmetic::power2::lemma_pow2_strictly_increases(2, s as nat);
    }
    vstd::bits::lemma_u64_pow2_no_overflow(s as nat);
    lemma_u64_shl_is_mul(1, s as u64);
    if p == 0 {
        assert(ip & 0 == 0) by (bit_vector);
        assert((ip & 0u32) | !0u32 == u32::MAX) by (bit_vector);
        assert(1u64 << 32u64 == 0x1_0000_0000u64) by (bit_vector);
    } else {
        assert(((ip & (u32::MAX << s)) | !(u32::MAX << s)) - (ip & (u32::MAX << s)) + 1 == (1u64
            << (s as u64))) by (bit_vector)
            requires
                2 <= s < 32,
        ;
    }
}

/// Reading back the `ip/prefix` text of a subnet gives the subnet.
pub proof fn lemma_parse_subnet_text(ip: u32, p: u8)
    requires
        p <= 32,
    ensures
        parse_subnet_text(ipv4_text(ip) + seq!['/'] + decimal(p as nat)) == Ok::<
            (u32, u8),
            NetworkErrorView,
        >((ip, p)),
{
    let t = ipv4_text(ip);
    let d = decimal(p as nat);
    let s = t + seq!['/'] + d;
    lemma_ipv4_text_chars(ip);
    lemma_parse_ipv4_text(ip);
    lemma_decimal_digits(p as nat);
    assert forall|k: int| 0 <= k < t.len() implies s[k] != '/' by {
        assert(s[k] == t[k]);
        assert(is_digit(t[k]) || t[k] == '.');
    }
    lemma_find_char(s, '/', t.len() as int);
    assert(s.take(t.len() as int) =~= t);
    assert(s.skip(t.len() + 1 as int) =~= d);
    assert(d[0] != '+') by {
        assert(is_digit(d[0]));
    }
}

} // verus!
