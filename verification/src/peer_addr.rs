//! Socket addresses of peers, held as plain values.

use vstd::prelude::*;
use crate::text::{concat_str, decimal, u64_to_decimal};

verus! {

/// The IP part of a peer address: four octets, or the 128-bit value of an
/// IPv6 address.
#[derive(Debug, Clone, Copy, PartialEq, Eq, Hash, Structural)]
pub enum PeerIp {
    V4(u8, u8, u8, u8),
    V6(u128),
}

/// An IP address and a port.
#[derive(Debug, Clone, Copy, PartialEq, Eq, Hash, Structural)]
pub struct PeerAddress {
    pub ip: PeerIp,
    pub port: u16,
}

/// The lower-case hexadecimal digit of a value below sixteen.
pub open spec fn hex_char(d: nat) -> char {
    if d < 10 { crate::text::digit_char(d) }
    else if d == 10 { 'a' } else if d == 11 { 'b' } else if d == 12 { 'c' }
    else if d == 13 { 'd' } else if d == 14 { 'e' } else { 'f' }
}

/// A 16-bit group in lower-case hexadecimal without leading zeros.
pub open spec fn hex_group(n: nat) -> Seq<char>
    decreases n,
{
    if n < 16 { seq![hex_char(n)] } else { hex_group(n / 16).push(hex_char(n % 16)) }
}

impl PeerIp {
    /// The text of the IP alone: `a.b.c.d`, or the eight hexadecimal groups
    /// of an IPv6 address.
    pub open spec fn text(&self) -> Seq<char> {
        match *self {
            PeerIp::V4(a, b, c, d) => decimal(a as nat) + "."@ + decimal(b as nat) + "."@ + decimal(c as nat) + "."@
                + decimal(d as nat),
            PeerIp::V6(bits) => v6_prefix(bits, 8),
        }
    }

    /// The text of the IP alone.
    pub fn to_text(&self) -> (res: String)
        ensures
            res@ == self.text(),
    {
        match *self {
            PeerIp::V4(a, b, c, d) => {
                let s1 = concat_str(u64_to_decimal(a as u64).as_str(), ".");
                let s2 = concat_str(s1.as_str(), u64_to_decimal(b as u64).as_str());
                let s3 = concat_str(s2.as_str(), ".");
                let s4 = concat_str(s3.as_str(), u64_to_decimal(c as u64).as_str());
                let s5 = concat_str(s4.as_str(), ".");
                concat_str(s5.as_str(), u64_to_decimal(d as u64).as_str())
            },
            PeerIp::V6(bits) => {
                let mut s = String::new();
                let mut k: u32 = 0;
                while k < 8
                    invariant
                        k <= 8,
                        s@ == v6_prefix(bits, k as nat),
                    decreases 8 - k,
                {
                    let shift: u32 = (7 - k) * 16;
                    let group = ((bits >> shift) & 0xffff) as u64;
                    proof {
                        lemma_group_value(bits, k as nat);
                    }
                    let g = hex_text(group);
                    if k > 0 {
                        s = concat_str(s.as_str(), ":");
                    }
                    s = concat_str(s.as_str(), g.as_str());
                    k = k + 1;
                }
                s
            },
        }
    }
}

impl PeerAddress {
    /// The text of the address: `a.b.c.d:port`, or the eight hexadecimal
    /// groups of an IPv6 address in brackets, then the port.
    pub open spec fn text(&self) -> Seq<char> {
        match self.ip {
            PeerIp::V4(a, b, c, d) => decimal(a as nat) + "."@ + decimal(b as nat) + "."@ + decimal(c as nat) + "."@
                + decimal(d as nat) + ":"@ + decimal(self.port as nat),
            PeerIp::V6(bits) => "["@ + v6_prefix(bits, 8) + "]:"@ + decimal(self.port as nat),
        }
    }

    /// The text of the address.
    pub fn to_text(&self) -> (res: String)
        ensures
            res@ == self.text(),
    {
        let port = u64_to_decimal(self.port as u64);
        let ip = self.ip.to_text();
        match self.ip {
            PeerIp::V4(..) => {
                let s = concat_str(ip.as_str(), ":");
                concat_str(s.as_str(), port.as_str())
            },
            PeerIp::V6(..) => {
                let a = concat_str("[", ip.as_str());
                let b = concat_str(a.as_str(), "]:");
                concat_str(b.as_str(), port.as_str())
            },
        }
    }

    /// An IPv4 address `a.b.c.d:port`.
    pub fn v4(a: u8, b: u8, c: u8, d: u8, port: u16) -> (res: PeerAddress)
        ensures
            res == (PeerAddress { ip: PeerIp::V4(a, b, c, d), port }),
    {
        PeerAddress { ip: PeerIp::V4(a, b, c, d), port }
    }

    /// An IPv6 address, given as its 128-bit value, and a port.
    pub fn v6(bits: u128, port: u16) -> (res: PeerAddress)
        ensures
            res == (PeerAddress { ip: PeerIp::V6(bits), port }),
    {
        PeerAddress { ip: PeerIp::V6(bits), port }
    }

    /// The loopback address `127.0.0.1` with the given port, as a value.
    pub open spec fn localhost_spec(port: u16) -> PeerAddress {
        PeerAddress { ip: PeerIp::V4(127, 0, 0, 1), port }
    }

    /// The loopback address `127.0.0.1` with the given port.
    pub fn localhost(port: u16) -> (res: PeerAddress)
        ensures
            res == PeerAddress::localhost_spec(port),
    {
        PeerAddress::v4(127, 0, 0, 1, port)
    }
}

/// The first `k` groups, joined by colons.
pub open spec fn v6_prefix(bits: u128, k: nat) -> Seq<char>
    decreases k,
{
    if k == 0 {
        Seq::empty()
    } else if k == 1 {
        hex_group(group_at(bits, 0))
    } else {
        v6_prefix(bits, (k - 1) as nat) + ":"@ + hex_group(group_at(bits, (k - 1) as nat))
    }
}

/// The `k`-th 16-bit group, most significant first.
pub open spec fn group_at(bits: u128, k: nat) -> nat {
    ((bits as nat) / vstd::arithmetic::power2::pow2((16 * (7 - k)) as nat)) % 0x10000
}

proof fn lemma_group_value(bits: u128, k: nat)
    requires
        k < 8,
    ensures
        ((bits >> ((7 - k) * 16) as u32) & 0xffff) as nat == group_at(bits, k),
{
    let shift = ((7 - k) * 16) as u32;
    vstd::bits::lemma_u128_shr_is_div(bits, shift as u128);
    vstd::arithmetic::power2::lemma_pow2(shift as nat);
    assert((bits >> shift) & 0xffff == (bits >> shift) % 0x10000) by (bit_vector);
}

/// Lower-case hexadecimal text of a value.
pub(crate) fn hex_text(n: u64) -> (res: String)
    ensures
        res@ == hex_group(n as nat),
    decreases n,
{
    let d = (n % 16) as u8;
    let c: &str = if d == 0 { "0" } else if d == 1 { "1" } else if d == 2 { "2" } else if d == 3 { "3" }
        else if d == 4 { "4" } else if d == 5 { "5" } else if d == 6 { "6" } else if d == 7 { "7" }
        else if d == 8 { "8" } else if d == 9 { "9" } else if d == 10 { "a" } else if d == 11 { "b" }
        else if d == 12 { "c" } else if d == 13 { "d" } else if d == 14 { "e" } else { "f" };
    proof {
        reveal_strlit("0"); reveal_strlit("1"); reveal_strlit("2"); reveal_strlit("3");
        reveal_strlit("4"); reveal_strlit("5"); reveal_strlit("6"); reveal_strlit("7");
        reveal_strlit("8"); reveal_strlit("9"); reveal_strlit("a"); reveal_strlit("b");
        reveal_strlit("c"); reveal_strlit("d"); reveal_strlit("e"); reveal_strlit("f");
        assert(c@ == seq![hex_char(d as nat)]);
    }
    if n < 16 {
        c.to_owned()
    } else {
        let head = hex_text(n / 16);
        concat_str(head.as_str(), c)
    }
}

} // verus!
