//! Peer addresses and their textual form.
use vstd::prelude::*;
use vstd::string::StringExecFns;

use crate::template::{decimal, push_decimal};
use crate::text::push_char;

verus! {

/// An IP address: IPv4 as its 32-bit value, IPv6 as its 128-bit value.
#[derive(Clone, Copy, Debug, PartialEq, Eq, Structural)]
pub enum IpAddress {
    V4(u32),
    V6(u128),
}

/// A peer: an IP address and a port.
#[derive(Clone, Copy, Debug, PartialEq, Eq, Structural)]
pub struct PeerAddress {
    pub ip: IpAddress,
    pub port: u16,
}

/// The weight of octet `i` (0 the most significant) of an IPv4 address.
pub open spec fn octet_weight(i: int) -> nat {
    if i == 0 {
        16777216
    } else if i == 1 {
        65536
    } else if i == 2 {
        256
    } else {
        1
    }
}

/// Octet `i` of an IPv4 address.
pub open spec fn octet(x: u32, i: int) -> nat {
    ((x as nat / octet_weight(i)) % 256) as nat
}

/// Dotted-decimal text of an IPv4 address.
pub open spec fn v4_text(x: u32) -> Seq<char> {
    decimal(octet(x, 0)) + seq!['.'] + decimal(octet(x, 1)) + seq!['.'] + decimal(octet(x, 2))
        + seq!['.'] + decimal(octet(x, 3))
}

/// The weight of group `i` (0 the most significant) of an IPv6 address.
pub open spec fn group_weight(i: int) -> nat {
    if i == 0 {
        0x10000_0000_0000_0000_0000_0000_0000
    } else if i == 1 {
        0x1_0000_0000_0000_0000_0000_0000
    } else if i == 2 {
        0x1_0000_0000_0000_0000_0000
    } else if i == 3 {
        0x1_0000_0000_0000_0000
    } else if i == 4 {
        0x1_0000_0000_0000
    } else if i == 5 {
        0x1_0000_0000
    } else if i == 6 {
        0x1_0000
    } else {
        1
    }
}

/// Group `i` of an IPv6 address.
pub open spec fn group(x: u128, i: int) -> nat {
    ((x as nat / group_weight(i)) % 65536) as nat
}

pub open spec fn hex_char(d: nat) -> char {
    if d < 10 {
        ((d + 48) as u8) as char
    } else {
        ((d + 87) as u8) as char
    }
}

/// Lower-case hexadecimal notation of `n`, without leading zeros.
pub open spec fn hex(n: nat) -> Seq<char>
    decreases n,
{
    if n < 16 {
        seq![hex_char(n)]
    } else {
        hex(n / 16).push(hex_char(n % 16))
    }
}

/// The groups `from..to` in hexadecimal, separated by colons.
pub open spec fn groups_text(x: u128, from: int, to: int) -> Seq<char>
    decreases to - from,
{
    if to <= from {
        Seq::empty()
    } else if to == from + 1 {
        hex(group(x, from))
    } else {
        groups_text(x, from, to - 1) + seq![':'] + hex(group(x, to - 1))
    }
}

/// The longest run of zero groups among the first `i` groups, as (start,
/// length), the first one on a tie; with the run of zeros that ends at `i`.
pub open spec fn zero_runs(x: u128, i: int) -> (int, int, int, int)
    decreases i,
{
    if i <= 0 {
        (0, 0, 0, 0)
    } else {
        let (ls, ll, cs, cl) = zero_runs(x, i - 1);
        if group(x, i - 1) == 0 {
            let (ncs, ncl) = if cl == 0 {
                (i - 1, 1int)
            } else {
                (cs, cl + 1)
            };
            if ncl > ll {
                (ncs, ncl, ncs, ncl)
            } else {
                (ls, ll, ncs, ncl)
            }
        } else {
            (ls, ll, 0, 0)
        }
    }
}

pub open spec fn is_v4_mapped(x: u128) -> bool {
    x as nat / 0x1_0000_0000 == 65535
}

/// Text of an IPv6 address: an IPv4-mapped address as `::ffff:` and the
/// dotted IPv4 form; else the groups in hexadecimal, with the longest run
/// of two or more zero groups written as `::`.
pub open spec fn v6_text(x: u128) -> Seq<char> {
    if is_v4_mapped(x) {
        seq![':', ':', 'f', 'f', 'f', 'f', ':'] + v4_text((x as nat % 0x1_0000_0000) as u32)
    } else {
        let (s, l, _, _) = zero_runs(x, 8);
        if l > 1 {
            groups_text(x, 0, s) + seq![':', ':'] + groups_text(x, s + l, 8)
        } else {
            groups_text(x, 0, 8)
        }
    }
}

pub open spec fn ip_text(ip: IpAddress) -> Seq<char> {
    match ip {
        IpAddress::V4(x) => v4_text(x),
        IpAddress::V6(x) => v6_text(x),
    }
}

fn push_hex(s: &mut String, n: u16)
    ensures
        final(s)@ == old(s)@ + hex(n as nat),
    decreases n,
{
    if n >= 16 {
        push_hex(s, n / 16);
    }
    let d: u8 = (n % 16) as u8;
    if d < 10 {
        push_char(s, (d + 48) as char);
    } else {
        push_char(s, (d + 87) as char);
    }
    assert(final(s)@ =~= old(s)@ + hex(n as nat));
}

fn octet_of(x: u32, i: u32) -> (r: u32)
    requires
        i < 4,
    ensures
        r as nat == octet(x, i as int),
        r < 256,
{
    let d: u32 = if i == 0 {
        16777216
    } else if i == 1 {
        65536
    } else if i == 2 {
        256
    } else {
        1
    };
    (x / d) % 256
}

fn push_v4(s: &mut String, x: u32)
    ensures
        final(s)@ == old(s)@ + v4_text(x),
{
    push_decimal(s, octet_of(x, 0) as usize);
    push_char(s, '.');
    push_decimal(s, octet_of(x, 1) as usize);
    push_char(s, '.');
    push_decimal(s, octet_of(x, 2) as usize);
    push_char(s, '.');
    push_decimal(s, octet_of(x, 3) as usize);
    assert(final(s)@ =~= old(s)@ + v4_text(x));
}

fn group_of(x: u128, i: usize) -> (r: u16)
    requires
        i < 8,
    ensures
        r as nat == group(x, i as int),
{
    let d: u128 = if i == 0 {
        0x10000_0000_0000_0000_0000_0000_0000
    } else if i == 1 {
        0x1_0000_0000_0000_0000_0000_0000
    } else if i == 2 {
        0x1_0000_0000_0000_0000_0000
    } else if i == 3 {
        0x1_0000_0000_0000_0000
    } else if i == 4 {
        0x1_0000_0000_0000
    } else if i == 5 {
        0x1_0000_0000
    } else if i == 6 {
        0x1_0000
    } else {
        1
    };
    ((x / d) % 65536) as u16
}

/// Appends the groups `from..to` in hexadecimal, separated by colons.
fn push_groups(s: &mut String, x: u128, from: usize, to: usize)
    requires
        from <= to <= 8,
    ensures
        final(s)@ == old(s)@ + groups_text(x, from as int, to as int),
{
    let mut i = from;
    while i < to
        invariant
            from <= i <= to <= 8,
            s@ == old(s)@ + groups_text(x, from as int, i as int),
        decreases to - i,
    {
        if i > from {
            push_char(s, ':');
        }
        push_hex(s, group_of(x, i));
        assert(s@ =~= old(s)@ + groups_text(x, from as int, i + 1));
        i = i + 1;
    }
}

impl IpAddress {
    /// The usual text of the address.
    pub fn to_text(&self) -> (r: String)
        ensures
            r@ == ip_text(*self),
    {
        let mut s = String::new();
        match *self {
            IpAddress::V4(x) => {
                push_v4(&mut s, x);
                assert(s@ =~= v4_text(x));
            },
            IpAddress::V6(x) => {
                if x / 0x1_0000_0000 == 65535 {
                    s.append("::ffff:");
                    proof {
                        reveal_strlit("::ffff:");
                    }
                    push_v4(&mut s, (x % 0x1_0000_0000) as u32);
                    assert(s@ =~= v6_text(x));
                } else {
                    let mut ls: usize = 0;
                    let mut ll: usize = 0;
                    let mut cs: usize = 0;
                    let mut cl: usize = 0;
                    let mut i: usize = 0;
                    while i < 8
                        invariant
                            i <= 8,
                            zero_runs(x, i as int) == (ls as int, ll as int, cs as int, cl as int),
                            ls + ll <= i,
                            cs + cl <= i,
                        decreases 8 - i,
                    {
                        if group_of(x, i) == 0 {
                            if cl == 0 {
                                cs = i;
                            }
                            cl = cl + 1;
                            if cl > ll {
                                ls = cs;
                                ll = cl;
                            }
                        } else {
                            cs = 0;
                            cl = 0;
                        }
                        i = i + 1;
                    }
                    if ll > 1 {
                        push_groups(&mut s, x, 0, ls);
                        push_char(&mut s, ':');
                        push_char(&mut s, ':');
                        push_groups(&mut s, x, ls + ll, 8);
                    } else {
                        push_groups(&mut s, x, 0, 8);
                    }
                    assert(s@ =~= v6_text(x));
                }
            },
        }
        s
    }
}

} // verus!
