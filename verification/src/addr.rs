//! IPv6 addresses as the mesh logic reads them: eight 16-bit groups, the
//! first of which tells the routing prefix, and their textual form.

use crate::text::{find_byte, find_pair, hex_group, index_of, pair_index_of, parse_hex_group};
use vstd::prelude::*;
use vstd::slice::slice_subrange;

verus! {

/// An IPv6 address, held as the 128-bit number that its eight groups write
/// in base 65536, first group most significant.
#[derive(Clone, Copy, Debug, PartialEq, Eq, Hash, PartialOrd, Ord, Structural)]
pub struct Ipv6Addr {
    pub bits: u128,
}

/// An IPv6 address with a UDP port.
#[derive(Clone, Copy, Debug, PartialEq, Eq, Hash, Structural)]
pub struct SocketAddrV6 {
    pub ip: Ipv6Addr,
    pub port: u16,
}

/// Where a datagram came from.
#[derive(Clone, Copy, Debug, PartialEq, Eq, Structural)]
pub enum SourceAddr {
    /// An IPv6 peer.
    V6(SocketAddrV6),
    /// A peer of any other address family.
    Other,
}

/// The number that `groups` write in base 65536, first group most
/// significant.
pub open spec fn pack(groups: Seq<u16>) -> nat
    decreases groups.len(),
{
    if groups.len() == 0 {
        0
    } else {
        pack(groups.drop_last()) * 0x1_0000 + groups.last() as nat
    }
}

/// The weight of the first of eight groups.
pub open spec fn first_group_weight() -> nat {
    0x1_0000_0000_0000_0000_0000_0000_0000
}

/// `pack` of up to eight groups fits 128 bits; of fewer, accordingly less.
pub proof fn lemma_pack_bound(groups: Seq<u16>)
    requires
        groups.len() <= 8,
    ensures
        pack(groups) <= u128::MAX,
        groups.len() <= 7 ==> pack(groups) < first_group_weight(),
        groups.len() <= 6 ==> pack(groups) < 0x1_0000_0000_0000_0000_0000_0000,
        groups.len() <= 5 ==> pack(groups) < 0x1_0000_0000_0000_0000_0000,
        groups.len() <= 4 ==> pack(groups) < 0x1_0000_0000_0000_0000,
        groups.len() <= 3 ==> pack(groups) < 0x1_0000_0000_0000,
        groups.len() <= 2 ==> pack(groups) < 0x1_0000_0000,
        groups.len() <= 1 ==> pack(groups) < 0x1_0000,
        groups.len() == 0 ==> pack(groups) == 0,
    decreases groups.len(),
{
    if groups.len() > 0 {
        lemma_pack_bound(groups.drop_last());
    }
}

/// `n` groups of zero.
pub open spec fn zero_groups(n: nat) -> Seq<u16> {
    Seq::new(n, |i: int| 0u16)
}

/// The groups that a list of hexadecimal groups parted by single colons
/// writes; `None` unless every part is one to four hexadecimal digits.
pub open spec fn colon_groups(s: Seq<u8>) -> Option<Seq<u16>>
    decreases s.len(),
{
    let i = index_of(s, 0x3a);
    if 0 <= i < s.len() {
        match (hex_group(s.subrange(0, i)), colon_groups(s.subrange(i + 1, s.len() as int))) {
            (Some(g), Some(rest)) => Some(seq![g] + rest),
            _ => None,
        }
    } else {
        match hex_group(s) {
            Some(g) => Some(seq![g]),
            None => None,
        }
    }
}

/// The eight groups that an address text writes. Either eight groups parted
/// by colons, or up to seven with one `::` that stands for the missing zero
/// groups.
pub open spec fn text_groups(s: Seq<u8>) -> Option<Seq<u16>> {
    let i = pair_index_of(s, 0x3a, 0x3a);
    if 0 <= i < s.len() {
        let head = if i == 0 {
            Some(Seq::<u16>::empty())
        } else {
            colon_groups(s.subrange(0, i))
        };
        let tail = if i + 2 >= s.len() {
            Some(Seq::<u16>::empty())
        } else {
            colon_groups(s.subrange(i + 2, s.len() as int))
        };
        match (head, tail) {
            (Some(h), Some(t)) => if h.len() + t.len() <= 7 {
                Some(h + zero_groups((8 - h.len() - t.len()) as nat) + t)
            } else {
                None
            },
            _ => None,
        }
    } else {
        match colon_groups(s) {
            Some(g) => if g.len() == 8 {
                Some(g)
            } else {
                None
            },
            None => None,
        }
    }
}

/// The address that a text writes, if it writes one.
pub open spec fn parse_text(s: Seq<u8>) -> Option<Ipv6Addr> {
    match text_groups(s) {
        Some(g) => Some(Ipv6Addr { bits: pack(g) as u128 }),
        None => None,
    }
}

impl Ipv6Addr {
    /// The first 16-bit group, by which the mesh tells routing prefixes apart.
    pub open spec fn spec_first_segment(&self) -> u16 {
        (self.bits / 0x1_0000_0000_0000_0000_0000_0000_0000) as u16
    }

    /// Whether this is the loopback address `::1`.
    pub open spec fn spec_is_loopback(&self) -> bool {
        self.bits == 1
    }

    /// Whether two addresses lie under the same routing prefix.
    pub open spec fn spec_same_prefix(&self, other: &Ipv6Addr) -> bool {
        self.spec_first_segment() == other.spec_first_segment()
    }

    /// The loopback address.
    pub fn loopback() -> (a: Ipv6Addr)
        ensures
            a.spec_is_loopback(),
            a.bits == 1,
    {
        Ipv6Addr { bits: 1 }
    }

    /// The address that the 128-bit number `bits` stands for.
    pub fn from_bits(bits: u128) -> (a: Ipv6Addr)
        ensures
            a.bits == bits,
    {
        Ipv6Addr { bits }
    }

    /// The address as a 128-bit number.
    pub fn to_bits(&self) -> (bits: u128)
        ensures
            bits == self.bits,
    {
        self.bits
    }

    /// The address with the given eight groups.
    pub fn from_segments(segments: [u16; 8]) -> (a: Ipv6Addr)
        ensures
            a.bits == pack(segments@),
            a.spec_first_segment() == segments@[0],
    {
        let mut acc: u128 = 0;
        let mut i: usize = 0;
        while i < 8
            invariant
                i <= 8,
                segments@.len() == 8,
                acc == pack(segments@.subrange(0, i as int)),
            decreases 8 - i,
        {
            proof {
                let before = segments@.subrange(0, i as int);
                let after = segments@.subrange(0, i + 1);
                assert(after.drop_last() =~= before);
                lemma_pack_bound(before);
            }
            acc = acc * 0x1_0000 + segments[i] as u128;
            i = i + 1;
        }
        proof {
            assert(segments@.subrange(0, 8) =~= segments@);
            lemma_pack_first(segments@);
        }
        Ipv6Addr { bits: acc }
    }

    /// The eight groups of the address.
    pub fn segments(&self) -> (out: [u16; 8])
        ensures
            pack(out@) == self.bits,
            out@[0] == self.spec_first_segment(),
    {
        let b = self.bits;
        let s7: u16 = (b % 0x1_0000) as u16;
        let b6 = b / 0x1_0000;
        let s6: u16 = (b6 % 0x1_0000) as u16;
        let b5 = b6 / 0x1_0000;
        let s5: u16 = (b5 % 0x1_0000) as u16;
        let b4 = b5 / 0x1_0000;
        let s4: u16 = (b4 % 0x1_0000) as u16;
        let b3 = b4 / 0x1_0000;
        let s3: u16 = (b3 % 0x1_0000) as u16;
        let b2 = b3 / 0x1_0000;
        let s2: u16 = (b2 % 0x1_0000) as u16;
        let b1 = b2 / 0x1_0000;
        let s1: u16 = (b1 % 0x1_0000) as u16;
        let b0 = b1 / 0x1_0000;
        let s0: u16 = (b0 % 0x1_0000) as u16;
        let out = [s0, s1, s2, s3, s4, s5, s6, s7];
        proof {
            let g = out@;
            let g7 = g.drop_last();
            let g6 = g7.drop_last();
            let g5 = g6.drop_last();
            let g4 = g5.drop_last();
            let g3 = g4.drop_last();
            let g2 = g3.drop_last();
            let g1 = g2.drop_last();
            assert(g1.drop_last().len() == 0);
    assert(pack(g1.drop_last()) == 0);
            assert(pack(g1) == s0);
            assert(pack(g2) == b1);
            assert(pack(g3) == b2);
            assert(pack(g4) == b3);
            assert(pack(g5) == b4);
            assert(pack(g6) == b5);
            assert(pack(g7) == b6);
            assert(pack(g) == b);
            lemma_pack_first(g);
        }
        out
    }

    /// The first 16-bit group.
    pub fn first_segment(&self) -> (s: u16)
        ensures
            s == self.spec_first_segment(),
    {
        (self.bits / 0x1_0000_0000_0000_0000_0000_0000_0000) as u16
    }

    /// Whether this is the loopback address `::1`.
    pub fn is_loopback(&self) -> (r: bool)
        ensures
            r == self.spec_is_loopback(),
    {
        self.bits == 1
    }

    /// Whether two addresses lie under the same routing prefix.
    pub fn same_prefix(&self, other: &Ipv6Addr) -> (r: bool)
        ensures
            r == self.spec_same_prefix(other),
    {
        self.first_segment() == other.first_segment()
    }

    /// Reads an address from its text: groups of one to four hexadecimal
    /// digits parted by colons, eight of them, or fewer with one `::`.
    pub fn parse(text: &[u8]) -> (res: Option<Ipv6Addr>)
        ensures
            res == parse_text(text@),
    {
        let n = text.len();
        let i = find_pair(text, 0x3a, 0x3a);
        let mut groups: Vec<u16> = Vec::new();
        if i < n {
            let head: Vec<u16> = if i == 0 {
                Vec::new()
            } else {
                match parse_colon_groups(slice_subrange(text, 0, i)) {
                    Some(h) => h,
                    None => {
                        return None;
                    },
                }
            };
            let tail: Vec<u16> = if n - i <= 2 {
                Vec::new()
            } else {
                match parse_colon_groups(slice_subrange(text, i + 2, n)) {
                    Some(t) => t,
                    None => {
                        return None;
                    },
                }
            };
            if head.len() > 7 || tail.len() > 7 - head.len() {
                return None;
            }
            let fill: usize = 8 - head.len() - tail.len();
            let mut k: usize = 0;
            while k < head.len()
                invariant
                    k <= head@.len(),
                    groups@ == head@.subrange(0, k as int),
                decreases head@.len() - k,
            {
                groups.push(head[k]);
                assert(groups@ =~= head@.subrange(0, k + 1));
                k = k + 1;
            }
            assert(head@.subrange(0, head@.len() as int) =~= head@);
            k = 0;
            while k < fill
                invariant
                    k <= fill,
                    groups@ == head@ + zero_groups(k as nat),
                decreases fill - k,
            {
                groups.push(0u16);
                assert(groups@ =~= head@ + zero_groups((k + 1) as nat));
                k = k + 1;
            }
            k = 0;
            while k < tail.len()
                invariant
                    k <= tail@.len(),
                    groups@ == head@ + zero_groups(fill as nat) + tail@.subrange(0, k as int),
                decreases tail@.len() - k,
            {
                groups.push(tail[k]);
                assert(groups@ =~= head@ + zero_groups(fill as nat) + tail@.subrange(0, k + 1));
                k = k + 1;
            }
            assert(tail@.subrange(0, tail@.len() as int) =~= tail@);
        } else {
            match parse_colon_groups(text) {
                Some(g) => {
                    if g.len() != 8 {
                        return None;
                    }
                    groups = g;
                },
                None => {
                    return None;
                },
            }
        }
        assert(text_groups(text@) == Some(groups@));
        assert(groups@.len() == 8);
        let mut acc: u128 = 0;
        let mut k: usize = 0;
        while k < 8
            invariant
                k <= 8,
                groups@.len() == 8,
                acc == pack(groups@.subrange(0, k as int)),
            decreases 8 - k,
        {
            proof {
                let before = groups@.subrange(0, k as int);
                let after = groups@.subrange(0, k + 1);
                assert(after.drop_last() =~= before);
                lemma_pack_bound(before);
            }
            acc = acc * 0x1_0000 + groups[k] as u128;
            k = k + 1;
        }
        assert(groups@.subrange(0, 8) =~= groups@);
        Some(Ipv6Addr { bits: acc })
    }
}

/// The first of eight packed groups is the quotient by the first group's
/// weight.
pub proof fn lemma_pack_first(groups: Seq<u16>)
    requires
        groups.len() == 8,
    ensures
        pack(groups) <= u128::MAX,
        pack(groups) / first_group_weight() == groups[0],
{
    let g7 = groups.drop_last();
    let g6 = g7.drop_last();
    let g5 = g6.drop_last();
    let g4 = g5.drop_last();
    let g3 = g4.drop_last();
    let g2 = g3.drop_last();
    let g1 = g2.drop_last();
    assert(g1.drop_last().len() == 0);
    assert(pack(g1.drop_last()) == 0);
    assert(pack(g1) == groups[0]);
    lemma_pack_bound(groups);
    let rest = groups.subrange(1, 8);
    lemma_pack_split_first(groups);
    lemma_pack_bound(rest);
}

/// Packing eight groups weighs the first and adds the pack of the rest.
proof fn lemma_pack_split_first(groups: Seq<u16>)
    requires
        groups.len() == 8,
    ensures
        pack(groups) == groups[0] * first_group_weight() + pack(groups.subrange(1, 8)),
{
    let r = groups.subrange(1, 8);
    let r6 = r.drop_last();
    let r5 = r6.drop_last();
    let r4 = r5.drop_last();
    let r3 = r4.drop_last();
    let r2 = r3.drop_last();
    let r1 = r2.drop_last();
    assert(r1.drop_last().len() == 0);
    assert(pack(r1.drop_last()) == 0);
    let g7 = groups.drop_last();
    let g6 = g7.drop_last();
    let g5 = g6.drop_last();
    let g4 = g5.drop_last();
    let g3 = g4.drop_last();
    let g2 = g3.drop_last();
    let g1 = g2.drop_last();
    assert(g1.drop_last().len() == 0);
    assert(pack(g1.drop_last()) == 0);
    assert(pack(g1) == groups[0]);
    assert(pack(r1) == groups[1]);
    assert(pack(g2) == groups[0] * 0x1_0000 + pack(r1));
    assert(pack(g3) == groups[0] * 0x1_0000_0000 + pack(r2));
    assert(pack(g4) == groups[0] * 0x1_0000_0000_0000 + pack(r3));
    assert(pack(g5) == groups[0] * 0x1_0000_0000_0000_0000 + pack(r4));
    assert(pack(g6) == groups[0] * 0x1_0000_0000_0000_0000_0000 + pack(r5));
    assert(pack(g7) == groups[0] * 0x1_0000_0000_0000_0000_0000_0000 + pack(r6));
}

/// What `rest` adds to the groups already read.
pub open spec fn prepend_groups(acc: Seq<u16>, rest: Option<Seq<u16>>) -> Option<Seq<u16>> {
    match rest {
        Some(r) => Some(acc + r),
        None => None,
    }
}

/// Reads hexadecimal groups parted by single colons.
pub fn parse_colon_groups(s: &[u8]) -> (res: Option<Vec<u16>>)
    ensures
        res matches Some(v) ==> colon_groups(s@) == Some(v@),
        res is None ==> colon_groups(s@) is None,
{
    let n = s.len();
    let mut acc: Vec<u16> = Vec::new();
    let mut pos: usize = 0;
    assert(s@.subrange(0, n as int) =~= s@);
    assert(Seq::<u16>::empty() + colon_groups(s@).unwrap() =~= colon_groups(s@).unwrap());
    loop
        invariant
            n == s@.len(),
            pos <= n,
            colon_groups(s@) == prepend_groups(acc@, colon_groups(s@.subrange(pos as int, n as int))),
        decreases n - pos,
    {
        let cur = slice_subrange(s, pos, n);
        let i = find_byte(cur, 0x3a);
        let ghost rest_before = colon_groups(cur@);
        let part = slice_subrange(cur, 0, i);
        match parse_hex_group(part) {
            None => {
                assert(cur@.subrange(0, cur@.len() as int) =~= cur@);
                return None;
            },
            Some(g) => {
                let ghost old_acc = acc@;
                acc.push(g);
                if i == cur.len() {
                    proof {
                        assert(cur@.subrange(0, cur@.len() as int) =~= cur@);
                        assert(old_acc + seq![g] =~= acc@);
                    }
                    return Some(acc);
                }
                proof {
                    let next = cur@.subrange(i + 1, cur@.len() as int);
                    assert(next =~= s@.subrange(pos + i + 1, n as int));
                    match colon_groups(next) {
                        Some(r) => {
                            assert(old_acc + (seq![g] + r) =~= acc@ + r);
                        },
                        None => {},
                    }
                }
                pos = pos + i + 1;
            },
        }
    }
}

} // verus!
