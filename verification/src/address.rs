//! Internet addresses, prefixes and endpoints, and the text that stands for
//! each of them on the wire.

use crate::text::{decimal_text, hex_text, join, push_decimal, push_hex};
use vstd::prelude::*;

verus! {

/// An IPv4 address by its four octets, or an IPv6 address by its eight
/// 16-bit segments, most significant first.
#[derive(Clone, Copy, Debug, PartialEq, Eq, Structural)]
pub enum IpAddress {
    V4(u8, u8, u8, u8),
    V6(u16, u16, u16, u16, u16, u16, u16, u16),
}

/// An address and the number of its leading bits that name the network.
#[derive(Clone, Copy, Debug, PartialEq, Eq, Structural)]
pub struct IpPrefix {
    pub address: IpAddress,
    pub prefix_len: u8,
}

/// An address and a port. `scope_id` names the zone of an IPv6 address and
/// is zero where there is none.
#[derive(Clone, Copy, Debug, PartialEq, Eq, Structural)]
pub struct Endpoint {
    pub address: IpAddress,
    pub port: u16,
    pub scope_id: u32,
}

/// Dotted-quad text of four octets.
pub open spec fn ipv4_text(a: u8, b: u8, c: u8, d: u8) -> Seq<char> {
    decimal_text(a as nat).push('.') + decimal_text(b as nat) + seq!['.'] + decimal_text(c as nat)
        + seq!['.'] + decimal_text(d as nat)
}

/// The number of zero segments in a row that begin at `at`.
pub open spec fn zero_run_len(segs: Seq<u16>, at: int) -> nat
    decreases segs.len() - at,
{
    if at < 0 || at >= segs.len() || segs[at] != 0 {
        0
    } else {
        1 + zero_run_len(segs, at + 1)
    }
}

/// Among the positions below `upto`, the first at which the longest run of
/// zero segments begins.
pub open spec fn longest_zero_run(segs: Seq<u16>, upto: int) -> int
    decreases upto,
{
    if upto <= 1 {
        0
    } else {
        let best = longest_zero_run(segs, upto - 1);
        if zero_run_len(segs, upto - 1) > zero_run_len(segs, best) {
            upto - 1
        } else {
            best
        }
    }
}

/// The hexadecimal numeral of each segment.
pub open spec fn groups(segs: Seq<u16>) -> Seq<Seq<char>> {
    Seq::new(segs.len(), |i: int| hex_text(segs[i] as nat))
}

/// The segments from `from` up to `to`, colon-separated.
pub open spec fn groups_text(segs: Seq<u16>, from: int, to: int) -> Seq<char> {
    join(groups(segs.subrange(from, to)), ':')
}

/// The segments are those of an IPv4-mapped address, `::ffff:a.b.c.d`.
pub open spec fn is_v4_mapped(segs: Seq<u16>) -> bool {
    segs[0] == 0 && segs[1] == 0 && segs[2] == 0 && segs[3] == 0 && segs[4] == 0 && segs[5]
        == 0xffff
}

/// What every IPv4-mapped text begins with.
pub open spec fn mapped_lead() -> Seq<char> {
    seq![':', ':', 'f', 'f', 'f', 'f', ':']
}

/// Canonical text of eight segments: an IPv4-mapped address in mixed
/// notation; otherwise lower-case hexadecimal groups, the first longest run
/// of two or more zero groups written as `::`.
pub open spec fn ipv6_text(segs: Seq<u16>) -> Seq<char> {
    if is_v4_mapped(segs) {
        mapped_lead() + ipv4_text(
            (segs[6] / 256) as u8,
            (segs[6] % 256) as u8,
            (segs[7] / 256) as u8,
            (segs[7] % 256) as u8,
        )
    } else {
        let start = longest_zero_run(segs, 8);
        let len = zero_run_len(segs, start);
        if len >= 2 {
            groups_text(segs, 0, start) + seq![':', ':'] + groups_text(segs, start + len, 8)
        } else {
            groups_text(segs, 0, 8)
        }
    }
}

impl IpAddress {
    pub open spec fn is_v4(self) -> bool {
        self is V4
    }

    /// The eight segments of an IPv6 address.
    pub open spec fn segments(self) -> Seq<u16>
        recommends
            self is V6,
    {
        match self {
            IpAddress::V6(a, b, c, d, e, f, g, h) => seq![a, b, c, d, e, f, g, h],
            IpAddress::V4(..) => Seq::empty(),
        }
    }

    /// The number of bits of an address of this family.
    pub open spec fn bits(self) -> nat {
        if self is V4 {
            32
        } else {
            128
        }
    }

    /// The text that stands for this address.
    pub open spec fn text(self) -> Seq<char> {
        match self {
            IpAddress::V4(a, b, c, d) => ipv4_text(a, b, c, d),
            IpAddress::V6(..) => ipv6_text(self.segments()),
        }
    }

    pub fn is_ipv4(&self) -> (b: bool)
        ensures
            b == self.is_v4(),
    {
        match self {
            IpAddress::V4(..) => true,
            IpAddress::V6(..) => false,
        }
    }

    pub fn is_ipv6(&self) -> (b: bool)
        ensures
            b == !self.is_v4(),
    {
        !self.is_ipv4()
    }

    /// Appends the text of this address to `out`.
    pub fn push_text(&self, out: &mut String)
        ensures
            final(out)@ == old(out)@ + self.text(),
    {
        match self {
            IpAddress::V4(a, b, c, d) => {
                push_ipv4(out, *a, *b, *c, *d);
            },
            IpAddress::V6(a, b, c, d, e, f, g, h) => {
                let mut segs: Vec<u16> = Vec::new();
                segs.push(*a);
                segs.push(*b);
                segs.push(*c);
                segs.push(*d);
                segs.push(*e);
                segs.push(*f);
                segs.push(*g);
                segs.push(*h);
                assert(segs@ =~= self.segments());
                push_ipv6(out, &segs);
            },
        }
    }

    /// The text that stands for this address.
    pub fn to_text(&self) -> (s: String)
        ensures
            s@ == self.text(),
    {
        let mut s = String::new();
        self.push_text(&mut s);
        s
    }
}

fn push_ipv4(out: &mut String, a: u8, b: u8, c: u8, d: u8)
    ensures
        final(out)@ == old(out)@ + ipv4_text(a, b, c, d),
{
    push_decimal(out, a as u32);
    out.push('.');
    push_decimal(out, b as u32);
    out.push('.');
    push_decimal(out, c as u32);
    out.push('.');
    push_decimal(out, d as u32);
    assert(out@ =~= old(out)@ + ipv4_text(a, b, c, d));
}

/// Appends the segments from `from` up to `to`, colon-separated.
fn push_groups(out: &mut String, segs: &Vec<u16>, from: usize, to: usize)
    requires
        from <= to <= segs.len(),
    ensures
        final(out)@ == old(out)@ + groups_text(segs@, from as int, to as int),
{
    let ghost start = out@;
    let mut i: usize = from;
    assert(groups(segs@.subrange(from as int, from as int)) =~= Seq::empty());
    while i < to
        invariant
            from <= i <= to <= segs.len(),
            out@ == start + groups_text(segs@, from as int, i as int),
        decreases to - i,
    {
        let ghost before = groups(segs@.subrange(from as int, i as int));
        let ghost after = groups(segs@.subrange(from as int, i + 1));
        if i > from {
            out.push(':');
        }
        push_hex(out, segs[i]);
        proof {
            assert(after.drop_last() =~= before);
            assert(after.last() == hex_text(segs@[i as int] as nat));
            assert(out@ =~= start + join(after, ':'));
        }
        i += 1;
    }
}

/// The number of zero segments in a row that begin at `at`.
fn count_zero_run(segs: &Vec<u16>, at: usize) -> (n: usize)
    requires
        at <= segs.len(),
    ensures
        n == zero_run_len(segs@, at as int),
        at + n <= segs.len(),
{
    let mut k: usize = at;
    while k < segs.len() && segs[k] == 0
        invariant
            at <= k <= segs.len(),
            zero_run_len(segs@, at as int) == (k - at) + zero_run_len(segs@, k as int),
        decreases segs.len() - k,
    {
        k += 1;
    }
    k - at
}

fn push_ipv6(out: &mut String, segs: &Vec<u16>)
    requires
        segs.len() == 8,
    ensures
        final(out)@ == old(out)@ + ipv6_text(segs@),
{
    if segs[0] == 0 && segs[1] == 0 && segs[2] == 0 && segs[3] == 0 && segs[4] == 0 && segs[5]
        == 0xffff {
        out.push(':');
        out.push(':');
        out.push('f');
        out.push('f');
        out.push('f');
        out.push('f');
        out.push(':');
        assert(out@ =~= old(out)@ + mapped_lead());
        push_ipv4(
            out,
            (segs[6] / 256) as u8,
            (segs[6] % 256) as u8,
            (segs[7] / 256) as u8,
            (segs[7] % 256) as u8,
        );
        assert(out@ =~= old(out)@ + ipv6_text(segs@));
    } else {
        let mut best: usize = 0;
        let mut best_len: usize = count_zero_run(segs, 0);
        let mut at: usize = 1;
        while at < 8
            invariant
                1 <= at <= 8,
                segs.len() == 8,
                best < at,
                best == longest_zero_run(segs@, at as int),
                best_len == zero_run_len(segs@, best as int),
                best + best_len <= 8,
            decreases 8 - at,
        {
            let len = count_zero_run(segs, at);
            if len > best_len {
                best = at;
                best_len = len;
            }
            at += 1;
        }
        if best_len >= 2 {
            push_groups(out, segs, 0, best);
            out.push(':');
            out.push(':');
            push_groups(out, segs, best + best_len, 8);
            assert(out@ =~= old(out)@ + ipv6_text(segs@));
        } else {
            push_groups(out, segs, 0, 8);
        }
    }
}

impl IpPrefix {
    /// The prefix is no longer than an address of its family.
    pub open spec fn wf(self) -> bool {
        self.prefix_len <= self.address.bits()
    }

    /// The address, a slash and the prefix length.
    pub open spec fn text(self) -> Seq<char> {
        self.address.text().push('/') + decimal_text(self.prefix_len as nat)
    }

    /// The prefix of `prefix_len` bits of `address`; `None` where the
    /// address has fewer bits.
    pub fn new(address: IpAddress, prefix_len: u8) -> (p: Option<IpPrefix>)
        ensures
            prefix_len <= address.bits() ==> p == Some(IpPrefix { address, prefix_len }),
            prefix_len > address.bits() ==> p is None,
    {
        let max: u8 = if address.is_ipv4() {
            32
        } else {
            128
        };
        if prefix_len <= max {
            Some(IpPrefix { address, prefix_len })
        } else {
            None
        }
    }

    /// The prefix that holds `address` alone.
    pub fn host(address: IpAddress) -> (p: IpPrefix)
        ensures
            p.address == address,
            p.prefix_len == address.bits(),
            p.wf(),
    {
        let prefix_len: u8 = if address.is_ipv4() {
            32
        } else {
            128
        };
        IpPrefix { address, prefix_len }
    }

    pub fn is_ipv4(&self) -> (b: bool)
        ensures
            b == self.address.is_v4(),
    {
        self.address.is_ipv4()
    }

    pub fn is_ipv6(&self) -> (b: bool)
        ensures
            b == !self.address.is_v4(),
    {
        self.address.is_ipv6()
    }

    /// The text that stands for this prefix.
    pub fn to_text(&self) -> (s: String)
        ensures
            s@ == self.text(),
    {
        let mut s = String::new();
        self.address.push_text(&mut s);
        s.push('/');
        push_decimal(&mut s, self.prefix_len as u32);
        assert(s@ =~= self.text());
        s
    }
}

impl Endpoint {
    /// Only an IPv6 endpoint names a zone.
    pub open spec fn wf(self) -> bool {
        self.address is V4 ==> self.scope_id == 0
    }

    /// `a.b.c.d:port` for IPv4; `[address]:port` for IPv6, with `%zone`
    /// behind the address where the zone is not zero.
    pub open spec fn text(self) -> Seq<char> {
        if self.address is V4 {
            self.address.text().push(':') + decimal_text(self.port as nat)
        } else {
            seq!['['] + self.address.text() + (if self.scope_id != 0 {
                seq!['%'] + decimal_text(self.scope_id as nat)
            } else {
                Seq::empty()
            }) + seq![']', ':'] + decimal_text(self.port as nat)
        }
    }

    /// The endpoint at `port` of `address`, in no zone.
    pub fn new(address: IpAddress, port: u16) -> (e: Endpoint)
        ensures
            e == (Endpoint { address, port, scope_id: 0 }),
            e.wf(),
    {
        Endpoint { address, port, scope_id: 0 }
    }

    /// The text that stands for this endpoint.
    pub fn to_text(&self) -> (s: String)
        ensures
            s@ == self.text(),
    {
        let mut s = String::new();
        if self.address.is_ipv4() {
            self.address.push_text(&mut s);
            s.push(':');
            push_decimal(&mut s, self.port as u32);
            assert(s@ =~= self.text());
        } else {
            s.push('[');
            self.address.push_text(&mut s);
            if self.scope_id != 0 {
                s.push('%');
                push_decimal(&mut s, self.scope_id);
            }
            s.push(']');
            s.push(':');
            push_decimal(&mut s, self.port as u32);
            assert(s@ =~= self.text());
        }
        s
    }
}

} // verus!
