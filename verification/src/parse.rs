//! Reading addresses, prefixes and endpoints back from their text, and the
//! proofs that this gives back what was written.

use crate::address::{
    groups, groups_text, ipv4_text, ipv6_text, is_v4_mapped, longest_zero_run, mapped_lead,
    zero_run_len, Endpoint, IpAddress, IpPrefix,
};
use crate::text::{
    decimal_text, decimal_value, first_double, free_of, hex_value, is_decimal_digit, is_hex_digit,
    join, lemma_decimal_free_of, lemma_decimal_round_trip, lemma_first_double_at,
    lemma_first_double_none, lemma_free_of_concat, lemma_hex_free_of, lemma_hex_round_trip,
    lemma_join_free_of, lemma_join_well_separated, lemma_split_join, lemma_split_pair,
    lemma_split_single, split, well_separated,
};
use vstd::prelude::*;

verus! {

/// The number below `bound` that the decimal numeral `s` writes.
pub open spec fn bounded_decimal(s: Seq<char>, bound: nat) -> Option<nat> {
    match decimal_value(s) {
        Some(v) => if v < bound {
            Some(v)
        } else {
            None
        },
        None => None,
    }
}

/// The 16-bit segment that the hexadecimal numeral `s` writes.
pub open spec fn segment(s: Seq<char>) -> Option<u16> {
    match hex_value(s) {
        Some(v) => if v <= 0xffff {
            Some(v as u16)
        } else {
            None
        },
        None => None,
    }
}

/// The IPv4 address that the dotted quad `s` writes.
#[verifier::opaque]
pub open spec fn parse_ipv4(s: Seq<char>) -> Option<IpAddress> {
    let parts = split(s, '.');
    if parts.len() != 4 {
        None
    } else {
        match (
            bounded_decimal(parts[0], 256),
            bounded_decimal(parts[1], 256),
            bounded_decimal(parts[2], 256),
            bounded_decimal(parts[3], 256),
        ) {
            (Some(a), Some(b), Some(c), Some(d)) => Some(
                IpAddress::V4(a as u8, b as u8, c as u8, d as u8),
            ),
            _ => None,
        }
    }
}

/// The segments that colon-separated hexadecimal numerals write; none for
/// the empty text.
pub open spec fn parse_groups(s: Seq<char>) -> Option<Seq<u16>> {
    if s.len() == 0 {
        Some(Seq::empty())
    } else {
        let parts = split(s, ':');
        if forall|i: int| 0 <= i < parts.len() ==> segment(#[trigger] parts[i]) is Some {
            Some(Seq::new(parts.len(), |i: int| segment(parts[i]).unwrap()))
        } else {
            None
        }
    }
}

/// The IPv6 address of eight segments.
pub open spec fn from_segments(g: Seq<u16>) -> IpAddress {
    IpAddress::V6(g[0], g[1], g[2], g[3], g[4], g[5], g[6], g[7])
}

/// The IPv6 address that `s` writes: `::ffff:` before a dotted quad,
/// or hexadecimal groups with at most one `::` that stands for the zero
/// groups left out.
#[verifier::opaque]
pub open spec fn parse_ipv6(s: Seq<char>) -> Option<IpAddress> {
    if s.len() >= 7 && s.take(7) == mapped_lead() && parse_ipv4(s.skip(7)) is Some {
        match parse_ipv4(s.skip(7)) {
            Some(IpAddress::V4(a, b, c, d)) => Some(
                IpAddress::V6(
                    0,
                    0,
                    0,
                    0,
                    0,
                    0xffff,
                    (a * 256 + b) as u16,
                    (c * 256 + d) as u16,
                ),
            ),
            _ => None,
        }
    } else {
        match first_double(s, ':', 0) {
            Some(at) => match (parse_groups(s.take(at)), parse_groups(s.skip(at + 2))) {
                (Some(head), Some(tail)) => if head.len() + tail.len() <= 7 {
                    Some(
                        from_segments(
                            head + Seq::new((8 - head.len() - tail.len()) as nat, |i: int| 0u16)
                                + tail,
                        ),
                    )
                } else {
                    None
                },
                _ => None,
            },
            None => match parse_groups(s) {
                Some(g) => if g.len() == 8 {
                    Some(from_segments(g))
                } else {
                    None
                },
                None => None,
            },
        }
    }
}

/// The address that `s` writes: IPv6 where `s` holds a colon, else IPv4.
pub open spec fn parse_ip(s: Seq<char>) -> Option<IpAddress> {
    if free_of(s, ':') {
        parse_ipv4(s)
    } else {
        parse_ipv6(s)
    }
}

/// The prefix that `address/length` writes.
pub open spec fn parse_prefix(s: Seq<char>) -> Option<IpPrefix> {
    let parts = split(s, '/');
    if parts.len() != 2 {
        None
    } else {
        match (parse_ip(parts[0]), decimal_value(parts[1])) {
            (Some(address), Some(n)) => if n <= address.bits() {
                Some(IpPrefix { address, prefix_len: n as u8 })
            } else {
                None
            },
            _ => None,
        }
    }
}

/// The endpoint that `a.b.c.d:port`, `[address]:port` or
/// `[address%zone]:port` writes.
pub open spec fn parse_endpoint(s: Seq<char>) -> Option<Endpoint> {
    if s.len() > 0 && s[0] == '[' {
        let parts = split(s.skip(1), ']');
        if parts.len() != 2 || parts[1].len() == 0 || parts[1][0] != ':' {
            None
        } else {
            let inner = split(parts[0], '%');
            let zone = if inner.len() == 1 {
                Some(0nat)
            } else if inner.len() == 2 {
                bounded_decimal(inner[1], 0x1_0000_0000)
            } else {
                None
            };
            match (parse_ipv6(inner[0]), zone, bounded_decimal(parts[1].skip(1), 0x1_0000)) {
                (Some(address), Some(zone), Some(port)) => Some(
                    Endpoint { address, port: port as u16, scope_id: zone as u32 },
                ),
                _ => None,
            }
        }
    } else {
        let parts = split(s, ':');
        if parts.len() != 2 {
            None
        } else {
            match (parse_ipv4(parts[0]), bounded_decimal(parts[1], 0x1_0000)) {
                (Some(address), Some(port)) => Some(
                    Endpoint { address, port: port as u16, scope_id: 0 },
                ),
                _ => None,
            }
        }
    }
}

/// The numerals of four octets.
pub open spec fn quad(a: u8, b: u8, c: u8, d: u8) -> Seq<Seq<char>> {
    seq![
        decimal_text(a as nat),
        decimal_text(b as nat),
        decimal_text(c as nat),
        decimal_text(d as nat),
    ]
}

/// A dotted quad is its four numerals joined by dots.
pub proof fn lemma_ipv4_is_join(a: u8, b: u8, c: u8, d: u8)
    ensures
        ipv4_text(a, b, c, d) == join(quad(a, b, c, d), '.'),
        ipv4_text(a, b, c, d).len() > 0,
        is_decimal_digit(ipv4_text(a, b, c, d)[0]),
{
    let da = decimal_text(a as nat);
    let db = decimal_text(b as nat);
    let dc = decimal_text(c as nat);
    let dd = decimal_text(d as nat);
    lemma_decimal_round_trip(a as nat);
    let one = seq![da];
    let two = seq![da, db];
    let three = seq![da, db, dc];
    let four = quad(a, b, c, d);
    assert(two.drop_last() =~= one);
    assert(three.drop_last() =~= two);
    assert(four.drop_last() =~= three);
    assert(join(one, '.') == da);
    assert(join(two, '.') == da.push('.') + db);
    assert(join(three, '.') == join(two, '.').push('.') + dc);
    assert(join(four, '.') == join(three, '.').push('.') + dd);
    let t = ipv4_text(a, b, c, d);
    assert(t =~= join(four, '.'));
    assert(t[0] == da[0]);
}

/// A dotted quad holds digits and dots only.
pub proof fn lemma_ipv4_free_of(a: u8, b: u8, c: u8, d: u8, x: char)
    requires
        !is_decimal_digit(x),
        x != '.',
    ensures
        free_of(ipv4_text(a, b, c, d), x),
{
    let p = quad(a, b, c, d);
    lemma_ipv4_is_join(a, b, c, d);
    lemma_decimal_free_of(a as nat, x);
    lemma_decimal_free_of(b as nat, x);
    lemma_decimal_free_of(c as nat, x);
    lemma_decimal_free_of(d as nat, x);
    lemma_join_free_of(p, '.', x);
}

/// A dotted quad reads back as its four octets.
pub proof fn lemma_ipv4_round_trip(a: u8, b: u8, c: u8, d: u8)
    ensures
        parse_ipv4(ipv4_text(a, b, c, d)) == Some(IpAddress::V4(a, b, c, d)),
{
    reveal(parse_ipv4);
    let p = quad(a, b, c, d);
    lemma_ipv4_is_join(a, b, c, d);
    lemma_decimal_round_trip(a as nat);
    lemma_decimal_round_trip(b as nat);
    lemma_decimal_round_trip(c as nat);
    lemma_decimal_round_trip(d as nat);
    lemma_decimal_free_of(a as nat, '.');
    lemma_decimal_free_of(b as nat, '.');
    lemma_decimal_free_of(c as nat, '.');
    lemma_decimal_free_of(d as nat, '.');
    lemma_split_join(p, '.');
}

/// Colon-separated groups hold hexadecimal digits and colons only.
pub proof fn lemma_groups_free_of(segs: Seq<u16>, x: char)
    requires
        !is_hex_digit(x),
        x != ':',
    ensures
        free_of(join(groups(segs), ':'), x),
{
    let g = groups(segs);
    assert forall|i: int| 0 <= i < g.len() implies free_of(#[trigger] g[i], x) by {
        lemma_hex_free_of(segs[i] as nat, x);
    }
    lemma_join_free_of(g, ':', x);
}

/// Colon-separated groups read back as the segments they were written
/// from; colons stand in their text neither first nor last nor twice in a
/// row.
pub proof fn lemma_groups_round_trip(segs: Seq<u16>)
    ensures
        parse_groups(join(groups(segs), ':')) == Some(segs),
        well_separated(join(groups(segs), ':'), ':'),
        segs.len() > 0 ==> join(groups(segs), ':').len() > 0,
{
    let g = groups(segs);
    let t = join(g, ':');
    assert forall|i: int| 0 <= i < g.len() implies free_of(#[trigger] g[i], ':') && g[i].len() > 0
        && segment(g[i]) == Some(segs[i]) by {
        lemma_hex_round_trip(segs[i] as nat);
        lemma_hex_free_of(segs[i] as nat, ':');
    }
    lemma_join_well_separated(g, ':');
    if segs.len() == 0 {
        assert(segs =~= Seq::empty());
    } else {
        lemma_split_join(g, ':');
        let parts = split(t, ':');
        assert(parts == g);
        assert(Seq::new(parts.len(), |i: int| segment(parts[i]).unwrap()) =~= segs);
    }
}

/// A run of zero segments holds zeros only and ends within the segments.
pub proof fn lemma_zero_run(segs: Seq<u16>, at: int)
    requires
        0 <= at <= segs.len(),
    ensures
        at + zero_run_len(segs, at) <= segs.len(),
        forall|k: int| at <= k < at + zero_run_len(segs, at) ==> segs[k] == 0,
    decreases segs.len() - at,
{
    if at < segs.len() && segs[at] == 0 {
        lemma_zero_run(segs, at + 1);
    }
}

/// The longest run begins below `upto`.
pub proof fn lemma_longest_zero_run_bound(segs: Seq<u16>, upto: int)
    requires
        1 <= upto,
    ensures
        0 <= longest_zero_run(segs, upto) < upto,
    decreases upto,
{
    if upto > 1 {
        lemma_longest_zero_run_bound(segs, upto - 1);
    }
}

/// The groups before and behind a gap, with `::` for the gap.
pub open spec fn gapped_text(segs: Seq<u16>, start: int, len: int) -> Seq<char> {
    groups_text(segs, 0, start) + seq![':', ':'] + groups_text(segs, start + len, 8)
}

/// Text with `::` for a run of zero segments reads back as the segments.
pub proof fn lemma_gapped_round_trip(segs: Seq<u16>, start: int, len: int)
    requires
        segs.len() == 8,
        0 <= start,
        1 <= len,
        start + len <= 8,
        forall|k: int| start <= k < start + len ==> segs[k] == 0,
    ensures
        first_double(gapped_text(segs, start, len), ':', 0) == Some(
            groups_text(segs, 0, start).len() as int,
        ),
        parse_groups(gapped_text(segs, start, len).take(groups_text(segs, 0, start).len() as int))
            == Some(segs.subrange(0, start)),
        parse_groups(
            gapped_text(segs, start, len).skip(groups_text(segs, 0, start).len() as int + 2),
        ) == Some(segs.subrange(start + len, 8)),
        segs.subrange(0, start) + Seq::new(len as nat, |i: int| 0u16) + segs.subrange(
            start + len,
            8,
        ) == segs,
{
    let t = gapped_text(segs, start, len);
    let front = segs.subrange(0, start);
    let back = segs.subrange(start + len, 8);
    let h = groups_text(segs, 0, start);
    let k = groups_text(segs, start + len, 8);
    let at = h.len() as int;
    lemma_groups_round_trip(front);
    lemma_groups_round_trip(back);
    assert(t[at] == ':');
    assert(t[at + 1] == ':');
    assert forall|i: int| 0 <= i < at implies !(#[trigger] t[i] == ':' && t[i + 1] == ':') by {
        assert(t[i] == h[i]);
        if i + 1 < at {
            assert(t[i + 1] == h[i + 1]);
        } else {
            assert(h[i] == h.last());
        }
    }
    lemma_first_double_at(t, ':', 0, at);
    assert(t.take(at) =~= h);
    assert(t.skip(at + 2) =~= k);
    assert(front + Seq::new(len as nat, |i: int| 0u16) + back =~= segs);
}

/// The text of eight segments holds nothing but hexadecimal digits, colons
/// and, where it is IPv4-mapped, dots.
pub proof fn lemma_ipv6_free_of(segs: Seq<u16>, x: char)
    requires
        segs.len() == 8,
        !is_hex_digit(x),
        x != ':',
        x != '.' || !is_v4_mapped(segs),
    ensures
        free_of(ipv6_text(segs), x),
{
    if is_v4_mapped(segs) {
        let a = (segs[6] / 256) as u8;
        let b = (segs[6] % 256) as u8;
        let c = (segs[7] / 256) as u8;
        let d = (segs[7] % 256) as u8;
        lemma_ipv4_free_of(a, b, c, d, x);
        assert(free_of(mapped_lead(), x));
        lemma_free_of_concat(mapped_lead(), ipv4_text(a, b, c, d), x);
    } else {
        let start = longest_zero_run(segs, 8);
        let len = zero_run_len(segs, start);
        if len >= 2 {
            let h = groups_text(segs, 0, start);
            let k = groups_text(segs, start + len, 8);
            lemma_groups_free_of(segs.subrange(0, start), x);
            lemma_groups_free_of(segs.subrange(start + len, 8), x);
            assert(free_of(seq![':', ':'], x));
            lemma_free_of_concat(h, seq![':', ':'], x);
            lemma_free_of_concat(h + seq![':', ':'], k, x);
        } else {
            lemma_groups_free_of(segs.subrange(0, 8), x);
        }
    }
}

/// The text of eight segments holds a colon.
pub proof fn lemma_ipv6_has_colon(segs: Seq<u16>)
    requires
        segs.len() == 8,
    ensures
        !free_of(ipv6_text(segs), ':'),
{
    let t = ipv6_text(segs);
    if is_v4_mapped(segs) {
        assert(t[0] == ':');
    } else {
        let start = longest_zero_run(segs, 8);
        let len = zero_run_len(segs, start);
        if len >= 2 {
            let h = groups_text(segs, 0, start);
            assert(t[h.len() as int] == ':');
        } else {
            let g = groups(segs.subrange(0, 8));
            let init = join(g.drop_last(), ':');
            assert(t == init.push(':') + g.last());
            assert(t[init.len() as int] == ':');
        }
    }
}

/// The text of eight segments reads back as those segments.
pub proof fn lemma_ipv6_round_trip(segs: Seq<u16>)
    requires
        segs.len() == 8,
    ensures
        parse_ipv6(ipv6_text(segs)) == Some(from_segments(segs)),
{
    reveal(parse_ipv6);
    let t = ipv6_text(segs);
    if is_v4_mapped(segs) {
        let a = (segs[6] / 256) as u8;
        let b = (segs[6] % 256) as u8;
        let c = (segs[7] / 256) as u8;
        let d = (segs[7] % 256) as u8;
        let q = ipv4_text(a, b, c, d);
        lemma_ipv4_round_trip(a, b, c, d);
        assert(t == mapped_lead() + q);
        assert(t.take(7) =~= mapped_lead());
        assert(t.skip(7) =~= q);
    } else {
        if t.len() >= 7 {
            let rest = t.skip(7);
            lemma_ipv6_free_of(segs, '.');
            assert forall|i: int| 0 <= i < rest.len() implies #[trigger] rest[i] != '.' by {
                assert(rest[i] == t[i + 7]);
            }
            lemma_split_single(rest, '.');
            assert(parse_ipv4(rest) is None) by {
                reveal(parse_ipv4);
            }
        }
        let start = longest_zero_run(segs, 8);
        let len = zero_run_len(segs, start);
        lemma_longest_zero_run_bound(segs, 8);
        lemma_zero_run(segs, start);
        if len >= 2 {
            lemma_gapped_round_trip(segs, start, len as int);
            assert(t == gapped_text(segs, start, len as int));
            assert(segs.subrange(0, start).len() == start);
            assert(segs.subrange(start + len, 8).len() == 8 - start - len);
        } else {
            assert(segs.subrange(0, 8) =~= segs);
            lemma_groups_round_trip(segs);
            lemma_first_double_none(t, ':', 0);
        }
    }
}

/// The text of an address holds nothing but hexadecimal digits, colons and
/// dots, and is not empty.
pub proof fn lemma_ip_free_of(address: IpAddress, x: char)
    requires
        !is_hex_digit(x),
        x != ':',
        x != '.',
    ensures
        free_of(address.text(), x),
{
    match address {
        IpAddress::V4(a, b, c, d) => {
            lemma_ipv4_free_of(a, b, c, d, x);
        },
        IpAddress::V6(..) => {
            lemma_ipv6_free_of(address.segments(), x);
        },
    }
}

/// The text of an address reads back as that address.
pub proof fn lemma_ip_round_trip(address: IpAddress)
    ensures
        parse_ip(address.text()) == Some(address),
{
    match address {
        IpAddress::V4(a, b, c, d) => {
            lemma_ipv4_round_trip(a, b, c, d);
            lemma_ipv4_free_of(a, b, c, d, ':');
        },
        IpAddress::V6(..) => {
            lemma_ipv6_round_trip(address.segments());
            lemma_ipv6_has_colon(address.segments());
        },
    }
}

/// The text of a prefix reads back as that prefix.
pub proof fn lemma_prefix_round_trip(prefix: IpPrefix)
    requires
        prefix.wf(),
    ensures
        parse_prefix(prefix.text()) == Some(prefix),
{
    let a = prefix.address.text();
    let n = decimal_text(prefix.prefix_len as nat);
    lemma_ip_round_trip(prefix.address);
    lemma_ip_free_of(prefix.address, '/');
    lemma_decimal_round_trip(prefix.prefix_len as nat);
    lemma_decimal_free_of(prefix.prefix_len as nat, '/');
    lemma_split_pair(a, n, '/');
}

/// An address in brackets, with its zone where there is one, and a port:
/// the pieces come apart at the bracket and at the percent sign.
proof fn lemma_bracketed(ip: Seq<char>, scope_id: u32, port: u16)
    requires
        free_of(ip, ']'),
        free_of(ip, '%'),
    ensures
        ({
            let zone = decimal_text(scope_id as nat);
            let inner = if scope_id != 0 {
                ip.push('%') + zone
            } else {
                ip
            };
            let tail = seq![':'] + decimal_text(port as nat);
            let t = seq!['['] + ip + (if scope_id != 0 {
                seq!['%'] + zone
            } else {
                Seq::empty()
            }) + seq![']', ':'] + decimal_text(port as nat);
            &&& t[0] == '['
            &&& split(t.skip(1), ']') == seq![inner, tail]
            &&& tail.skip(1) == decimal_text(port as nat)
            &&& split(inner, '%') == if scope_id != 0 {
                seq![ip, zone]
            } else {
                seq![ip]
            }
        }),
{
    let zone = decimal_text(scope_id as nat);
    let digits = decimal_text(port as nat);
    let inner = if scope_id != 0 {
        ip.push('%') + zone
    } else {
        ip
    };
    let tail = seq![':'] + digits;
    let t = seq!['['] + ip + (if scope_id != 0 {
        seq!['%'] + zone
    } else {
        Seq::empty()
    }) + seq![']', ':'] + digits;
    lemma_decimal_free_of(scope_id as nat, ']');
    lemma_decimal_free_of(scope_id as nat, '%');
    lemma_decimal_free_of(port as nat, ']');
    if scope_id != 0 {
        lemma_free_of_concat(ip.push('%'), zone, ']');
        lemma_split_pair(ip, zone, '%');
    } else {
        lemma_split_single(ip, '%');
    }
    lemma_free_of_concat(seq![':'], digits, ']');
    assert(t.skip(1) =~= inner.push(']') + tail);
    lemma_split_pair(inner, tail, ']');
    assert(tail.skip(1) =~= digits);
}

/// The text of an endpoint reads back as that endpoint.
pub proof fn lemma_endpoint_round_trip(endpoint: Endpoint)
    requires
        endpoint.wf(),
    ensures
        parse_endpoint(endpoint.text()) == Some(endpoint),
{
    let t = endpoint.text();
    let port = decimal_text(endpoint.port as nat);
    lemma_decimal_round_trip(endpoint.port as nat);
    match endpoint.address {
        IpAddress::V4(a, b, c, d) => {
            let ip = ipv4_text(a, b, c, d);
            lemma_ipv4_round_trip(a, b, c, d);
            lemma_ipv4_is_join(a, b, c, d);
            lemma_ipv4_free_of(a, b, c, d, ':');
            lemma_decimal_free_of(endpoint.port as nat, ':');
            assert(t[0] == ip[0]);
            lemma_split_pair(ip, port, ':');
        },
        IpAddress::V6(..) => {
            let ip = endpoint.address.text();
            lemma_ipv6_round_trip(endpoint.address.segments());
            lemma_ipv6_free_of(endpoint.address.segments(), ']');
            lemma_ipv6_free_of(endpoint.address.segments(), '%');
            lemma_decimal_round_trip(endpoint.scope_id as nat);
            lemma_bracketed(ip, endpoint.scope_id, endpoint.port);
            assert(from_segments(endpoint.address.segments()) == endpoint.address);
        },
    }
}

} // verus!
