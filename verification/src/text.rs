//! Numerals and separated lists as sequences of characters: how they are
//! written, how they are read back, and that reading inverts writing.

use vstd::prelude::*;

verus! {

/// `String::push` appends one character to the end of the string.
pub assume_specification[ String::push ](s: &mut String, ch: char)
    ensures
        final(s)@ == old(s)@.push(ch),
;

/// The character that writes the digit `d`, with lower-case letters for ten
/// to fifteen.
pub open spec fn digit_char(d: int) -> char {
    if d == 0 {
        '0'
    } else if d == 1 {
        '1'
    } else if d == 2 {
        '2'
    } else if d == 3 {
        '3'
    } else if d == 4 {
        '4'
    } else if d == 5 {
        '5'
    } else if d == 6 {
        '6'
    } else if d == 7 {
        '7'
    } else if d == 8 {
        '8'
    } else if d == 9 {
        '9'
    } else if d == 10 {
        'a'
    } else if d == 11 {
        'b'
    } else if d == 12 {
        'c'
    } else if d == 13 {
        'd'
    } else if d == 14 {
        'e'
    } else {
        'f'
    }
}

/// The digit that `c` writes, or -1 where `c` writes none.
pub open spec fn digit_value(c: char) -> int {
    if c == '0' {
        0
    } else if c == '1' {
        1
    } else if c == '2' {
        2
    } else if c == '3' {
        3
    } else if c == '4' {
        4
    } else if c == '5' {
        5
    } else if c == '6' {
        6
    } else if c == '7' {
        7
    } else if c == '8' {
        8
    } else if c == '9' {
        9
    } else if c == 'a' {
        10
    } else if c == 'b' {
        11
    } else if c == 'c' {
        12
    } else if c == 'd' {
        13
    } else if c == 'e' {
        14
    } else if c == 'f' {
        15
    } else {
        -1
    }
}

pub open spec fn is_decimal_digit(c: char) -> bool {
    0 <= digit_value(c) <= 9
}

pub open spec fn is_hex_digit(c: char) -> bool {
    0 <= digit_value(c) <= 15
}

/// Every character of `s` is a decimal digit.
pub open spec fn is_decimal_text(s: Seq<char>) -> bool {
    forall|i: int| 0 <= i < s.len() ==> is_decimal_digit(#[trigger] s[i])
}

/// Every character of `s` is a lower-case hexadecimal digit.
pub open spec fn is_hex_text(s: Seq<char>) -> bool {
    forall|i: int| 0 <= i < s.len() ==> is_hex_digit(#[trigger] s[i])
}

/// `c` does not occur in `s`.
pub open spec fn free_of(s: Seq<char>, c: char) -> bool {
    forall|i: int| 0 <= i < s.len() ==> #[trigger] s[i] != c
}

/// The decimal numeral of `n`, without leading zeros.
pub open spec fn decimal_text(n: nat) -> Seq<char>
    decreases n,
{
    if n < 10 {
        seq![digit_char(n as int)]
    } else {
        decimal_text(n / 10).push(digit_char((n % 10) as int))
    }
}

/// The lower-case hexadecimal numeral of `n`, without leading zeros.
pub open spec fn hex_text(n: nat) -> Seq<char>
    decreases n,
{
    if n < 16 {
        seq![digit_char(n as int)]
    } else {
        hex_text(n / 16).push(digit_char((n % 16) as int))
    }
}

/// The number that the decimal numeral `s` writes; `None` where `s` is empty
/// or holds anything but decimal digits.
pub open spec fn decimal_value(s: Seq<char>) -> Option<nat>
    decreases s.len(),
{
    if s.len() == 0 || !is_decimal_digit(s.last()) {
        None
    } else if s.len() == 1 {
        Some(digit_value(s.last()) as nat)
    } else {
        match decimal_value(s.drop_last()) {
            Some(v) => Some((v * 10 + digit_value(s.last())) as nat),
            None => None,
        }
    }
}

/// The number that the hexadecimal numeral `s` writes; `None` where `s` is
/// empty or holds anything but lower-case hexadecimal digits.
pub open spec fn hex_value(s: Seq<char>) -> Option<nat>
    decreases s.len(),
{
    if s.len() == 0 || !is_hex_digit(s.last()) {
        None
    } else if s.len() == 1 {
        Some(digit_value(s.last()) as nat)
    } else {
        match hex_value(s.drop_last()) {
            Some(v) => Some((v * 16 + digit_value(s.last())) as nat),
            None => None,
        }
    }
}

/// The parts written one after another with `sep` between neighbours.
pub open spec fn join(parts: Seq<Seq<char>>, sep: char) -> Seq<char>
    decreases parts.len(),
{
    if parts.len() == 0 {
        Seq::empty()
    } else if parts.len() == 1 {
        parts[0]
    } else {
        join(parts.drop_last(), sep).push(sep) + parts.last()
    }
}

/// The pieces of `s` between occurrences of `sep`: one more piece than there
/// are occurrences, empty pieces included.
pub open spec fn split(s: Seq<char>, sep: char) -> Seq<Seq<char>>
    decreases s.len(),
{
    if s.len() == 0 {
        seq![Seq::empty()]
    } else {
        let before = split(s.drop_last(), sep);
        if s.last() == sep {
            before.push(Seq::empty())
        } else {
            before.drop_last().push(before.last().push(s.last()))
        }
    }
}

/// The least position from `from` on at which `c` stands twice in a row.
pub open spec fn first_double(s: Seq<char>, c: char, from: int) -> Option<int>
    decreases s.len() - from,
{
    if from < 0 || from + 1 >= s.len() {
        None
    } else if s[from] == c && s[from + 1] == c {
        Some(from)
    } else {
        first_double(s, c, from + 1)
    }
}

/// `c` stands neither first nor last in `s`, nor twice in a row.
pub open spec fn well_separated(s: Seq<char>, c: char) -> bool {
    &&& s.len() > 0 ==> s[0] != c && s.last() != c
    &&& forall|i: int| 0 <= i && i + 1 < s.len() ==> !(#[trigger] s[i] == c && s[i + 1] == c)
}

pub proof fn lemma_digit_round_trip(d: int)
    requires
        0 <= d < 16,
    ensures
        digit_value(digit_char(d)) == d,
        is_hex_digit(digit_char(d)),
        d < 10 ==> is_decimal_digit(digit_char(d)),
{
}

/// Reading a decimal numeral gives back the number that was written.
pub proof fn lemma_decimal_round_trip(n: nat)
    ensures
        decimal_text(n).len() >= 1,
        is_decimal_text(decimal_text(n)),
        decimal_value(decimal_text(n)) == Some(n),
    decreases n,
{
    if n < 10 {
        lemma_digit_round_trip(n as int);
    } else {
        lemma_decimal_round_trip(n / 10);
        lemma_digit_round_trip((n % 10) as int);
        let t = decimal_text(n);
        assert(t.drop_last() =~= decimal_text(n / 10));
        assert(t.last() == digit_char((n % 10) as int));
    }
}

/// Reading a hexadecimal numeral gives back the number that was written.
pub proof fn lemma_hex_round_trip(n: nat)
    ensures
        hex_text(n).len() >= 1,
        is_hex_text(hex_text(n)),
        hex_value(hex_text(n)) == Some(n),
    decreases n,
{
    if n < 16 {
        lemma_digit_round_trip(n as int);
    } else {
        lemma_hex_round_trip(n / 16);
        lemma_digit_round_trip((n % 16) as int);
        let t = hex_text(n);
        assert(t.drop_last() =~= hex_text(n / 16));
        assert(t.last() == digit_char((n % 16) as int));
    }
}

/// Appending a piece without separators lengthens the last piece.
pub proof fn lemma_split_append(a: Seq<char>, p: Seq<char>, sep: char)
    requires
        free_of(p, sep),
    ensures
        split(a, sep).len() >= 1,
        split(a + p, sep) == split(a, sep).drop_last().push(split(a, sep).last() + p),
    decreases p.len(),
{
    lemma_split_nonempty(a, sep);
    if p.len() == 0 {
        assert(a + p =~= a);
        assert(split(a, sep).last() + p =~= split(a, sep).last());
        assert(split(a, sep).drop_last().push(split(a, sep).last()) =~= split(a, sep));
    } else {
        let q = p.drop_last();
        assert(free_of(q, sep)) by {
            assert forall|i: int| 0 <= i < q.len() implies #[trigger] q[i] != sep by {
                assert(q[i] == p[i]);
            }
        }
        lemma_split_append(a, q, sep);
        assert((a + p).drop_last() =~= a + q);
        assert((a + p).last() == p.last());
        assert(p[p.len() - 1] != sep);
        let before = split(a + q, sep);
        assert(before.drop_last() =~= split(a, sep).drop_last());
        assert(before.last().push(p.last()) =~= split(a, sep).last() + p);
    }
}

pub proof fn lemma_split_nonempty(s: Seq<char>, sep: char)
    ensures
        split(s, sep).len() >= 1,
    decreases s.len(),
{
    if s.len() > 0 {
        lemma_split_nonempty(s.drop_last(), sep);
    }
}

/// Splitting what was joined gives back the parts, where there is at least
/// one part and none holds the separator.
pub proof fn lemma_split_join(parts: Seq<Seq<char>>, sep: char)
    requires
        parts.len() >= 1,
        forall|i: int| 0 <= i < parts.len() ==> free_of(#[trigger] parts[i], sep),
    ensures
        split(join(parts, sep), sep) == parts,
    decreases parts.len(),
{
    if parts.len() == 1 {
        let empty = Seq::<char>::empty();
        lemma_split_append(empty, parts[0], sep);
        assert(empty + parts[0] =~= parts[0]);
        assert(split(empty, sep) =~= seq![empty]);
        assert(split(parts[0], sep) =~= seq![parts[0]]);
        assert(parts =~= seq![parts[0]]);
    } else {
        let init = parts.drop_last();
        assert forall|i: int| 0 <= i < init.len() implies free_of(#[trigger] init[i], sep) by {
            assert(init[i] == parts[i]);
        }
        lemma_split_join(init, sep);
        let head = join(init, sep).push(sep);
        assert(head.drop_last() =~= join(init, sep));
        assert(split(head, sep) == init.push(Seq::empty()));
        lemma_split_append(head, parts.last(), sep);
        assert(init.push(Seq::<char>::empty()).drop_last() =~= init);
        assert(Seq::<char>::empty() + parts.last() =~= parts.last());
        assert(init.push(parts.last()) =~= parts);
    }
}

/// Two pieces around one separator split into exactly those pieces.
pub proof fn lemma_split_pair(a: Seq<char>, b: Seq<char>, sep: char)
    requires
        free_of(a, sep),
        free_of(b, sep),
    ensures
        split(a.push(sep) + b, sep) == seq![a, b],
{
    let parts = seq![a, b];
    assert(parts.drop_last() =~= seq![a]);
    assert(join(parts, sep) == a.push(sep) + b) by {
        reveal_with_fuel(join, 2);
    }
    lemma_split_join(parts, sep);
}

/// A text without the separator is a single piece.
pub proof fn lemma_split_single(a: Seq<char>, sep: char)
    requires
        free_of(a, sep),
    ensures
        split(a, sep) == seq![a],
{
    lemma_split_join(seq![a], sep);
}

/// Joined non-empty parts without the separator hold it neither first nor
/// last nor twice in a row.
pub proof fn lemma_join_well_separated(parts: Seq<Seq<char>>, sep: char)
    requires
        forall|i: int|
            0 <= i < parts.len() ==> free_of(#[trigger] parts[i], sep) && parts[i].len() > 0,
    ensures
        well_separated(join(parts, sep), sep),
        parts.len() > 0 ==> join(parts, sep).len() > 0,
    decreases parts.len(),
{
    if parts.len() <= 1 {
    } else {
        let init = parts.drop_last();
        assert forall|i: int| 0 <= i < init.len() implies free_of(#[trigger] init[i], sep)
            && init[i].len() > 0 by {
            assert(init[i] == parts[i]);
        }
        lemma_join_well_separated(init, sep);
        let a = join(init, sep);
        let last = parts.last();
        let s = join(parts, sep);
        assert(s == a.push(sep) + last);
        assert forall|i: int| 0 <= i && i + 1 < s.len() implies !(#[trigger] s[i] == sep && s[i
            + 1] == sep) by {
            if i + 1 < a.len() {
                assert(s[i] == a[i]);
                assert(s[i + 1] == a[i + 1]);
            } else if i + 1 == a.len() {
                assert(s[i] == a.last());
            } else if i == a.len() {
                assert(s[i + 1] == last[0]);
            } else {
                assert(s[i] == last[i - a.len() - 1]);
            }
        }
        assert(s[0] == a[0]);
        assert(s.last() == last.last());
    }
}

/// Where no double stands before `at` and one stands at `at`, the first
/// double from `from` on is at `at`.
pub proof fn lemma_first_double_at(s: Seq<char>, c: char, from: int, at: int)
    requires
        0 <= from <= at,
        at + 1 < s.len(),
        s[at] == c,
        s[at + 1] == c,
        forall|i: int| from <= i < at ==> !(#[trigger] s[i] == c && s[i + 1] == c),
    ensures
        first_double(s, c, from) == Some(at),
    decreases at - from,
{
    if from < at {
        assert(!(s[from] == c && s[from + 1] == c));
        lemma_first_double_at(s, c, from + 1, at);
    }
}

/// Where no double stands from `from` on, none is found.
pub proof fn lemma_first_double_none(s: Seq<char>, c: char, from: int)
    requires
        0 <= from,
        forall|i: int| from <= i && i + 1 < s.len() ==> !(#[trigger] s[i] == c && s[i + 1] == c),
    ensures
        first_double(s, c, from) is None,
    decreases s.len() - from,
{
    if from + 1 < s.len() {
        assert(!(s[from] == c && s[from + 1] == c));
        lemma_first_double_none(s, c, from + 1);
    }
}

/// What is joined holds no character that neither the parts nor the
/// separator hold.
pub proof fn lemma_join_free_of(parts: Seq<Seq<char>>, sep: char, c: char)
    requires
        c != sep,
        forall|i: int| 0 <= i < parts.len() ==> free_of(#[trigger] parts[i], c),
    ensures
        free_of(join(parts, sep), c),
    decreases parts.len(),
{
    if parts.len() == 0 {
    } else if parts.len() == 1 {
        assert(free_of(parts[0], c));
    } else {
        let init = parts.drop_last();
        assert forall|i: int| 0 <= i < init.len() implies free_of(#[trigger] init[i], c) by {
            assert(init[i] == parts[i]);
        }
        lemma_join_free_of(init, sep, c);
        let a = join(init, sep).push(sep);
        assert(free_of(parts.last(), c));
        lemma_free_of_concat(a, parts.last(), c);
    }
}

/// Two texts without `c` make one without `c`.
pub proof fn lemma_free_of_concat(a: Seq<char>, b: Seq<char>, c: char)
    requires
        free_of(a, c),
        free_of(b, c),
    ensures
        free_of(a + b, c),
{
    assert forall|i: int| 0 <= i < (a + b).len() implies #[trigger] (a + b)[i] != c by {
        if i < a.len() {
            assert((a + b)[i] == a[i]);
        } else {
            assert((a + b)[i] == b[i - a.len()]);
        }
    }
}

/// A decimal numeral holds decimal digits only.
pub proof fn lemma_decimal_free_of(n: nat, c: char)
    requires
        !is_decimal_digit(c),
    ensures
        free_of(decimal_text(n), c),
{
    lemma_decimal_round_trip(n);
    let d = decimal_text(n);
    assert forall|i: int| 0 <= i < d.len() implies #[trigger] d[i] != c by {
        assert(is_decimal_digit(d[i]));
    }
}

/// A hexadecimal numeral holds hexadecimal digits only.
pub proof fn lemma_hex_free_of(n: nat, c: char)
    requires
        !is_hex_digit(c),
    ensures
        free_of(hex_text(n), c),
{
    lemma_hex_round_trip(n);
    let h = hex_text(n);
    assert forall|i: int| 0 <= i < h.len() implies #[trigger] h[i] != c by {
        assert(is_hex_digit(h[i]));
    }
}

/// The character that writes the digit `d`.
pub fn digit(d: u8) -> (c: char)
    requires
        d < 16,
    ensures
        c == digit_char(d as int),
{
    if d == 0 {
        '0'
    } else if d == 1 {
        '1'
    } else if d == 2 {
        '2'
    } else if d == 3 {
        '3'
    } else if d == 4 {
        '4'
    } else if d == 5 {
        '5'
    } else if d == 6 {
        '6'
    } else if d == 7 {
        '7'
    } else if d == 8 {
        '8'
    } else if d == 9 {
        '9'
    } else if d == 10 {
        'a'
    } else if d == 11 {
        'b'
    } else if d == 12 {
        'c'
    } else if d == 13 {
        'd'
    } else if d == 14 {
        'e'
    } else {
        'f'
    }
}

/// Appends the decimal numeral of `n` to `out`.
pub fn push_decimal(out: &mut String, n: u32)
    ensures
        final(out)@ == old(out)@ + decimal_text(n as nat),
    decreases n,
{
    if n >= 10 {
        push_decimal(out, n / 10);
    }
    let d: u32 = n % 10;
    out.push(digit(d as u8));
}

/// Appends the lower-case hexadecimal numeral of `n` to `out`.
pub fn push_hex(out: &mut String, n: u16)
    ensures
        final(out)@ == old(out)@ + hex_text(n as nat),
    decreases n,
{
    if n >= 16 {
        push_hex(out, n / 16);
    }
    let d: u16 = n % 16;
    out.push(digit(d as u8));
}

} // verus!
