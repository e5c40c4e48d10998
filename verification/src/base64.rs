//! Base64 with the standard alphabet and `=` padding.

use vstd::prelude::*;

verus! {

/// The character of the standard alphabet that stands for the six-bit
/// value `v`.
pub open spec fn sextet_char(v: int) -> char {
    if v < 26 {
        ((65 + v) as u8) as char
    } else if v < 52 {
        ((71 + v) as u8) as char
    } else if v < 62 {
        ((v - 4) as u8) as char
    } else if v == 62 {
        '+'
    } else {
        '/'
    }
}

/// The six-bit value that `c` stands for, or -1 where `c` is not of the
/// alphabet.
pub open spec fn sextet_value(c: char) -> int {
    if 'A' <= c <= 'Z' {
        c as int - 65
    } else if 'a' <= c <= 'z' {
        c as int - 71
    } else if '0' <= c <= '9' {
        c as int + 4
    } else if c == '+' {
        62
    } else if c == '/' {
        63
    } else {
        -1
    }
}

/// The encoding of `bytes`: four characters for every three bytes, and a
/// last group padded with `=` where one or two bytes are left over.
pub open spec fn base64_text(bytes: Seq<u8>) -> Seq<char>
    decreases bytes.len(),
{
    if bytes.len() == 0 {
        Seq::empty()
    } else {
        let b0 = bytes[0] as int;
        let b1 = bytes[1] as int;
        let b2 = bytes[2] as int;
        if bytes.len() == 1 {
            seq![sextet_char(b0 / 4), sextet_char((b0 % 4) * 16), '=', '=']
        } else if bytes.len() == 2 {
            seq![
                sextet_char(b0 / 4),
                sextet_char((b0 % 4) * 16 + b1 / 16),
                sextet_char((b1 % 16) * 4),
                '=',
            ]
        } else {
            seq![
                sextet_char(b0 / 4),
                sextet_char((b0 % 4) * 16 + b1 / 16),
                sextet_char((b1 % 16) * 4 + b2 / 64),
                sextet_char(b2 % 64),
            ] + base64_text(bytes.skip(3))
        }
    }
}

/// The bytes that `text` encodes; `None` where `text` is no canonical
/// encoding.
pub open spec fn base64_bytes(text: Seq<char>) -> Option<Seq<u8>>
    decreases text.len(),
{
    if text.len() == 0 {
        Some(Seq::empty())
    } else if text.len() < 4 {
        None
    } else {
        let v0 = sextet_value(text[0]);
        let v1 = sextet_value(text[1]);
        let v2 = sextet_value(text[2]);
        let v3 = sextet_value(text[3]);
        if v0 < 0 || v1 < 0 {
            None
        } else if text.len() == 4 && text[2] == '=' && text[3] == '=' {
            if v1 % 16 == 0 {
                Some(seq![(v0 * 4 + v1 / 16) as u8])
            } else {
                None
            }
        } else if text.len() == 4 && text[3] == '=' {
            if v2 >= 0 && v2 % 4 == 0 {
                Some(seq![(v0 * 4 + v1 / 16) as u8, ((v1 % 16) * 16 + v2 / 4) as u8])
            } else {
                None
            }
        } else if v2 < 0 || v3 < 0 {
            None
        } else {
            match base64_bytes(text.skip(4)) {
                Some(rest) => Some(
                    seq![
                        (v0 * 4 + v1 / 16) as u8,
                        ((v1 % 16) * 16 + v2 / 4) as u8,
                        ((v2 % 4) * 64 + v3) as u8,
                    ] + rest,
                ),
                None => None,
            }
        }
    }
}

pub proof fn lemma_sextet_round_trip(v: int)
    requires
        0 <= v < 64,
    ensures
        sextet_value(sextet_char(v)) == v,
        sextet_char(v) != '=',
{
}

/// Decoding an encoding gives back the bytes that were encoded.
pub proof fn lemma_base64_round_trip(bytes: Seq<u8>)
    ensures
        base64_bytes(base64_text(bytes)) == Some(bytes),
        base64_text(bytes).len() == 4 * ((bytes.len() + 2) / 3),
    decreases bytes.len(),
{
    let text = base64_text(bytes);
    if bytes.len() == 0 {
        assert(bytes =~= Seq::empty());
    } else {
        let b0 = bytes[0];
        lemma_sextet_round_trip(b0 as int / 4);
        if bytes.len() == 1 {
            lemma_sextet_round_trip((b0 as int % 4) * 16);
            assert(bytes =~= seq![b0]);
        } else {
            let b1 = bytes[1];
            lemma_sextet_round_trip((b0 as int % 4) * 16 + b1 as int / 16);
            if bytes.len() == 2 {
                lemma_sextet_round_trip((b1 as int % 16) * 4);
                assert(bytes =~= seq![b0, b1]);
            } else {
                let b2 = bytes[2];
                lemma_sextet_round_trip((b1 as int % 16) * 4 + b2 as int / 64);
                lemma_sextet_round_trip(b2 as int % 64);
                lemma_base64_round_trip(bytes.skip(3));
                assert(text.skip(4) =~= base64_text(bytes.skip(3)));
                assert(seq![b0, b1, b2] + bytes.skip(3) =~= bytes);
            }
        }
    }
}

/// The character of the standard alphabet for the six-bit value `v`.
pub fn sextet(v: u8) -> (c: char)
    requires
        v < 64,
    ensures
        c == sextet_char(v as int),
{
    if v < 26 {
        (65u8 + v) as char
    } else if v < 52 {
        (71u8 + v) as char
    } else if v < 62 {
        (v - 4u8) as char
    } else if v == 62 {
        '+'
    } else {
        '/'
    }
}

/// Appends the encoding of `bytes` to `out`.
pub fn push_base64(out: &mut String, bytes: &[u8])
    ensures
        final(out)@ == old(out)@ + base64_text(bytes@),
{
    let ghost start = out@;
    let n = bytes.len();
    let mut i: usize = 0;
    proof {
        assert(bytes@.skip(0) =~= bytes@);
    }
    while n - i >= 3
        invariant
            i <= n,
            n == bytes@.len(),
            out@ + base64_text(bytes@.skip(i as int)) == start + base64_text(bytes@),
        decreases n - i,
    {
        let b0 = bytes[i];
        let b1 = bytes[i + 1];
        let b2 = bytes[i + 2];
        let ghost before = out@;
        let ghost rest = bytes@.skip(i as int);
        out.push(sextet(b0 / 4));
        out.push(sextet((b0 % 4) * 16 + b1 / 16));
        out.push(sextet((b1 % 16) * 4 + b2 / 64));
        out.push(sextet(b2 % 64));
        proof {
            assert(rest.skip(3) =~= bytes@.skip(i + 3));
            assert(out@ + base64_text(rest.skip(3)) =~= before + base64_text(rest));
        }
        i += 3;
    }
    let ghost before = out@;
    let ghost rest = bytes@.skip(i as int);
    if n - i == 1 {
        let b0 = bytes[i];
        out.push(sextet(b0 / 4));
        out.push(sextet((b0 % 4) * 16));
        out.push('=');
        out.push('=');
        proof {
            assert(out@ =~= before + base64_text(rest));
        }
    } else if n - i == 2 {
        let b0 = bytes[i];
        let b1 = bytes[i + 1];
        out.push(sextet(b0 / 4));
        out.push(sextet((b0 % 4) * 16 + b1 / 16));
        out.push(sextet((b1 % 16) * 4));
        out.push('=');
        proof {
            assert(out@ =~= before + base64_text(rest));
        }
    } else {
        proof {
            assert(out@ =~= before + base64_text(rest));
        }
    }
}

/// The Base64 encoding of `bytes`.
pub fn encode(bytes: &[u8]) -> (text: String)
    ensures
        text@ == base64_text(bytes@),
{
    let mut text = String::new();
    push_base64(&mut text, bytes);
    text
}

} // verus!
