//! Percent-encoding of query parameter values.

use vstd::prelude::*;
use vstd::utf8::{decode_utf8, encode_scalar, encode_utf8, encode_utf8_decode_utf8};
use crate::text::push_char;

verus! {

/// Characters that pass through unencoded: ASCII letters, digits and `-_.~`.
pub open spec fn is_unreserved(c: char) -> bool {
    ||| ('A' as u32) <= (c as u32) <= ('Z' as u32)
    ||| ('a' as u32) <= (c as u32) <= ('z' as u32)
    ||| ('0' as u32) <= (c as u32) <= ('9' as u32)
    ||| c == '-'
    ||| c == '_'
    ||| c == '.'
    ||| c == '~'
}

/// The uppercase hexadecimal digit of a value below 16.
pub open spec fn hex_digit(n: u8) -> char
    recommends
        n < 16,
{
    if n < 10 {
        (('0' as u8) + n) as char
    } else {
        (('A' as u8) + n - 10) as char
    }
}

/// `%` followed by the two uppercase hexadecimal digits of a byte.
pub open spec fn percent_byte(b: u8) -> Seq<char> {
    seq!['%', hex_digit(b / 16), hex_digit(b % 16)]
}

/// The percent-encoding of each byte, in order.
pub open spec fn percent_bytes(bs: Seq<u8>) -> Seq<char>
    decreases bs.len(),
{
    if bs.len() == 0 {
        Seq::empty()
    } else {
        percent_bytes(bs.drop_last()) + percent_byte(bs.last())
    }
}

/// The encoding of one character: itself when unreserved, else its UTF-8
/// bytes, each percent-encoded.
pub open spec fn encode_char(c: char) -> Seq<char> {
    if is_unreserved(c) {
        seq![c]
    } else {
        percent_bytes(encode_scalar(c as u32))
    }
}

/// The encoding of a string: the encodings of its characters, in order.
pub open spec fn encode_spec(s: Seq<char>) -> Seq<char>
    decreases s.len(),
{
    if s.len() == 0 {
        Seq::empty()
    } else {
        encode_spec(s.drop_last()) + encode_char(s.last())
    }
}

/// A string of unreserved characters encodes to itself.
pub proof fn lemma_encode_unreserved_identity(s: Seq<char>)
    requires
        forall|i: int| 0 <= i < s.len() ==> is_unreserved(#[trigger] s[i]),
    ensures
        encode_spec(s) == s,
    decreases s.len(),
{
    if s.len() > 0 {
        let init = s.drop_last();
        assert forall|i: int| 0 <= i < init.len() implies is_unreserved(#[trigger] init[i]) by {
            assert(init[i] == s[i]);
        }
        lemma_encode_unreserved_identity(init);
        assert(is_unreserved(s[s.len() - 1]));
        assert(init.push(s.last()) =~= s);
    }
}

/// Percent-encoded bytes hold only `%` and uppercase hexadecimal digits.
pub proof fn lemma_percent_bytes_chars(bs: Seq<u8>)
    ensures
        forall|i: int|
            0 <= i < percent_bytes(bs).len() ==> {
                let c = #[trigger] percent_bytes(bs)[i];
                c == '%' || ('0' as u32) <= (c as u32) <= ('9' as u32) || ('A' as u32) <= (c as u32) <= ('F' as u32)
            },
    decreases bs.len(),
{
    if bs.len() > 0 {
        lemma_percent_bytes_chars(bs.drop_last());
        let b = bs.last();
        assert(b / 16 < 16 && b % 16 < 16);
        let p = percent_byte(b);
        let rest = percent_bytes(bs.drop_last());
        assert forall|i: int| 0 <= i < percent_bytes(bs).len() implies {
            let c = #[trigger] percent_bytes(bs)[i];
            c == '%' || ('0' as u32) <= (c as u32) <= ('9' as u32) || ('A' as u32) <= (c as u32) <= ('F' as u32)
        } by {
            if i >= rest.len() {
                assert(percent_bytes(bs)[i] == p[i - rest.len()]);
            } else {
                assert(percent_bytes(bs)[i] == rest[i]);
            }
        }
    }
}

/// An encoded string holds only unreserved characters, `%` and uppercase
/// hexadecimal digits: nothing that a query string would read specially.
pub proof fn lemma_encode_output_safe(s: Seq<char>)
    ensures
        forall|i: int|
            0 <= i < encode_spec(s).len() ==> {
                let c = #[trigger] encode_spec(s)[i];
                is_unreserved(c) || c == '%'
            },
    decreases s.len(),
{
    if s.len() > 0 {
        lemma_encode_output_safe(s.drop_last());
        let c = s.last();
        let rest = encode_spec(s.drop_last());
        let e = encode_char(c);
        if !is_unreserved(c) {
            lemma_percent_bytes_chars(encode_scalar(c as u32));
        }
        assert forall|i: int| 0 <= i < encode_spec(s).len() implies {
            let d = #[trigger] encode_spec(s)[i];
            is_unreserved(d) || d == '%'
        } by {
            if i >= rest.len() {
                assert(encode_spec(s)[i] == e[i - rest.len()]);
            } else {
                assert(encode_spec(s)[i] == rest[i]);
            }
        }
    }
}

/// The value of an uppercase hexadecimal digit.
pub open spec fn hex_value(c: char) -> int {
    let v = c as u32;
    if 48 <= v <= 57 {
        v - 48
    } else if 65 <= v <= 70 {
        v - 55
    } else {
        0
    }
}

/// Percent-decoding: each `%XY` gives the byte 0xXY, every other character
/// gives its own code as a byte.
pub open spec fn percent_decode(t: Seq<char>) -> Seq<u8>
    decreases t.len(),
{
    if t.len() == 0 {
        Seq::empty()
    } else if t[0] == '%' && t.len() >= 3 {
        seq![(hex_value(t[1]) * 16 + hex_value(t[2])) as u8] + percent_decode(
            t.subrange(3, t.len() as int),
        )
    } else {
        seq![(t[0] as u32) as u8] + percent_decode(t.drop_first())
    }
}

proof fn lemma_encode_spec_cons(c: char, s: Seq<char>)
    ensures
        encode_spec(seq![c] + s) == encode_char(c) + encode_spec(s),
    decreases s.len(),
{
    if s.len() == 0 {
        assert(seq![c] + s =~= seq![c]);
        assert(seq![c].drop_last() =~= Seq::<char>::empty());
        assert(encode_spec(seq![c]) == encode_spec(seq![c].drop_last()) + encode_char(c));
        assert(Seq::<char>::empty() + encode_char(c) =~= encode_char(c));
        assert(encode_char(c) + encode_spec(s) =~= encode_char(c));
    } else {
        let t = seq![c] + s;
        assert(t.drop_last() =~= seq![c] + s.drop_last());
        assert(t.last() == s.last());
        lemma_encode_spec_cons(c, s.drop_last());
        assert(encode_spec(t) == encode_spec(t.drop_last()) + encode_char(t.last()));
        assert(encode_spec(s) == encode_spec(s.drop_last()) + encode_char(s.last()));
        assert(encode_char(c) + encode_spec(s.drop_last()) + encode_char(s.last()) =~= encode_char(c)
            + (encode_spec(s.drop_last()) + encode_char(s.last())));
    }
}

proof fn lemma_percent_bytes_cons(b: u8, bs: Seq<u8>)
    ensures
        percent_bytes(seq![b] + bs) == percent_byte(b) + percent_bytes(bs),
    decreases bs.len(),
{
    if bs.len() == 0 {
        assert(seq![b] + bs =~= seq![b]);
        assert(seq![b].drop_last() =~= Seq::<u8>::empty());
        assert(percent_bytes(seq![b]) == percent_bytes(seq![b].drop_last()) + percent_byte(b));
        assert(Seq::<char>::empty() + percent_byte(b) =~= percent_byte(b));
        assert(percent_byte(b) + percent_bytes(bs) =~= percent_byte(b));
    } else {
        let t = seq![b] + bs;
        assert(t.drop_last() =~= seq![b] + bs.drop_last());
        assert(t.last() == bs.last());
        lemma_percent_bytes_cons(b, bs.drop_last());
        assert(percent_bytes(t) == percent_bytes(t.drop_last()) + percent_byte(t.last()));
        assert(percent_bytes(bs) == percent_bytes(bs.drop_last()) + percent_byte(bs.last()));
        assert(percent_byte(b) + percent_bytes(bs.drop_last()) + percent_byte(bs.last()) =~= percent_byte(b)
            + (percent_bytes(bs.drop_last()) + percent_byte(bs.last())));
    }
}

proof fn lemma_hex_roundtrip(n: u8)
    requires
        n < 16,
    ensures
        hex_value(hex_digit(n)) == n,
{
}

proof fn lemma_decode_percent(bs: Seq<u8>, rest: Seq<char>)
    ensures
        percent_decode(percent_bytes(bs) + rest) == bs + percent_decode(rest),
    decreases bs.len(),
{
    if bs.len() == 0 {
        assert(percent_bytes(bs) + rest =~= rest);
        assert(bs + percent_decode(rest) =~= percent_decode(rest));
    } else {
        let b = bs[0];
        let tail = bs.drop_first();
        assert(bs =~= seq![b] + tail);
        lemma_percent_bytes_cons(b, tail);
        lemma_decode_percent(tail, rest);
        let t = percent_byte(b) + (percent_bytes(tail) + rest);
        assert(percent_bytes(bs) + rest =~= t);
        lemma_hex_roundtrip(b / 16);
        lemma_hex_roundtrip(b % 16);
        assert(t[0] == '%');
        assert(t[1] == hex_digit(b / 16));
        assert(t[2] == hex_digit(b % 16));
        assert(t.subrange(3, t.len() as int) =~= percent_bytes(tail) + rest);
        assert((hex_value(t[1]) * 16 + hex_value(t[2])) as u8 == b);
        assert(seq![b] + (tail + percent_decode(rest)) =~= bs + percent_decode(rest));
    }
}

/// Percent-decoding an encoded string gives the string's UTF-8 bytes.
pub proof fn lemma_decode_encode(s: Seq<char>)
    ensures
        percent_decode(encode_spec(s)) == encode_utf8(s),
    decreases s.len(),
{
    if s.len() > 0 {
        let c = s[0];
        let rest = s.drop_first();
        assert(s =~= seq![c] + rest);
        lemma_encode_spec_cons(c, rest);
        lemma_decode_encode(rest);
        if is_unreserved(c) {
            let v = c as u32;
            assert(v < 128);
            assert(v < 128 ==> (v & 0x7F) as u8 == v as u8) by (bit_vector);
            assert(encode_scalar(v) == seq![(v & 0x7F) as u8]);
            let t = seq![c] + encode_spec(rest);
            assert(t[0] == c && c != '%');
            assert(t.drop_first() =~= encode_spec(rest));
            assert(encode_utf8(s) == encode_scalar(v) + encode_utf8(rest));
            assert(seq![(c as u32) as u8] + encode_utf8(rest) =~= encode_scalar(v) + encode_utf8(rest));
        } else {
            lemma_decode_percent(encode_scalar(c as u32), encode_spec(rest));
            assert(encode_utf8(s) == encode_scalar(c as u32) + encode_utf8(rest));
        }
    }
}

/// Distinct strings encode differently: `encode` loses nothing.
pub proof fn lemma_encode_injective(a: Seq<char>, b: Seq<char>)
    requires
        encode_spec(a) == encode_spec(b),
    ensures
        a == b,
{
    lemma_decode_encode(a);
    lemma_decode_encode(b);
    encode_utf8_decode_utf8(a);
    encode_utf8_decode_utf8(b);
}

fn hex_char(n: u8) -> (c: char)
    requires
        n < 16,
    ensures
        c == hex_digit(n),
{
    if n < 10 {
        (48u8 + n) as char
    } else {
        (55u8 + n) as char
    }
}

fn push_percent_byte(out: &mut String, b: u8)
    ensures
        final(out)@ == old(out)@ + percent_byte(b),
{
    push_char(out, '%');
    push_char(out, hex_char(b / 16));
    push_char(out, hex_char(b % 16));
    assert(final(out)@ =~= old(out)@ + percent_byte(b));
}

/// The UTF-8 encoding of one character.
fn utf8_bytes(c: char) -> (bs: Vec<u8>)
    ensures
        bs@ == encode_scalar(c as u32),
{
    let v = c as u32;
    let mut bs: Vec<u8> = Vec::new();
    if v <= 0x7F {
        bs.push((v & 0x7F) as u8);
    } else if v <= 0x7FF {
        bs.push(0xC0 | ((v >> 6) & 0x1F) as u8);
        bs.push(0x80 | (v & 0x3F) as u8);
    } else if v <= 0xFFFF {
        bs.push(0xE0 | ((v >> 12) & 0x0F) as u8);
        bs.push(0x80 | ((v >> 6) & 0x3F) as u8);
        bs.push(0x80 | (v & 0x3F) as u8);
    } else {
        bs.push(0xF0 | ((v >> 18) & 0x7) as u8);
        bs.push(0x80 | ((v >> 12) & 0x3F) as u8);
        bs.push(0x80 | ((v >> 6) & 0x3F) as u8);
        bs.push(0x80 | (v & 0x3F) as u8);
    }
    assert(bs@ =~= encode_scalar(v));
    bs
}

/// Percent-encode `s`: unreserved characters pass through, every other
/// character becomes `%XX` for each byte of its UTF-8 encoding.
pub fn encode(s: &str) -> (r: String)
    ensures
        r@ == encode_spec(s@),
{
    let cs = crate::text::chars_of(s);
    let mut out = String::new();
    let mut i: usize = 0;
    assert(s@.take(0) =~= Seq::<char>::empty());
    while i < cs.len()
        invariant
            cs@ == s@,
            i <= cs.len(),
            out@ == encode_spec(s@.take(i as int)),
        decreases cs.len() - i,
    {
        let c = cs[i];
        let ghost before = out@;
        assert(s@.take(i + 1).drop_last() =~= s@.take(i as int));
        let v = c as u32;
        if (65 <= v && v <= 90) || (97 <= v && v <= 122) || (48 <= v && v <= 57) || c == '-'
            || c == '_' || c == '.' || c == '~' {
            assert(is_unreserved(c));
            push_char(&mut out, c);
        } else {
            assert(!is_unreserved(c));
            let bs = utf8_bytes(c);
            let mut j: usize = 0;
            assert(bs@.take(0) =~= Seq::<u8>::empty());
            while j < bs.len()
                invariant
                    j <= bs.len(),
                    out@ == before + percent_bytes(bs@.take(j as int)),
                decreases bs.len() - j,
            {
                assert(bs@.take(j + 1).drop_last() =~= bs@.take(j as int));
                push_percent_byte(&mut out, bs[j]);
                assert(out@ =~= before + percent_bytes(bs@.take(j + 1)));
                j = j + 1;
            }
            assert(bs@.take(bs.len() as int) =~= bs@);
        }
        assert(encode_spec(s@.take(i + 1)) == encode_spec(s@.take(i as int)) + encode_char(c));
        assert(out@ =~= encode_spec(s@.take(i + 1)));
        i = i + 1;
    }
    assert(s@.take(cs.len() as int) =~= s@);
    out
}

} // verus!
