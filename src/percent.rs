//! Percent-encoding of location paths.
//!
//! Decoding reads `%XY` (two hexadecimal digits) as the byte `0xXY` and reads
//! runs of such bytes as UTF-8: an escape, or a run of escapes, that encodes
//! one Unicode scalar value in shortest form becomes that character. Any `%`
//! that does not start such a run is kept as written, as is every other
//! character.
//!
//! Encoding writes `%`, `?`, `#` and every non-ASCII character as the escapes
//! of its UTF-8 bytes, in upper-case hexadecimal, and keeps the rest, so that
//! decoding gives back what was encoded.
use vstd::prelude::*;
use vstd::utf8::{char_is_scalar, char_u32_cast, is_scalar};
use crate::text::{char_from_u32, push_char};

verus! {

pub open spec fn is_hex_digit(c: char) -> bool {
    ('0' as u32 <= c as u32 && c as u32 <= '9' as u32)
    || ('a' as u32 <= c as u32 && c as u32 <= 'f' as u32)
    || ('A' as u32 <= c as u32 && c as u32 <= 'F' as u32)
}

pub open spec fn hex_value(c: char) -> int {
    if '0' as u32 <= c as u32 && c as u32 <= '9' as u32 {
        c as u32 - '0' as u32
    } else if 'a' as u32 <= c as u32 && c as u32 <= 'f' as u32 {
        c as u32 - 'a' as u32 + 10
    } else {
        c as u32 - 'A' as u32 + 10
    }
}

/// `s` holds an escape `%XY` at `i`.
pub open spec fn is_escape(s: Seq<char>, i: int) -> bool {
    &&& 0 <= i
    &&& i + 2 < s.len()
    &&& s[i] == '%'
    &&& is_hex_digit(s[i + 1])
    &&& is_hex_digit(s[i + 2])
}

/// The byte that the escape at `i` stands for.
pub open spec fn escaped_byte(s: Seq<char>, i: int) -> int {
    hex_value(s[i + 1]) * 16 + hex_value(s[i + 2])
}

/// `s` holds at `i` an escape of a UTF-8 continuation byte.
pub open spec fn is_continuation(s: Seq<char>, i: int) -> bool {
    is_escape(s, i) && 0x80 <= escaped_byte(s, i) < 0xC0
}

/// How many bytes a UTF-8 sequence that starts with byte `b` has; 0 where
/// `b` cannot start one.
pub open spec fn sequence_width(b: int) -> int {
    if b < 0x80 {
        1
    } else if 0xC0 <= b < 0xE0 {
        2
    } else if 0xE0 <= b < 0xF0 {
        3
    } else if 0xF0 <= b < 0xF8 {
        4
    } else {
        0
    }
}

/// The low six bits carried by the `k`-th escape of the run at `i`.
pub open spec fn payload(s: Seq<char>, i: int, k: int) -> int {
    escaped_byte(s, i + 3 * k) - 0x80
}

/// The code that the run of `w` escapes at `i` encodes.
pub open spec fn escaped_value(s: Seq<char>, i: int, w: int) -> int {
    let b = escaped_byte(s, i);
    if w == 1 {
        b
    } else if w == 2 {
        (b - 0xC0) * 64 + payload(s, i, 1)
    } else if w == 3 {
        (b - 0xE0) * 4096 + payload(s, i, 1) * 64 + payload(s, i, 2)
    } else {
        (b - 0xF0) * 262144 + payload(s, i, 1) * 4096 + payload(s, i, 2) * 64 + payload(s, i, 3)
    }
}

/// The smallest code that needs `w` bytes in UTF-8.
pub open spec fn min_code(w: int) -> int {
    if w == 2 {
        0x80
    } else if w == 3 {
        0x800
    } else if w == 4 {
        0x10000
    } else {
        0
    }
}

/// How many escapes at `i` encode one character in shortest-form UTF-8; 0
/// where none do.
pub open spec fn escape_width(s: Seq<char>, i: int) -> int {
    if is_escape(s, i) {
        let w = sequence_width(escaped_byte(s, i));
        if w >= 1 && (w < 2 || is_continuation(s, i + 3)) && (w < 3 || is_continuation(s, i + 6))
            && (w < 4 || is_continuation(s, i + 9)) && escaped_value(s, i, w) >= min_code(w)
            && escaped_value(s, i, w) <= 0x10FFFF && is_scalar(escaped_value(s, i, w) as u32) {
            w
        } else {
            0
        }
    } else {
        0
    }
}

/// The character that the run of escapes at `i` decodes to.
pub open spec fn escaped_char(s: Seq<char>, i: int) -> char {
    (escaped_value(s, i, escape_width(s, i)) as u32) as char
}

/// The characters of `s` from position `i` on, decoded.
pub open spec fn decoded_from(s: Seq<char>, i: int) -> Seq<char>
    decreases s.len() - i,
{
    if i < 0 || i >= s.len() {
        Seq::empty()
    } else if escape_width(s, i) > 0 {
        seq![escaped_char(s, i)] + decoded_from(s, i + 3 * escape_width(s, i))
    } else {
        seq![s[i]] + decoded_from(s, i + 1)
    }
}

/// The upper-case hexadecimal digit for `x` in `0..16`.
pub open spec fn hex_char(x: int) -> char {
    if x < 10 {
        (48 + x) as char
    } else {
        (55 + x) as char
    }
}

/// The escape of byte `b`.
pub open spec fn escape_byte(b: int) -> Seq<char> {
    seq!['%', hex_char(b / 16), hex_char(b % 16)]
}

pub open spec fn needs_escape(c: char) -> bool {
    c == '%' || c == '?' || c == '#' || c as u32 >= 0x80
}

/// How `c` is written in a location: as itself, or as the escapes of its
/// UTF-8 bytes.
pub open spec fn encode_char(c: char) -> Seq<char> {
    let v = c as u32 as int;
    if !needs_escape(c) {
        seq![c]
    } else if v < 0x80 {
        escape_byte(v)
    } else if v < 0x800 {
        escape_byte(0xC0 + v / 64) + escape_byte(0x80 + v % 64)
    } else if v < 0x10000 {
        escape_byte(0xE0 + v / 4096) + escape_byte(0x80 + (v / 64) % 64) + escape_byte(
            0x80 + v % 64,
        )
    } else {
        escape_byte(0xF0 + v / 262144) + escape_byte(0x80 + (v / 4096) % 64) + escape_byte(
            0x80 + (v / 64) % 64,
        ) + escape_byte(0x80 + v % 64)
    }
}

/// `s` as it is written in a location.
pub open spec fn percent_encoded(s: Seq<char>) -> Seq<char>
    decreases s.len(),
{
    if s.len() == 0 {
        Seq::empty()
    } else {
        encode_char(s[0]) + percent_encoded(s.skip(1))
    }
}

proof fn lemma_hex_char(x: int)
    requires
        0 <= x < 16,
    ensures
        is_hex_digit(hex_char(x)),
        hex_value(hex_char(x)) == x,
{
}

proof fn lemma_escape_at(e: Seq<char>, i: int, b: int)
    requires
        0 <= b < 256,
        0 <= i,
        i + 3 <= e.len(),
        e.subrange(i, i + 3) == escape_byte(b),
    ensures
        is_escape(e, i),
        escaped_byte(e, i) == b,
{
    assert(e[i] == e.subrange(i, i + 3)[0]);
    assert(e[i + 1] == e.subrange(i, i + 3)[1]);
    assert(e[i + 2] == e.subrange(i, i + 3)[2]);
    lemma_hex_char(b / 16);
    lemma_hex_char(b % 16);
}

proof fn lemma_sub_escape(e: Seq<char>, i: int, x: Seq<char>, k: int, b: int)
    requires
        0 <= i,
        0 <= k,
        3 * k + 3 <= x.len(),
        i + x.len() <= e.len(),
        e.subrange(i, i + x.len()) == x,
        x.subrange(3 * k, 3 * k + 3) == escape_byte(b),
        0 <= b < 256,
    ensures
        is_escape(e, i + 3 * k),
        escaped_byte(e, i + 3 * k) == b,
{
    assert(e.subrange(i + 3 * k, i + 3 * k + 3) =~= x.subrange(3 * k, 3 * k + 3));
    lemma_escape_at(e, i + 3 * k, b);
}

proof fn lemma_width_2(e: Seq<char>, i: int, c: char)
    requires
        0 <= i,
        i + encode_char(c).len() <= e.len(),
        e.subrange(i, i + encode_char(c).len()) == encode_char(c),
        0x80 <= (c as u32) < 0x800,
    ensures
        escape_width(e, i) == 2,
        escaped_char(e, i) == c,
{
    broadcast use char_u32_cast;
    let v = c as u32 as int;
    let x = encode_char(c);
    assert(x.subrange(0, 3) =~= escape_byte(0xC0 + v / 64));
    assert(x.subrange(3, 6) =~= escape_byte(0x80 + v % 64));
    lemma_sub_escape(e, i, x, 0, 0xC0 + v / 64);
    lemma_sub_escape(e, i, x, 1, 0x80 + v % 64);
    assert(escaped_value(e, i, 2) == v);
}

proof fn lemma_width_3(e: Seq<char>, i: int, c: char)
    requires
        0 <= i,
        i + encode_char(c).len() <= e.len(),
        e.subrange(i, i + encode_char(c).len()) == encode_char(c),
        0x800 <= (c as u32) < 0x10000,
    ensures
        escape_width(e, i) == 3,
        escaped_char(e, i) == c,
{
    broadcast use char_is_scalar, char_u32_cast;
    let v = c as u32 as int;
    let x = encode_char(c);
    assert(x.subrange(0, 3) =~= escape_byte(0xE0 + v / 4096));
    assert(x.subrange(3, 6) =~= escape_byte(0x80 + (v / 64) % 64));
    assert(x.subrange(6, 9) =~= escape_byte(0x80 + v % 64));
    lemma_sub_escape(e, i, x, 0, 0xE0 + v / 4096);
    lemma_sub_escape(e, i, x, 1, 0x80 + (v / 64) % 64);
    lemma_sub_escape(e, i, x, 2, 0x80 + v % 64);
    assert((v / 4096) * 4096 + ((v / 64) % 64) * 64 + v % 64 == v) by (nonlinear_arith)
        requires
            0 <= v,
    ;
    assert(escaped_value(e, i, 3) == v);
    assert(is_scalar(c as u32));
}

proof fn lemma_width_4(e: Seq<char>, i: int, c: char)
    requires
        0 <= i,
        i + encode_char(c).len() <= e.len(),
        e.subrange(i, i + encode_char(c).len()) == encode_char(c),
        0x10000 <= c as u32,
    ensures
        escape_width(e, i) == 4,
        escaped_char(e, i) == c,
{
    broadcast use char_is_scalar, char_u32_cast;
    let v = c as u32 as int;
    let x = encode_char(c);
    assert(is_scalar(c as u32));
    assert(x.subrange(0, 3) =~= escape_byte(0xF0 + v / 262144));
    assert(x.subrange(3, 6) =~= escape_byte(0x80 + (v / 4096) % 64));
    assert(x.subrange(6, 9) =~= escape_byte(0x80 + (v / 64) % 64));
    assert(x.subrange(9, 12) =~= escape_byte(0x80 + v % 64));
    lemma_sub_escape(e, i, x, 0, 0xF0 + v / 262144);
    lemma_sub_escape(e, i, x, 1, 0x80 + (v / 4096) % 64);
    lemma_sub_escape(e, i, x, 2, 0x80 + (v / 64) % 64);
    lemma_sub_escape(e, i, x, 3, 0x80 + v % 64);
    assert((v / 262144) * 262144 + ((v / 4096) % 64) * 4096 + ((v / 64) % 64) * 64 + v % 64
        == v) by (nonlinear_arith)
        requires
            0 <= v,
    ;
    assert(escaped_value(e, i, 4) == v);
}

proof fn lemma_read_char(e: Seq<char>, i: int, c: char)
    requires
        0 <= i,
        i + encode_char(c).len() <= e.len(),
        e.subrange(i, i + encode_char(c).len()) == encode_char(c),
    ensures
        escape_width(e, i) > 0 ==> 3 * escape_width(e, i) == encode_char(c).len()
            && escaped_char(e, i) == c,
        escape_width(e, i) == 0 ==> encode_char(c).len() == 1 && e[i] == c,
{
    broadcast use char_u32_cast;
    let x = encode_char(c);
    let v = c as u32 as int;
    if !needs_escape(c) {
        assert(e[i] == e.subrange(i, i + x.len())[0]);
        assert(!is_escape(e, i));
    } else if v < 0x80 {
        assert(x.subrange(0, 3) =~= escape_byte(v));
        lemma_sub_escape(e, i, x, 0, v);
        assert(escaped_value(e, i, 1) == v);
        assert(escape_width(e, i) == 1);
    } else if v < 0x800 {
        lemma_width_2(e, i, c);
    } else if v < 0x10000 {
        lemma_width_3(e, i, c);
    } else {
        lemma_width_4(e, i, c);
    }
}

/// Where `c` is written after `p`, decoding at that position reads `c` back
/// and goes on after what `c` was written as.
proof fn lemma_decode_char(p: Seq<char>, c: char, t: Seq<char>)
    ensures
        decoded_from(p + encode_char(c) + t, p.len() as int) == seq![c] + decoded_from(
            p + encode_char(c) + t,
            (p.len() + encode_char(c).len()) as int,
        ),
{
    let x = encode_char(c);
    let e = p + x + t;
    let i = p.len() as int;
    assert(e.subrange(i, i + x.len()) =~= x);
    assert(x.len() >= 1);
    lemma_read_char(e, i, c);
}

/// Decoding what encoding wrote after any prefix `p` gives `s` back.
pub proof fn lemma_decode_encoded(p: Seq<char>, s: Seq<char>)
    ensures
        decoded_from(p + percent_encoded(s), p.len() as int) == s,
    decreases s.len(),
{
    if s.len() == 0 {
        assert(decoded_from(p + percent_encoded(s), p.len() as int) =~= Seq::<char>::empty());
    } else {
        let x = encode_char(s[0]);
        let rest = percent_encoded(s.skip(1));
        assert(p + percent_encoded(s) =~= p + x + rest);
        lemma_decode_char(p, s[0], rest);
        lemma_decode_encoded(p + x, s.skip(1));
        assert(p + x + rest =~= (p + x) + rest);
        assert(s =~= seq![s[0]] + s.skip(1));
    }
}

/// The value of a hexadecimal digit, or `None` for any other character.
pub fn hex_digit(c: char) -> (r: Option<u32>)
    ensures
        r == (if is_hex_digit(c) { Some(hex_value(c) as u32) } else { None::<u32> }),
{
    let v = c as u32;
    if '0' as u32 <= v && v <= '9' as u32 {
        Some(v - '0' as u32)
    } else if 'a' as u32 <= v && v <= 'f' as u32 {
        Some(v - 'a' as u32 + 10)
    } else if 'A' as u32 <= v && v <= 'F' as u32 {
        Some(v - 'A' as u32 + 10)
    } else {
        None
    }
}

/// The byte of the escape at `i` in `s`, if one stands there.
fn escape_byte_at(s: &str, n: usize, i: usize) -> (r: Option<u32>)
    requires
        n == s@.len(),
        i <= n,
    ensures
        r == (if is_escape(s@, i as int) { Some(escaped_byte(s@, i as int) as u32) } else { None::<u32> }),
{
    if n - i > 2 && s.get_char(i) == '%' {
        match (hex_digit(s.get_char(i + 1)), hex_digit(s.get_char(i + 2))) {
            (Some(h), Some(l)) => Some(h * 16 + l),
            _ => None,
        }
    } else {
        None
    }
}

/// The low six bits of the continuation byte escaped at `i`, if one is.
fn continuation_at(s: &str, n: usize, i: usize) -> (r: Option<u32>)
    requires
        n == s@.len(),
        i <= n,
    ensures
        r == (if is_continuation(s@, i as int) { Some((escaped_byte(s@, i as int) - 0x80) as u32) } else { None::<u32> }),
{
    match escape_byte_at(s, n, i) {
        Some(b) => if 0x80 <= b && b < 0xC0 {
            Some(b - 0x80)
        } else {
            None
        },
        None => None,
    }
}

/// The number of escapes at `i` that encode one character, with that
/// character, if they do.
fn escaped_char_at(s: &str, n: usize, i: usize) -> (r: Option<(usize, char)>)
    requires
        n == s@.len(),
        i <= n,
    ensures
        r == (if escape_width(s@, i as int) > 0 {
            Some((escape_width(s@, i as int) as usize, escaped_char(s@, i as int)))
        } else {
            None::<(usize, char)>
        }),
{
    let b = match escape_byte_at(s, n, i) {
        Some(b) => b,
        None => return None,
    };
    let (w, v): (usize, u32) = if b < 0x80 {
        (1, b)
    } else if 0xC0 <= b && b < 0xE0 {
        let c1 = match continuation_at(s, n, i + 3) {
            Some(c) => c,
            None => return None,
        };
        (2, (b - 0xC0) * 64 + c1)
    } else if 0xE0 <= b && b < 0xF0 {
        let c1 = match continuation_at(s, n, i + 3) {
            Some(c) => c,
            None => return None,
        };
        let c2 = match continuation_at(s, n, i + 6) {
            Some(c) => c,
            None => return None,
        };
        (3, (b - 0xE0) * 4096 + c1 * 64 + c2)
    } else if 0xF0 <= b && b < 0xF8 {
        let c1 = match continuation_at(s, n, i + 3) {
            Some(c) => c,
            None => return None,
        };
        let c2 = match continuation_at(s, n, i + 6) {
            Some(c) => c,
            None => return None,
        };
        let c3 = match continuation_at(s, n, i + 9) {
            Some(c) => c,
            None => return None,
        };
        (4, (b - 0xF0) * 262144 + c1 * 4096 + c2 * 64 + c3)
    } else {
        return None;
    };
    assert(v as int == escaped_value(s@, i as int, w as int));
    let min: u32 = if w == 2 {
        0x80
    } else if w == 3 {
        0x800
    } else if w == 4 {
        0x10000
    } else {
        0
    };
    if v < min || v > 0x10FFFF {
        return None;
    }
    match char_from_u32(v) {
        Some(c) => Some((w, c)),
        None => None,
    }
}

/// Decodes the characters of `s` from position `start` on.
pub fn decode_from(s: &str, start: usize) -> (r: String)
    requires
        start <= s@.len(),
    ensures
        r@ == decoded_from(s@, start as int),
{
    let n = s.unicode_len();
    let mut out = String::new();
    let mut i: usize = start;
    while i < n
        invariant
            n == s@.len(),
            start <= i <= n,
            out@ + decoded_from(s@, i as int) == decoded_from(s@, start as int),
        decreases n - i,
    {
        let ghost before = out@;
        match escaped_char_at(s, n, i) {
            Some((w, c)) => {
                push_char(&mut out, c);
                assert(before + (seq![c] + decoded_from(s@, i + 3 * w)) =~= before.push(c)
                    + decoded_from(s@, i + 3 * w));
                i = i + 3 * w;
            },
            None => {
                let c = s.get_char(i);
                push_char(&mut out, c);
                assert(before + (seq![c] + decoded_from(s@, i + 1)) =~= before.push(c)
                    + decoded_from(s@, i + 1));
                i = i + 1;
            },
        }
    }
    assert(out@ + Seq::<char>::empty() =~= out@);
    out
}

/// The upper-case hexadecimal digit for `x`.
fn hex_digit_char(x: u32) -> (r: char)
    requires
        x < 16,
    ensures
        r == hex_char(x as int),
{
    if x < 10 {
        (48 + x as u8) as char
    } else {
        (55 + x as u8) as char
    }
}

/// Appends the escape of byte `b`.
fn push_escape(out: &mut String, b: u32)
    requires
        b < 256,
    ensures
        final(out)@ == old(out)@ + escape_byte(b as int),
{
    push_char(out, '%');
    push_char(out, hex_digit_char(b / 16));
    push_char(out, hex_digit_char(b % 16));
    assert(final(out)@ =~= old(out)@ + escape_byte(b as int));
}

/// Appends how `c` is written in a location.
fn push_encoded(out: &mut String, c: char)
    ensures
        final(out)@ == old(out)@ + encode_char(c),
{
    let v = c as u32;
    proof {
        vstd::utf8::char_is_scalar(c);
    }
    if !(c == '%' || c == '?' || c == '#' || v >= 0x80) {
        push_char(out, c);
        assert(final(out)@ =~= old(out)@ + encode_char(c));
    } else if v < 0x80 {
        push_escape(out, v);
    } else if v < 0x800 {
        push_escape(out, 0xC0 + v / 64);
        push_escape(out, 0x80 + v % 64);
        assert(final(out)@ =~= old(out)@ + encode_char(c));
    } else if v < 0x10000 {
        push_escape(out, 0xE0 + v / 4096);
        push_escape(out, 0x80 + (v / 64) % 64);
        push_escape(out, 0x80 + v % 64);
        assert(final(out)@ =~= old(out)@ + encode_char(c));
    } else {
        push_escape(out, 0xF0 + v / 262144);
        push_escape(out, 0x80 + (v / 4096) % 64);
        push_escape(out, 0x80 + (v / 64) % 64);
        push_escape(out, 0x80 + v % 64);
        assert(final(out)@ =~= old(out)@ + encode_char(c));
    }
}

/// Appends `s` as it is written in a location.
pub fn push_percent_encoded(out: &mut String, s: &str)
    ensures
        final(out)@ == old(out)@ + percent_encoded(s@),
{
    let n = s.unicode_len();
    let mut i: usize = 0;
    assert(s@.skip(0) =~= s@);
    while i < n
        invariant
            n == s@.len(),
            i <= n,
            out@ + percent_encoded(s@.skip(i as int)) == old(out)@ + percent_encoded(s@),
        decreases n - i,
    {
        let ghost before = out@;
        let ghost rest = s@.skip(i as int);
        assert(rest.skip(1) =~= s@.skip(i + 1));
        let c = s.get_char(i);
        push_encoded(out, c);
        assert(before + (encode_char(c) + percent_encoded(rest.skip(1))) =~= (before + encode_char(c))
            + percent_encoded(rest.skip(1)));
        i = i + 1;
    }
    assert(s@.skip(n as int) =~= Seq::<char>::empty());
    assert(out@ + Seq::<char>::empty() =~= out@);
}

} // verus!
