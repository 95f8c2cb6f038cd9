//! Tokens of the configuration and control-protocol codec: booleans,
//! bounded numbers, quoted characters, and the fixed name sets.
//!
//! Every parser skips insignificant whitespace first, so the accepted form
//! is the serializer's output with optional whitespace between tokens. The
//! `lemma_sp_*_ser` lemmas state that parsing a serialized value yields the
//! value back.
use vstd::prelude::*;

use crate::json::{
    is_digit, is_ws, lemma_lit_mismatch, lemma_ser_nat_digits, lemma_sp_int_ser, lemma_sp_lit_ser,
    lemma_sp_nat_ser, lemma_sp_ws_noop, lemma_subrange_split, lit, p_int, p_lit, p_nat, ser_int,
    ser_nat, skip_ws, sp_int, sp_lit, sp_nat, sp_ws,
};
use crate::keys::{Key, MouseButton};
use crate::mapper::MATRIX_LIMIT;

verus! {

/// A token parse: the literal matched after optional whitespace.
pub open spec fn sp_tok(s: Seq<u8>, i: int, l: Seq<u8>) -> Option<int> {
    sp_lit(s, sp_ws(s, i), l)
}

/// Agreement between an executable parse result and its mirror; positions
/// stay within the input length `n`.
pub open spec fn val_match<T>(r: Option<(T, usize)>, sp: Option<(T, int)>, n: int) -> bool {
    match (r, sp) {
        (Some((v, j)), Some((sv, sj))) => v == sv && j as int == sj && j as int <= n,
        (None, None) => true,
        _ => false,
    }
}

/// Match a token after optional whitespace.
pub fn p_tok(s: &[u8], i: usize, l: &str) -> (r: Option<usize>)
    requires
        i <= s@.len(),
    ensures
        crate::json::pos_match(r, sp_tok(s@, i as int, lit(l))),
        r is Some ==> i <= r->0 <= s@.len(),
{
    let j: usize = skip_ws(s, i);
    p_lit(s, j, l)
}

/// Serialized form of a boolean.
pub open spec fn ser_bool(b: bool) -> Seq<u8> {
    if b {
        lit("true")
    } else {
        lit("false")
    }
}

/// Parse of a boolean.
pub open spec fn sp_bool(s: Seq<u8>, i: int) -> Option<(bool, int)> {
    match sp_tok(s, i, lit("true")) {
        Some(j) => Some((true, j)),
        None => match sp_tok(s, i, lit("false")) {
            Some(j) => Some((false, j)),
            None => None,
        },
    }
}

/// Parse a boolean.
pub fn p_bool(s: &[u8], i: usize) -> (r: Option<(bool, usize)>)
    requires
        i <= s@.len(),
    ensures
        val_match(r, sp_bool(s@, i as int), s@.len() as int),
{
    let j: usize = skip_ws(s, i);
    match p_lit(s, j, "true") {
        Some(e) => Some((true, e)),
        None => match p_lit(s, j, "false") {
            Some(e) => Some((false, e)),
            None => None,
        },
    }
}

/// Parsing a serialized boolean yields it back.
pub proof fn lemma_sp_bool_ser(s: Seq<u8>, i: int, b: bool)
    requires
        0 <= i,
        i + ser_bool(b).len() <= s.len(),
        s.subrange(i, i + ser_bool(b).len() as int) == ser_bool(b),
    ensures
        sp_bool(s, i) == Some((b, i + ser_bool(b).len() as int)),
{
    crate::lits::lits_words();
    let w: Seq<u8> = ser_bool(b);
    assert(s.subrange(i, i + w.len() as int)[0] == s[i]);
    assert(!is_ws(s[i]));
    lemma_sp_ws_noop(s, i);
    if !b {
        lemma_lit_mismatch(s, i, lit("true"), w, 0);
    }
    lemma_sp_lit_ser(s, i, w);
}

/// Parse of a 16-bit number.
pub open spec fn sp_u16(s: Seq<u8>, i: int) -> Option<(u16, int)> {
    match sp_nat(s, sp_ws(s, i)) {
        Some((v, j)) => if v <= 65535 {
            Some((v as u16, j))
        } else {
            None
        },
        None => None,
    }
}

/// Parse a 16-bit number.
pub fn p_u16(s: &[u8], i: usize) -> (r: Option<(u16, usize)>)
    requires
        i <= s@.len(),
    ensures
        val_match(r, sp_u16(s@, i as int), s@.len() as int),
{
    let j: usize = skip_ws(s, i);
    match p_nat(s, j, 65535) {
        Some((v, e)) => Some((v as u16, e)),
        None => None,
    }
}

/// Parsing a serialized 16-bit number yields it back, provided no digit
/// follows its window.
pub proof fn lemma_sp_u16_ser(s: Seq<u8>, i: int, n: u16)
    requires
        0 <= i,
        i + ser_nat(n as int).len() <= s.len(),
        s.subrange(i, i + ser_nat(n as int).len() as int) == ser_nat(n as int),
        i + ser_nat(n as int).len() == s.len() || !is_digit(s[i + ser_nat(n as int).len()]),
    ensures
        sp_u16(s, i) == Some((n, i + ser_nat(n as int).len() as int)),
{
    let w: Seq<u8> = ser_nat(n as int);
    lemma_ser_nat_digits(n as int);
    assert(s.subrange(i, i + w.len() as int)[0] == s[i]);
    assert(is_digit(s[i]) && !is_ws(s[i]));
    lemma_sp_ws_noop(s, i);
    lemma_sp_nat_ser(s, i, n as int);
}

/// Parse of a fixed-point matrix entry, bounded by `MATRIX_LIMIT`.
pub open spec fn sp_fixed(s: Seq<u8>, i: int) -> Option<(i64, int)> {
    match sp_int(s, sp_ws(s, i)) {
        Some((v, j)) => if -MATRIX_LIMIT <= v <= MATRIX_LIMIT {
            Some((v as i64, j))
        } else {
            None
        },
        None => None,
    }
}

/// Parse a fixed-point matrix entry.
pub fn p_fixed(s: &[u8], i: usize) -> (r: Option<(i64, usize)>)
    requires
        i <= s@.len(),
    ensures
        val_match(r, sp_fixed(s@, i as int), s@.len() as int),
{
    let j: usize = skip_ws(s, i);
    match p_int(s, j, 16777216, 16777216) {
        Some((v, e)) => Some((v, e)),
        None => None,
    }
}

/// Parsing a serialized matrix entry yields it back, provided no digit
/// follows its window.
pub proof fn lemma_sp_fixed_ser(s: Seq<u8>, i: int, n: i64)
    requires
        -MATRIX_LIMIT <= n <= MATRIX_LIMIT,
        0 <= i,
        i + ser_int(n as int).len() <= s.len(),
        s.subrange(i, i + ser_int(n as int).len() as int) == ser_int(n as int),
        i + ser_int(n as int).len() == s.len() || !is_digit(s[i + ser_int(n as int).len()]),
    ensures
        sp_fixed(s, i) == Some((n, i + ser_int(n as int).len() as int)),
{
    let w: Seq<u8> = ser_int(n as int);
    assert(s.subrange(i, i + w.len() as int)[0] == s[i]);
    if n as int >= 0 {
        lemma_ser_nat_digits(n as int);
        assert(w[0] == ser_nat(n as int)[0]);
        assert(is_digit(s[i]));
    } else {
        assert(w == seq![45u8] + ser_nat(-(n as int)));
        assert(w[0] == 45u8);
    }
    assert(!is_ws(s[i]));
    lemma_sp_ws_noop(s, i);
    lemma_sp_int_ser(s, i, n as int);
}

/// Relies on `char::from_u32` of std: it returns the character of a
/// valid Unicode scalar value, and nothing for a surrogate or a value
/// above the Unicode range.
pub assume_specification[ char::from_u32 ](v: u32) -> (r: Option<char>)
    ensures
        r matches Some(c) ==> c as u32 == v,
        (r is Some) == (v < 0xD800 || (0xE000 <= v && v <= 0x10FFFF)),
;

/// The bytes of a binding character inside its quotes: the two JSON
/// escapes for the quote and the backslash, else the character's UTF-8
/// form.
pub open spec fn ser_char_esc(c: char) -> Seq<u8> {
    if c == '"' {
        seq![92u8, 34u8]
    } else if c == '\\' {
        seq![92u8, 92u8]
    } else {
        vstd::utf8::encode_scalar(c as u32)
    }
}

/// Serialized form of a binding character: a one-character JSON string.
pub open spec fn ser_char_str(c: char) -> Seq<u8> {
    seq![34u8] + ser_char_esc(c) + seq![34u8]
}

/// Append the bytes of a binding character without its quotes.
pub fn push_char_esc(out: &mut Vec<u8>, c: char)
    ensures
        final(out)@ == old(out)@ + ser_char_esc(c),
{
    if c == '"' {
        out.push(92);
        out.push(34);
        proof {
            assert(out@ =~= old(out)@ + ser_char_esc(c));
        }
    } else if c == '\\' {
        out.push(92);
        out.push(92);
        proof {
            assert(out@ =~= old(out)@ + ser_char_esc(c));
        }
    } else {
        proof {
            vstd::utf8::char_is_scalar(c);
        }
        let v: u32 = c as u32;
        if v < 0x80 {
            out.push((v & 0x7F) as u8);
        } else if v < 0x800 {
            out.push(0xC0 | (((v >> 6) & 0x1F) as u8));
            out.push(0x80 | ((v & 0x3F) as u8));
        } else if v < 0x10000 {
            out.push(0xE0 | (((v >> 12) & 0x0F) as u8));
            out.push(0x80 | (((v >> 6) & 0x3F) as u8));
            out.push(0x80 | ((v & 0x3F) as u8));
        } else {
            out.push(0xF0 | (((v >> 18) & 0x7) as u8));
            out.push(0x80 | (((v >> 12) & 0x3F) as u8));
            out.push(0x80 | (((v >> 6) & 0x3F) as u8));
            out.push(0x80 | ((v & 0x3F) as u8));
        }
        proof {
            assert(out@ =~= old(out)@ + ser_char_esc(c));
        }
    }
}

/// Parse of a one-character JSON string: a quote, then either one of the
/// two escapes or the UTF-8 form of one non-control character, then a
/// quote.
pub open spec fn sp_char_str(s: Seq<u8>, i: int) -> Option<(char, int)> {
    let j = sp_ws(s, i);
    if j < s.len() && s[j] == 34u8 {
        let p = j + 1;
        if p < s.len() && s[p] == 92u8 {
            if p + 2 < s.len() && (s[p + 1] == 34u8 || s[p + 1] == 92u8) && s[p + 2] == 34u8 {
                Some((s[p + 1] as char, p + 3))
            } else {
                None
            }
        } else {
            let rest = s.subrange(p, s.len() as int);
            if rest.len() > 0 && vstd::utf8::valid_first_scalar(rest) {
                let k = vstd::utf8::length_of_first_scalar(rest);
                let c = vstd::utf8::decode_first_scalar(rest) as char;
                if c as int >= 32 && c != '"' && c != '\\' && p + k < s.len() && s[p + k]
                    == 34u8 {
                    Some((c, p + k + 1))
                } else {
                    None
                }
            } else {
                None
            }
        }
    } else {
        None
    }
}

/// Parse a one-character JSON string.
#[verifier::rlimit(100)]
pub fn p_char_str(s: &[u8], i: usize) -> (r: Option<(char, usize)>)
    requires
        i <= s@.len(),
    ensures
        val_match(r, sp_char_str(s@, i as int), s@.len() as int),
{
    let j: usize = skip_ws(s, i);
    if j >= s.len() || s[j] != 34 {
        return None;
    }
    let p: usize = j + 1;
    if p >= s.len() {
        return None;
    }
    let b0: u8 = s[p];
    if b0 == 92 {
        if s.len() - p > 2 && (s[p + 1] == 34 || s[p + 1] == 92) && s[p + 2] == 34 {
            return Some((s[p + 1] as char, p + 3));
        }
        return None;
    }
    let ghost rest: Seq<u8> = s@.subrange(p as int, s@.len() as int);
    proof {
        assert forall|m: int| 0 <= m < rest.len() implies rest[m] == s@[p + m] by {}
    }
    let scalar: u32;
    let k: usize;
    if b0 < 0x80 {
        scalar = (b0 & 0x7F) as u32;
        k = 1;
        proof {
            assert(b0 & 0x7F == b0) by (bit_vector)
                requires
                    b0 < 0x80,
            ;
        }
    } else if 0xc0 <= b0 && b0 <= 0xdf {
        if !(s.len() - p > 1 && 0x80 <= s[p + 1] && s[p + 1] <= 0xbf) {
            return None;
        }
        let b1: u8 = s[p + 1];
        scalar = (((b0 & 0x1F) as u32) << 6) | ((b1 & 0x3F) as u32);
        k = 2;
        proof {
            assert((((b0 & 0x1F) as u32) << 6) | ((b1 & 0x3F) as u32) <= 0x7FF) by (bit_vector);
        }
    } else if 0xe0 <= b0 && b0 <= 0xef {
        if !(s.len() - p > 2 && 0x80 <= s[p + 1] && s[p + 1] <= 0xbf && 0x80 <= s[p + 2] && s[p
            + 2] <= 0xbf) {
            return None;
        }
        let b1: u8 = s[p + 1];
        let b2: u8 = s[p + 2];
        scalar = (((b0 & 0x0F) as u32) << 12) | ((((b1 & 0x3F) as u32) << 6) | ((b2
            & 0x3F) as u32));
        k = 3;
        proof {
            assert((((b0 & 0x0F) as u32) << 12) | ((((b1 & 0x3F) as u32) << 6) | ((b2
                & 0x3F) as u32)) <= 0xFFFF) by (bit_vector);
            assert((((b0 & 0x0F) as u32) << 12) | ((((b1 & 0x3F) as u32) << 6) | ((b2
                & 0x3F) as u32)) == ((((b0 & 0x0F) as u32) << 12) | (((b1 & 0x3F) as u32) << 6))
                | ((b2 & 0x3F) as u32)) by (bit_vector);
        }
    } else if 0xf0 <= b0 && b0 <= 0xf7 {
        if !(s.len() - p > 3 && 0x80 <= s[p + 1] && s[p + 1] <= 0xbf && 0x80 <= s[p + 2] && s[p
            + 2] <= 0xbf && 0x80 <= s[p + 3] && s[p + 3] <= 0xbf) {
            return None;
        }
        let b1: u8 = s[p + 1];
        let b2: u8 = s[p + 2];
        let b3: u8 = s[p + 3];
        scalar = (((b0 & 0x7) as u32) << 18) | ((((b1 & 0x3F) as u32) << 12) | ((((b2
            & 0x3F) as u32) << 6) | ((b3 & 0x3F) as u32)));
        k = 4;
        proof {
            assert((((b0 & 0x7) as u32) << 18) | ((((b1 & 0x3F) as u32) << 12) | ((((b2
                & 0x3F) as u32) << 6) | ((b3 & 0x3F) as u32))) == ((((((b0 & 0x7) as u32) << 18)
                | (((b1 & 0x3F) as u32) << 12)) | (((b2 & 0x3F) as u32) << 6)) | ((b3
                & 0x3F) as u32))) by (bit_vector);
        }
    } else {
        return None;
    }
    proof {
        assert(scalar == vstd::utf8::decode_first_codepoint(rest));
        assert(vstd::utf8::length_of_first_codepoint(rest) == k);
    }
    if 0xD800 <= scalar && scalar <= 0xDFFF {
        return None;
    }
    if k == 2 && scalar < 0x80 {
        return None;
    }
    if k == 3 && scalar < 0x800 {
        return None;
    }
    if k == 4 && (scalar < 0x10000 || scalar > 0x10FFFF) {
        return None;
    }
    if scalar < 32 || scalar == 34 || scalar == 92 {
        return None;
    }
    let c: char = match char::from_u32(scalar) {
        Some(c) => c,
        None => {
            return None;
        },
    };
    proof {
        vstd::utf8::char_u32_cast(c, scalar);
    }
    if p + k < s.len() && s[p + k] == 34 {
        Some((c, p + k + 1))
    } else {
        None
    }
}

/// A window whose first bytes are one whole well-formed scalar encoding
/// begins with that scalar, whatever follows.
proof fn lemma_first_scalar_prefix(a: Seq<u8>, b: Seq<u8>)
    requires
        vstd::utf8::valid_first_scalar(b),
        vstd::utf8::length_of_first_scalar(b) == b.len(),
        a.len() >= b.len(),
        forall|m: int| 0 <= m < b.len() ==> a[m] == b[m],
    ensures
        vstd::utf8::valid_first_scalar(a),
        vstd::utf8::decode_first_codepoint(a) == vstd::utf8::decode_first_codepoint(b),
        vstd::utf8::length_of_first_scalar(a) == b.len(),
{
    assert(a[0] == b[0]);
    if vstd::utf8::is_leading_byte_width_1(b[0]) {
    } else if vstd::utf8::is_leading_byte_width_2(b[0]) {
        assert(a[1] == b[1]);
    } else if vstd::utf8::is_leading_byte_width_3(b[0]) {
        assert(a[1] == b[1]);
        assert(a[2] == b[2]);
    } else {
        assert(a[1] == b[1]);
        assert(a[2] == b[2]);
        assert(a[3] == b[3]);
    }
}

/// Parsing a serialized binding character yields it back.
#[verifier::rlimit(100)]
pub proof fn lemma_sp_char_str_ser(s: Seq<u8>, i: int, c: char)
    requires
        crate::config::key_char_ok(c),
        0 <= i,
        i + ser_char_str(c).len() <= s.len(),
        s.subrange(i, i + ser_char_str(c).len() as int) == ser_char_str(c),
    ensures
        sp_char_str(s, i) == Some((c, i + ser_char_str(c).len() as int)),
{
    let w: Seq<u8> = ser_char_str(c);
    let e: Seq<u8> = ser_char_esc(c);
    let k: int = e.len() as int;
    assert forall|m: int| 0 <= m < w.len() implies s[i + m] == w[m] by {
        assert(s.subrange(i, i + w.len() as int)[m] == s[i + m]);
    }
    assert(w[0] == 34u8);
    assert(!is_ws(s[i]));
    lemma_sp_ws_noop(s, i);
    let p: int = i + 1;
    if c == '"' {
        assert(e == seq![92u8, 34u8]);
        assert(w[1] == e[0] && w[2] == e[1] && w[3] == 34u8);
        assert(s[p] == 92u8 && s[p + 1] == 34u8 && s[p + 2] == 34u8);
        vstd::utf8::char_u32_cast(c, 34u32);
        assert(s[p + 1] as char == c);
    } else if c == '\\' {
        assert(e == seq![92u8, 92u8]);
        assert(w[1] == e[0] && w[2] == e[1] && w[3] == 34u8);
        assert(s[p] == 92u8 && s[p + 1] == 92u8 && s[p + 2] == 34u8);
        vstd::utf8::char_u32_cast(c, 92u32);
        assert(s[p + 1] as char == c);
    } else {
        vstd::utf8::char_is_scalar(c);
        let u: u32 = c as u32;
        let enc1: Seq<u8> = vstd::utf8::encode_utf8(seq![c]);
        assert(seq![c].drop_first() =~= Seq::<char>::empty());
        assert(seq![c][0] == c);
        assert(vstd::utf8::encode_utf8(Seq::<char>::empty()) =~= Seq::<u8>::empty());
        assert(enc1 == vstd::utf8::encode_scalar(c as u32) + vstd::utf8::encode_utf8(
            seq![c].drop_first(),
        ));
        assert(enc1 =~= e);
        vstd::utf8::encode_utf8_first_scalar(seq![c]);
        let rest: Seq<u8> = s.subrange(p, s.len() as int);
        assert forall|m: int| 0 <= m < k implies rest[m] == e[m] by {
            assert(rest[m] == s[p + m]);
            assert(w[1 + m] == e[m]);
        }
        lemma_first_scalar_prefix(rest, e);
        vstd::utf8::char_u32_cast(c, u);
        assert(s[p] != 92u8) by {
            assert(rest[0] == e[0]);
            assert(vstd::utf8::decode_first_codepoint(e) == u);
            if e[0] == 92u8 {
                assert(vstd::utf8::is_leading_byte_width_1(e[0]));
                assert(92u8 & 0x7F == 92u8) by (bit_vector);
                assert(u == 92);
                assert(false);
            }
        }
        assert(rest[k] == 34u8) by {
            assert(rest[k] == s[p + k]);
            assert(w[1 + k] == 34u8);
        }
        assert(sp_char_str(s, i) == Some((c, p + k + 1)));
    }
}

/// Serialized name of a `Key`.
pub open spec fn ser_key(v: Key) -> Seq<u8> {
    match v {
        Key::Alt => lit("\"Alt\""),
        Key::Control => lit("\"Control\""),
        Key::Shift => lit("\"Shift\""),
        Key::Meta => lit("\"Meta\""),
        Key::Tab => lit("\"Tab\""),
        Key::Space => lit("\"Space\""),
        Key::Return => lit("\"Return\""),
        Key::Escape => lit("\"Escape\""),
        Key::Backspace => lit("\"Backspace\""),
        Key::Delete => lit("\"Delete\""),
    }
}

/// Parse of a `Key` name, tried in a fixed order.
pub open spec fn sp_key(s: Seq<u8>, i: int) -> Option<(Key, int)> {
    match sp_tok(s, i, lit("\"Alt\"")) {
        Some(j) => Some((Key::Alt, j)),
        None => match sp_tok(s, i, lit("\"Control\"")) {
        Some(j) => Some((Key::Control, j)),
        None => match sp_tok(s, i, lit("\"Shift\"")) {
        Some(j) => Some((Key::Shift, j)),
        None => match sp_tok(s, i, lit("\"Meta\"")) {
        Some(j) => Some((Key::Meta, j)),
        None => match sp_tok(s, i, lit("\"Tab\"")) {
        Some(j) => Some((Key::Tab, j)),
        None => match sp_tok(s, i, lit("\"Space\"")) {
        Some(j) => Some((Key::Space, j)),
        None => match sp_tok(s, i, lit("\"Return\"")) {
        Some(j) => Some((Key::Return, j)),
        None => match sp_tok(s, i, lit("\"Escape\"")) {
        Some(j) => Some((Key::Escape, j)),
        None => match sp_tok(s, i, lit("\"Backspace\"")) {
        Some(j) => Some((Key::Backspace, j)),
        None => match sp_tok(s, i, lit("\"Delete\"")) {
        Some(j) => Some((Key::Delete, j)),
        None => None,
    },
    },
    },
    },
    },
    },
    },
    },
    },
    }
}

/// Parse a `Key` name.
pub fn p_key(s: &[u8], i: usize) -> (r: Option<(Key, usize)>)
    requires
        i <= s@.len(),
    ensures
        val_match(r, sp_key(s@, i as int), s@.len() as int),
{
    let j: usize = skip_ws(s, i);
    match p_lit(s, j, "\"Alt\"") {
        Some(e) => Some((Key::Alt, e)),
        None => match p_lit(s, j, "\"Control\"") {
        Some(e) => Some((Key::Control, e)),
        None => match p_lit(s, j, "\"Shift\"") {
        Some(e) => Some((Key::Shift, e)),
        None => match p_lit(s, j, "\"Meta\"") {
        Some(e) => Some((Key::Meta, e)),
        None => match p_lit(s, j, "\"Tab\"") {
        Some(e) => Some((Key::Tab, e)),
        None => match p_lit(s, j, "\"Space\"") {
        Some(e) => Some((Key::Space, e)),
        None => match p_lit(s, j, "\"Return\"") {
        Some(e) => Some((Key::Return, e)),
        None => match p_lit(s, j, "\"Escape\"") {
        Some(e) => Some((Key::Escape, e)),
        None => match p_lit(s, j, "\"Backspace\"") {
        Some(e) => Some((Key::Backspace, e)),
        None => match p_lit(s, j, "\"Delete\"") {
        Some(e) => Some((Key::Delete, e)),
        None => None,
    },
    },
    },
    },
    },
    },
    },
    },
    },
    }
}

/// Parsing the serialized name of a `Key` yields it back.
pub proof fn lemma_sp_key_ser(s: Seq<u8>, i: int, v: Key)
    requires
        0 <= i,
        i + ser_key(v).len() <= s.len(),
        s.subrange(i, i + ser_key(v).len() as int) == ser_key(v),
    ensures
        sp_key(s, i) == Some((v, i + ser_key(v).len() as int)),
{
    crate::lits::lits_keys();
    let w: Seq<u8> = ser_key(v);
    assert(s.subrange(i, i + w.len() as int)[0] == s[i]);
    match v {
        Key::Alt => {
            assert(!is_ws(s[i]));
            lemma_sp_ws_noop(s, i);
            lemma_sp_lit_ser(s, i, w);
        },
        Key::Control => {
            assert(!is_ws(s[i]));
            lemma_sp_ws_noop(s, i);
            lemma_lit_mismatch(s, i, lit("\"Alt\""), w, 1);
            lemma_sp_lit_ser(s, i, w);
        },
        Key::Shift => {
            assert(!is_ws(s[i]));
            lemma_sp_ws_noop(s, i);
            lemma_lit_mismatch(s, i, lit("\"Alt\""), w, 1);
            lemma_lit_mismatch(s, i, lit("\"Control\""), w, 1);
            lemma_sp_lit_ser(s, i, w);
        },
        Key::Meta => {
            assert(!is_ws(s[i]));
            lemma_sp_ws_noop(s, i);
            lemma_lit_mismatch(s, i, lit("\"Alt\""), w, 1);
            lemma_lit_mismatch(s, i, lit("\"Control\""), w, 1);
            lemma_lit_mismatch(s, i, lit("\"Shift\""), w, 1);
            lemma_sp_lit_ser(s, i, w);
        },
        Key::Tab => {
            assert(!is_ws(s[i]));
            lemma_sp_ws_noop(s, i);
            lemma_lit_mismatch(s, i, lit("\"Alt\""), w, 1);
            lemma_lit_mismatch(s, i, lit("\"Control\""), w, 1);
            lemma_lit_mismatch(s, i, lit("\"Shift\""), w, 1);
            lemma_lit_mismatch(s, i, lit("\"Meta\""), w, 1);
            lemma_sp_lit_ser(s, i, w);
        },
        Key::Space => {
            assert(!is_ws(s[i]));
            lemma_sp_ws_noop(s, i);
            lemma_lit_mismatch(s, i, lit("\"Alt\""), w, 1);
            lemma_lit_mismatch(s, i, lit("\"Control\""), w, 1);
            lemma_lit_mismatch(s, i, lit("\"Shift\""), w, 2);
            lemma_lit_mismatch(s, i, lit("\"Meta\""), w, 1);
            lemma_lit_mismatch(s, i, lit("\"Tab\""), w, 1);
            lemma_sp_lit_ser(s, i, w);
        },
        Key::Return => {
            assert(!is_ws(s[i]));
            lemma_sp_ws_noop(s, i);
            lemma_lit_mismatch(s, i, lit("\"Alt\""), w, 1);
            lemma_lit_mismatch(s, i, lit("\"Control\""), w, 1);
            lemma_lit_mismatch(s, i, lit("\"Shift\""), w, 1);
            lemma_lit_mismatch(s, i, lit("\"Meta\""), w, 1);
            lemma_lit_mismatch(s, i, lit("\"Tab\""), w, 1);
            lemma_lit_mismatch(s, i, lit("\"Space\""), w, 1);
            lemma_sp_lit_ser(s, i, w);
        },
        Key::Escape => {
            assert(!is_ws(s[i]));
            lemma_sp_ws_noop(s, i);
            lemma_lit_mismatch(s, i, lit("\"Alt\""), w, 1);
            lemma_lit_mismatch(s, i, lit("\"Control\""), w, 1);
            lemma_lit_mismatch(s, i, lit("\"Shift\""), w, 1);
            lemma_lit_mismatch(s, i, lit("\"Meta\""), w, 1);
            lemma_lit_mismatch(s, i, lit("\"Tab\""), w, 1);
            lemma_lit_mismatch(s, i, lit("\"Space\""), w, 1);
            lemma_lit_mismatch(s, i, lit("\"Return\""), w, 1);
            lemma_sp_lit_ser(s, i, w);
        },
        Key::Backspace => {
            assert(!is_ws(s[i]));
            lemma_sp_ws_noop(s, i);
            lemma_lit_mismatch(s, i, lit("\"Alt\""), w, 1);
            lemma_lit_mismatch(s, i, lit("\"Control\""), w, 1);
            lemma_lit_mismatch(s, i, lit("\"Shift\""), w, 1);
            lemma_lit_mismatch(s, i, lit("\"Meta\""), w, 1);
            lemma_lit_mismatch(s, i, lit("\"Tab\""), w, 1);
            lemma_lit_mismatch(s, i, lit("\"Space\""), w, 1);
            lemma_lit_mismatch(s, i, lit("\"Return\""), w, 1);
            lemma_lit_mismatch(s, i, lit("\"Escape\""), w, 1);
            lemma_sp_lit_ser(s, i, w);
        },
        Key::Delete => {
            assert(!is_ws(s[i]));
            lemma_sp_ws_noop(s, i);
            lemma_lit_mismatch(s, i, lit("\"Alt\""), w, 1);
            lemma_lit_mismatch(s, i, lit("\"Control\""), w, 1);
            lemma_lit_mismatch(s, i, lit("\"Shift\""), w, 1);
            lemma_lit_mismatch(s, i, lit("\"Meta\""), w, 1);
            lemma_lit_mismatch(s, i, lit("\"Tab\""), w, 1);
            lemma_lit_mismatch(s, i, lit("\"Space\""), w, 1);
            lemma_lit_mismatch(s, i, lit("\"Return\""), w, 1);
            lemma_lit_mismatch(s, i, lit("\"Escape\""), w, 1);
            lemma_lit_mismatch(s, i, lit("\"Backspace\""), w, 1);
            lemma_sp_lit_ser(s, i, w);
        },
    }
}

/// Serialized name of a `MouseButton`.
pub open spec fn ser_mouse_button(v: MouseButton) -> Seq<u8> {
    match v {
        MouseButton::Left => lit("\"Left\""),
        MouseButton::Middle => lit("\"Middle\""),
        MouseButton::Right => lit("\"Right\""),
        MouseButton::Back => lit("\"Back\""),
        MouseButton::Forward => lit("\"Forward\""),
        MouseButton::ScrollUp => lit("\"ScrollUp\""),
        MouseButton::ScrollDown => lit("\"ScrollDown\""),
        MouseButton::ScrollLeft => lit("\"ScrollLeft\""),
        MouseButton::ScrollRight => lit("\"ScrollRight\""),
    }
}

/// Parse of a `MouseButton` name, tried in a fixed order.
pub open spec fn sp_mouse_button(s: Seq<u8>, i: int) -> Option<(MouseButton, int)> {
    match sp_tok(s, i, lit("\"Left\"")) {
        Some(j) => Some((MouseButton::Left, j)),
        None => match sp_tok(s, i, lit("\"Middle\"")) {
        Some(j) => Some((MouseButton::Middle, j)),
        None => match sp_tok(s, i, lit("\"Right\"")) {
        Some(j) => Some((MouseButton::Right, j)),
        None => match sp_tok(s, i, lit("\"Back\"")) {
        Some(j) => Some((MouseButton::Back, j)),
        None => match sp_tok(s, i, lit("\"Forward\"")) {
        Some(j) => Some((MouseButton::Forward, j)),
        None => match sp_tok(s, i, lit("\"ScrollUp\"")) {
        Some(j) => Some((MouseButton::ScrollUp, j)),
        None => match sp_tok(s, i, lit("\"ScrollDown\"")) {
        Some(j) => Some((MouseButton::ScrollDown, j)),
        None => match sp_tok(s, i, lit("\"ScrollLeft\"")) {
        Some(j) => Some((MouseButton::ScrollLeft, j)),
        None => match sp_tok(s, i, lit("\"ScrollRight\"")) {
        Some(j) => Some((MouseButton::ScrollRight, j)),
        None => None,
    },
    },
    },
    },
    },
    },
    },
    },
    }
}

/// Parse a `MouseButton` name.
pub fn p_mouse_button(s: &[u8], i: usize) -> (r: Option<(MouseButton, usize)>)
    requires
        i <= s@.len(),
    ensures
        val_match(r, sp_mouse_button(s@, i as int), s@.len() as int),
{
    let j: usize = skip_ws(s, i);
    match p_lit(s, j, "\"Left\"") {
        Some(e) => Some((MouseButton::Left, e)),
        None => match p_lit(s, j, "\"Middle\"") {
        Some(e) => Some((MouseButton::Middle, e)),
        None => match p_lit(s, j, "\"Right\"") {
        Some(e) => Some((MouseButton::Right, e)),
        None => match p_lit(s, j, "\"Back\"") {
        Some(e) => Some((MouseButton::Back, e)),
        None => match p_lit(s, j, "\"Forward\"") {
        Some(e) => Some((MouseButton::Forward, e)),
        None => match p_lit(s, j, "\"ScrollUp\"") {
        Some(e) => Some((MouseButton::ScrollUp, e)),
        None => match p_lit(s, j, "\"ScrollDown\"") {
        Some(e) => Some((MouseButton::ScrollDown, e)),
        None => match p_lit(s, j, "\"ScrollLeft\"") {
        Some(e) => Some((MouseButton::ScrollLeft, e)),
        None => match p_lit(s, j, "\"ScrollRight\"") {
        Some(e) => Some((MouseButton::ScrollRight, e)),
        None => None,
    },
    },
    },
    },
    },
    },
    },
    },
    }
}

/// Parsing the serialized name of a `MouseButton` yields it back.
pub proof fn lemma_sp_mouse_button_ser(s: Seq<u8>, i: int, v: MouseButton)
    requires
        0 <= i,
        i + ser_mouse_button(v).len() <= s.len(),
        s.subrange(i, i + ser_mouse_button(v).len() as int) == ser_mouse_button(v),
    ensures
        sp_mouse_button(s, i) == Some((v, i + ser_mouse_button(v).len() as int)),
{
    crate::lits::lits_mouse_buttons();
    let w: Seq<u8> = ser_mouse_button(v);
    assert(s.subrange(i, i + w.len() as int)[0] == s[i]);
    match v {
        MouseButton::Left => {
            assert(!is_ws(s[i]));
            lemma_sp_ws_noop(s, i);
            lemma_sp_lit_ser(s, i, w);
        },
        MouseButton::Middle => {
            assert(!is_ws(s[i]));
            lemma_sp_ws_noop(s, i);
            lemma_lit_mismatch(s, i, lit("\"Left\""), w, 1);
            lemma_sp_lit_ser(s, i, w);
        },
        MouseButton::Right => {
            assert(!is_ws(s[i]));
            lemma_sp_ws_noop(s, i);
            lemma_lit_mismatch(s, i, lit("\"Left\""), w, 1);
            lemma_lit_mismatch(s, i, lit("\"Middle\""), w, 1);
            lemma_sp_lit_ser(s, i, w);
        },
        MouseButton::Back => {
            assert(!is_ws(s[i]));
            lemma_sp_ws_noop(s, i);
            lemma_lit_mismatch(s, i, lit("\"Left\""), w, 1);
            lemma_lit_mismatch(s, i, lit("\"Middle\""), w, 1);
            lemma_lit_mismatch(s, i, lit("\"Right\""), w, 1);
            lemma_sp_lit_ser(s, i, w);
        },
        MouseButton::Forward => {
            assert(!is_ws(s[i]));
            lemma_sp_ws_noop(s, i);
            lemma_lit_mismatch(s, i, lit("\"Left\""), w, 1);
            lemma_lit_mismatch(s, i, lit("\"Middle\""), w, 1);
            lemma_lit_mismatch(s, i, lit("\"Right\""), w, 1);
            lemma_lit_mismatch(s, i, lit("\"Back\""), w, 1);
            lemma_sp_lit_ser(s, i, w);
        },
        MouseButton::ScrollUp => {
            assert(!is_ws(s[i]));
            lemma_sp_ws_noop(s, i);
            lemma_lit_mismatch(s, i, lit("\"Left\""), w, 1);
            lemma_lit_mismatch(s, i, lit("\"Middle\""), w, 1);
            lemma_lit_mismatch(s, i, lit("\"Right\""), w, 1);
            lemma_lit_mismatch(s, i, lit("\"Back\""), w, 1);
            lemma_lit_mismatch(s, i, lit("\"Forward\""), w, 1);
            lemma_sp_lit_ser(s, i, w);
        },
        MouseButton::ScrollDown => {
            assert(!is_ws(s[i]));
            lemma_sp_ws_noop(s, i);
            lemma_lit_mismatch(s, i, lit("\"Left\""), w, 1);
            lemma_lit_mismatch(s, i, lit("\"Middle\""), w, 1);
            lemma_lit_mismatch(s, i, lit("\"Right\""), w, 1);
            lemma_lit_mismatch(s, i, lit("\"Back\""), w, 1);
            lemma_lit_mismatch(s, i, lit("\"Forward\""), w, 1);
            lemma_lit_mismatch(s, i, lit("\"ScrollUp\""), w, 7);
            lemma_sp_lit_ser(s, i, w);
        },
        MouseButton::ScrollLeft => {
            assert(!is_ws(s[i]));
            lemma_sp_ws_noop(s, i);
            lemma_lit_mismatch(s, i, lit("\"Left\""), w, 1);
            lemma_lit_mismatch(s, i, lit("\"Middle\""), w, 1);
            lemma_lit_mismatch(s, i, lit("\"Right\""), w, 1);
            lemma_lit_mismatch(s, i, lit("\"Back\""), w, 1);
            lemma_lit_mismatch(s, i, lit("\"Forward\""), w, 1);
            lemma_lit_mismatch(s, i, lit("\"ScrollUp\""), w, 7);
            lemma_lit_mismatch(s, i, lit("\"ScrollDown\""), w, 7);
            lemma_sp_lit_ser(s, i, w);
        },
        MouseButton::ScrollRight => {
            assert(!is_ws(s[i]));
            lemma_sp_ws_noop(s, i);
            lemma_lit_mismatch(s, i, lit("\"Left\""), w, 1);
            lemma_lit_mismatch(s, i, lit("\"Middle\""), w, 1);
            lemma_lit_mismatch(s, i, lit("\"Right\""), w, 1);
            lemma_lit_mismatch(s, i, lit("\"Back\""), w, 1);
            lemma_lit_mismatch(s, i, lit("\"Forward\""), w, 1);
            lemma_lit_mismatch(s, i, lit("\"ScrollUp\""), w, 7);
            lemma_lit_mismatch(s, i, lit("\"ScrollDown\""), w, 7);
            lemma_lit_mismatch(s, i, lit("\"ScrollLeft\""), w, 7);
            lemma_sp_lit_ser(s, i, w);
        },
    }
}

} // verus!
