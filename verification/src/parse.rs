//! A lenient reader for the JSON this crate understands, at the byte
//! level.
//!
//! Each grammar production exists twice: a specification function over a
//! byte sequence and a position, which is the authoritative statement of
//! what the reader accepts, and an executable twin proved to return
//! exactly what the specification says.  The reader tolerates
//! whitespace, every JSON escape (including surrogate pairs), and — in
//! object members — unknown keys whose values are skipped unread.

use vstd::prelude::*;

verus! {

use vstd::utf8::{decode_utf8, encode_scalar, is_scalar, valid_utf8};
use crate::json::{BACKSLASH, COLON, COMMA, LBRACE, LBRACKET, QUOTE, RBRACE, RBRACKET};

pub open spec fn is_ws(b: u8) -> bool {
    b == 0x20 || b == 0x09 || b == 0x0a || b == 0x0d
}

/// The first position at or after `i` holding no whitespace.
pub open spec fn sp_ws(s: Seq<u8>, i: int) -> int
    decreases s.len() - i,
{
    if !(0 <= i < s.len()) {
        i
    } else if is_ws(s[i]) {
        sp_ws(s, i + 1)
    } else {
        i
    }
}

pub open spec fn is_hex(b: u8) -> bool {
    (0x30 <= b <= 0x39) || (0x61 <= b <= 0x66) || (0x41 <= b <= 0x46)
}

pub open spec fn hex_val(b: u8) -> int
    recommends
        is_hex(b),
{
    if 0x30 <= b <= 0x39 {
        b - 0x30
    } else if 0x61 <= b <= 0x66 {
        b - 0x57
    } else {
        b - 0x37
    }
}

/// True when four hex digits stand at `i`.
pub open spec fn hex4_ok(s: Seq<u8>, i: int) -> bool {
    &&& 0 <= i
    &&& i + 4 <= s.len()
    &&& is_hex(s[i])
    &&& is_hex(s[i + 1])
    &&& is_hex(s[i + 2])
    &&& is_hex(s[i + 3])
}

/// The value of the four hex digits at `i`.
pub open spec fn hex4(s: Seq<u8>, i: int) -> int
    recommends
        hex4_ok(s, i),
{
    hex_val(s[i]) * 0x1000 + hex_val(s[i + 1]) * 0x100 + hex_val(s[i + 2]) * 0x10 + hex_val(
        s[i + 3],
    )
}

/// What a single-character escape stands for, if it is one.
pub open spec fn simple_unescape(e: u8) -> Option<u8> {
    if e == QUOTE {
        Some(QUOTE)
    } else if e == BACKSLASH {
        Some(BACKSLASH)
    } else if e == 0x2f {
        Some(0x2f)
    } else if e == 0x62 {
        Some(0x08)
    } else if e == 0x66 {
        Some(0x0c)
    } else if e == 0x6e {
        Some(0x0a)
    } else if e == 0x72 {
        Some(0x0d)
    } else if e == 0x74 {
        Some(0x09)
    } else {
        None
    }
}

/// The content of a JSON string whose opening quote stands just before
/// `i`: the unescaped bytes and the position after the closing quote.
/// A `\uXXXX` escape is re-encoded as UTF-8, pairing surrogates.
pub open spec fn sp_string_body(s: Seq<u8>, i: int) -> Option<(Seq<u8>, int)>
    decreases s.len() - i,
{
    if !(0 <= i < s.len()) {
        None
    } else {
        let b = s[i];
        if b == QUOTE {
            Some((Seq::empty(), i + 1))
        } else if b == BACKSLASH {
            if i + 1 >= s.len() {
                None
            } else {
                let e = s[i + 1];
                if simple_unescape(e) is Some {
                    match sp_string_body(s, i + 2) {
                        None => None,
                        Some((rest, j)) => Some(
                            (seq![simple_unescape(e).unwrap()] + rest, j),
                        ),
                    }
                } else if e == 0x75 {
                    if !hex4_ok(s, i + 2) {
                        None
                    } else {
                        let h = hex4(s, i + 2);
                        if 0xD800 <= h < 0xDC00 {
                            if i + 12 <= s.len() && s[i + 6] == BACKSLASH && s[i + 7] == 0x75
                                && hex4_ok(s, i + 8) {
                                let l = hex4(s, i + 8);
                                if 0xDC00 <= l < 0xE000 {
                                    let v = 0x10000 + (h - 0xD800) * 0x400 + (l - 0xDC00);
                                    match sp_string_body(s, i + 12) {
                                        None => None,
                                        Some((rest, j)) => Some(
                                            (encode_scalar(v as u32) + rest, j),
                                        ),
                                    }
                                } else {
                                    None
                                }
                            } else {
                                None
                            }
                        } else if 0xDC00 <= h < 0xE000 {
                            None
                        } else {
                            match sp_string_body(s, i + 6) {
                                None => None,
                                Some((rest, j)) => Some((encode_scalar(h as u32) + rest, j)),
                            }
                        }
                    }
                } else {
                    None
                }
            }
        } else if b < 0x20 {
            None
        } else {
            match sp_string_body(s, i + 1) {
                None => None,
                Some((rest, j)) => Some((seq![b] + rest, j)),
            }
        }
    }
}

pub open spec fn is_number_byte(b: u8) -> bool {
    (0x30 <= b <= 0x39) || b == 0x2b || b == 0x2d || b == 0x2e || b == 0x65 || b == 0x45
}

/// The first position at or after `i` past the bytes a JSON number may
/// be written with.
pub open spec fn sp_num_end(s: Seq<u8>, i: int) -> int
    decreases s.len() - i,
{
    if !(0 <= i < s.len()) {
        i
    } else if is_number_byte(s[i]) {
        sp_num_end(s, i + 1)
    } else {
        i
    }
}

/// The position just past the JSON value starting at or after `i`,
/// whatever kind of value it is.  Nothing of the value is kept: this is
/// how an unknown object member is passed over.
pub open spec fn sp_skip_value(s: Seq<u8>, i: int) -> Option<int>
    decreases s.len() - i, 0int,
{
    let j = sp_ws(s, i);
    if !(i <= j < s.len()) {
        None
    } else {
        let b = s[j];
        if b == QUOTE {
            match sp_string_body(s, j + 1) {
                None => None,
                Some((_c, k)) => Some(k),
            }
        } else if b == LBRACE {
            sp_skip_members(s, j + 1)
        } else if b == LBRACKET {
            sp_skip_elems(s, j + 1)
        } else if b == 0x74 {
            if j + 4 <= s.len() && s[j + 1] == 0x72 && s[j + 2] == 0x75 && s[j + 3] == 0x65 {
                Some(j + 4)
            } else {
                None
            }
        } else if b == 0x66 {
            if j + 5 <= s.len() && s[j + 1] == 0x61 && s[j + 2] == 0x6c && s[j + 3] == 0x73
                && s[j + 4] == 0x65 {
                Some(j + 5)
            } else {
                None
            }
        } else if b == 0x6e {
            if j + 4 <= s.len() && s[j + 1] == 0x75 && s[j + 2] == 0x6c && s[j + 3] == 0x6c {
                Some(j + 4)
            } else {
                None
            }
        } else if b == 0x2d || (0x30 <= b && b <= 0x39) {
            Some(sp_num_end(s, j + 1))
        } else {
            None
        }
    }
}

/// Passes over the members of an object whose `{` stands just before `i`.
pub open spec fn sp_skip_members(s: Seq<u8>, i: int) -> Option<int>
    decreases s.len() - i, 1int,
{
    let j = sp_ws(s, i);
    if !(i <= j < s.len()) {
        None
    } else if s[j] == RBRACE {
        Some(j + 1)
    } else if s[j] == QUOTE {
        match sp_string_body(s, j + 1) {
            None => None,
            Some((_key, k)) => {
                if !(j < k) {
                    None
                } else {
                    let m = sp_ws(s, k);
                    if !(k <= m < s.len()) {
                        None
                    } else if s[m] != COLON {
                        None
                    } else {
                        match sp_skip_value(s, m + 1) {
                            None => None,
                            Some(w) => {
                                if !(m < w) {
                                    None
                                } else {
                                    let p = sp_ws(s, w);
                                    if !(w <= p < s.len()) {
                                        None
                                    } else if s[p] == COMMA {
                                        sp_skip_members(s, p + 1)
                                    } else if s[p] == RBRACE {
                                        Some(p + 1)
                                    } else {
                                        None
                                    }
                                }
                            },
                        }
                    }
                }
            },
        }
    } else {
        None
    }
}

/// Passes over the elements of an array whose `[` stands just before `i`.
pub open spec fn sp_skip_elems(s: Seq<u8>, i: int) -> Option<int>
    decreases s.len() - i, 1int,
{
    let j = sp_ws(s, i);
    if !(i <= j < s.len()) {
        None
    } else if s[j] == RBRACKET {
        Some(j + 1)
    } else {
        match sp_skip_value(s, j) {
            None => None,
            Some(w) => {
                if !(j < w) {
                    None
                } else {
                    let p = sp_ws(s, w);
                    if !(w <= p < s.len()) {
                        None
                    } else if s[p] == COMMA {
                        sp_skip_elems(s, p + 1)
                    } else if s[p] == RBRACKET {
                        Some(p + 1)
                    } else {
                        None
                    }
                }
            },
        }
    }
}

/// How an executable byte parse relates to its specification.
pub open spec fn bytes_result_matches(
    r: Option<(Vec<u8>, usize)>,
    sp: Option<(Seq<u8>, int)>,
) -> bool {
    match r {
        None => sp is None,
        Some((v, j)) => sp matches Some(p) && p.0 == v@ && p.1 == j as int,
    }
}

pub fn px_ws(s: &[u8], i: usize) -> (r: usize)
    ensures
        r as int == sp_ws(s@, i as int),
        i <= r,
    decreases s@.len() - i,
{
    if i >= s.len() {
        i
    } else {
        let b = s[i];
        if b == 0x20 || b == 0x09 || b == 0x0a || b == 0x0d {
            px_ws(s, i + 1)
        } else {
            i
        }
    }
}

fn px_hex_val(b: u8) -> (r: u8)
    requires
        is_hex(b),
    ensures
        r as int == hex_val(b),
{
    if 0x30 <= b && b <= 0x39 {
        b - 0x30
    } else if 0x61 <= b && b <= 0x66 {
        b - 0x57
    } else {
        b - 0x37
    }
}

fn px_is_hex(b: u8) -> (r: bool)
    ensures
        r == is_hex(b),
{
    (0x30 <= b && b <= 0x39) || (0x61 <= b && b <= 0x66) || (0x41 <= b && b <= 0x46)
}

/// Reads the four hex digits at `i` when they are there.
fn px_hex4(s: &[u8], i: usize) -> (r: Option<u32>)
    ensures
        r is Some <==> hex4_ok(s@, i as int),
        r matches Some(h) ==> h as int == hex4(s@, i as int) && h < 0x10000,
{
    if s.len() < 4 || i > s.len() - 4 {
        return None;
    }
    if !(px_is_hex(s[i]) && px_is_hex(s[i + 1]) && px_is_hex(s[i + 2]) && px_is_hex(s[i + 3])) {
        return None;
    }
    let a = px_hex_val(s[i]) as u32;
    let b = px_hex_val(s[i + 1]) as u32;
    let c = px_hex_val(s[i + 2]) as u32;
    let d = px_hex_val(s[i + 3]) as u32;
    Some(a * 0x1000 + b * 0x100 + c * 0x10 + d)
}

/// The UTF-8 bytes of one Unicode scalar value.
pub(crate) fn scalar_bytes(v: u32) -> (r: Vec<u8>)
    requires
        is_scalar(v),
    ensures
        r@ == encode_scalar(v),
{
    let mut out: Vec<u8> = Vec::new();
    if v <= 0x7F {
        out.push((v & 0x7F) as u8);
    } else if v <= 0x7FF {
        out.push(0xC0 | ((v >> 6) & 0x1F) as u8);
        out.push(0x80 | (v & 0x3F) as u8);
    } else if v <= 0xFFFF {
        out.push(0xE0 | ((v >> 12) & 0x0F) as u8);
        out.push(0x80 | ((v >> 6) & 0x3F) as u8);
        out.push(0x80 | (v & 0x3F) as u8);
    } else {
        out.push(0xF0 | ((v >> 18) & 0x7) as u8);
        out.push(0x80 | ((v >> 12) & 0x3F) as u8);
        out.push(0x80 | ((v >> 6) & 0x3F) as u8);
        out.push(0x80 | (v & 0x3F) as u8);
    }
    proof {
        assert(out@ =~= encode_scalar(v));
    }
    out
}

/// The executable twin of [`sp_string_body`].
pub fn px_string_body(s: &[u8], i: usize) -> (r: Option<(Vec<u8>, usize)>)
    ensures
        bytes_result_matches(r, sp_string_body(s@, i as int)),
    decreases s@.len() - i,
{
    if i >= s.len() {
        return None;
    }
    let b = s[i];
    if b == QUOTE {
        Some((Vec::new(), i + 1))
    } else if b == BACKSLASH {
        if i + 1 >= s.len() {
            return None;
        }
        let e = s[i + 1];
        let simple: Option<u8> = if e == QUOTE {
            Some(QUOTE)
        } else if e == BACKSLASH {
            Some(BACKSLASH)
        } else if e == 0x2f {
            Some(0x2f)
        } else if e == 0x62 {
            Some(0x08)
        } else if e == 0x66 {
            Some(0x0c)
        } else if e == 0x6e {
            Some(0x0a)
        } else if e == 0x72 {
            Some(0x0d)
        } else if e == 0x74 {
            Some(0x09)
        } else {
            None
        };
        match simple {
            Some(u) => {
                match px_string_body(s, i + 2) {
                    None => None,
                    Some((rest, j)) => {
                        let mut out: Vec<u8> = Vec::new();
                        out.push(u);
                        let mut rest = rest;
                        out.append(&mut rest);
                        proof {
                            assert(out@ =~= seq![u] + sp_string_body(
                                s@,
                                i + 2,
                            ).unwrap().0);
                        }
                        Some((out, j))
                    },
                }
            },
            None => {
                if e == 0x75 {
                    match px_hex4(s, i + 2) {
                        None => None,
                        Some(h) => {
                            if 0xD800 <= h && h < 0xDC00 {
                                if s.len() - i >= 12 && s[i + 6] == BACKSLASH && s[i + 7]
                                    == 0x75 {
                                    match px_hex4(s, i + 8) {
                                        None => None,
                                        Some(l) => {
                                            if 0xDC00 <= l && l < 0xE000 {
                                                let v = 0x10000 + (h - 0xD800) * 0x400 + (l
                                                    - 0xDC00);
                                                match px_string_body(s, i + 12) {
                                                    None => None,
                                                    Some((rest, j)) => {
                                                        let mut out = scalar_bytes(v);
                                                        let mut rest = rest;
                                                        out.append(&mut rest);
                                                        Some((out, j))
                                                    },
                                                }
                                            } else {
                                                None
                                            }
                                        },
                                    }
                                } else {
                                    None
                                }
                            } else if 0xDC00 <= h && h < 0xE000 {
                                None
                            } else {
                                match px_string_body(s, i + 6) {
                                    None => None,
                                    Some((rest, j)) => {
                                        let mut out = scalar_bytes(h);
                                        let mut rest = rest;
                                        out.append(&mut rest);
                                        Some((out, j))
                                    },
                                }
                            }
                        },
                    }
                } else {
                    None
                }
            },
        }
    } else if b < 0x20 {
        None
    } else {
        match px_string_body(s, i + 1) {
            None => None,
            Some((rest, j)) => {
                let mut out: Vec<u8> = Vec::new();
                out.push(b);
                let mut rest = rest;
                out.append(&mut rest);
                proof {
                    assert(out@ =~= seq![b] + sp_string_body(s@, i + 1).unwrap().0);
                }
                Some((out, j))
            },
        }
    }
}

/// How an executable position-only parse relates to its specification.
pub open spec fn pos_result_matches(r: Option<usize>, sp: Option<int>) -> bool {
    match r {
        None => sp is None,
        Some(j) => sp == Some(j as int),
    }
}

fn px_num_end(s: &[u8], i: usize) -> (r: usize)
    ensures
        r as int == sp_num_end(s@, i as int),
        i <= r,
    decreases s@.len() - i,
{
    if i >= s.len() {
        i
    } else {
        let b = s[i];
        if (0x30 <= b && b <= 0x39) || b == 0x2b || b == 0x2d || b == 0x2e || b == 0x65 || b
            == 0x45 {
            px_num_end(s, i + 1)
        } else {
            i
        }
    }
}

/// The executable twin of [`sp_skip_value`].
pub fn px_skip_value(s: &[u8], i: usize) -> (r: Option<usize>)
    ensures
        pos_result_matches(r, sp_skip_value(s@, i as int)),
    decreases s@.len() - i, 0int,
{
    let j = px_ws(s, i);
    if j >= s.len() {
        return None;
    }
    let b = s[j];
    if b == QUOTE {
        match px_string_body(s, j + 1) {
            None => None,
            Some((_c, k)) => Some(k),
        }
    } else if b == LBRACE {
        px_skip_members(s, j + 1)
    } else if b == LBRACKET {
        px_skip_elems(s, j + 1)
    } else if b == 0x74 {
        if s.len() - j >= 4 && s[j + 1] == 0x72 && s[j + 2] == 0x75 && s[j + 3] == 0x65 {
            Some(j + 4)
        } else {
            None
        }
    } else if b == 0x66 {
        if s.len() - j >= 5 && s[j + 1] == 0x61 && s[j + 2] == 0x6c && s[j + 3] == 0x73 && s[j
            + 4] == 0x65 {
            Some(j + 5)
        } else {
            None
        }
    } else if b == 0x6e {
        if s.len() - j >= 4 && s[j + 1] == 0x75 && s[j + 2] == 0x6c && s[j + 3] == 0x6c {
            Some(j + 4)
        } else {
            None
        }
    } else if b == 0x2d || (0x30 <= b && b <= 0x39) {
        Some(px_num_end(s, j + 1))
    } else {
        None
    }
}

/// The executable twin of [`sp_skip_members`].
pub fn px_skip_members(s: &[u8], i: usize) -> (r: Option<usize>)
    ensures
        pos_result_matches(r, sp_skip_members(s@, i as int)),
    decreases s@.len() - i, 1int,
{
    let j = px_ws(s, i);
    if j >= s.len() {
        return None;
    }
    if s[j] == RBRACE {
        return Some(j + 1);
    }
    if s[j] != QUOTE {
        return None;
    }
    match px_string_body(s, j + 1) {
        None => None,
        Some((_key, k)) => {
            if !(j < k) {
                return None;
            }
            let m = px_ws(s, k);
            if m >= s.len() {
                return None;
            }
            if s[m] != COLON {
                return None;
            }
            match px_skip_value(s, m + 1) {
                None => None,
                Some(w) => {
                    if !(m < w) {
                        return None;
                    }
                    let p = px_ws(s, w);
                    if p >= s.len() {
                        return None;
                    }
                    if s[p] == COMMA {
                        px_skip_members(s, p + 1)
                    } else if s[p] == RBRACE {
                        Some(p + 1)
                    } else {
                        None
                    }
                },
            }
        },
    }
}

/// The executable twin of [`sp_skip_elems`].
pub fn px_skip_elems(s: &[u8], i: usize) -> (r: Option<usize>)
    ensures
        pos_result_matches(r, sp_skip_elems(s@, i as int)),
    decreases s@.len() - i, 1int,
{
    let j = px_ws(s, i);
    if j >= s.len() {
        return None;
    }
    if s[j] == RBRACKET {
        return Some(j + 1);
    }
    match px_skip_value(s, j) {
        None => None,
        Some(w) => {
            if !(j < w) {
                return None;
            }
            let p = px_ws(s, w);
            if p >= s.len() {
                return None;
            }
            if s[p] == COMMA {
                px_skip_elems(s, p + 1)
            } else if s[p] == RBRACKET {
                Some(p + 1)
            } else {
                None
            }
        },
    }
}

/// The elements of an array of strings whose `[` stands just before
/// `i`, appended to `acc`: each element must be a JSON string holding
/// valid UTF-8.  `acc` is empty at the first element, which is how the
/// close of an empty array is told apart from a trailing comma.
pub open spec fn sp_strings(s: Seq<u8>, i: int, acc: Seq<Seq<char>>) -> Option<
    (Seq<Seq<char>>, int),
>
    decreases s.len() - i,
{
    let j = sp_ws(s, i);
    if !(i <= j < s.len()) {
        None
    } else if s[j] == RBRACKET && acc.len() == 0 {
        Some((acc, j + 1))
    } else if s[j] == QUOTE {
        match sp_string_body(s, j + 1) {
            None => None,
            Some((cb, k)) => {
                if !(j < k) {
                    None
                } else if !valid_utf8(cb) {
                    None
                } else {
                    let t = decode_utf8(cb);
                    let m = sp_ws(s, k);
                    if !(k <= m < s.len()) {
                        None
                    } else if s[m] == COMMA {
                        sp_strings(s, m + 1, acc.push(t))
                    } else if s[m] == RBRACKET {
                        Some((acc.push(t), m + 1))
                    } else {
                        None
                    }
                }
            },
        }
    } else {
        None
    }
}

/// An array of strings starting exactly at `i`.
pub open spec fn sp_string_list(s: Seq<u8>, i: int) -> Option<(Seq<Seq<char>>, int)> {
    if 0 <= i < s.len() && s[i] == LBRACKET {
        sp_strings(s, i + 1, Seq::empty())
    } else {
        None
    }
}

/// How an executable parse of strings relates to its specification.
pub open spec fn strings_result_matches(
    r: Option<(Vec<String>, usize)>,
    sp: Option<(Seq<Seq<char>>, int)>,
) -> bool {
    match r {
        None => sp is None,
        Some((v, j)) => sp matches Some(p) && p.0 == v.deep_view() && p.1 == j as int,
    }
}

/// The executable twin of [`sp_string_list`].
pub fn px_string_list(s: &[u8], i: usize) -> (r: Option<(Vec<String>, usize)>)
    ensures
        strings_result_matches(r, sp_string_list(s@, i as int)),
{
    if i >= s.len() || s[i] != LBRACKET {
        return None;
    }
    let acc: Vec<String> = Vec::new();
    proof {
        assert(acc.deep_view() =~= Seq::<Seq<char>>::empty());
    }
    px_strings(s, i + 1, acc)
}

/// The executable twin of [`sp_strings`].
fn px_strings(s: &[u8], i: usize, acc: Vec<String>) -> (r: Option<(Vec<String>, usize)>)
    ensures
        strings_result_matches(r, sp_strings(s@, i as int, acc.deep_view())),
    decreases s@.len() - i,
{
    let j = px_ws(s, i);
    if j >= s.len() {
        return None;
    }
    if s[j] == RBRACKET && acc.len() == 0 {
        proof {
            assert(acc.deep_view().len() == 0);
        }
        return Some((acc, j + 1));
    }
    proof {
        if acc.len() != 0 {
            assert(acc.deep_view().len() != 0);
        }
    }
    if s[j] != QUOTE {
        return None;
    }
    match px_string_body(s, j + 1) {
        None => None,
        Some((cb, k)) => {
            if !(j < k) {
                return None;
            }
            match crate::text::string_from_utf8(cb) {
                None => None,
                Some(t) => {
                    let m = px_ws(s, k);
                    if m >= s.len() {
                        return None;
                    }
                    let ghost acc0 = acc.deep_view();
                    let ghost tv = t@;
                    let mut acc = acc;
                    if s[m] == COMMA {
                        acc.push(t);
                        proof {
                            assert(acc.deep_view() =~= acc0.push(tv));
                        }
                        px_strings(s, m + 1, acc)
                    } else if s[m] == RBRACKET {
                        acc.push(t);
                        proof {
                            assert(acc.deep_view() =~= acc0.push(tv));
                        }
                        Some((acc, m + 1))
                    } else {
                        None
                    }
                },
            }
        },
    }
}

} // verus!
