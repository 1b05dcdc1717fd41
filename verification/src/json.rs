//! The JSON text this crate writes: string escaping and arrays of
//! strings, at the byte level.
//!
//! Strings are handled as their UTF-8 bytes.  A byte below 0x20 is
//! escaped as `\u00XX`, the quote and the backslash get a backslash, and
//! every other byte — including every continuation byte of a multi-byte
//! character — passes through unchanged, which keeps the output valid
//! UTF-8.

use vstd::prelude::*;

verus! {

use vstd::utf8::encode_utf8;

pub const QUOTE: u8 = 0x22;
pub const BACKSLASH: u8 = 0x5c;
pub const COMMA: u8 = 0x2c;
pub const COLON: u8 = 0x3a;
pub const LBRACKET: u8 = 0x5b;
pub const RBRACKET: u8 = 0x5d;
pub const LBRACE: u8 = 0x7b;
pub const RBRACE: u8 = 0x7d;
pub const NEWLINE: u8 = 0x0a;

/// The lower-case hex digit for a value below 16.
pub open spec fn hex_digit(v: u8) -> u8
    recommends
        v < 16,
{
    if v < 10 {
        (0x30 + v) as u8
    } else {
        (0x57 + v) as u8
    }
}

/// How one byte of string content is written: `\"`, `\\`, `\u00XX` for
/// control bytes, and the byte itself otherwise.
pub open spec fn escape_byte(b: u8) -> Seq<u8> {
    if b == QUOTE {
        seq![BACKSLASH, QUOTE]
    } else if b == BACKSLASH {
        seq![BACKSLASH, BACKSLASH]
    } else if b < 0x20 {
        seq![BACKSLASH, 0x75, 0x30, 0x30, hex_digit(b / 16), hex_digit(b % 16)]
    } else {
        seq![b]
    }
}

pub open spec fn escape_bytes(s: Seq<u8>) -> Seq<u8>
    decreases s.len(),
{
    if s.len() == 0 {
        Seq::empty()
    } else {
        escape_byte(s[0]) + escape_bytes(s.drop_first())
    }
}

/// A JSON string literal holding the given content bytes.
pub open spec fn quoted(s: Seq<u8>) -> Seq<u8> {
    seq![QUOTE] + escape_bytes(s) + seq![QUOTE]
}

/// A JSON string literal holding the given text.
pub open spec fn quoted_str(t: Seq<char>) -> Seq<u8> {
    quoted(encode_utf8(t))
}

/// The comma-separated items of a JSON array of strings.
pub open spec fn array_items(ts: Seq<Seq<char>>) -> Seq<u8>
    decreases ts.len(),
{
    if ts.len() == 0 {
        Seq::empty()
    } else if ts.len() == 1 {
        quoted_str(ts[0])
    } else {
        quoted_str(ts[0]) + seq![COMMA] + array_items(ts.drop_first())
    }
}

/// A JSON array of strings.
pub open spec fn string_array(ts: Seq<Seq<char>>) -> Seq<u8> {
    seq![LBRACKET] + array_items(ts) + seq![RBRACKET]
}

/// The bytes of the object key `title`.
pub open spec fn title_key() -> Seq<u8> {
    seq![0x74, 0x69, 0x74, 0x6c, 0x65]
}

/// The bytes of the object key `cmds`.
pub open spec fn cmds_key() -> Seq<u8> {
    seq![0x63, 0x6d, 0x64, 0x73]
}

/// The bytes of the object key `command`.
pub open spec fn command_key() -> Seq<u8> {
    seq![0x63, 0x6f, 0x6d, 0x6d, 0x61, 0x6e, 0x64]
}

pub proof fn lemma_escape_bytes_snoc(s: Seq<u8>, b: u8)
    ensures
        escape_bytes(s.push(b)) == escape_bytes(s) + escape_byte(b),
    decreases s.len(),
{
    if s.len() == 0 {
        assert(s.push(b)[0] == b);
        assert(s.push(b).drop_first() =~= s);
        assert(escape_bytes(s.push(b)) =~= escape_bytes(s) + escape_byte(b));
    } else {
        lemma_escape_bytes_snoc(s.drop_first(), b);
        assert(s.push(b).drop_first() =~= s.drop_first().push(b));
        assert(escape_bytes(s.push(b)) =~= escape_bytes(s) + escape_byte(b));
    }
}

/// Bytes that need no escaping are written as they stand.
pub proof fn lemma_escape_bytes_plain(s: Seq<u8>)
    requires
        forall|k: int|
            0 <= k < s.len() ==> 0x20 <= s[k] && s[k] != QUOTE && s[k] != BACKSLASH,
    ensures
        escape_bytes(s) == s,
    decreases s.len(),
{
    if s.len() == 0 {
        assert(escape_bytes(s) =~= s);
    } else {
        lemma_escape_bytes_plain(s.drop_first());
        assert(escape_bytes(s) =~= s);
    }
}

pub proof fn lemma_array_items_snoc(ts: Seq<Seq<char>>, t: Seq<char>)
    requires
        ts.len() >= 1,
    ensures
        array_items(ts.push(t)) == array_items(ts) + seq![COMMA] + quoted_str(t),
    decreases ts.len(),
{
    if ts.len() == 1 {
        assert(ts.push(t).drop_first() =~= seq![t]);
        assert(array_items(seq![t]) == quoted_str(seq![t][0]));
        assert(array_items(ts.push(t)) =~= array_items(ts) + seq![COMMA] + quoted_str(t));
    } else {
        lemma_array_items_snoc(ts.drop_first(), t);
        assert(ts.push(t).drop_first() =~= ts.drop_first().push(t));
        assert(array_items(ts.push(t)) =~= array_items(ts) + seq![COMMA] + quoted_str(t));
    }
}

fn hex_digit_of(v: u8) -> (r: u8)
    requires
        v < 16,
    ensures
        r == hex_digit(v),
{
    if v < 10 {
        0x30 + v
    } else {
        0x57 + v
    }
}

/// Appends the escaped content bytes of `s` (no surrounding quotes).
pub fn write_escaped(out: &mut Vec<u8>, s: &str)
    ensures
        final(out)@ == old(out)@ + escape_bytes(encode_utf8(s@)),
{
    let bs = s.as_bytes();
    let mut i: usize = 0;
    while i < bs.len()
        invariant
            i <= bs.len(),
            out@ == old(out)@ + escape_bytes(bs@.take(i as int)),
            bs@ == encode_utf8(s@),
        decreases bs.len() - i,
    {
        let ghost done = bs@.take(i as int);
        let b = bs[i];
        if b == QUOTE {
            out.push(BACKSLASH);
            out.push(QUOTE);
        } else if b == BACKSLASH {
            out.push(BACKSLASH);
            out.push(BACKSLASH);
        } else if b < 0x20 {
            out.push(BACKSLASH);
            out.push(0x75);
            out.push(0x30);
            out.push(0x30);
            out.push(hex_digit_of(b / 16));
            out.push(hex_digit_of(b % 16));
        } else {
            out.push(b);
        }
        proof {
            lemma_escape_bytes_snoc(done, b);
            assert(bs@.take(i + 1) =~= done.push(b));
            assert(out@ =~= old(out)@ + escape_bytes(done) + escape_byte(b));
        }
        i = i + 1;
    }
    proof {
        assert(bs@.take(bs@.len() as int) =~= bs@);
    }
}

/// Appends the JSON string literal holding `s`.
pub fn write_quoted(out: &mut Vec<u8>, s: &str)
    ensures
        final(out)@ == old(out)@ + quoted_str(s@),
{
    out.push(QUOTE);
    write_escaped(out, s);
    out.push(QUOTE);
    proof {
        assert(out@ =~= old(out)@ + quoted_str(s@));
    }
}

/// Appends a JSON array holding the given strings in order.
pub fn write_string_array(out: &mut Vec<u8>, ts: &Vec<String>)
    ensures
        final(out)@ == old(out)@ + string_array(ts.deep_view()),
{
    out.push(LBRACKET);
    let mut i: usize = 0;
    while i < ts.len()
        invariant
            i <= ts.len(),
            out@ == old(out)@ + seq![LBRACKET] + array_items(ts.deep_view().take(i as int)),
        decreases ts.len() - i,
    {
        let ghost done = ts.deep_view().take(i as int);
        if i > 0 {
            out.push(COMMA);
        }
        write_quoted(out, ts[i].as_str());
        proof {
            assert(ts.deep_view().take(i + 1) =~= done.push(ts.deep_view()[i as int]));
            if i > 0 {
                lemma_array_items_snoc(done, ts.deep_view()[i as int]);
                assert(out@ =~= old(out)@ + seq![LBRACKET] + (array_items(done) + seq![COMMA]
                    + quoted_str(ts.deep_view()[i as int])));
            } else {
                assert(done.push(ts.deep_view()[0]) =~= seq![ts.deep_view()[0]]);
                assert(array_items(seq![ts.deep_view()[0]]) == quoted_str(ts.deep_view()[0]));
                assert(out@ =~= old(out)@ + seq![LBRACKET] + array_items(
                    ts.deep_view().take(1),
                ));
            }
        }
        i = i + 1;
    }
    out.push(RBRACKET);
    proof {
        assert(ts.deep_view().take(ts.deep_view().len() as int) =~= ts.deep_view());
        assert(out@ =~= old(out)@ + string_array(ts.deep_view()));
    }
}

} // verus!
