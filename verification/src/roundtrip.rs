//! Reading back what was written: the persisted document reader
//! restores exactly the records the writer was given.
//!
//! The proofs walk the emitted bytes production by production, showing
//! at each step that the reader takes the intended branch; they end in
//! [`lemma_doc_round_trip`], the round-trip law for whole documents.

use vstd::prelude::*;

verus! {

use vstd::utf8::{encode_scalar, encode_utf8};
use crate::json::{
    escape_byte, escape_bytes, hex_digit, quoted, quoted_str, array_items, string_array,
    BACKSLASH, COLON, COMMA, QUOTE, RBRACKET,
};
use crate::parse::{
    hex4, hex4_ok, hex_val, is_hex, sp_string_body, sp_string_list, sp_strings, sp_ws,
};

/// The bytes of `s` from position `i` on.
pub open spec fn suffix(s: Seq<u8>, i: int) -> Seq<u8> {
    s.subrange(i, s.len() as int)
}

/// Stepping over a known prefix: when the suffix at `i` starts with
/// `a`, the bytes of `a` stand at `i` and the rest stands just after.
pub proof fn lemma_suffix_advance(s: Seq<u8>, i: int, a: Seq<u8>, r: Seq<u8>)
    requires
        0 <= i <= s.len(),
        suffix(s, i) == a + r,
    ensures
        i + a.len() <= s.len(),
        suffix(s, i + a.len()) == r,
        forall|k: int| 0 <= k < a.len() ==> s[i + k] == a[k],
        a.len() > 0 ==> s[i] == a[0],
{
    assert(suffix(s, i).len() == s.len() - i);
    assert forall|k: int| 0 <= k < a.len() implies s[i + k] == a[k] by {
        assert(suffix(s, i)[k] == s[i + k]);
        assert((a + r)[k] == a[k]);
    }
    assert forall|k: int| 0 <= k < r.len() implies suffix(s, i + a.len())[k] == r[k] by {
        assert(suffix(s, i + a.len())[k] == s[i + a.len() + k]);
        assert(suffix(s, i)[a.len() + k] == s[i + (a.len() + k)]);
        assert((a + r)[a.len() + k] == r[k]);
    }
    assert(suffix(s, i + a.len()) =~= r);
    if a.len() > 0 {
        assert(s[i + 0] == a[0]);
    }
}

/// `\u00XX` digits read back as the byte they were written for.
proof fn lemma_hex_digit_val(v: u8)
    requires
        v < 16,
    ensures
        is_hex(hex_digit(v)),
        hex_val(hex_digit(v)) == v,
{
}

/// A scalar below 0x80 encodes as the single byte of its value.
proof fn lemma_encode_scalar_small(v: u32)
    requires
        v < 0x80,
    ensures
        encode_scalar(v) == seq![v as u8],
{
    assert(v & 0x7F == v) by (bit_vector)
        requires
            v < 0x80,
    ;
}

/// The reader's string body undoes the writer's escaping: at a
/// position where the escaped bytes of `b` stand, followed by the
/// closing quote, the body read is `b` itself.
pub proof fn lemma_parse_escaped(s: Seq<u8>, i: int, b: Seq<u8>, tail: Seq<u8>)
    requires
        0 <= i <= s.len(),
        suffix(s, i) == escape_bytes(b) + seq![QUOTE] + tail,
    ensures
        sp_string_body(s, i) == Some((b, i + escape_bytes(b).len() + 1)),
    decreases b.len(),
{
    if b.len() == 0 {
        lemma_suffix_advance(s, i, seq![QUOTE], tail);
        assert(s[i] == QUOTE);
        assert(b =~= Seq::<u8>::empty());
    } else {
        let b0 = b[0];
        let e0 = escape_byte(b0);
        let brest = b.drop_first();
        assert(escape_bytes(b) == e0 + escape_bytes(brest));
        assert(suffix(s, i) =~= e0 + (escape_bytes(brest) + seq![QUOTE] + tail));
        lemma_suffix_advance(s, i, e0, escape_bytes(brest) + seq![QUOTE] + tail);
        lemma_parse_escaped(s, i + e0.len(), brest, tail);
        assert(seq![b0] + brest =~= b);
        if b0 == QUOTE || b0 == BACKSLASH {
            assert(s[i] == BACKSLASH && s[i + 1] == b0);
        } else if b0 < 0x20 {
            let hi = b0 / 16;
            let lo = b0 % 16;
            assert(s[i] == BACKSLASH && s[i + 1] == 0x75 && s[i + 2] == 0x30 && s[i + 3]
                == 0x30 && s[i + 4] == hex_digit(hi) && s[i + 5] == hex_digit(lo));
            lemma_hex_digit_val(hi);
            lemma_hex_digit_val(lo);
            assert(hex4_ok(s, i + 2));
            assert(hex4(s, i + 2) == hex_val(s[i + 4]) * 0x10 + hex_val(s[i + 5]));
            assert(hex4(s, i + 2) == b0);
            lemma_encode_scalar_small(b0 as u32);
            assert(encode_scalar((b0 as int) as u32) + brest =~= b);
        } else {
            assert(s[i] == b0);
        }
    }
}

/// A whole written string literal reads back as its content.
#[verifier::rlimit(100)]
pub proof fn lemma_parse_quoted(s: Seq<u8>, i: int, b: Seq<u8>, tail: Seq<u8>)
    requires
        0 <= i <= s.len(),
        suffix(s, i) == quoted(b) + tail,
    ensures
        i < s.len(),
        s[i] == QUOTE,
        sp_string_body(s, i + 1) == Some((b, i + quoted(b).len())),
        i + quoted(b).len() <= s.len(),
        suffix(s, i + quoted(b).len()) == tail,
    decreases b.len(),
{
    assert(quoted(b) + tail =~= seq![QUOTE] + (escape_bytes(b) + seq![QUOTE] + tail));
    lemma_suffix_advance(s, i, seq![QUOTE], escape_bytes(b) + seq![QUOTE] + tail);
    lemma_parse_escaped(s, i + 1, b, tail);
    assert(suffix(s, i) =~= quoted(b) + tail);
    lemma_suffix_advance(s, i, quoted(b), tail);
}

/// A written array of strings reads back element by element.
#[verifier::spinoff_prover]
#[verifier::rlimit(100)]
pub proof fn lemma_parse_strings(
    s: Seq<u8>,
    i: int,
    acc: Seq<Seq<char>>,
    ts: Seq<Seq<char>>,
    tail: Seq<u8>,
)
    requires
        0 <= i <= s.len(),
        suffix(s, i) == array_items(ts) + seq![RBRACKET] + tail,
        ts.len() == 0 ==> acc.len() == 0,
    ensures
        sp_strings(s, i, acc) == Some((acc + ts, i + array_items(ts).len() + 1)),
        i + array_items(ts).len() + 1 <= s.len(),
        suffix(s, i + array_items(ts).len() + 1) == tail,
    decreases ts.len(),
{
    broadcast use vstd::utf8::encode_utf8_valid_utf8, vstd::utf8::encode_utf8_decode_utf8;

    if ts.len() == 0 {
        assert(suffix(s, i) =~= seq![RBRACKET] + tail);
        lemma_suffix_advance(s, i, seq![RBRACKET], tail);
        assert(sp_ws(s, i) == i);
        assert(acc + ts =~= acc);
    } else {
        let t0 = ts[0];
        let b0 = encode_utf8(t0);
        let rest0: Seq<u8> = if ts.len() == 1 {
            seq![RBRACKET] + tail
        } else {
            seq![COMMA] + array_items(ts.drop_first()) + seq![RBRACKET] + tail
        };
        assert(suffix(s, i) =~= quoted(b0) + rest0);
        lemma_parse_quoted(s, i, b0, rest0);
        let w = i + quoted(b0).len();
        assert(sp_ws(s, i) == i);
        if ts.len() == 1 {
            lemma_suffix_advance(s, w, seq![RBRACKET], tail);
            assert(sp_ws(s, w) == w);
            assert(acc.push(t0) =~= acc + ts);
        } else {
            assert(suffix(s, w) =~= seq![COMMA] + (array_items(ts.drop_first()) + seq![
                RBRACKET,
            ] + tail));
            lemma_suffix_advance(
                s,
                w,
                seq![COMMA],
                array_items(ts.drop_first()) + seq![RBRACKET] + tail,
            );
            assert(sp_ws(s, w) == w);
            lemma_parse_strings(s, w + 1, acc.push(t0), ts.drop_first(), tail);
            assert(acc.push(t0) + ts.drop_first() =~= acc + ts);
        }
    }
}

/// A whole written array of strings reads back as its elements.
pub proof fn lemma_parse_string_list(s: Seq<u8>, i: int, ts: Seq<Seq<char>>, tail: Seq<u8>)
    requires
        0 <= i <= s.len(),
        suffix(s, i) == string_array(ts) + tail,
    ensures
        sp_string_list(s, i) == Some((ts, i + string_array(ts).len())),
        i + string_array(ts).len() <= s.len(),
        suffix(s, i + string_array(ts).len()) == tail,
{
    assert(suffix(s, i) =~= seq![crate::json::LBRACKET] + (array_items(ts) + seq![RBRACKET]
        + tail));
    lemma_suffix_advance(s, i, seq![crate::json::LBRACKET], array_items(ts) + seq![RBRACKET]
        + tail);
    lemma_parse_strings(s, i + 1, Seq::empty(), ts, tail);
    assert(Seq::<Seq<char>>::empty() + ts =~= ts);
}

/// A written `title` member value reads back into the first slot.
pub proof fn lemma_parse_title_member(
    s: Seq<u8>,
    m: int,
    t: Seq<char>,
    acc: (Seq<char>, Seq<Seq<char>>),
    tail: Seq<u8>,
)
    requires
        0 <= m,
        m + 1 <= s.len(),
        suffix(s, m + 1) == quoted_str(t) + tail,
    ensures
        crate::codec::sp_title_member(s, m, acc) == Some(
            ((t, acc.1), m + 1 + quoted_str(t).len()),
        ),
        m + 1 + quoted_str(t).len() <= s.len(),
        suffix(s, m + 1 + quoted_str(t).len()) == tail,
{
    broadcast use vstd::utf8::encode_utf8_valid_utf8, vstd::utf8::encode_utf8_decode_utf8;

    lemma_parse_quoted(s, m + 1, encode_utf8(t), tail);
    assert(sp_ws(s, m + 1) == m + 1);
}

/// A written `cmds` member value reads back into the second slot.
pub proof fn lemma_parse_cmds_member(
    s: Seq<u8>,
    m: int,
    cs: Seq<Seq<char>>,
    acc: (Seq<char>, Seq<Seq<char>>),
    tail: Seq<u8>,
)
    requires
        0 <= m,
        m + 1 <= s.len(),
        suffix(s, m + 1) == string_array(cs) + tail,
    ensures
        crate::codec::sp_cmds_member(s, m, acc) == Some(
            ((acc.0, cs), m + 1 + string_array(cs).len()),
        ),
        m + 1 + string_array(cs).len() <= s.len(),
        suffix(s, m + 1 + string_array(cs).len()) == tail,
{
    lemma_parse_string_list(s, m + 1, cs, tail);
    assert(s[m + 1] == crate::json::LBRACKET) by {
        lemma_suffix_advance(s, m + 1, string_array(cs), tail);
    }
    assert(sp_ws(s, m + 1) == m + 1);
}

/// The second half of a written record, from the comma before the
/// `cmds` member on: the member reads back into the second slot and the
/// record closes.
#[verifier::spinoff_prover]
#[verifier::rlimit(100)]
proof fn lemma_parse_record_tail(
    s: Seq<u8>,
    w1: int,
    t: Seq<char>,
    cs: Seq<Seq<char>>,
    tail: Seq<u8>,
)
    requires
        0 <= w1 <= s.len(),
        suffix(s, w1) == seq![COMMA] + (quoted(crate::json::cmds_key()) + (seq![COLON] + (
        string_array(cs) + (seq![crate::json::RBRACE] + tail)))),
    ensures
        crate::codec::sp_member_rest(s, w1, (t, Seq::empty())) == Some(
            (
                (t, cs),
                w1 + 1 + quoted(crate::json::cmds_key()).len() + 1 + string_array(cs).len()
                    + 1,
            ),
        ),
        w1 + 1 + quoted(crate::json::cmds_key()).len() + 1 + string_array(cs).len() + 1
            <= s.len(),
        suffix(
            s,
            w1 + 1 + quoted(crate::json::cmds_key()).len() + 1 + string_array(cs).len() + 1,
        ) == tail,
{
    crate::codec::lemma_keys_plain();
    let tk = crate::json::title_key();
    let ck = crate::json::cmds_key();
    let acc1: (Seq<char>, Seq<Seq<char>>) = (t, Seq::empty());

    let rest5 = quoted(ck) + (seq![COLON] + (string_array(cs) + (seq![crate::json::RBRACE]
        + tail)));
    lemma_suffix_advance(s, w1, seq![COMMA], rest5);
    assert(sp_ws(s, w1) == w1);

    let rest6 = seq![COLON] + (string_array(cs) + (seq![crate::json::RBRACE] + tail));
    lemma_parse_quoted(s, w1 + 1, ck, rest6);
    let k2 = w1 + 1 + quoted(ck).len();
    assert(sp_ws(s, w1 + 1) == w1 + 1);

    let rest7 = string_array(cs) + (seq![crate::json::RBRACE] + tail);
    lemma_suffix_advance(s, k2, seq![COLON], rest7);
    assert(sp_ws(s, k2) == k2);

    let rest8 = seq![crate::json::RBRACE] + tail;
    lemma_parse_cmds_member(s, k2, cs, acc1, rest8);
    let w2 = k2 + 1 + string_array(cs).len();

    lemma_suffix_advance(s, w2, seq![crate::json::RBRACE], tail);
    assert(sp_ws(s, w2) == w2);

    assert(tk != ck) by {
        assert(tk.len() == 5 && ck.len() == 4);
    }

    assert(crate::codec::sp_member_value(s, k2, ck, acc1) == Some(((t, cs), w2)));
    assert(crate::codec::sp_member_rest(s, w2, (t, cs)) == Some(((t, cs), w2 + 1)));
    assert(crate::codec::sp_members(s, w1 + 1, acc1, false) == Some(((t, cs), w2 + 1)));
}

/// The first half of a written record: the brace and the `title`
/// member read back into the first slot, leaving the reader just
/// before the comma.
#[verifier::spinoff_prover]
#[verifier::rlimit(100)]
proof fn lemma_parse_record_head(
    s: Seq<u8>,
    i: int,
    t: Seq<char>,
    cs: Seq<Seq<char>>,
    tail: Seq<u8>,
)
    requires
        0 <= i <= s.len(),
        suffix(s, i) == crate::codec::record_json(t, cs) + tail,
    ensures
        ({
            let w1 = i + 1 + quoted(crate::json::title_key()).len() + 1 + quoted_str(
                t,
            ).len();
            &&& crate::codec::sp_record(s, i) == crate::codec::sp_member_rest(
                s,
                w1,
                (t, Seq::empty()),
            )
            &&& w1 <= s.len()
            &&& suffix(s, w1) == seq![COMMA] + (quoted(crate::json::cmds_key()) + (seq![
                COLON,
            ] + (string_array(cs) + (seq![crate::json::RBRACE] + tail))))
        }),
{
    crate::codec::lemma_keys_plain();
    let tk = crate::json::title_key();
    let ck = crate::json::cmds_key();
    let acc0: (Seq<char>, Seq<Seq<char>>) = (Seq::empty(), Seq::empty());

    let rest1 = quoted(tk) + (seq![COLON] + (quoted_str(t) + (seq![COMMA] + (quoted(ck) + (
    seq![COLON] + (string_array(cs) + (seq![crate::json::RBRACE] + tail)))))));
    assert(suffix(s, i) =~= seq![crate::json::LBRACE] + rest1);
    lemma_suffix_advance(s, i, seq![crate::json::LBRACE], rest1);

    let rest2 = seq![COLON] + (quoted_str(t) + (seq![COMMA] + (quoted(ck) + (seq![COLON] + (
    string_array(cs) + (seq![crate::json::RBRACE] + tail))))));
    lemma_parse_quoted(s, i + 1, tk, rest2);
    let k = i + 1 + quoted(tk).len();
    assert(sp_ws(s, i + 1) == i + 1);

    let rest3 = quoted_str(t) + (seq![COMMA] + (quoted(ck) + (seq![COLON] + (string_array(cs)
        + (seq![crate::json::RBRACE] + tail)))));
    lemma_suffix_advance(s, k, seq![COLON], rest3);
    assert(sp_ws(s, k) == k);

    let rest4 = seq![COMMA] + (quoted(ck) + (seq![COLON] + (string_array(cs) + (seq![
        crate::json::RBRACE,
    ] + tail))));
    lemma_parse_title_member(s, k, t, acc0, rest4);
    let w1 = k + 1 + quoted_str(t).len();
    let acc1: (Seq<char>, Seq<Seq<char>>) = (t, Seq::empty());

    assert(crate::codec::sp_member_value(s, k, tk, acc0) == Some((acc1, w1)));
    assert(crate::codec::sp_members(s, i + 1, acc0, true) == crate::codec::sp_member_rest(
        s,
        w1,
        acc1,
    ));
}

/// A whole written record reads back as its title and tokens.
#[verifier::spinoff_prover]
#[verifier::rlimit(100)]
pub proof fn lemma_parse_record(
    s: Seq<u8>,
    i: int,
    t: Seq<char>,
    cs: Seq<Seq<char>>,
    tail: Seq<u8>,
)
    requires
        0 <= i <= s.len(),
        suffix(s, i) == crate::codec::record_json(t, cs) + tail,
    ensures
        crate::codec::sp_record(s, i) == Some(
            ((t, cs), i + crate::codec::record_json(t, cs).len()),
        ),
        i + crate::codec::record_json(t, cs).len() <= s.len(),
        suffix(s, i + crate::codec::record_json(t, cs).len()) == tail,
{
    crate::codec::lemma_keys_plain();
    let tk = crate::json::title_key();
    let ck = crate::json::cmds_key();
    lemma_parse_record_head(s, i, t, cs, tail);
    let w1 = i + 1 + quoted(tk).len() + 1 + quoted_str(t).len();
    lemma_parse_record_tail(s, w1, t, cs, tail);
    assert(i + crate::codec::record_json(t, cs).len() == w1 + 1 + quoted(ck).len() + 1
        + string_array(cs).len() + 1);
}

/// Written records read back one after another.
#[verifier::spinoff_prover]
#[verifier::rlimit(100)]
pub proof fn lemma_parse_records(
    s: Seq<u8>,
    i: int,
    acc: Seq<(Seq<char>, Seq<Seq<char>>)>,
    rs: Seq<(Seq<char>, Seq<Seq<char>>)>,
    first: bool,
    tail: Seq<u8>,
)
    requires
        0 <= i <= s.len(),
        suffix(s, i) == crate::codec::doc_items(rs) + (seq![RBRACKET] + tail),
        rs.len() == 0 ==> first,
    ensures
        crate::codec::sp_records(s, i, acc, first) == Some(
            (acc + rs, i + crate::codec::doc_items(rs).len() + 1),
        ),
        i + crate::codec::doc_items(rs).len() + 1 <= s.len(),
        suffix(s, i + crate::codec::doc_items(rs).len() + 1) == tail,
    decreases rs.len(),
{
    if rs.len() == 0 {
        assert(suffix(s, i) =~= seq![RBRACKET] + tail);
        lemma_suffix_advance(s, i, seq![RBRACKET], tail);
        assert(sp_ws(s, i) == i);
        assert(acc + rs =~= acc);
    } else {
        let r0 = rs[0];
        let rj = crate::codec::record_json(r0.0, r0.1);
        let rest0: Seq<u8> = if rs.len() == 1 {
            seq![RBRACKET] + tail
        } else {
            seq![COMMA] + (crate::codec::doc_items(rs.drop_first()) + (seq![RBRACKET] + tail))
        };
        assert(suffix(s, i) =~= rj + rest0);
        lemma_parse_record(s, i, r0.0, r0.1, rest0);
        let w = i + rj.len();
        assert(s[i] == crate::json::LBRACE) by {
            lemma_suffix_advance(s, i, rj, rest0);
        }
        assert(sp_ws(s, i) == i);
        assert((r0.0, r0.1) == r0);
        if rs.len() == 1 {
            lemma_suffix_advance(s, w, seq![RBRACKET], tail);
            assert(sp_ws(s, w) == w);
            assert(acc.push(r0) =~= acc + rs);
        } else {
            lemma_suffix_advance(
                s,
                w,
                seq![COMMA],
                crate::codec::doc_items(rs.drop_first()) + (seq![RBRACKET] + tail),
            );
            assert(sp_ws(s, w) == w);
            lemma_parse_records(s, w + 1, acc.push(r0), rs.drop_first(), false, tail);
            assert(acc.push(r0) + rs.drop_first() =~= acc + rs);
        }
    }
}


/// The round-trip law: a document written for any record list reads
/// back as exactly that record list.  Saving a command list and loading
/// the file it produced therefore restores every command's title and
/// active tokens; only the ids differ, as they are never persisted.
pub proof fn lemma_doc_round_trip(rs: Seq<(Seq<char>, Seq<Seq<char>>)>)
    ensures
        crate::codec::sp_doc(crate::codec::doc_json(rs)) == Some(rs),
{
    let s = crate::codec::doc_json(rs);
    assert(suffix(s, 0) =~= seq![crate::json::LBRACKET] + (crate::codec::doc_items(rs) + seq![
        RBRACKET,
    ]));
    lemma_suffix_advance(s, 0, seq![crate::json::LBRACKET], crate::codec::doc_items(rs) + seq![
        RBRACKET,
    ]);
    assert(sp_ws(s, 0) == 0);
    lemma_parse_records(s, 1, Seq::empty(), rs, true, Seq::empty());
    assert(Seq::<(Seq<char>, Seq<Seq<char>>)>::empty() + rs =~= rs);
    let k: int = 1 + crate::codec::doc_items(rs).len() as int + 1;
    assert(k == s.len());
    assert(sp_ws(s, k) == k);
}

/// The same law in the vocabulary of command lists: saving a list and
/// loading the bytes it produced restores every command's record — its
/// title and its active tokens, in order.  Only the opaque ids differ,
/// as they are never persisted.
pub proof fn lemma_save_load_round_trip(cs: Seq<crate::command::Command>)
    ensures
        crate::codec::sp_doc(crate::codec::doc_json(crate::codec::records_of(cs))) == Some(
            crate::codec::records_of(cs),
        ),
{
    lemma_doc_round_trip(crate::codec::records_of(cs));
}

} // verus!
