//! The persisted command file: a JSON array of records
//! `{"title": ..., "cmds": [...]}`, written compactly and read
//! leniently.
//!
//! Writing is specified by [`doc_json`]; reading by [`sp_doc`], which
//! tolerates whitespace, member order, unknown members and every JSON
//! escape.  Reading back what was written restores every record
//! exactly; ids are assigned afresh, as they are never persisted.

use vstd::prelude::*;

verus! {

use vstd::utf8::{decode_utf8, valid_utf8};
use crate::command::Command;
use crate::json::{
    cmds_key, quoted, quoted_str, string_array, title_key, COLON, COMMA, LBRACE, LBRACKET,
    QUOTE, RBRACE, RBRACKET,
};
use crate::parse::{px_string_body, px_ws, sp_string_body, sp_string_list, sp_skip_value, sp_ws};

/// Why a persisted command list could not be handled.
#[derive(Debug)]
pub enum PersistenceError {
    /// The document is not a command list this reader accepts.
    Malformed,
    /// The file could not be opened, read, created or written; the
    /// detail text comes from the caller that performed the I/O.
    File(String),
}

impl PersistenceError {
    /// A short human-readable account, shown in the status bar.
    pub fn describe(&self) -> (r: String)
        ensures
            self is Malformed ==> r@ == "can't decode"@,
            self matches PersistenceError::File(d) ==> r@ == "can't use file: "@ + d@,
    {
        match self {
            PersistenceError::Malformed => "can't decode".to_owned(),
            PersistenceError::File(d) => {
                let mut r = "can't use file: ".to_owned();
                crate::text::push_str(&mut r, d.as_str());
                r
            },
        }
    }
}

/// The record a command is persisted as: its title and active tokens.
pub open spec fn record_of(c: Command) -> (Seq<char>, Seq<Seq<char>>) {
    (c.title_view(), c.active())
}

/// The records of a command list, in order.
pub open spec fn records_of(cs: Seq<Command>) -> Seq<(Seq<char>, Seq<Seq<char>>)> {
    cs.map(|i: int, c: Command| record_of(c))
}

/// One written record: `{"title":...,"cmds":[...]}`.
pub open spec fn record_json(t: Seq<char>, cs: Seq<Seq<char>>) -> Seq<u8> {
    seq![LBRACE] + quoted(title_key()) + seq![COLON] + quoted_str(t) + seq![COMMA] + quoted(
        cmds_key(),
    ) + seq![COLON] + string_array(cs) + seq![RBRACE]
}

/// The comma-separated records of a written document.
pub open spec fn doc_items(rs: Seq<(Seq<char>, Seq<Seq<char>>)>) -> Seq<u8>
    decreases rs.len(),
{
    if rs.len() == 0 {
        Seq::empty()
    } else if rs.len() == 1 {
        record_json(rs[0].0, rs[0].1)
    } else {
        record_json(rs[0].0, rs[0].1) + seq![COMMA] + doc_items(rs.drop_first())
    }
}

/// The whole written document: a JSON array of records.
pub open spec fn doc_json(rs: Seq<(Seq<char>, Seq<Seq<char>>)>) -> Seq<u8> {
    seq![LBRACKET] + doc_items(rs) + seq![RBRACKET]
}

/// A member value that must be a string holding valid UTF-8, starting
/// exactly at `v`.
pub open spec fn sp_title_value(s: Seq<u8>, v: int) -> Option<(Seq<char>, int)> {
    if !(0 <= v < s.len()) {
        None
    } else if s[v] != QUOTE {
        None
    } else {
        match sp_string_body(s, v + 1) {
            None => None,
            Some((tb, w)) => {
                if !valid_utf8(tb) {
                    None
                } else {
                    Some((decode_utf8(tb), w))
                }
            },
        }
    }
}

/// A `title` member after its colon at `m`: a string value into the
/// first accumulator slot.
pub open spec fn sp_title_member(
    s: Seq<u8>,
    m: int,
    acc: (Seq<char>, Seq<Seq<char>>),
) -> Option<((Seq<char>, Seq<Seq<char>>), int)> {
    let v = sp_ws(s, m + 1);
    if !(m < v) {
        None
    } else {
        match sp_title_value(s, v) {
            None => None,
            Some((t, w)) => {
                if !(v < w) {
                    None
                } else {
                    Some(((t, acc.1), w))
                }
            },
        }
    }
}

/// A `cmds` member after its colon at `m`: an array of strings into the
/// second accumulator slot.
pub open spec fn sp_cmds_member(
    s: Seq<u8>,
    m: int,
    acc: (Seq<char>, Seq<Seq<char>>),
) -> Option<((Seq<char>, Seq<Seq<char>>), int)> {
    let v = sp_ws(s, m + 1);
    if !(m < v) {
        None
    } else {
        match sp_string_list(s, v) {
            None => None,
            Some((cs, w)) => {
                if !(v < w) {
                    None
                } else {
                    Some(((acc.0, cs), w))
                }
            },
        }
    }
}

/// Any other member after its colon at `m`: its value is skipped unread
/// and the accumulator stands.
pub open spec fn sp_other_member(
    s: Seq<u8>,
    m: int,
    acc: (Seq<char>, Seq<Seq<char>>),
) -> Option<((Seq<char>, Seq<Seq<char>>), int)> {
    match sp_skip_value(s, m + 1) {
        None => None,
        Some(w) => {
            if !(m < w) {
                None
            } else {
                Some((acc, w))
            }
        },
    }
}

/// One member's value, chosen by its key: `title` takes a string into
/// the first accumulator slot, `cmds` an array of strings into the
/// second, and any other key has its value skipped unread.
pub open spec fn sp_member_value(
    s: Seq<u8>,
    m: int,
    key: Seq<u8>,
    acc: (Seq<char>, Seq<Seq<char>>),
) -> Option<((Seq<char>, Seq<Seq<char>>), int)> {
    if key == title_key() {
        sp_title_member(s, m, acc)
    } else if key == cmds_key() {
        sp_cmds_member(s, m, acc)
    } else {
        sp_other_member(s, m, acc)
    }
}

/// The members of one record object whose `{` stands just before `i`,
/// folded over `acc`: a later duplicate member overwrites an earlier
/// one, and a missing member leaves its default in place.
pub open spec fn sp_members(
    s: Seq<u8>,
    i: int,
    acc: (Seq<char>, Seq<Seq<char>>),
    first: bool,
) -> Option<((Seq<char>, Seq<Seq<char>>), int)>
    decreases s.len() - i, 1int,
{
    let j = sp_ws(s, i);
    if !(i <= j < s.len()) {
        None
    } else if s[j] == RBRACE && first {
        Some((acc, j + 1))
    } else if s[j] == QUOTE {
        match sp_string_body(s, j + 1) {
            None => None,
            Some((key, k)) => {
                if !(j < k) {
                    None
                } else {
                    let m = sp_ws(s, k);
                    if !(k <= m < s.len()) {
                        None
                    } else if s[m] != COLON {
                        None
                    } else {
                        match sp_member_value(s, m, key, acc) {
                            None => None,
                            Some((acc2, w)) => {
                                if !(m < w && w <= s.len()) {
                                    None
                                } else {
                                    sp_member_rest(s, w, acc2)
                                }
                            },
                        }
                    }
                }
            },
        }
    } else {
        None
    }
}

/// After one member: either a comma and further members, or the closing
/// brace.
pub open spec fn sp_member_rest(
    s: Seq<u8>,
    i: int,
    acc: (Seq<char>, Seq<Seq<char>>),
) -> Option<((Seq<char>, Seq<Seq<char>>), int)>
    decreases s.len() - i, 0int,
{
    let p = sp_ws(s, i);
    if !(i <= p < s.len()) {
        None
    } else if s[p] == COMMA {
        sp_members(s, p + 1, acc, false)
    } else if s[p] == RBRACE {
        Some((acc, p + 1))
    } else {
        None
    }
}

/// One record object starting exactly at `i`; a record with no members
/// yields an empty title and no tokens.
pub open spec fn sp_record(s: Seq<u8>, i: int) -> Option<((Seq<char>, Seq<Seq<char>>), int)> {
    if 0 <= i < s.len() && s[i] == LBRACE {
        sp_members(s, i + 1, (Seq::empty(), Seq::empty()), true)
    } else {
        None
    }
}

/// The records of the document array whose `[` stands just before `i`,
/// appended to `acc`.
pub open spec fn sp_records(
    s: Seq<u8>,
    i: int,
    acc: Seq<(Seq<char>, Seq<Seq<char>>)>,
    first: bool,
) -> Option<(Seq<(Seq<char>, Seq<Seq<char>>)>, int)>
    decreases s.len() - i,
{
    let j = sp_ws(s, i);
    if !(i <= j < s.len()) {
        None
    } else if s[j] == RBRACKET && first {
        Some((acc, j + 1))
    } else if s[j] == LBRACE {
        match sp_record(s, j) {
            None => None,
            Some((r, k)) => {
                if !(j < k) {
                    None
                } else {
                    let m = sp_ws(s, k);
                    if !(k <= m < s.len()) {
                        None
                    } else if s[m] == COMMA {
                        sp_records(s, m + 1, acc.push(r), false)
                    } else if s[m] == RBRACKET {
                        Some((acc.push(r), m + 1))
                    } else {
                        None
                    }
                }
            },
        }
    } else {
        None
    }
}

/// What a whole persisted document means: the record list, provided the
/// document is one array of records with nothing but whitespace around
/// it.
pub open spec fn sp_doc(s: Seq<u8>) -> Option<Seq<(Seq<char>, Seq<Seq<char>>)>> {
    let i = sp_ws(s, 0);
    if !(0 <= i < s.len()) {
        None
    } else if s[i] != LBRACKET {
        None
    } else {
        match sp_records(s, i + 1, Seq::empty(), true) {
            None => None,
            Some((rs, k)) => {
                if sp_ws(s, k) == s.len() {
                    Some(rs)
                } else {
                    None
                }
            },
        }
    }
}

/// How an executable record parse relates to its specification.
pub open spec fn record_result_matches(
    r: Option<((String, Vec<String>), usize)>,
    sp: Option<((Seq<char>, Seq<Seq<char>>), int)>,
) -> bool {
    match r {
        None => sp is None,
        Some(((t, cs), j)) => sp matches Some(p) && p.0.0 == t@ && p.0.1 == cs.deep_view()
            && p.1 == j as int,
    }
}

/// How an executable document parse relates to its specification: the
/// commands built carry exactly the records read, ids aside.
pub open spec fn commands_result_matches(
    r: Option<(Vec<Command>, usize)>,
    sp: Option<(Seq<(Seq<char>, Seq<Seq<char>>)>, int)>,
) -> bool {
    match r {
        None => sp is None,
        Some((v, j)) => sp matches Some(p) && records_of(v@) == p.0 && p.1 == j as int,
    }
}

fn is_title_key(k: &Vec<u8>) -> (r: bool)
    ensures
        r == (k@ == title_key()),
{
    let r = k.len() == 5 && k[0] == 0x74 && k[1] == 0x69 && k[2] == 0x74 && k[3] == 0x6c && k[4]
        == 0x65;
    proof {
        if r {
            assert(k@ =~= title_key());
        } else {
            assert(k@ != title_key());
        }
    }
    r
}

fn is_cmds_key(k: &Vec<u8>) -> (r: bool)
    ensures
        r == (k@ == cmds_key()),
{
    let r = k.len() == 4 && k[0] == 0x63 && k[1] == 0x6d && k[2] == 0x64 && k[3] == 0x73;
    proof {
        if r {
            assert(k@ =~= cmds_key());
        } else {
            assert(k@ != cmds_key());
        }
    }
    r
}

/// The executable twin of [`sp_title_member`].
fn px_title_member(s: &[u8], m: usize, title: String, cmds: Vec<String>) -> (r: Option<
    ((String, Vec<String>), usize),
>)
    requires
        m < s@.len(),
    ensures
        record_result_matches(r, sp_title_member(s@, m as int, (title@, cmds.deep_view()))),
{
    if m >= s.len() {
        return None;
    }
    let v = px_ws(s, m + 1);
    if v >= s.len() {
        return None;
    }
    if s[v] != QUOTE {
        return None;
    }
    match px_string_body(s, v + 1) {
        None => None,
        Some((tb, w)) => {
            match crate::text::string_from_utf8(tb) {
                None => None,
                Some(t) => {
                    if !(v < w) {
                        return None;
                    }
                    Some(((t, cmds), w))
                },
            }
        },
    }
}

/// The executable twin of [`sp_cmds_member`].
fn px_cmds_member(s: &[u8], m: usize, title: String, cmds: Vec<String>) -> (r: Option<
    ((String, Vec<String>), usize),
>)
    requires
        m < s@.len(),
    ensures
        record_result_matches(r, sp_cmds_member(s@, m as int, (title@, cmds.deep_view()))),
{
    if m >= s.len() {
        return None;
    }
    let v = px_ws(s, m + 1);
    match crate::parse::px_string_list(s, v) {
        None => None,
        Some((cs, w)) => {
            if !(v < w) {
                return None;
            }
            Some(((title, cs), w))
        },
    }
}

/// The executable twin of [`sp_other_member`].
#[verifier::rlimit(100)]
fn px_other_member(s: &[u8], m: usize, title: String, cmds: Vec<String>) -> (r: Option<
    ((String, Vec<String>), usize),
>)
    requires
        m < s@.len(),
    ensures
        record_result_matches(r, sp_other_member(s@, m as int, (title@, cmds.deep_view()))),
{
    if m >= s.len() {
        return None;
    }
    match crate::parse::px_skip_value(s, m + 1) {
        None => None,
        Some(w) => {
            if !(m < w) {
                return None;
            }
            Some(((title, cmds), w))
        },
    }
}

/// The executable twin of [`sp_member_value`].
fn px_member_value(s: &[u8], m: usize, key: &Vec<u8>, title: String, cmds: Vec<String>) -> (r:
    Option<((String, Vec<String>), usize)>)
    requires
        m < s@.len(),
    ensures
        record_result_matches(
            r,
            sp_member_value(s@, m as int, key@, (title@, cmds.deep_view())),
        ),
{
    if is_title_key(key) {
        px_title_member(s, m, title, cmds)
    } else if is_cmds_key(key) {
        px_cmds_member(s, m, title, cmds)
    } else {
        px_other_member(s, m, title, cmds)
    }
}

/// The executable twin of [`sp_members`].
fn px_members(s: &[u8], i: usize, title: String, cmds: Vec<String>, first: bool) -> (r: Option<
    ((String, Vec<String>), usize),
>)
    ensures
        record_result_matches(r, sp_members(s@, i as int, (title@, cmds.deep_view()), first)),
    decreases s@.len() - i, 1int,
{
    let j = px_ws(s, i);
    if j >= s.len() {
        return None;
    }
    if s[j] == RBRACE && first {
        return Some(((title, cmds), j + 1));
    }
    if s[j] != QUOTE {
        return None;
    }
    match px_string_body(s, j + 1) {
        None => None,
        Some((key, k)) => {
            if !(j < k) {
                return None;
            }
            let m = px_ws(s, k);
            if m >= s.len() {
                return None;
            }
            if s[m] != COLON {
                return None;
            }
            match px_member_value(s, m, &key, title, cmds) {
                None => None,
                Some(((t2, c2), w)) => {
                    if !(m < w && w <= s.len()) {
                        return None;
                    }
                    px_member_rest(s, w, t2, c2)
                },
            }
        },
    }
}

/// The executable twin of [`sp_member_rest`].
fn px_member_rest(s: &[u8], i: usize, title: String, cmds: Vec<String>) -> (r: Option<
    ((String, Vec<String>), usize),
>)
    ensures
        record_result_matches(r, sp_member_rest(s@, i as int, (title@, cmds.deep_view()))),
    decreases s@.len() - i, 0int,
{
    let p = px_ws(s, i);
    if p >= s.len() {
        return None;
    }
    if s[p] == COMMA {
        px_members(s, p + 1, title, cmds, false)
    } else if s[p] == RBRACE {
        Some(((title, cmds), p + 1))
    } else {
        None
    }
}

/// The executable twin of [`sp_record`].
fn px_record(s: &[u8], i: usize) -> (r: Option<((String, Vec<String>), usize)>)
    ensures
        record_result_matches(r, sp_record(s@, i as int)),
{
    if i >= s.len() || s[i] != LBRACE {
        return None;
    }
    let title = String::new();
    let cmds: Vec<String> = Vec::new();
    proof {
        assert(cmds.deep_view() =~= Seq::<Seq<char>>::empty());
    }
    px_members(s, i + 1, title, cmds, true)
}

/// The executable twin of [`sp_records`]: each record read becomes a
/// command with a fresh id.
fn px_records(s: &[u8], i: usize, acc: Vec<Command>, first: bool) -> (r: Option<
    (Vec<Command>, usize),
>)
    ensures
        commands_result_matches(r, sp_records(s@, i as int, records_of(acc@), first)),
    decreases s@.len() - i,
{
    let j = px_ws(s, i);
    if j >= s.len() {
        return None;
    }
    if s[j] == RBRACKET && first {
        return Some((acc, j + 1));
    }
    if s[j] != LBRACE {
        return None;
    }
    match px_record(s, j) {
        None => None,
        Some(((t, cs), k)) => {
            if !(j < k) {
                return None;
            }
            let m = px_ws(s, k);
            if m >= s.len() {
                return None;
            }
            let ghost acc0 = records_of(acc@);
            let ghost rec = (t@, cs.deep_view());
            let mut acc = acc;
            let c = Command::from_record(t, cs);
            acc.push(c);
            proof {
                assert(records_of(acc@) =~= acc0.push(rec));
            }
            if s[m] == COMMA {
                px_records(s, m + 1, acc, false)
            } else if s[m] == RBRACKET {
                Some((acc, m + 1))
            } else {
                None
            }
        },
    }
}

/// Reads a persisted command list, as [`sp_doc`] says: a lenient JSON
/// array of records, each becoming a command with a fresh id.  Fails
/// with [`PersistenceError::Malformed`] on exactly the documents that
/// [`sp_doc`] rejects.
pub fn commands_from_json(s: &[u8]) -> (r: Result<Vec<Command>, PersistenceError>)
    ensures
        r is Ok <==> sp_doc(s@) is Some,
        r matches Ok(v) ==> Some(records_of(v@)) == sp_doc(s@),
        r matches Err(e) ==> e is Malformed,
{
    let i = px_ws(s, 0);
    if i >= s.len() {
        return Err(PersistenceError::Malformed);
    }
    if s[i] != LBRACKET {
        return Err(PersistenceError::Malformed);
    }
    let acc: Vec<Command> = Vec::new();
    proof {
        assert(records_of(acc@) =~= Seq::<(Seq<char>, Seq<Seq<char>>)>::empty());
    }
    match px_records(s, i + 1, acc, true) {
        None => Err(PersistenceError::Malformed),
        Some((v, k)) => {
            let q = px_ws(s, k);
            if q == s.len() {
                Ok(v)
            } else {
                Err(PersistenceError::Malformed)
            }
        },
    }
}

pub proof fn lemma_keys_plain()
    ensures
        crate::json::escape_bytes(title_key()) == title_key(),
        crate::json::escape_bytes(cmds_key()) == cmds_key(),
        crate::json::escape_bytes(crate::json::command_key()) == crate::json::command_key(),
{
    crate::json::lemma_escape_bytes_plain(title_key());
    crate::json::lemma_escape_bytes_plain(cmds_key());
    crate::json::lemma_escape_bytes_plain(crate::json::command_key());
}

fn write_title_key(out: &mut Vec<u8>)
    ensures
        final(out)@ == old(out)@ + quoted(title_key()),
{
    out.push(QUOTE);
    out.push(0x74);
    out.push(0x69);
    out.push(0x74);
    out.push(0x6c);
    out.push(0x65);
    out.push(QUOTE);
    proof {
        lemma_keys_plain();
        assert(out@ =~= old(out)@ + quoted(title_key()));
    }
}

fn write_cmds_key(out: &mut Vec<u8>)
    ensures
        final(out)@ == old(out)@ + quoted(cmds_key()),
{
    out.push(QUOTE);
    out.push(0x63);
    out.push(0x6d);
    out.push(0x64);
    out.push(0x73);
    out.push(QUOTE);
    proof {
        lemma_keys_plain();
        assert(out@ =~= old(out)@ + quoted(cmds_key()));
    }
}

/// Appends the record a command is persisted as.
pub fn write_record(out: &mut Vec<u8>, c: &Command)
    ensures
        final(out)@ == old(out)@ + record_json(c.title_view(), c.active()),
{
    out.push(LBRACE);
    write_title_key(out);
    out.push(COLON);
    write_quoted_title(out, c);
    out.push(COMMA);
    write_cmds_key(out);
    out.push(COLON);
    let msg = c.encode();
    crate::json::write_string_array(out, msg.tokens());
    out.push(RBRACE);
    proof {
        assert(out@ =~= old(out)@ + record_json(c.title_view(), c.active()));
    }
}

fn write_quoted_title(out: &mut Vec<u8>, c: &Command)
    ensures
        final(out)@ == old(out)@ + quoted_str(c.title_view()),
{
    crate::json::write_quoted(out, c.given_title().as_str());
}

pub proof fn lemma_doc_items_snoc(rs: Seq<(Seq<char>, Seq<Seq<char>>)>, r: (Seq<char>, Seq<Seq<char>>))
    requires
        rs.len() >= 1,
    ensures
        doc_items(rs.push(r)) == doc_items(rs) + seq![COMMA] + record_json(r.0, r.1),
    decreases rs.len(),
{
    if rs.len() == 1 {
        assert(rs.push(r).drop_first() =~= seq![r]);
        assert(doc_items(seq![r]) == record_json(seq![r][0].0, seq![r][0].1));
        assert(doc_items(rs.push(r)) =~= doc_items(rs) + seq![COMMA] + record_json(r.0, r.1));
    } else {
        lemma_doc_items_snoc(rs.drop_first(), r);
        assert(rs.push(r).drop_first() =~= rs.drop_first().push(r));
        assert(doc_items(rs.push(r)) =~= doc_items(rs) + seq![COMMA] + record_json(r.0, r.1));
    }
}

/// The persisted form of a command list: what `save` hands to the file.
pub fn commands_to_json(cs: &Vec<Command>) -> (out: Vec<u8>)
    ensures
        out@ == doc_json(records_of(cs@)),
{
    let mut out: Vec<u8> = Vec::new();
    out.push(LBRACKET);
    let mut i: usize = 0;
    while i < cs.len()
        invariant
            i <= cs.len(),
            out@ == seq![LBRACKET] + doc_items(records_of(cs@).take(i as int)),
        decreases cs.len() - i,
    {
        let ghost done = records_of(cs@).take(i as int);
        if i > 0 {
            out.push(COMMA);
        }
        write_record(&mut out, &cs[i]);
        proof {
            let r = records_of(cs@)[i as int];
            assert(records_of(cs@).take(i + 1) =~= done.push(r));
            if i > 0 {
                lemma_doc_items_snoc(done, r);
                assert(out@ =~= seq![LBRACKET] + (doc_items(done) + seq![COMMA] + record_json(
                    r.0,
                    r.1,
                )));
            } else {
                assert(done.push(r) =~= seq![r]);
                assert(doc_items(seq![r]) == record_json(seq![r][0].0, seq![r][0].1));
                assert(out@ =~= seq![LBRACKET] + doc_items(records_of(cs@).take(1)));
            }
        }
        i = i + 1;
    }
    out.push(RBRACKET);
    proof {
        assert(records_of(cs@).take(cs@.len() as int) =~= records_of(cs@));
        assert(out@ =~= doc_json(records_of(cs@)));
    }
    out
}

} // verus!
