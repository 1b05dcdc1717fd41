//! User-defined command templates: an ordered sequence of mpv command
//! tokens with an optional display title and an opaque, process-local id.
//!
//! A template owns a token store that may be longer than its active
//! length: removing a slot only shrinks the active prefix, so that adding
//! a slot again brings the previously typed token back.  Everything that
//! leaves the template (its encoded message, its derived title) is taken
//! from the active prefix alone.

use vstd::prelude::*;

verus! {

/// Relies on `rand::random`: draws a value from the thread-local generator.
/// Nothing is promised of the result; it only serves as an opaque id.
#[verifier::external_body]
fn fresh_id() -> usize {
    rand::random()
}

/// The active tokens joined by single spaces, the derived title of a
/// template whose explicit title is empty.
pub open spec fn join_tokens(ts: Seq<Seq<char>>) -> Seq<char>
    decreases ts.len(),
{
    if ts.len() == 0 {
        Seq::empty()
    } else if ts.len() == 1 {
        ts[0]
    } else {
        ts[0] + seq![' '] + join_tokens(ts.drop_first())
    }
}

pub proof fn lemma_join_tokens_snoc(ts: Seq<Seq<char>>, t: Seq<char>)
    requires
        ts.len() >= 1,
    ensures
        join_tokens(ts.push(t)) == join_tokens(ts) + seq![' '] + t,
    decreases ts.len(),
{
    if ts.len() == 1 {
        assert(ts.push(t).drop_first() =~= seq![t]);
        assert(join_tokens(seq![t]) == seq![t][0]);
        assert(join_tokens(ts.push(t)) =~= ts[0] + seq![' '] + t);
    } else {
        lemma_join_tokens_snoc(ts.drop_first(), t);
        assert(ts.push(t).drop_first() =~= ts.drop_first().push(t));
        assert(join_tokens(ts) + seq![' '] + t =~= ts[0] + seq![' '] + (join_tokens(
            ts.drop_first(),
        ) + seq![' '] + t));
    }
}

/// One command button: an explicit title (possibly empty), a token store,
/// and the count of tokens that are currently active.
pub struct Command {
    id: usize,
    title: String,
    len: usize,
    cmds: Vec<String>,
}

/// The serializable shape of one outbound message: the ordered command
/// tokens that go out as `{"command": [...]}`.
pub struct CommandMessage {
    tokens: Vec<String>,
}

impl CommandMessage {
    pub closed spec fn tokens_view(self) -> Seq<Seq<char>> {
        self.tokens.deep_view()
    }

    pub fn new(tokens: Vec<String>) -> (m: CommandMessage)
        ensures
            m.tokens_view() == tokens.deep_view(),
    {
        CommandMessage { tokens }
    }

    pub fn tokens(&self) -> (r: &Vec<String>)
        ensures
            r.deep_view() == self.tokens_view(),
    {
        &self.tokens
    }
}

impl Command {
    #[verifier::type_invariant]
    spec fn inv(self) -> bool {
        self.len <= self.cmds.len()
    }

    /// Every token slot the template has ever allocated, active or not.
    pub closed spec fn storage(self) -> Seq<Seq<char>> {
        self.cmds.deep_view()
    }

    /// The explicit title as typed by the user; empty means "derive one".
    pub closed spec fn title_view(self) -> Seq<char> {
        self.title@
    }

    /// The process-local id; it carries no protocol meaning and is never
    /// persisted.
    pub closed spec fn spec_id(self) -> usize {
        self.id
    }

    /// The tokens that count: the active prefix of the store.
    pub open spec fn active(self) -> Seq<Seq<char>> {
        self.storage().take(self.active_len())
    }

    pub closed spec fn active_len(self) -> int {
        self.len as int
    }

    /// The title shown for this template: the explicit one when non-empty,
    /// else the space-joined active tokens.
    pub open spec fn display_title(self) -> Seq<char> {
        if self.title_view().len() == 0 {
            join_tokens(self.active())
        } else {
            self.title_view()
        }
    }

    /// A fresh template: no explicit title and the two default tokens.
    pub fn new() -> (c: Command)
        ensures
            c.title_view() == Seq::<char>::empty(),
            c.active() =~= seq!["show-text"@, "from mpv-rc"@],
            c.storage() == c.active(),
            c.active_len() == 2,
    {
        let cmds: Vec<String> = vec!["show-text".to_owned(), "from mpv-rc".to_owned()];
        Command { id: fresh_id(), title: String::new(), len: 2, cmds }
    }

    /// A template restored from a persisted record: the active length is
    /// the full token list, and the id is assigned afresh.
    pub fn from_record(title: String, cmds: Vec<String>) -> (c: Command)
        ensures
            c.title_view() == title@,
            c.active() =~= cmds.deep_view(),
            c.storage() == c.active(),
            c.active_len() == cmds.deep_view().len(),
    {
        let len = cmds.len();
        Command { id: fresh_id(), title, len, cmds }
    }

    pub fn id(&self) -> (r: usize)
        ensures
            r == self.spec_id(),
    {
        self.id
    }

    pub fn given_title(&self) -> (r: &String)
        ensures
            r@ == self.title_view(),
    {
        &self.title
    }

    pub fn set_title(&mut self, title: String)
        ensures
            final(self).title_view() == title@,
            final(self).storage() == old(self).storage(),
            final(self).active_len() == old(self).active_len(),
            final(self).spec_id() == old(self).spec_id(),
    {
        proof {
            use_type_invariant(&*self);
        }
        self.title = title;
    }

    pub fn active_count(&self) -> (n: usize)
        ensures
            n == self.active().len(),
            n == self.active_len(),
    {
        proof {
            use_type_invariant(&*self);
        }
        self.len
    }

    pub fn token(&self, i: usize) -> (r: &String)
        requires
            i < self.active().len(),
        ensures
            r@ == self.active()[i as int],
    {
        proof {
            use_type_invariant(&*self);
        }
        &self.cmds[i]
    }

    pub fn set_token(&mut self, i: usize, token: String)
        requires
            i < old(self).active().len(),
        ensures
            final(self).active() =~= old(self).active().update(i as int, token@),
            final(self).storage() =~= old(self).storage().update(i as int, token@),
            final(self).active_len() == old(self).active_len(),
            final(self).active().len() == old(self).active().len(),
            final(self).title_view() == old(self).title_view(),
            final(self).spec_id() == old(self).spec_id(),
    {
        proof {
            use_type_invariant(&*self);
        }
        let prev_len = self.len;
        self.len = 0;
        let mut cmds: Vec<String> = Vec::new();
        std::mem::swap(&mut cmds, &mut self.cmds);
        cmds[i] = token;
        self.cmds = cmds;
        self.len = prev_len;
    }

    /// Grows the active prefix by one slot, bringing back a previously
    /// typed token where the store still holds one and appending an empty
    /// token otherwise.
    pub fn add(&mut self)
        requires
            old(self).active().len() < usize::MAX,
        ensures
            final(self).active_len() == old(self).active_len() + 1,
            old(self).active_len() < old(self).storage().len() ==> final(self).storage()
                == old(self).storage(),
            old(self).active_len() == old(self).storage().len() ==> final(self).storage()
                =~= old(self).storage().push(Seq::<char>::empty()),
            final(self).active() =~= final(self).storage().take(old(self).active_len() + 1),
            final(self).active().take(old(self).active_len()) =~= old(self).active(),
            final(self).active().len() == final(self).active_len(),
            final(self).title_view() == old(self).title_view(),
            final(self).spec_id() == old(self).spec_id(),
    {
        proof {
            use_type_invariant(&*self);
        }
        let prev_len = self.len;
        self.len = 0;
        let mut cmds: Vec<String> = Vec::new();
        std::mem::swap(&mut cmds, &mut self.cmds);
        if cmds.len() == prev_len {
            cmds.push(String::new());
        }
        self.cmds = cmds;
        self.len = prev_len + 1;
    }

    /// Shrinks the active prefix by one slot; a no-op when at most one
    /// token is active, so a template never goes empty by removal.
    pub fn del(&mut self)
        ensures
            old(self).active_len() > 1 ==> final(self).active() =~= old(self).active().take(
                old(self).active_len() - 1,
            ),
            old(self).active_len() > 1 ==> final(self).active_len() == old(self).active_len() - 1,
            old(self).active_len() <= 1 ==> *final(self) == *old(self),
            final(self).active().len() == final(self).active_len(),
            final(self).storage() == old(self).storage(),
            final(self).title_view() == old(self).title_view(),
            final(self).spec_id() == old(self).spec_id(),
    {
        proof {
            use_type_invariant(&*self);
        }
        if 1 < self.len {
            self.len = self.len - 1;
        }
    }

    /// The derived title: the explicit title when non-empty, else the
    /// space-joined active tokens.
    pub fn title(&self) -> (r: String)
        ensures
            r@ == self.display_title(),
    {
        proof {
            use_type_invariant(&*self);
        }
        if !self.title.as_str().is_empty() {
            return self.title.clone();
        }
        let mut out = String::new();
        let mut i: usize = 0;
        while i < self.len
            invariant
                self.inv(),
                i <= self.len,
                out@ == join_tokens(self.active().take(i as int)),
            decreases self.len - i,
        {
            if i > 0 {
                crate::text::push_str(&mut out, " ");
                proof {
                    reveal_strlit(" ");
                }
            }
            crate::text::push_str(&mut out, self.cmds[i].as_str());
            proof {
                let ts = self.active();
                assert(ts.take(i + 1) =~= ts.take(i as int).push(ts[i as int]));
                if i > 0 {
                    lemma_join_tokens_snoc(ts.take(i as int), ts[i as int]);
                } else {
                    assert(join_tokens(ts.take(1)) == ts.take(1)[0]);
                }
            }
            i = i + 1;
        }
        proof {
            assert(self.active().take(self.len as int) =~= self.active());
        }
        out
    }

    /// The message this template sends: exactly the active tokens, in
    /// order, never a deallocated trailing slot.
    pub fn encode(&self) -> (m: CommandMessage)
        ensures
            m.tokens_view() =~= self.active(),
            m.tokens_view().len() == self.active_len(),
    {
        proof {
            use_type_invariant(&*self);
        }
        let mut tokens: Vec<String> = Vec::new();
        let mut i: usize = 0;
        while i < self.len
            invariant
                self.inv(),
                i <= self.len,
                tokens.deep_view() =~= self.active().take(i as int),
            decreases self.len - i,
        {
            tokens.push(self.cmds[i].clone());
            proof {
                assert(tokens.deep_view() =~= self.active().take(i as int).push(
                    self.active()[i as int],
                ));
                assert(self.active().take(i + 1) =~= self.active().take(i as int).push(
                    self.active()[i as int],
                ));
            }
            i = i + 1;
        }
        CommandMessage::new(tokens)
    }
}

impl Default for Command {
    fn default() -> (c: Command)
        ensures
            c.title_view() == Seq::<char>::empty(),
            c.active() =~= seq!["show-text"@, "from mpv-rc"@],
            c.storage() == c.active(),
    {
        Command::new()
    }
}

} // verus!
