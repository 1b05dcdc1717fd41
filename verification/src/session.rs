//! One session per connected endpoint: the protocol framing and the
//! status text, over a transport owned by the caller.
//!
//! The session itself performs no I/O.  The caller writes the bytes of
//! [`Session::wire_line`] to its pipe and reports what happened through
//! [`Session::note_send`]; each UI tick it attempts one non-blocking
//! read and hands the outcome to [`Session::poll`].  The status text is
//! sticky: it only moves on a non-empty decoded reply or on an error,
//! so the UI always shows the most recent meaningful message.

use vstd::prelude::*;

verus! {

use vstd::utf8::{decode_utf8, valid_utf8};
use crate::command::CommandMessage;
use crate::json::{command_key, quoted, string_array, COLON, LBRACE, NEWLINE, QUOTE, RBRACE};

/// What one newline-terminated outbound message looks like on the wire:
/// `{"command": [tokens...]}` and a newline.
pub open spec fn wire_line_view(tokens: Seq<Seq<char>>) -> Seq<u8> {
    seq![LBRACE] + quoted(command_key()) + seq![COLON] + string_array(tokens) + seq![
        RBRACE,
        NEWLINE,
    ]
}

/// How the caller's attempt to write a wire line ended.
pub enum WriteOutcome {
    /// The full buffer was written.
    Done,
    /// An I/O failure, described by the caller's formatted error.
    Failed(String),
}

/// How the caller's non-blocking read attempt ended.
pub enum ReadOutcome {
    /// Some bytes arrived.
    Data(Vec<u8>),
    /// Nothing to read right now.
    NoData,
    /// The peer closed the pipe.  Treated exactly like no data: the
    /// session stays usable and the status keeps its last value.
    BrokenPipe,
    /// Any other I/O failure, described by the caller's formatted error.
    Failed(String),
}

/// A live logical connection to one endpoint: its path, shown as the
/// title, and the last meaningful status text.
pub struct Session {
    path: String,
    status: String,
}

impl Session {
    pub closed spec fn path_view(self) -> Seq<char> {
        self.path@
    }

    pub closed spec fn status_view(self) -> Seq<char> {
        self.status@
    }

    /// A session over a freshly connected endpoint, with the neutral
    /// default status.
    pub fn new(path: String) -> (s: Session)
        ensures
            s.path_view() == path@,
            s.status_view() == "Status"@,
    {
        Session { path, status: "Status".to_owned() }
    }

    /// The endpoint path, used as the display title.
    pub fn title(&self) -> (r: &String)
        ensures
            r@ == self.path_view(),
    {
        &self.path
    }

    /// The most recent meaningful message: a reply or an error text.
    pub fn status(&self) -> (r: &String)
        ensures
            r@ == self.status_view(),
    {
        &self.status
    }

    /// The bytes to write for one message: a single JSON line.
    pub fn wire_line(msg: &CommandMessage) -> (out: Vec<u8>)
        ensures
            out@ == wire_line_view(msg.tokens_view()),
    {
        let mut out: Vec<u8> = Vec::new();
        out.push(LBRACE);
        out.push(QUOTE);
        out.push(0x63);
        out.push(0x6f);
        out.push(0x6d);
        out.push(0x6d);
        out.push(0x61);
        out.push(0x6e);
        out.push(0x64);
        out.push(QUOTE);
        out.push(COLON);
        crate::json::write_string_array(&mut out, msg.tokens());
        out.push(RBRACE);
        out.push(NEWLINE);
        proof {
            crate::codec::lemma_keys_plain();
            assert(out@ =~= wire_line_view(msg.tokens_view()));
        }
        out
    }

    /// Absorbs the outcome of a write: success leaves the session as it
    /// was; a failure is recorded as the status, and the session stays
    /// open for another try.
    pub fn note_send(&mut self, outcome: WriteOutcome)
        ensures
            outcome is Done ==> *final(self) == *old(self),
            outcome matches WriteOutcome::Failed(d) ==> final(self).status_view() == d@
                && final(self).path_view() == old(self).path_view(),
    {
        match outcome {
            WriteOutcome::Done => (),
            WriteOutcome::Failed(d) => {
                self.status = d;
            },
        }
    }

    /// Absorbs one non-blocking read attempt.  No data — including a
    /// broken pipe — leaves the status untouched, so the last meaningful
    /// message stays on display and the session remains usable.  Arrived
    /// bytes replace the status verbatim when they decode to non-empty
    /// UTF-8 text; undecodable bytes are discarded for an encoding-error
    /// note, and any other read failure is recorded as the status.
    pub fn poll(&mut self, outcome: ReadOutcome)
        ensures
            final(self).path_view() == old(self).path_view(),
            outcome is NoData ==> *final(self) == *old(self),
            outcome is BrokenPipe ==> *final(self) == *old(self),
            outcome matches ReadOutcome::Data(b) ==> ((valid_utf8(b@) && decode_utf8(
                b@,
            ).len() > 0 ==> final(self).status_view() == decode_utf8(b@)) && (valid_utf8(b@)
                && decode_utf8(b@).len() == 0 ==> *final(self) == *old(self)) && (!valid_utf8(
                b@,
            ) ==> final(self).status_view() == "invalid utf8"@)),
            outcome matches ReadOutcome::Failed(d) ==> final(self).status_view()
                == "can't read: "@ + d@,
    {
        match outcome {
            ReadOutcome::NoData => (),
            ReadOutcome::BrokenPipe => (),
            ReadOutcome::Data(b) => {
                match crate::text::string_from_utf8(b) {
                    Some(text) => {
                        if !text.as_str().is_empty() {
                            self.status = text;
                        }
                    },
                    None => {
                        self.status = "invalid utf8".to_owned();
                    },
                }
            },
            ReadOutcome::Failed(d) => {
                let mut msg = "can't read: ".to_owned();
                crate::text::push_str(&mut msg, d.as_str());
                self.status = msg;
            },
        }
    }
}

} // verus!
