//! The connect box: the named-pipe path a user is typing, and the
//! moment they confirm it.

use vstd::prelude::*;

verus! {

/// The path field of the connect box.
pub struct AddUi {
    named_pipe_path: String,
}

/// What one tick of the connect box asks for.
pub enum AddUiResult {
    /// Nothing this tick.
    Nop,
    /// Open a session to the given named-pipe path.
    Add(String),
}

impl AddUi {
    pub closed spec fn path_view(self) -> Seq<char> {
        self.named_pipe_path@
    }

    pub fn path(&self) -> (r: &String)
        ensures
            r@ == self.path_view(),
    {
        &self.named_pipe_path
    }

    pub fn set_path(&mut self, path: String)
        ensures
            final(self).path_view() == path@,
    {
        self.named_pipe_path = path;
    }

    /// What confirming the box asks for: a connection to the path as it
    /// stands.
    pub fn confirm(&self) -> (r: AddUiResult)
        ensures
            r matches AddUiResult::Add(p) && p@ == self.path_view(),
    {
        AddUiResult::Add(self.named_pipe_path.clone())
    }
}

impl Default for AddUi {
    /// The box starts out naming mpv's customary pipe path.
    fn default() -> (d: AddUi)
        ensures
            d.path_view() == "mpv\\default"@,
    {
        AddUi { named_pipe_path: "mpv\\default".to_owned() }
    }
}

} // verus!
