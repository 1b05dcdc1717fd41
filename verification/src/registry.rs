//! The top-level controller state: the command list, the live sessions
//! in their two layouts, and the status bar.
//!
//! Sessions join the registry only on a successful connect; a failed
//! connect surfaces its error in the status bar and registers nothing.
//! Closing a window drops the session, which releases the pipe.

use vstd::prelude::*;

verus! {

use crate::addui::AddUi;
use crate::command::Command;
use crate::session::Session;

/// Everything the driving UI owns between ticks.
pub struct App {
    pub addui: AddUi,
    pub commands: Vec<Command>,
    pub bottom_status: String,
    pub clients: Vec<Session>,
    pub clients_hovered: Vec<Session>,
    pub update_count: usize,
}

impl Default for App {
    fn default() -> (a: App)
        ensures
            a.commands@ =~= Seq::<Command>::empty(),
            a.clients@ =~= Seq::<Session>::empty(),
            a.clients_hovered@ =~= Seq::<Session>::empty(),
            a.bottom_status@ == Seq::<char>::empty(),
            a.update_count == 0,
            a.addui.path_view() == "mpv\\default"@,
    {
        App {
            addui: Default::default(),
            commands: Vec::new(),
            bottom_status: String::new(),
            clients: Vec::new(),
            clients_hovered: Vec::new(),
            update_count: 0,
        }
    }
}

impl App {
    /// Takes the outcome of opening a session: on success the session
    /// joins the live set; on failure nothing is registered and the
    /// error text lands in the status bar.  There is no retry — the
    /// user must ask again.
    pub fn register(&mut self, opened: Result<Session, String>)
        ensures
            opened matches Ok(s) ==> final(self).clients@ == old(self).clients@.push(s)
                && final(self).bottom_status == old(self).bottom_status,
            opened matches Err(d) ==> final(self).clients@ == old(self).clients@ && final(self).bottom_status@ == d@,
            final(self).commands == old(self).commands,
            final(self).clients_hovered == old(self).clients_hovered,
    {
        match opened {
            Ok(s) => {
                self.clients.push(s);
            },
            Err(d) => {
                self.bottom_status = d;
            },
        }
    }

    /// Appends a fresh default command template.
    pub fn add_command(&mut self)
        ensures
            final(self).commands@.len() == old(self).commands@.len() + 1,
            final(self).commands@.take(old(self).commands@.len() as int) == old(self).commands@,
            final(self).commands@.last().title_view() == Seq::<char>::empty(),
            final(self).commands@.last().active() =~= seq!["show-text"@, "from mpv-rc"@],
            final(self).clients == old(self).clients,
            final(self).bottom_status == old(self).bottom_status,
    {
        self.commands.push(Command::new());
        proof {
            assert(final(self).commands@.take(old(self).commands@.len() as int) =~= old(self).commands@);
        }
    }

    /// Removes one command template by its position.
    pub fn remove_command(&mut self, i: usize)
        requires
            i < old(self).commands@.len(),
        ensures
            final(self).commands@ == old(self).commands@.remove(i as int),
            final(self).clients == old(self).clients,
            final(self).bottom_status == old(self).bottom_status,
    {
        self.commands.remove(i);
    }

    /// Replaces the command list wholesale, as a successful load does.
    pub fn replace_commands(&mut self, commands: Vec<Command>)
        ensures
            final(self).commands@ == commands@,
            final(self).clients == old(self).clients,
            final(self).bottom_status == old(self).bottom_status,
    {
        self.commands = commands;
    }

    /// One UI refresh tick has passed; the frame counter moves on,
    /// wrapping rather than failing when it runs out.
    pub fn tick(&mut self)
        ensures
            old(self).update_count < usize::MAX ==> final(self).update_count == old(
                self,
            ).update_count + 1,
            old(self).update_count == usize::MAX ==> final(self).update_count == 0,
            final(self).commands == old(self).commands,
            final(self).clients == old(self).clients,
            final(self).bottom_status == old(self).bottom_status,
    {
        self.update_count = self.update_count.wrapping_add(1);
    }

    /// Puts a message in the status bar.
    pub fn note_status(&mut self, text: String)
        ensures
            final(self).bottom_status@ == text@,
            final(self).commands == old(self).commands,
            final(self).clients == old(self).clients,
    {
        self.bottom_status = text;
    }
}

/// What the close and layout buttons of one window column asked for
/// this tick: at most one of removing a window or moving it to the
/// other layout.
pub enum WindowButtons {
    Remove(usize),
    NextLayout(usize),
    Nop,
}

impl WindowButtons {
    pub fn new() -> (r: WindowButtons)
        ensures
            r is Nop,
    {
        WindowButtons::Nop
    }

    /// Applies the request: removing drops the window at the index;
    /// moving takes it out of the current layout and appends it to the
    /// next one.
    pub fn modify_layouts<T>(&self, current: &mut Vec<T>, next: &mut Vec<T>)
        requires
            *self matches WindowButtons::Remove(i) ==> i < old(current)@.len(),
            *self matches WindowButtons::NextLayout(i) ==> i < old(current)@.len(),
        ensures
            *self matches WindowButtons::Remove(i) ==> final(current)@ == old(
                current,
            )@.remove(i as int) && *final(next) == *old(next),
            *self matches WindowButtons::NextLayout(i) ==> final(current)@ == old(
                current,
            )@.remove(i as int) && final(next)@ == old(next)@.push(old(current)@[i as int]),
            self is Nop ==> *final(current) == *old(current) && *final(next) == *old(next),
    {
        match self {
            WindowButtons::Remove(i) => {
                current.remove(*i);
            },
            WindowButtons::NextLayout(i) => {
                let moved = current.remove(*i);
                next.push(moved);
            },
            WindowButtons::Nop => (),
        }
    }
}

} // verus!
