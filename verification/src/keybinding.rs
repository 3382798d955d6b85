use vstd::prelude::*;
use crate::commands::Command;

verus! {

/// The commands that keys can be bound to, gathered from the nodes of an
/// application.
pub struct Keybindings {
    /// The commands gathered so far, in the order in which they came.
    pub commands: Vec<Command>,
}

impl Keybindings {
    /// A set with no commands.
    pub fn new() -> (k: Keybindings)
        ensures
            k.commands@.len() == 0,
    {
        Keybindings { commands: Vec::new() }
    }

    /// Adds the commands of one kind of node, keeping their order.
    pub fn load(&mut self, cmds: Vec<Command>)
        ensures
            final(self).commands@ == old(self).commands@ + cmds@,
    {
        let mut cmds = cmds;
        self.commands.append(&mut cmds);
    }
}

} // verus!
