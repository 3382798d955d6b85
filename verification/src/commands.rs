use vstd::prelude::*;
use vstd::string::StringExecFns;
use crate::error::Error;

verus! {

/// What a command hands back.
#[derive(Clone, Copy, Debug, PartialEq, Eq, Structural)]
pub enum ReturnTypes {
    /// Nothing.
    Void,
    /// Success or an error.
    Result,
}

/// Something that can be done to a node, by name. Commands are what keys
/// are bound to.
#[derive(Clone, Debug, PartialEq, Eq)]
pub struct Command {
    /// The name of the node.
    pub node: String,
    /// The name of the command.
    pub command: String,
    /// What the command does, in words.
    pub docs: String,
    /// What the command hands back.
    pub return_type: ReturnTypes,
}

impl Command {
    /// The full name of the command: the node's name, a dot, and the
    /// command's name.
    pub fn fullname(&self) -> (s: String)
        ensures
            s@ == self.node@ + seq!['.'] + self.command@,
    {
        let mut s = self.node.clone();
        s.append(".");
        s.append(self.command.as_str());
        proof {
            reveal_strlit(".");
            assert("."@ == seq!['.']);
        }
        s
    }
}

/// The commands that a kind of node offers.
pub trait Commands {
    /// The commands of this kind of node. They carry `name` as the node's
    /// name where one is given.
    fn load_commands(name: Option<&str>) -> Vec<Command> where Self: Sized;

    /// The commands of this node.
    fn commands(&self) -> Vec<Command>;

    /// Carries out the command of the given name.
    fn dispatch(&mut self, name: &str) -> Result<(), Error>;
}

} // verus!
