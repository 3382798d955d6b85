use vstd::prelude::*;

verus! {

/// The ways in which an operation of this library can fail.
#[derive(Clone, Copy, Debug, PartialEq, Eq, Structural)]
pub enum Error {
    /// Two rectangles do not stand in the relationship an operation needs.
    Geometry,
    /// The render backend failed.
    Render,
    /// A binding expression could not be parsed.
    Parse,
    /// A script failed while running.
    Script,
    /// A command was asked for that the node does not have.
    UnknownCommand,
    /// Nodes cannot take the places in the tree that were asked for them.
    Structure,
}

impl Error {
    /// A short human-readable description of the error.
    pub fn message(&self) -> (s: &'static str)
        ensures
            s@ == error_text(*self),
    {
        match self {
            Error::Geometry => "geometry",
            Error::Render => "render",
            Error::Parse => "parse",
            Error::Script => "script",
            Error::UnknownCommand => "unknown command",
            Error::Structure => "structure",
        }
    }
}

/// The text that describes each error.
pub open spec fn error_text(e: Error) -> Seq<char> {
    match e {
        Error::Geometry => "geometry"@,
        Error::Render => "render"@,
        Error::Parse => "parse"@,
        Error::Script => "script"@,
        Error::UnknownCommand => "unknown command"@,
        Error::Structure => "structure"@,
    }
}

} // verus!
