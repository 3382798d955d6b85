use vstd::prelude::*;
use crate::walker::Walker;

verus! {

/// An event was handled.
#[derive(Clone, Copy, Debug, PartialEq, Eq, Structural)]
pub struct Handle {
    /// Stop offering the event to further nodes.
    pub skip: bool,
}

impl Default for Handle {
    /// A handled event is not offered any further.
    fn default() -> (h: Handle)
        ensures
            h.skip,
    {
        Handle { skip: true }
    }
}

/// An event was not handled.
#[derive(Clone, Copy, Debug, PartialEq, Eq, Structural)]
pub struct Ignore {
    /// Stop offering the event to further nodes all the same.
    pub skip: bool,
}

impl Default for Ignore {
    /// An ignored event goes on to the next node.
    fn default() -> (i: Ignore)
        ensures
            !i.skip,
    {
        Ignore { skip: false }
    }
}

impl Ignore {
    /// The same outcome, with skipping switched on.
    pub fn with_skip(self) -> (r: Ignore)
        ensures
            r.skip,
    {
        Ignore { skip: true }
    }
}

/// What an event handler did with an event.
#[derive(Clone, Copy, Debug, PartialEq, Eq, Structural)]
pub enum Outcome {
    Handle(Handle),
    Ignore(Ignore),
}

impl Default for Outcome {
    fn default() -> (o: Outcome)
        ensures
            o == Outcome::Ignore(Ignore { skip: false }),
    {
        Outcome::Ignore(Ignore { skip: false })
    }
}

impl Outcome {
    /// The skip flag of an outcome of either kind.
    pub open spec fn skips(self) -> bool {
        match self {
            Outcome::Handle(h) => h.skip,
            Outcome::Ignore(i) => i.skip,
        }
    }

    /// Two outcomes taken together: handled if either was, and skipping if
    /// either asked for it.
    pub open spec fn joined(self, rhs: Outcome) -> Outcome {
        if self is Handle || rhs is Handle {
            Outcome::Handle(Handle { skip: self.skips() || rhs.skips() })
        } else {
            Outcome::Ignore(Ignore { skip: self.skips() || rhs.skips() })
        }
    }

    /// An ignored event that goes on to the next node.
    pub fn ignore() -> (o: Outcome)
        ensures
            o == Outcome::Ignore(Ignore { skip: false }),
    {
        Outcome::Ignore(Ignore { skip: false })
    }

    /// A handled event that goes no further.
    pub fn handle() -> (o: Outcome)
        ensures
            o == Outcome::Handle(Handle { skip: true }),
    {
        Outcome::Handle(Handle { skip: true })
    }

    /// Does this outcome stop the event from going further?
    pub fn has_skip(&self) -> (b: bool)
        ensures
            b == self.skips(),
    {
        match self {
            Outcome::Handle(h) => h.skip,
            Outcome::Ignore(i) => i.skip,
        }
    }

    /// Was the event handled?
    pub fn is_handled(&self) -> (b: bool)
        ensures
            b == (*self is Handle),
    {
        match self {
            Outcome::Handle(_) => true,
            Outcome::Ignore(_) => false,
        }
    }
}

impl Walker for Outcome {
    open spec fn neutral_spec() -> Outcome {
        Outcome::Ignore(Ignore { skip: false })
    }

    open spec fn join_spec(&self, rhs: Outcome) -> Outcome {
        self.joined(rhs)
    }

    open spec fn skip_spec(&self) -> bool {
        self.skips()
    }

    fn neutral() -> (r: Outcome) {
        Outcome::Ignore(Ignore { skip: false })
    }

    fn join(&self, rhs: Outcome) -> (r: Outcome) {
        let skip = self.has_skip() || rhs.has_skip();
        if self.is_handled() || rhs.is_handled() {
            Outcome::Handle(Handle { skip })
        } else {
            Outcome::Ignore(Ignore { skip })
        }
    }

    fn skip(&self) -> (b: bool) {
        self.has_skip()
    }
}

/// Joining outcomes is associative and commutative, and the unhandled,
/// unskipped outcome changes nothing.
pub proof fn lemma_join_laws(a: Outcome, b: Outcome, c: Outcome)
    ensures
        a.joined(b).joined(c) == a.joined(b.joined(c)),
        a.joined(b) == b.joined(a),
        a.joined(Outcome::Ignore(Ignore { skip: false })) == a,
        a.joined(b) is Handle <==> a is Handle || b is Handle,
        a.joined(b).skips() <==> a.skips() || b.skips(),
{
}

} // verus!
