use vstd::prelude::*;

verus! {

/// The result of visiting a node during a traversal. Results are joined as
/// the traversal goes, and a result may ask the traversal to skip.
pub trait Walker: Sized {
    /// The result that a traversal starts from.
    spec fn neutral_spec() -> Self;

    /// What `join` returns.
    spec fn join_spec(&self, rhs: Self) -> Self;

    /// What `skip` returns.
    spec fn skip_spec(&self) -> bool;

    /// The result that a traversal starts from.
    fn neutral() -> (r: Self)
        ensures
            r == Self::neutral_spec(),
    ;

    /// Combines this result with a later one.
    fn join(&self, rhs: Self) -> (r: Self)
        ensures
            r == self.join_spec(rhs),
    ;

    /// Does this result ask the traversal to skip?
    fn skip(&self) -> (b: bool)
        ensures
            b == self.skip_spec(),
    ;
}

/// A result that carries nothing but the wish to skip.
#[derive(Clone, Copy, Debug, PartialEq, Eq, Structural)]
pub struct SkipWalker {
    pub has_skip: bool,
}

impl SkipWalker {
    /// A result with the given wish.
    pub fn new(skip: bool) -> (r: SkipWalker)
        ensures
            r.has_skip == skip,
    {
        SkipWalker { has_skip: skip }
    }
}

impl Default for SkipWalker {
    fn default() -> (r: SkipWalker)
        ensures
            !r.has_skip,
    {
        SkipWalker { has_skip: false }
    }
}

impl Walker for SkipWalker {
    open spec fn neutral_spec() -> SkipWalker {
        SkipWalker { has_skip: false }
    }

    open spec fn join_spec(&self, rhs: SkipWalker) -> SkipWalker {
        SkipWalker { has_skip: self.has_skip || rhs.has_skip }
    }

    open spec fn skip_spec(&self) -> bool {
        self.has_skip
    }

    fn neutral() -> (r: SkipWalker) {
        SkipWalker { has_skip: false }
    }

    fn join(&self, rhs: SkipWalker) -> (r: SkipWalker) {
        SkipWalker { has_skip: self.has_skip || rhs.has_skip }
    }

    fn skip(&self) -> (b: bool) {
        self.has_skip
    }
}

/// A result that says only whether to go on or to skip. Joining keeps the
/// later of the two.
#[derive(Clone, Copy, Debug, PartialEq, Eq, Structural)]
pub enum Walk {
    /// Go on with the traversal.
    Continue,
    /// Skip what the traversal would visit next below or beside this node.
    Skip,
}

impl Walker for Walk {
    open spec fn neutral_spec() -> Walk {
        Walk::Continue
    }

    open spec fn join_spec(&self, rhs: Walk) -> Walk {
        rhs
    }

    open spec fn skip_spec(&self) -> bool {
        *self == Walk::Skip
    }

    fn neutral() -> (r: Walk) {
        Walk::Continue
    }

    fn join(&self, rhs: Walk) -> (r: Walk) {
        rhs
    }

    fn skip(&self) -> (b: bool) {
        match self {
            Walk::Skip => true,
            Walk::Continue => false,
        }
    }
}

} // verus!
