use vstd::prelude::*;
use crate::error::Error;
use crate::geom::expanse::Expanse;
use crate::geom::point::Point;
use crate::geom::rect::Rect;
use crate::state::NodeState;
use crate::viewport::ViewPort;

verus! {

/// The identity of a node: its index in the tree that holds it.
pub type NodeId = usize;

/// A tree of nodes. Node `0` is the root; every other node is the child of
/// exactly one node that was added before it, and the children of a node
/// keep the order in which they were added.
pub struct Tree {
    names: Vec<String>,
    focusable: Vec<bool>,
    states: Vec<NodeState>,
    kids: Vec<Vec<NodeId>>,
}

impl Tree {
    /// The number of nodes.
    pub closed spec fn size(self) -> nat {
        self.kids@.len()
    }

    /// The children of a node, in their declared order.
    pub closed spec fn children(self, id: int) -> Seq<NodeId> {
        self.kids@[id]@
    }

    /// The name of a node.
    pub closed spec fn name(self, id: int) -> Seq<char> {
        self.names@[id]@
    }

    /// Whether a node is willing to take focus.
    pub closed spec fn can_focus(self, id: int) -> bool {
        self.focusable@[id]
    }

    /// The bookkeeping of a node.
    pub closed spec fn state(self, id: int) -> NodeState {
        self.states@[id]
    }

    /// The four parts of the tree describe the same nodes.
    pub closed spec fn aligned(self) -> bool {
        &&& self.names@.len() == self.kids@.len()
        &&& self.focusable@.len() == self.kids@.len()
        &&& self.states@.len() == self.kids@.len()
    }

    /// The tree has a root, every child was added after its parent, no node
    /// is the child of two parents or twice the child of one, and every
    /// viewport is well formed.
    pub open spec fn wf(self) -> bool {
        &&& self.aligned()
        &&& self.size() > 0
        &&& forall|i: int, k: int|
            0 <= i < self.size() && 0 <= k < self.children(i).len() ==> i < (
            #[trigger] self.children(i)[k]) < self.size()
        &&& forall|i: int, k: int, j: int, l: int|
            0 <= i < self.size() && 0 <= k < self.children(i).len() && 0 <= j < self.size() && 0
                <= l < self.children(j).len() && #[trigger] self.children(i)[k]
                == #[trigger] self.children(j)[l] ==> i == j && k == l
        &&& forall|i: int| 0 <= i < self.size() ==> (#[trigger] self.state(i)).wf()
    }

    /// Two trees have the same nodes with the same names, the same
    /// willingness to take focus and the same children.
    pub open spec fn same_shape(self, other: Tree) -> bool {
        &&& self.size() == other.size()
        &&& forall|i: int|
            0 <= i < self.size() ==> #[trigger] self.children(i) == other.children(i)
        &&& forall|i: int| 0 <= i < self.size() ==> #[trigger] self.name(i) == other.name(i)
        &&& forall|i: int|
            0 <= i < self.size() ==> #[trigger] self.can_focus(i) == other.can_focus(i)
    }

    /// A tree that holds only a root.
    pub fn new(name: &str, can_focus: bool) -> (t: Tree)
        ensures
            t.wf(),
            t.size() == 1,
            t.children(0) == Seq::<NodeId>::empty(),
            t.name(0) == name@,
            t.can_focus(0) == can_focus,
            t.state(0).focus_gen == 0,
            t.state(0).render_gen == 0,
            !t.state(0).hidden,
    {
        let mut names: Vec<String> = Vec::new();
        names.push(name.to_owned());
        let mut focusable: Vec<bool> = Vec::new();
        focusable.push(can_focus);
        let mut states: Vec<NodeState> = Vec::new();
        states.push(NodeState::new());
        let mut kids: Vec<Vec<NodeId>> = Vec::new();
        kids.push(Vec::new());
        Tree { names, focusable, states, kids }
    }

    /// The number of nodes.
    pub fn len(&self) -> (n: usize)
        ensures
            n == self.size(),
    {
        self.kids.len()
    }

    /// The number of children of a node.
    pub fn child_count(&self, id: NodeId) -> (n: usize)
        requires
            id < self.size(),
        ensures
            n == self.children(id as int).len(),
    {
        self.kids[id].len()
    }

    /// The `k`-th child of a node.
    pub fn child(&self, id: NodeId, k: usize) -> (c: NodeId)
        requires
            id < self.size(),
            k < self.children(id as int).len(),
        ensures
            c == self.children(id as int)[k as int],
    {
        self.kids[id][k]
    }

    /// The bookkeeping of a node.
    pub fn node_state(&self, id: NodeId) -> (s: NodeState)
        requires
            self.wf(),
            id < self.size(),
        ensures
            s == self.state(id as int),
    {
        self.states[id]
    }

    /// The name of a node.
    pub fn node_name(&self, id: NodeId) -> (s: &str)
        requires
            self.wf(),
            id < self.size(),
        ensures
            s@ == self.name(id as int),
    {
        self.names[id].as_str()
    }

    /// Does a node have the given name?
    pub fn name_is(&self, id: NodeId, name: &String) -> (b: bool)
        requires
            self.wf(),
            id < self.size(),
        ensures
            b == (self.name(id as int) == name@),
    {
        self.names[id] == *name
    }

    /// Whether a node is willing to take focus.
    pub fn node_can_focus(&self, id: NodeId) -> (b: bool)
        requires
            self.wf(),
            id < self.size(),
        ensures
            b == self.can_focus(id as int),
    {
        self.focusable[id]
    }

    /// Replaces the bookkeeping of a node and leaves all else as it is.
    pub fn set_node_state(&mut self, id: NodeId, s: NodeState)
        requires
            old(self).wf(),
            id < old(self).size(),
            s.wf(),
        ensures
            final(self).wf(),
            final(self).same_shape(*old(self)),
            final(self).state(id as int) == s,
            forall|i: int|
                0 <= i < old(self).size() && i != id ==> #[trigger] final(self).state(i) == old(
                    self,
                ).state(i),
    {
        self.states.set(id, s);
        proof {
            assert forall|i: int| 0 <= i < self.size() implies #[trigger] self.children(i) == old(
                self,
            ).children(i) by {}
            assert forall|i: int| 0 <= i < self.size() implies (#[trigger] self.state(i)).wf() by {
                if i != id {
                    assert(self.state(i) == old(self).state(i));
                }
            }
        }
    }
}

impl Tree {
    /// Adds a node as the last child of `parent` and returns its identity.
    /// The new node was never focused or marked, is visible, and has no
    /// children.
    pub fn add_child(&mut self, parent: NodeId, name: &str, can_focus: bool) -> (id: NodeId)
        requires
            old(self).wf(),
            parent < old(self).size(),
        ensures
            final(self).wf(),
            id == old(self).size(),
            final(self).size() == old(self).size() + 1,
            final(self).children(parent as int) == old(self).children(parent as int).push(id),
            final(self).children(id as int) == Seq::<NodeId>::empty(),
            final(self).name(id as int) == name@,
            final(self).can_focus(id as int) == can_focus,
            final(self).state(id as int).focus_gen == 0,
            final(self).state(id as int).render_gen == 0,
            !final(self).state(id as int).hidden,
            forall|i: int|
                0 <= i < old(self).size() ==> #[trigger] final(self).state(i) == old(self).state(
                    i,
                ) && final(self).name(i) == old(self).name(i) && final(self).can_focus(i) == old(
                    self,
                ).can_focus(i),
            forall|i: int|
                0 <= i < old(self).size() && i != parent ==> #[trigger] final(self).children(i)
                    == old(self).children(i),
    {
        let id = self.kids.len();
        let mut row: Vec<NodeId> = Vec::new();
        let n = self.kids[parent].len();
        let mut k: usize = 0;
        while k < n
            invariant
                parent < self.kids@.len(),
                n == self.kids@[parent as int]@.len(),
                k <= n,
                row@ == self.kids@[parent as int]@.subrange(0, k as int),
            decreases n - k,
        {
            row.push(self.kids[parent][k]);
            k = k + 1;
        }
        assert(row@ == self.kids@[parent as int]@);
        row.push(id);
        self.kids.set(parent, row);
        self.kids.push(Vec::new());
        self.names.push(name.to_owned());
        self.focusable.push(can_focus);
        self.states.push(NodeState::new());
        proof {
            assert forall|i: int| 0 <= i < old(self).size() && i != parent implies #[trigger] self.children(
                i,
            ) == old(self).children(i) by {}
            assert forall|i: int, k: int|
                0 <= i < self.size() && 0 <= k < self.children(i).len() implies i < (
                #[trigger] self.children(i)[k]) < self.size() by {
                if i == parent {
                    if k < old(self).children(i).len() {
                        assert(self.children(i)[k] == old(self).children(i)[k]);
                    }
                } else if i < old(self).size() {
                    assert(self.children(i)[k] == old(self).children(i)[k]);
                }
            }
            assert forall|i: int, k: int, j: int, l: int|
                0 <= i < self.size() && 0 <= k < self.children(i).len() && 0 <= j < self.size()
                    && 0 <= l < self.children(j).len() && #[trigger] self.children(i)[k]
                    == #[trigger] self.children(j)[l] implies i == j && k == l by {
                let fresh_a = i == parent && k == old(self).children(i).len();
                let fresh_b = j == parent && l == old(self).children(j).len();
                if !fresh_a {
                    assert(self.children(i)[k] == old(self).children(i)[k]);
                }
                if !fresh_b {
                    assert(self.children(j)[l] == old(self).children(j)[l]);
                }
            }
            assert forall|i: int| 0 <= i < self.size() implies (#[trigger] self.state(i)).wf() by {
                if i < old(self).size() {
                    assert(self.state(i) == old(self).state(i));
                }
            }
        }
        id
    }
}

impl Tree {
    /// Hides a node or shows it again. A hidden node takes no part in focus
    /// and is not painted. Its children are not hidden with it.
    pub fn set_hidden(&mut self, id: NodeId, hidden: bool)
        requires
            old(self).wf(),
            id < old(self).size(),
        ensures
            final(self).wf(),
            final(self).same_shape(*old(self)),
            final(self).state(id as int) == (NodeState { hidden, ..old(self).state(id as int) }),
            forall|i: int|
                0 <= i < old(self).size() && i != id ==> #[trigger] final(self).state(i) == old(
                    self,
                ).state(i),
    {
        let s = self.node_state(id);
        self.set_node_state(
            id,
            NodeState {
                focus_gen: s.focus_gen,
                render_gen: s.render_gen,
                hidden,
                viewport: s.viewport,
            },
        );
    }

    /// Is the node hidden?
    pub fn is_hidden(&self, id: NodeId) -> (b: bool)
        requires
            self.wf(),
            id < self.size(),
        ensures
            b == self.state(id as int).hidden,
    {
        self.node_state(id).hidden
    }

    /// The node's window onto its content.
    pub fn vp(&self, id: NodeId) -> (vp: ViewPort)
        requires
            self.wf(),
            id < self.size(),
        ensures
            vp == self.state(id as int).viewport,
            vp.wf(),
    {
        self.node_state(id).viewport
    }

    /// Gives the node another window onto its content.
    pub fn set_viewport(&mut self, id: NodeId, vp: ViewPort)
        requires
            old(self).wf(),
            id < old(self).size(),
            vp.wf(),
        ensures
            final(self).wf(),
            final(self).same_shape(*old(self)),
            final(self).state(id as int) == (NodeState { viewport: vp, ..old(self).state(id as int) }),
            forall|i: int|
                0 <= i < old(self).size() && i != id ==> #[trigger] final(self).state(i) == old(
                    self,
                ).state(i),
    {
        let s = self.node_state(id);
        self.set_node_state(
            id,
            NodeState {
                focus_gen: s.focus_gen,
                render_gen: s.render_gen,
                hidden: s.hidden,
                viewport: vp,
            },
        );
    }
}

impl Tree {
    /// Gives the node the screen rectangle `r`, with content of just that
    /// size, all of it in view.
    pub fn place(&mut self, id: NodeId, r: Rect)
        requires
            old(self).wf(),
            id < old(self).size(),
        ensures
            final(self).wf(),
            final(self).same_shape(*old(self)),
            final(self).state(id as int).focus_gen == old(self).state(id as int).focus_gen,
            final(self).state(id as int).render_gen == old(self).state(id as int).render_gen,
            final(self).state(id as int).hidden == old(self).state(id as int).hidden,
            final(self).state(id as int).viewport.fills(r),
            forall|i: int|
                0 <= i < old(self).size() && i != id ==> #[trigger] final(self).state(i) == old(
                    self,
                ).state(i),
    {
        let size = Expanse::new(r.w, r.h);
        match ViewPort::new(size, size.rect(), r.tl) {
            Ok(vp) => {
                self.set_viewport(id, vp);
            },
            Err(_) => {},
        }
    }
}

/// A copy of `v` without the item at position `k`.
pub fn without(v: &Vec<NodeId>, k: usize) -> (out: Vec<NodeId>)
    requires
        k < v@.len(),
    ensures
        out@ == v@.remove(k as int),
{
    let mut out: Vec<NodeId> = Vec::new();
    let mut i: usize = 0;
    while i < v.len()
        invariant
            k < v@.len(),
            i <= v@.len(),
            out@ == (if i <= k {
                v@.subrange(0, i as int)
            } else {
                v@.subrange(0, k as int) + v@.subrange(k + 1, i as int)
            }),
        decreases v@.len() - i,
    {
        if i != k {
            out.push(v[i]);
        }
        i = i + 1;
    }
    assert(out@ =~= v@.remove(k as int));
    out
}

/// A copy of `v` with `n` put in at position `k`.
pub fn with_item(v: &Vec<NodeId>, k: usize, n: NodeId) -> (out: Vec<NodeId>)
    requires
        k <= v@.len(),
    ensures
        out@ == v@.insert(k as int, n),
{
    let mut out: Vec<NodeId> = Vec::new();
    let mut i: usize = 0;
    while i < v.len()
        invariant
            k <= v@.len(),
            i <= v@.len(),
            out@ == (if i <= k {
                v@.subrange(0, i as int)
            } else {
                v@.subrange(0, k as int).push(n) + v@.subrange(k as int, i as int)
            }),
        decreases v@.len() - i,
    {
        if i == k {
            out.push(n);
        }
        out.push(v[i]);
        i = i + 1;
    }
    if k == v.len() {
        out.push(n);
    }
    assert(out@ =~= v@.insert(k as int, n));
    out
}

/// Does the list hold the node?
pub fn list_has(list: &Vec<NodeId>, id: NodeId) -> (b: bool)
    ensures
        b == list@.contains(id),
{
    let mut i: usize = 0;
    while i < list.len()
        invariant
            i <= list@.len(),
            forall|k: int| 0 <= k < i ==> list@[k] != id,
        decreases list@.len() - i,
    {
        if list[i] == id {
            return true;
        }
        i = i + 1;
    }
    false
}

impl Tree {
    /// Do all the nodes of the list belong to the tree, and come after
    /// `parent`?
    pub open spec fn all_after(self, parent: NodeId, kids: Seq<NodeId>) -> bool {
        forall|k: int| 0 <= k < kids.len() ==> parent < #[trigger] kids[k] < self.size()
    }

    /// Does the list hold no node twice?
    pub open spec fn no_repeats(kids: Seq<NodeId>) -> bool {
        forall|a: int, b: int| 0 <= a < b < kids.len() ==> kids[a] != kids[b]
    }

    /// Is no node of the list the child of a node other than `parent`?
    pub open spec fn none_taken(self, parent: NodeId, kids: Seq<NodeId>) -> bool {
        forall|i: int, j: int|
            0 <= i < self.size() && i != parent && 0 <= j < self.children(i).len()
                ==> !kids.contains(#[trigger] self.children(i)[j])
    }

    /// Can the nodes of the list be made the children of `parent`? They
    /// must belong to the tree and come after `parent`, each must be listed
    /// once, and none may be the child of another node.
    pub open spec fn adoptable(self, parent: NodeId, kids: Seq<NodeId>) -> bool {
        self.all_after(parent, kids) && Self::no_repeats(kids) && self.none_taken(parent, kids)
    }

    /// Do all the nodes of the list belong to the tree, and come after
    /// `parent`?
    fn check_after(&self, parent: NodeId, kids: &Vec<NodeId>) -> (b: bool)
        ensures
            b == self.all_after(parent, kids@),
    {
        let n = self.kids.len();
        let mut k: usize = 0;
        while k < kids.len()
            invariant
                n == self.size(),
                k <= kids@.len(),
                forall|i: int| 0 <= i < k ==> parent < #[trigger] kids@[i] < self.size(),
            decreases kids@.len() - k,
        {
            if kids[k] <= parent || kids[k] >= n {
                return false;
            }
            k = k + 1;
        }
        true
    }

    /// Does the list hold no node twice?
    fn check_repeats(kids: &Vec<NodeId>) -> (b: bool)
        ensures
            b == Self::no_repeats(kids@),
    {
        let mut b: usize = 0;
        while b < kids.len()
            invariant
                b <= kids@.len(),
                forall|x: int, y: int| 0 <= x < y < b ==> kids@[x] != kids@[y],
            decreases kids@.len() - b,
        {
            let mut a: usize = 0;
            while a < b
                invariant
                    a <= b < kids@.len(),
                    forall|x: int, y: int| 0 <= x < y < b ==> kids@[x] != kids@[y],
                    forall|x: int| 0 <= x < a ==> kids@[x] != kids@[b as int],
                decreases b - a,
            {
                if kids[a] == kids[b] {
                    return false;
                }
                a = a + 1;
            }
            b = b + 1;
        }
        true
    }

    /// Is no node of the list the child of a node other than `parent`?
    fn check_taken(&self, parent: NodeId, kids: &Vec<NodeId>) -> (b: bool)
        requires
            self.wf(),
            parent < self.size(),
        ensures
            b == self.none_taken(parent, kids@),
    {
        let n = self.kids.len();
        let mut i: usize = 0;
        while i < n
            invariant
                self.wf(),
                n == self.size(),
                i <= n,
                forall|x: int, j: int|
                    0 <= x < i && x != parent && 0 <= j < self.children(x).len() ==> !kids@.contains(
                        #[trigger] self.children(x)[j],
                    ),
            decreases n - i,
        {
            if i != parent {
                let m = self.child_count(i);
                let mut j: usize = 0;
                while j < m
                    invariant
                        self.wf(),
                        n == self.size(),
                        i < n,
                        i != parent,
                        m == self.children(i as int).len(),
                        j <= m,
                        forall|x: int, y: int|
                            0 <= x < i && x != parent && 0 <= y < self.children(x).len()
                                ==> !kids@.contains(#[trigger] self.children(x)[y]),
                        forall|y: int|
                            0 <= y < j ==> !kids@.contains(#[trigger] self.children(i as int)[y]),
                    decreases m - j,
                {
                    if list_has(kids, self.child(i, j)) {
                        return false;
                    }
                    j = j + 1;
                }
            }
            i = i + 1;
        }
        true
    }

    /// Can the nodes of the list be made the children of `parent`?
    pub fn can_adopt(&self, parent: NodeId, kids: &Vec<NodeId>) -> (b: bool)
        requires
            self.wf(),
            parent < self.size(),
        ensures
            b == self.adoptable(parent, kids@),
    {
        self.check_after(parent, kids) && Self::check_repeats(kids) && self.check_taken(
            parent,
            kids,
        )
    }

    /// What `set_children` leaves behind where it succeeds: `parent` has
    /// the nodes of the list for its children, and nothing else has changed.
    pub open spec fn adopted(self, before: Tree, parent: NodeId, kids: Seq<NodeId>) -> bool {
        &&& self.size() == before.size()
        &&& self.children(parent as int) == kids
        &&& forall|i: int|
            0 <= i < before.size() ==> #[trigger] self.state(i) == before.state(i) && self.name(i)
                == before.name(i) && self.can_focus(i) == before.can_focus(i)
        &&& forall|i: int|
            0 <= i < before.size() && i != parent ==> #[trigger] self.children(i)
                == before.children(i)
    }

    /// Makes the nodes of the list the children of `parent`, in the order of
    /// the list. The children that `parent` had and that the list leaves out
    /// are no longer reached from `parent`. Fails, changing nothing, where
    /// the nodes cannot be adopted: see `adoptable`.
    pub fn set_children(&mut self, parent: NodeId, kids: &Vec<NodeId>) -> (r: Result<(), Error>)
        requires
            old(self).wf(),
            parent < old(self).size(),
        ensures
            final(self).wf(),
            final(self).size() == old(self).size(),
            forall|i: int|
                0 <= i < old(self).size() ==> #[trigger] final(self).state(i) == old(self).state(i)
                    && final(self).name(i) == old(self).name(i) && final(self).can_focus(i)
                    == old(self).can_focus(i),
            forall|i: int|
                0 <= i < old(self).size() && i != parent ==> #[trigger] final(self).children(i)
                    == old(self).children(i),
            old(self).adoptable(parent, kids@) ==> r is Ok && final(self).adopted(
                *old(self),
                parent,
                kids@,
            ),
            !old(self).adoptable(parent, kids@) ==> r == Err::<(), Error>(Error::Structure)
                && *final(self) == *old(self),
    {
        if !self.can_adopt(parent, kids) {
            return Err(Error::Structure);
        }
        let mut row: Vec<NodeId> = Vec::new();
        let mut k: usize = 0;
        while k < kids.len()
            invariant
                k <= kids@.len(),
                row@ == kids@.subrange(0, k as int),
            decreases kids@.len() - k,
        {
            row.push(kids[k]);
            k = k + 1;
        }
        assert(row@ == kids@);
        self.kids.set(parent, row);
        proof {
            assert forall|i: int| 0 <= i < old(self).size() && i != parent implies #[trigger] self.children(
                i,
            ) == old(self).children(i) by {}
            assert forall|i: int, j: int|
                0 <= i < self.size() && 0 <= j < self.children(i).len() implies i < (
                #[trigger] self.children(i)[j]) < self.size() by {
                if i != parent {
                    assert(self.children(i)[j] == old(self).children(i)[j]);
                }
            }
            assert forall|i: int, a: int, j: int, b: int|
                0 <= i < self.size() && 0 <= a < self.children(i).len() && 0 <= j < self.size()
                    && 0 <= b < self.children(j).len() && #[trigger] self.children(i)[a]
                    == #[trigger] self.children(j)[b] implies i == j && a == b by {
                if i != parent && j != parent {
                    assert(self.children(i)[a] == old(self).children(i)[a]);
                    assert(self.children(j)[b] == old(self).children(j)[b]);
                } else if i == parent && j != parent {
                    assert(self.children(j)[b] == old(self).children(j)[b]);
                    assert(kids@.contains(kids@[a]));
                } else if i != parent && j == parent {
                    assert(self.children(i)[a] == old(self).children(i)[a]);
                    assert(kids@.contains(kids@[b]));
                }
            }
            assert forall|i: int| 0 <= i < self.size() implies (#[trigger] self.state(i)).wf() by {
                assert(self.state(i) == old(self).state(i));
            }
        }
        Ok(())
    }
}

} // verus!
