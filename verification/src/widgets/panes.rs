use vstd::prelude::*;
use crate::canopy::{lemma_governs_kept, Canopy};
use crate::order::lemma_same_shape_same_order;
use crate::error::Error;
use crate::focus::{focus_moved, focus_path, is_on_path, next_target, shift_next};
use crate::geom::expanse::Expanse;
use crate::geom::rect::Rect;
use crate::geom::split::grid_shape;
use crate::node::Node;
use crate::sweep::tree_tainted;
use crate::tree::{with_item, without, NodeId, Tree};

verus! {

/// A grid of panes: columns side by side, and in each column the panes one
/// above the other. Columns need not have the same number of panes.
pub struct Panes {
    /// The node of the tree at which the grid stands.
    pub id: NodeId,
    /// The nodes of the panes, column by column, each column from the top.
    pub children: Vec<Vec<NodeId>>,
}

/// Is node `n` on the focus path?
pub open spec fn on_path(core: Canopy, tree: Tree, n: NodeId) -> bool {
    focus_path(core, tree, n).len() > 0
}

/// Does the cell `(x, y)` come before the cell `(a, b)` when the grid is
/// gone through column by column, each column from the top?
pub open spec fn cell_before(x: int, y: int, a: int, b: int) -> bool {
    x < a || (x == a && y < b)
}

/// The nodes of a grid, column by column.
pub open spec fn grid_of(columns: Seq<Vec<NodeId>>) -> Seq<Seq<NodeId>> {
    Seq::new(columns.len(), |i: int| columns[i]@)
}

/// The nodes of the first `n` columns of a grid, one column after the
/// other, each from the top.
pub open spec fn flat(grid: Seq<Seq<NodeId>>, n: int) -> Seq<NodeId>
    decreases n,
{
    if n <= 0 {
        Seq::empty()
    } else {
        flat(grid, n - 1) + grid[n - 1]
    }
}

/// The nodes of a grid in the order in which a traversal is to meet them:
/// column by column, each column from the top.
pub open spec fn in_order(grid: Seq<Seq<NodeId>>) -> Seq<NodeId> {
    flat(grid, grid.len() as int)
}

/// A copy of a grid.
fn copy_grid(columns: &Vec<Vec<NodeId>>) -> (out: Vec<Vec<NodeId>>)
    ensures
        grid_of(out@) == grid_of(columns@),
{
    let mut out: Vec<Vec<NodeId>> = Vec::new();
    let mut x: usize = 0;
    while x < columns.len()
        invariant
            x <= columns@.len(),
            out@.len() == x,
            forall|i: int| 0 <= i < x ==> (#[trigger] out@[i])@ == columns@[i]@,
        decreases columns@.len() - x,
    {
        let col = &columns[x];
        let mut copy: Vec<NodeId> = Vec::new();
        let mut y: usize = 0;
        while y < col.len()
            invariant
                y <= col@.len(),
                copy@ == col@.subrange(0, y as int),
            decreases col@.len() - y,
        {
            copy.push(col[y]);
            y = y + 1;
        }
        assert(copy@ == col@);
        out.push(copy);
        x = x + 1;
    }
    assert(grid_of(out@) =~= grid_of(columns@));
    out
}

/// The nodes of a grid, column by column, each column from the top.
fn flatten(columns: &Vec<Vec<NodeId>>) -> (out: Vec<NodeId>)
    ensures
        out@ == in_order(grid_of(columns@)),
{
    let mut out: Vec<NodeId> = Vec::new();
    let mut x: usize = 0;
    while x < columns.len()
        invariant
            x <= columns@.len(),
            out@ == flat(grid_of(columns@), x as int),
        decreases columns@.len() - x,
    {
        let col = &columns[x];
        let ghost before = out@;
        let mut y: usize = 0;
        while y < col.len()
            invariant
                y <= col@.len(),
                out@ == before + col@.subrange(0, y as int),
            decreases col@.len() - y,
        {
            out.push(col[y]);
            assert(col@.subrange(0, y + 1) == col@.subrange(0, y as int).push(col@[y as int]));
            y = y + 1;
        }
        assert(col@.subrange(0, col@.len() as int) == col@);
        assert(grid_of(columns@)[x as int] == col@);
        x = x + 1;
    }
    out
}

impl Panes {
    /// The panes as a grid of nodes.
    pub open spec fn grid(self) -> Seq<Seq<NodeId>> {
        grid_of(self.children@)
    }

    /// Is `(x, y)` a cell of the grid?
    pub open spec fn has_cell(self, x: int, y: int) -> bool {
        0 <= x < self.grid().len() && 0 <= y < self.grid()[x].len()
    }

    /// The grid and all its panes are nodes of the tree.
    pub open spec fn wf(self, tree: Tree) -> bool {
        &&& tree.wf()
        &&& self.id < tree.size()
        &&& forall|x: int, y: int| self.has_cell(x, y) ==> #[trigger] self.grid()[x][y] < tree.size()
    }

    /// Is `(x, y)` the first cell, going column by column and each column
    /// from the top, whose pane is on the focus path?
    pub open spec fn is_focus_cell(self, core: Canopy, tree: Tree, x: int, y: int) -> bool {
        &&& self.has_cell(x, y)
        &&& on_path(core, tree, self.grid()[x][y])
        &&& forall|a: int, b: int|
            self.has_cell(a, b) && cell_before(a, b, x, y) ==> !on_path(
                core,
                tree,
                #[trigger] self.grid()[a][b],
            )
    }

    /// Is no pane on the focus path?
    pub open spec fn no_focus_cell(self, core: Canopy, tree: Tree) -> bool {
        forall|a: int, b: int|
            self.has_cell(a, b) ==> !on_path(core, tree, #[trigger] self.grid()[a][b])
    }

    /// A grid of one pane.
    pub fn new(id: NodeId, n: NodeId) -> (p: Panes)
        ensures
            p.id == id,
            p.grid() == seq![seq![n]],
    {
        let mut col: Vec<NodeId> = Vec::new();
        col.push(n);
        let mut children: Vec<Vec<NodeId>> = Vec::new();
        children.push(col);
        let p = Panes { id, children };
        assert(p.grid() =~= seq![seq![n]]);
        p
    }

    /// The column and row of the pane that holds focus: the first, going
    /// column by column and each column from the top, whose node is on the
    /// focus path. `None` where focus is in no pane.
    pub fn focus_coords(&self, core: &Canopy, tree: &Tree) -> (r: Option<(usize, usize)>)
        requires
            self.wf(*tree),
        ensures
            match r {
                Some((x, y)) => self.is_focus_cell(*core, *tree, x as int, y as int),
                None => self.no_focus_cell(*core, *tree),
            },
    {
        let mut x: usize = 0;
        while x < self.children.len()
            invariant
                self.wf(*tree),
                x <= self.children@.len(),
                forall|a: int, b: int|
                    self.has_cell(a, b) && a < x ==> !on_path(
                        *core,
                        *tree,
                        #[trigger] self.grid()[a][b],
                    ),
            decreases self.children@.len() - x,
        {
            let col = &self.children[x];
            assert(col@ == self.grid()[x as int]);
            let mut y: usize = 0;
            while y < col.len()
                invariant
                    self.wf(*tree),
                    x < self.children@.len(),
                    col@ == self.grid()[x as int],
                    y <= col@.len(),
                    forall|a: int, b: int|
                        self.has_cell(a, b) && cell_before(a, b, x as int, y as int) ==> !on_path(
                            *core,
                            *tree,
                            #[trigger] self.grid()[a][b],
                        ),
                decreases col@.len() - y,
            {
                assert(self.has_cell(x as int, y as int));
                assert(col@[y as int] == self.grid()[x as int][y as int]);
                if is_on_path(core, tree, col[y]) {
                    return Some((x, y));
                }
                y = y + 1;
            }
            x = x + 1;
        }
        None
    }

    /// The number of panes in each column, as far as sixteen bits can tell.
    pub fn shape(&self) -> (r: Vec<u16>)
        ensures
            r@.len() == self.grid().len(),
            forall|i: int|
                0 <= i < r@.len() ==> (#[trigger] r@[i]) as int == (self.grid()[i].len() as int)
                    % 0x10000,
    {
        let mut ret: Vec<u16> = Vec::new();
        let mut i: usize = 0;
        while i < self.children.len()
            invariant
                i <= self.children@.len(),
                ret@.len() == i,
                forall|k: int|
                    0 <= k < i ==> (#[trigger] ret@[k]) as int == (self.grid()[k].len() as int)
                        % 0x10000,
            decreases self.children@.len() - i,
        {
            let n: usize = self.children[i].len();
            assert(self.children@[i as int]@ == self.grid()[i as int]);
            ret.push((n % 0x10000) as u16);
            i = i + 1;
        }
        ret
    }
}

impl Panes {
    /// The grid with the node `n` put in at row `y` of column `x`.
    pub open spec fn with_row(self, x: int, y: int, n: NodeId) -> Seq<Seq<NodeId>> {
        self.grid().update(x, self.grid()[x].insert(y, n))
    }

    /// The grid without the pane at row `y` of column `x`, and without the
    /// column where that was its only pane.
    pub open spec fn without_cell(self, x: int, y: int) -> Seq<Seq<NodeId>> {
        if self.grid()[x].len() == 1 {
            self.grid().remove(x)
        } else {
            self.grid().update(x, self.grid()[x].remove(y))
        }
    }

    /// What a change of the grid to `next` leaves behind. Where the nodes
    /// of `next` can be made the children of the grid's node, they are its
    /// children, in the order of the grid, the grid is `next`, and every node
    /// below the grid is marked for painting. Where they cannot, the change
    /// fails and nothing has changed.
    pub open spec fn regrown(
        self,
        before: Panes,
        next: Seq<Seq<NodeId>>,
        core_before: Canopy,
        tree_before: Tree,
        core: Canopy,
        tree: Tree,
        r: Result<(), Error>,
    ) -> bool {
        if tree_before.adoptable(before.id, in_order(next)) {
            &&& r is Ok
            &&& self.id == before.id
            &&& self.grid() == next
            &&& exists|mid: Tree|
                #![auto]
                mid.wf() && mid.adopted(tree_before, before.id, in_order(next)) && tree_tainted(
                    core_before,
                    mid,
                    core,
                    tree,
                    before.id,
                )
        } else {
            r == Err::<(), Error>(Error::Structure) && self == before && core == core_before
                && tree == tree_before
        }
    }

    /// As `regrown`, for a change before which focus moves on to `target`.
    pub open spec fn regrown_after_focus(
        self,
        before: Panes,
        next: Seq<Seq<NodeId>>,
        target: Option<NodeId>,
        core_before: Canopy,
        tree_before: Tree,
        core: Canopy,
        tree: Tree,
        r: Result<(), Error>,
    ) -> bool {
        if tree_before.adoptable(before.id, in_order(next)) {
            &&& r is Ok
            &&& self.id == before.id
            &&& self.grid() == next
            &&& exists|focused: Tree, at: Canopy, mid: Tree|
                #![auto]
                focused.wf() && mid.wf() && focus_moved(
                    core_before,
                    tree_before,
                    at,
                    focused,
                    target,
                ) && mid.adopted(focused, before.id, in_order(next)) && tree_tainted(
                    at,
                    mid,
                    core,
                    tree,
                    before.id,
                )
        } else {
            r == Err::<(), Error>(Error::Structure) && self == before && core == core_before
                && tree == tree_before
        }
    }

    /// Makes the grid `next`, whose nodes in order are `order` and can be
    /// adopted: they become the children of the grid's node, and every node
    /// below the grid is marked for painting.
    fn commit(&mut self, core: &mut Canopy, tree: &mut Tree, next: Vec<Vec<NodeId>>, order: Vec<
        NodeId,
    >)
        requires
            old(tree).wf(),
            old(self).id < old(tree).size(),
            order@ == in_order(grid_of(next@)),
            old(tree).adoptable(old(self).id, order@),
            forall|x: int, y: int|
                0 <= x < next@.len() && 0 <= y < next@[x]@.len() ==> #[trigger] next@[x]@[y] < old(
                    tree,
                ).size(),
            old(core).render_gen < u64::MAX,
        ensures
            final(self).id == old(self).id,
            final(self).grid() == grid_of(next@),
            final(self).wf(*final(tree)),
            final(tree).size() == old(tree).size(),
            final(core).render_gen == old(core).render_gen,
            old(core).focus_gen <= final(core).focus_gen <= old(core).focus_gen + 1,
            old(core).governs(*old(tree)) ==> final(core).governs(*final(tree)),
            exists|mid: Tree|
                #![auto]
                mid.wf() && mid.adopted(*old(tree), old(self).id, order@) && tree_tainted(
                    *old(core),
                    mid,
                    *final(core),
                    *final(tree),
                    old(self).id,
                ),
    {
        let _ = tree.set_children(self.id, &order);
        let ghost mid = *tree;
        proof {
            if old(core).governs(*old(tree)) {
                lemma_governs_kept(*old(core), *old(tree), *core, mid);
            }
        }
        self.children = next;
        core.taint_tree(tree, self.id);
        assert(mid.wf() && mid.adopted(*old(tree), old(self).id, order@) && tree_tainted(
            *old(core),
            mid,
            *core,
            *tree,
            old(self).id,
        ));
        assert forall|x: int, y: int| self.has_cell(x, y) implies #[trigger] self.grid()[x][y]
            < tree.size() by {
            assert(self.grid()[x][y] == next@[x]@[y]);
        }
    }

    /// Adds a pane for the node `n`. Where a pane holds focus, the new pane
    /// takes its place in its column and the panes of the column from there
    /// on move down by one; else the new pane gets a new column of its own at
    /// the right. The panes become the children of the grid's node, in the
    /// order of the grid, and every node below the grid is marked for
    /// painting. Fails, changing nothing, where the panes cannot be the
    /// children of the grid's node.
    pub fn insert_row(&mut self, core: &mut Canopy, tree: &mut Tree, n: NodeId) -> (r: Result<
        (),
        Error,
    >)
        requires
            old(self).wf(*old(tree)),
            n < old(tree).size(),
            old(core).render_gen < u64::MAX,
        ensures
            final(self).wf(*final(tree)),
            final(tree).size() == old(tree).size(),
            final(core).render_gen == old(core).render_gen,
            old(core).focus_gen <= final(core).focus_gen <= old(core).focus_gen + 1,
            old(core).governs(*old(tree)) ==> final(core).governs(*final(tree)),
            old(self).no_focus_cell(*old(core), *old(tree)) ==> final(self).regrown(
                *old(self),
                old(self).grid().push(seq![n]),
                *old(core),
                *old(tree),
                *final(core),
                *final(tree),
                r,
            ),
            forall|x: int, y: int|
                old(self).is_focus_cell(*old(core), *old(tree), x, y) ==> final(self).regrown(
                    *old(self),
                    old(self).with_row(x, y, n),
                    *old(core),
                    *old(tree),
                    *final(core),
                    *final(tree),
                    r,
                ),
    {
        let mut next = copy_grid(&self.children);
        match self.focus_coords(core, tree) {
            Some((x, y)) => {
                proof {
                    old(self).lemma_focus_cell_unique(*core, *tree, x as int, y as int);
                    assert(next@[x as int]@ == self.grid()[x as int]);
                }
                let col = with_item(&next[x], y, n);
                next.set(x, col);
                assert(grid_of(next@) =~= old(self).with_row(x as int, y as int, n));
            },
            None => {
                let mut col: Vec<NodeId> = Vec::new();
                col.push(n);
                next.push(col);
                assert(grid_of(next@) =~= old(self).grid().push(seq![n]));
            },
        }
        let order = flatten(&next);
        if !tree.can_adopt(self.id, &order) {
            return Err(Error::Structure);
        }
        proof {
            let after = Panes { id: self.id, children: next };
            assert forall|a: int, b: int|
                0 <= a < next@.len() && 0 <= b < next@[a]@.len() implies #[trigger] next@[a]@[b]
                < tree.size() by {
                assert(after.has_cell(a, b));
                old(self).lemma_cells_kept(after, n, a, b);
            }
        }
        self.commit(core, tree, next, order);
        Ok(())
    }

    /// A cell of a grid that came of the old one by putting `n` in holds
    /// `n` or a node of the old grid.
    proof fn lemma_cells_kept(self, after: Panes, n: NodeId, a: int, b: int)
        requires
            after.has_cell(a, b),
            after.grid() == self.grid().push(seq![n]) || (exists|x: int, y: int|
                self.has_cell(x, y) && after.grid() == #[trigger] self.with_row(x, y, n)) || (
            exists|x: int|
                0 <= x <= self.grid().len() && after.grid() == #[trigger] self.grid().insert(
                    x,
                    seq![n],
                )),
        ensures
            after.grid()[a][b] == n || exists|x: int, y: int|
                self.has_cell(x, y) && after.grid()[a][b] == #[trigger] self.grid()[x][y],
    {
        if after.grid() == self.grid().push(seq![n]) {
            if a < self.grid().len() {
                assert(self.has_cell(a, b) && after.grid()[a][b] == self.grid()[a][b]);
            }
        } else if exists|x: int, y: int|
            self.has_cell(x, y) && after.grid() == #[trigger] self.with_row(x, y, n) {
            let (x, y) = choose|x: int, y: int|
                self.has_cell(x, y) && after.grid() == #[trigger] self.with_row(x, y, n);
            if a != x {
                assert(self.has_cell(a, b) && after.grid()[a][b] == self.grid()[a][b]);
            } else if b < y {
                assert(self.has_cell(a, b) && after.grid()[a][b] == self.grid()[a][b]);
            } else if b > y {
                assert(self.has_cell(a, b - 1) && after.grid()[a][b] == self.grid()[a][b - 1]);
            }
        } else {
            let x = choose|x: int|
                0 <= x <= self.grid().len() && after.grid() == #[trigger] self.grid().insert(
                    x,
                    seq![n],
                );
            if a < x {
                assert(self.has_cell(a, b) && after.grid()[a][b] == self.grid()[a][b]);
            } else if a > x {
                assert(self.has_cell(a - 1, b) && after.grid()[a][b] == self.grid()[a - 1][b]);
            }
        }
    }

    /// There is at most one first cell on the focus path.
    pub proof fn lemma_focus_cell_unique(self, core: Canopy, tree: Tree, x: int, y: int)
        requires
            self.is_focus_cell(core, tree, x, y),
        ensures
            !self.no_focus_cell(core, tree),
            forall|a: int, b: int|
                self.is_focus_cell(core, tree, a, b) ==> a == x && b == y,
    {
        assert forall|a: int, b: int| self.is_focus_cell(core, tree, a, b) implies a == x && b
            == y by {
            if cell_before(a, b, x, y) {
                assert(!on_path(core, tree, self.grid()[a][b]));
            } else if cell_before(x, y, a, b) {
                assert(!on_path(core, tree, self.grid()[x][y]));
            }
        }
        assert(on_path(core, tree, self.grid()[x][y]));
    }
}

impl Panes {
    /// Moving focus leaves the nodes that can be adopted as they were.
    proof fn lemma_adoptable_kept(before: Tree, after: Tree, parent: NodeId, kids: Seq<NodeId>)
        requires
            after.same_shape(before),
            before.adoptable(parent, kids),
        ensures
            after.adoptable(parent, kids),
    {
        assert forall|i: int, j: int|
            0 <= i < after.size() && i != parent && 0 <= j < after.children(i).len()
                implies !kids.contains(#[trigger] after.children(i)[j]) by {
            assert(after.children(i) == before.children(i));
            assert(!kids.contains(before.children(i)[j]));
        }
    }

    /// Adds a pane for the node `n` in a new column: to the right of the
    /// column of the pane that holds focus, or at the far right where none
    /// does. Before that, focus moves on within the new node, so that the new
    /// pane holds it where one of its nodes may. Then the panes become the
    /// children of the grid's node, in the order of the grid, and every node
    /// below the grid is marked for painting. Fails, changing nothing, where
    /// the panes cannot be the children of the grid's node.
    pub fn insert_col(&mut self, core: &mut Canopy, tree: &mut Tree, n: NodeId) -> (r: Result<
        (),
        Error,
    >)
        requires
            old(self).wf(*old(tree)),
            old(core).governs(*old(tree)),
            n < old(tree).size(),
            old(core).render_gen < u64::MAX,
            old(core).focus_gen < u64::MAX,
        ensures
            final(self).wf(*final(tree)),
            final(tree).size() == old(tree).size(),
            final(core).render_gen == old(core).render_gen,
            old(core).focus_gen <= final(core).focus_gen <= old(core).focus_gen + 1,
            final(core).governs(*final(tree)),
            old(self).no_focus_cell(*old(core), *old(tree)) ==> final(self).regrown_after_focus(
                *old(self),
                old(self).grid().push(seq![n]),
                next_target(*old(tree), old(core).focus_gen, n),
                *old(core),
                *old(tree),
                *final(core),
                *final(tree),
                r,
            ),
            forall|x: int, y: int|
                old(self).is_focus_cell(*old(core), *old(tree), x, y)
                    ==> final(self).regrown_after_focus(
                    *old(self),
                    old(self).grid().insert(x + 1, seq![n]),
                    next_target(*old(tree), old(core).focus_gen, n),
                    *old(core),
                    *old(tree),
                    *final(core),
                    *final(tree),
                    r,
                ),
    {
        let mut next = copy_grid(&self.children);
        let mut col: Vec<NodeId> = Vec::new();
        col.push(n);
        match self.focus_coords(core, tree) {
            Some((x, y)) => {
                proof {
                    old(self).lemma_focus_cell_unique(*core, *tree, x as int, y as int);
                }
                assert(old(self).has_cell(x as int, y as int));
                let len = next.len();
                assert(x < len);
                next.insert(x + 1, col);
                assert(grid_of(next@) =~= old(self).grid().insert(x + 1, seq![n]));
            },
            None => {
                next.push(col);
                assert(grid_of(next@) =~= old(self).grid().push(seq![n]));
            },
        }
        let order = flatten(&next);
        if !tree.can_adopt(self.id, &order) {
            return Err(Error::Structure);
        }
        proof {
            let after = Panes { id: self.id, children: next };
            assert forall|a: int, b: int|
                0 <= a < next@.len() && 0 <= b < next@[a]@.len() implies #[trigger] next@[a]@[b]
                < tree.size() by {
                assert(after.has_cell(a, b));
                old(self).lemma_cells_kept(after, n, a, b);
            }
        }
        let _ = shift_next(core, tree, n);
        proof {
            Self::lemma_adoptable_kept(*old(tree), *tree, self.id, order@);
        }
        let ghost focused = *tree;
        let ghost at = *core;
        self.commit(core, tree, next, order);
        assert(focused.wf() && focus_moved(
            *old(core),
            *old(tree),
            at,
            focused,
            next_target(*old(tree), old(core).focus_gen, n),
        ));
        Ok(())
    }

    /// Takes away the pane that holds focus, and its column with it where
    /// it was the only pane there. Before that, focus moves on to the next
    /// node below the grid. Then the panes that are left become the children
    /// of the grid's node, in the order of the grid, so that the node of the
    /// pane that went is no longer reached from the grid, and every node
    /// still below the grid is marked for painting. Where no pane holds
    /// focus, nothing changes. Fails, changing nothing, where the panes that
    /// are left cannot be the children of the grid's node.
    pub fn delete_focus(&mut self, core: &mut Canopy, tree: &mut Tree) -> (r: Result<(), Error>)
        requires
            old(self).wf(*old(tree)),
            old(core).governs(*old(tree)),
            old(core).render_gen < u64::MAX,
            old(core).focus_gen < u64::MAX,
        ensures
            final(self).wf(*final(tree)),
            final(tree).size() == old(tree).size(),
            final(core).render_gen == old(core).render_gen,
            old(core).focus_gen <= final(core).focus_gen <= old(core).focus_gen + 1,
            final(core).governs(*final(tree)),
            old(self).no_focus_cell(*old(core), *old(tree)) ==> r is Ok
                && *final(self) == *old(self) && *final(core) == *old(core)
                && *final(tree) == *old(tree),
            forall|x: int, y: int|
                old(self).is_focus_cell(*old(core), *old(tree), x, y)
                    ==> final(self).regrown_after_focus(
                    *old(self),
                    old(self).without_cell(x, y),
                    next_target(*old(tree), old(core).focus_gen, old(self).id),
                    *old(core),
                    *old(tree),
                    *final(core),
                    *final(tree),
                    r,
                ),
    {
        match self.focus_coords(core, tree) {
            Some((x, y)) => {
                proof {
                    old(self).lemma_focus_cell_unique(*core, *tree, x as int, y as int);
                }
                let mut next = copy_grid(&self.children);
                assert(next@[x as int]@ == self.grid()[x as int]);
                if next[x].len() == 1 {
                    let _ = next.remove(x);
                    assert(grid_of(next@) =~= old(self).without_cell(x as int, y as int));
                } else {
                    let col = without(&next[x], y);
                    next.set(x, col);
                    assert(grid_of(next@) =~= old(self).without_cell(x as int, y as int));
                }
                let order = flatten(&next);
                if !tree.can_adopt(self.id, &order) {
                    return Err(Error::Structure);
                }
                proof {
                    let after = Panes { id: self.id, children: next };
                    assert forall|a: int, b: int|
                        0 <= a < next@.len() && 0 <= b < next@[a]@.len() implies #[trigger] next@[a]@[b]
                        < tree.size() by {
                        assert(after.has_cell(a, b));
                        old(self).lemma_cells_left(after, x as int, y as int, a, b);
                    }
                }
                let _ = shift_next(core, tree, self.id);
                proof {
                    Self::lemma_adoptable_kept(*old(tree), *tree, self.id, order@);
                }
                let ghost focused = *tree;
                let ghost at = *core;
                self.commit(core, tree, next, order);
                assert(focused.wf() && focus_moved(
                    *old(core),
                    *old(tree),
                    at,
                    focused,
                    next_target(*old(tree), old(core).focus_gen, old(self).id),
                ));
                Ok(())
            },
            None => Ok(()),
        }
    }

    /// A cell of a grid that came of the old one by taking a cell away
    /// holds a node of the old grid.
    proof fn lemma_cells_left(self, after: Panes, x: int, y: int, a: int, b: int)
        requires
            self.has_cell(x, y),
            after.grid() == self.without_cell(x, y),
            after.has_cell(a, b),
        ensures
            exists|c: int, d: int|
                self.has_cell(c, d) && after.grid()[a][b] == #[trigger] self.grid()[c][d],
    {
        if self.grid()[x].len() == 1 {
            if a < x {
                assert(self.has_cell(a, b) && after.grid()[a][b] == self.grid()[a][b]);
            } else {
                assert(self.has_cell(a + 1, b) && after.grid()[a][b] == self.grid()[a + 1][b]);
            }
        } else if a != x {
            assert(self.has_cell(a, b) && after.grid()[a][b] == self.grid()[a][b]);
        } else if b < y {
            assert(self.has_cell(a, b) && after.grid()[a][b] == self.grid()[a][b]);
        } else {
            assert(self.has_cell(a, b + 1) && after.grid()[a][b] == self.grid()[a][b + 1]);
        }
    }

    /// Does every pane have a node of its own?
    pub open spec fn distinct_cells(self) -> bool {
        forall|a: int, b: int, c: int, d: int|
            self.has_cell(a, b) && self.has_cell(c, d) && (a != c || b != d)
                ==> #[trigger] self.grid()[a][b] != #[trigger] self.grid()[c][d]
    }

    /// The number of panes in each column.
    pub open spec fn shape_of(self) -> Seq<u16> {
        Seq::new(self.grid().len(), |i: int| self.grid()[i].len() as u16)
    }

    /// Can the grid be laid out: has it at least one column, no empty
    /// column, and no more columns or rows than sixteen bits can count?
    pub open spec fn can_lay_out(self) -> bool {
        &&& 0 < self.grid().len() <= u16::MAX
        &&& forall|k: int|
            0 <= k < self.grid().len() ==> 0 < (#[trigger] self.grid()[k]).len() <= u16::MAX
    }

    /// Lays the panes out over the screen rectangle `r`: the columns side
    /// by side and as equal in width as can be, the panes of a column one
    /// above the other and as equal in height as can be. Each pane's node
    /// gets the rectangle of its cell, with content of just that size. Fails,
    /// leaving the tree as it is, where the grid has no column, an empty
    /// column, or more columns or rows than sixteen bits can count.
    pub fn layout(&self, tree: &mut Tree, r: Rect) -> (res: Result<(), Error>)
        requires
            self.wf(*old(tree)),
        ensures
            final(tree).wf(),
            final(tree).same_shape(*old(tree)),
            self.wf(*final(tree)),
            forall|i: int|
                0 <= i < old(tree).size() ==> (#[trigger] final(tree).state(i)).focus_gen == old(
                    tree,
                ).state(i).focus_gen,
            self.can_lay_out() <==> res is Ok,
            res is Err ==> res->Err_0 == Error::Geometry && *final(tree) == *old(tree),
            res is Ok && self.distinct_cells() ==> forall|a: int, b: int|
                self.has_cell(a, b) ==> (#[trigger] final(tree).state(
                    self.grid()[a][b] as int,
                )).viewport.fills(r.pane(self.shape_of(), a, b)),
    {
        let shape = self.shape();
        let mut i: usize = 0;
        while i < self.children.len()
            invariant
                *tree == *old(tree),
                self.wf(*tree),
                i <= self.children@.len(),
                shape@.len() == self.grid().len(),
                forall|k: int|
                    0 <= k < shape@.len() ==> (#[trigger] shape@[k]) as int == (
                    self.grid()[k].len() as int) % 0x10000,
                forall|k: int| 0 <= k < i ==> (#[trigger] self.grid()[k]).len() <= 0xffff,
            decreases self.children@.len() - i,
        {
            assert(self.children@[i as int]@ == self.grid()[i as int]);
            if self.children[i].len() > 0xffff {
                return Err(Error::Geometry);
            }
            i = i + 1;
        }
        assert(shape@ =~= self.shape_of());
        let cells = match r.split_panes(&shape) {
            Ok(cells) => cells,
            Err(e) => {
                proof {
                    if self.can_lay_out() {
                        assert forall|c: int| 0 <= c < shape@.len() implies #[trigger] shape@[c]
                            > 0 by {
                            assert(self.grid()[c].len() > 0);
                        }
                    }
                }
                return Err(e);
            },
        };
        assert(grid_shape(shape@));
        proof {
            assert forall|k: int| 0 <= k < self.grid().len() implies 0 < (
            #[trigger] self.grid()[k]).len() <= u16::MAX by {
                assert(shape@[k] > 0);
            }
        }
        let mut x: usize = 0;
        while x < self.children.len()
            invariant
                self.wf(*tree),
                tree.same_shape(*old(tree)),
                x <= self.children@.len(),
                self.can_lay_out(),
                shape@ == self.shape_of(),
                cells@.len() == shape@.len(),
                forall|k: int|
                    0 <= k < shape@.len() ==> (#[trigger] cells@[k])@.len() == self.grid()[k].len(),
                forall|c: int, k: int|
                    0 <= c < shape@.len() && 0 <= k < shape@[c] ==> #[trigger] cells@[c]@[k]
                        == r.pane(shape@, c, k),
                forall|k: int|
                    0 <= k < old(tree).size() ==> (#[trigger] tree.state(k)).focus_gen == old(
                        tree,
                    ).state(k).focus_gen,
                self.distinct_cells() ==> forall|a: int, b: int|
                    self.has_cell(a, b) && a < x ==> (#[trigger] tree.state(
                        self.grid()[a][b] as int,
                    )).viewport.fills(r.pane(shape@, a, b)),
            decreases self.children@.len() - x,
        {
            let col = &self.children[x];
            assert(col@ == self.grid()[x as int]);
            let mut y: usize = 0;
            while y < col.len()
                invariant
                    self.wf(*tree),
                    tree.same_shape(*old(tree)),
                    x < self.children@.len(),
                    col@ == self.grid()[x as int],
                    y <= col@.len(),
                    self.can_lay_out(),
                    shape@ == self.shape_of(),
                    cells@.len() == self.grid().len(),
                    forall|k: int|
                        0 <= k < shape@.len() ==> (#[trigger] cells@[k])@.len()
                            == self.grid()[k].len(),
                    forall|c: int, k: int|
                        0 <= c < shape@.len() && 0 <= k < shape@[c] ==> #[trigger] cells@[c]@[k]
                            == r.pane(shape@, c, k),
                    forall|k: int|
                        0 <= k < old(tree).size() ==> (#[trigger] tree.state(k)).focus_gen == old(
                            tree,
                        ).state(k).focus_gen,
                    self.distinct_cells() ==> forall|a: int, b: int|
                        self.has_cell(a, b) && cell_before(a, b, x as int, y as int) ==> (
                        #[trigger] tree.state(self.grid()[a][b] as int)).viewport.fills(
                            r.pane(shape@, a, b),
                        ),
                decreases col@.len() - y,
            {
                assert(self.has_cell(x as int, y as int));
                assert(col@[y as int] == self.grid()[x as int][y as int]);
                let ghost before = *tree;
                assert(shape@[x as int] == col@.len());
                tree.place(col[y], cells[x][y]);
                proof {
                    if self.distinct_cells() {
                        assert forall|a: int, b: int|
                            self.has_cell(a, b) && cell_before(
                                a,
                                b,
                                x as int,
                                y + 1,
                            ) implies (#[trigger] tree.state(
                            self.grid()[a][b] as int,
                        )).viewport.fills(r.pane(shape@, a, b)) by {
                            if a == x && b == y {
                            } else {
                                assert(self.grid()[a][b] != self.grid()[x as int][y as int]);
                                assert(tree.state(self.grid()[a][b] as int) == before.state(
                                    self.grid()[a][b] as int,
                                ));
                            }
                        }
                    }
                }
                y = y + 1;
            }
            x = x + 1;
        }
        Ok(())
    }
}

impl Node for Panes {
    open spec fn node_id(&self) -> NodeId {
        self.id
    }

    /// The grid takes whatever size it is offered.
    open spec fn fitted(&self, target: Expanse) -> Expanse {
        target
    }

    open spec fn settled(&self, target: Expanse) -> bool {
        true
    }

    fn id(&self) -> (id: NodeId) {
        self.id
    }

    fn name(&self) -> (n: Option<String>)
        ensures
            n is Some && n->Some_0@ == "panes"@,
    {
        Some("panes".to_owned())
    }

    fn fit(&mut self, target: Expanse) -> (r: Result<Expanse, Error>) {
        Ok(target)
    }
}

} // verus!
