use vstd::prelude::*;
use crate::canopy::Canopy;
use crate::error::Error;
use crate::order::{lemma_preorder_in_tree, preorder_ids, preorder_seq};
use crate::outcome::Outcome;
use crate::state::NodeState;
use crate::geom::direction::Direction;
use crate::geom::point::Point;
use crate::geom::rect::Rect;
use crate::trail::{lemma_trail_shape, trail, trail_to, Probe};
use crate::tree::{NodeId, Tree};

verus! {

/// May node `id` be given focus? It must be willing, and must not be
/// hidden. Whether its ancestors are hidden does not matter.
pub open spec fn accepts(tree: Tree, id: int) -> bool {
    tree.can_focus(id) && !tree.state(id).hidden
}

/// The first position from `from` on at which the list holds a node that
/// may be given focus.
pub open spec fn first_accepting(tree: Tree, s: Seq<NodeId>, from: int) -> Option<int>
    decreases s.len() - from,
{
    if from < 0 || from >= s.len() {
        None
    } else if accepts(tree, s[from] as int) {
        Some(from)
    } else {
        first_accepting(tree, s, from + 1)
    }
}

/// The last position from `lo` on and before `hi` at which the list holds a
/// node that may be given focus.
pub open spec fn last_accepting(tree: Tree, s: Seq<NodeId>, lo: int, hi: int) -> Option<int>
    decreases hi - lo,
{
    if lo < 0 || hi <= lo || hi > s.len() {
        None
    } else if accepts(tree, s[hi - 1] as int) {
        Some(hi - 1)
    } else {
        last_accepting(tree, s, lo, hi - 1)
    }
}

/// The first position from `from` on at which the list holds a node that
/// was stamped with the value `g` of the focus counter.
pub open spec fn first_stamped(tree: Tree, s: Seq<NodeId>, g: u64, from: int) -> Option<int>
    decreases s.len() - from,
{
    if from < 0 || from >= s.len() {
        None
    } else if tree.state(s[from] as int).focus_gen == g {
        Some(from)
    } else {
        first_stamped(tree, s, g, from + 1)
    }
}

/// The node at a position of a list, if there is a position.
pub open spec fn node_at(s: Seq<NodeId>, pos: Option<int>) -> Option<NodeId> {
    match pos {
        Some(i) => Some(s[i]),
        None => None,
    }
}

/// The node that `shift_first` gives focus to: the first in the preorder of
/// the subtree at `root` that may be given focus.
pub open spec fn first_target(tree: Tree, root: NodeId) -> Option<NodeId> {
    let s = preorder_seq(tree, root);
    node_at(s, first_accepting(tree, s, 0))
}

/// The node that `shift_next` gives focus to: the first that may be given
/// focus after the node that has it, in the preorder of the subtree at
/// `root`; where no node of the subtree has focus, or none after it may be
/// given focus, the first of the subtree that may.
pub open spec fn next_target(tree: Tree, g: u64, root: NodeId) -> Option<NodeId> {
    let s = preorder_seq(tree, root);
    match first_stamped(tree, s, g, 0) {
        Some(i) => match first_accepting(tree, s, i + 1) {
            Some(j) => Some(s[j]),
            None => first_target(tree, root),
        },
        None => first_target(tree, root),
    }
}

/// The node that `shift_prev` gives focus to. The search leaves out `root`
/// itself, both as a node that has focus and as one to give it to: among
/// the other nodes of the subtree, in preorder, it is the last that may be
/// given focus before the node that has it, or the last of all where none
/// of them has focus.
pub open spec fn prev_target(tree: Tree, g: u64, root: NodeId) -> Option<NodeId> {
    let s = preorder_seq(tree, root);
    let hi = match first_stamped(tree, s, g, 1) {
        Some(i) => i,
        None => s.len() as int,
    };
    node_at(s, last_accepting(tree, s, 1, hi))
}

/// What a change of focus leaves behind: with a target, the focus counter
/// has gone up by one, the target is stamped with it and so is the one
/// node that has focus, and all else is as it was; without a target,
/// nothing has changed at all.
pub open spec fn focus_moved(
    before: Canopy,
    tree_before: Tree,
    after: Canopy,
    tree_after: Tree,
    target: Option<NodeId>,
) -> bool {
    match target {
        Some(t) => {
            &&& tree_after.same_shape(tree_before)
            &&& after == (Canopy { focus_gen: (before.focus_gen + 1) as u64, ..before })
            &&& tree_after.state(t as int) == (NodeState {
                focus_gen: after.focus_gen,
                ..tree_before.state(t as int)
            })
            &&& forall|i: int|
                0 <= i < tree_before.size() && i != t ==> #[trigger] tree_after.state(i)
                    == tree_before.state(i)
            &&& after.holder(tree_after) == Some(t)
        },
        None => after == before && tree_after == tree_before,
    }
}

/// The first position from `from` on at which `order` holds a node that may
/// be given focus.
fn find_accepting(tree: &Tree, order: &Vec<NodeId>, from: usize) -> (r: Option<usize>)
    requires
        tree.wf(),
        forall|i: int| 0 <= i < order@.len() ==> #[trigger] order@[i] < tree.size(),
    ensures
        match r {
            Some(j) => first_accepting(*tree, order@, from as int) == Some(j as int) && j
                < order@.len(),
            None => first_accepting(*tree, order@, from as int) is None,
        },
{
    let mut j = from;
    while j < order.len()
        invariant
            tree.wf(),
            from <= j,
            forall|i: int| 0 <= i < order@.len() ==> #[trigger] order@[i] < tree.size(),
            first_accepting(*tree, order@, j as int) == first_accepting(
                *tree,
                order@,
                from as int,
            ),
        decreases order@.len() - j,
    {
        let id = order[j];
        if tree.node_can_focus(id) && !tree.node_state(id).hidden {
            return Some(j);
        }
        j = j + 1;
    }
    None
}

/// The last position from `lo` on and before `hi` at which `order` holds a
/// node that may be given focus.
fn find_last_accepting(tree: &Tree, order: &Vec<NodeId>, lo: usize, hi: usize) -> (r: Option<usize>)
    requires
        tree.wf(),
        hi <= order@.len(),
        forall|i: int| 0 <= i < order@.len() ==> #[trigger] order@[i] < tree.size(),
    ensures
        match r {
            Some(j) => last_accepting(*tree, order@, lo as int, hi as int) == Some(j as int) && lo
                <= j < hi,
            None => last_accepting(*tree, order@, lo as int, hi as int) is None,
        },
{
    let mut j = hi;
    while j > lo
        invariant
            tree.wf(),
            j <= hi <= order@.len(),
            forall|i: int| 0 <= i < order@.len() ==> #[trigger] order@[i] < tree.size(),
            last_accepting(*tree, order@, lo as int, j as int) == last_accepting(
                *tree,
                order@,
                lo as int,
                hi as int,
            ),
        decreases j,
    {
        let id = order[j - 1];
        if tree.node_can_focus(id) && !tree.node_state(id).hidden {
            return Some(j - 1);
        }
        j = j - 1;
    }
    None
}

/// The first position from `from` on at which `order` holds a node that was
/// stamped with `g`.
fn find_stamped(tree: &Tree, order: &Vec<NodeId>, g: u64, from: usize) -> (r: Option<usize>)
    requires
        tree.wf(),
        forall|i: int| 0 <= i < order@.len() ==> #[trigger] order@[i] < tree.size(),
    ensures
        match r {
            Some(j) => first_stamped(*tree, order@, g, from as int) == Some(j as int) && from <= j
                < order@.len(),
            None => first_stamped(*tree, order@, g, from as int) is None,
        },
{
    let mut j = from;
    while j < order.len()
        invariant
            tree.wf(),
            from <= j,
            forall|i: int| 0 <= i < order@.len() ==> #[trigger] order@[i] < tree.size(),
            first_stamped(*tree, order@, g, j as int) == first_stamped(
                *tree,
                order@,
                g,
                from as int,
            ),
        decreases order@.len() - j,
    {
        if tree.node_state(order[j]).focus_gen == g {
            return Some(j);
        }
        j = j + 1;
    }
    None
}

/// Gives focus to the target, if there is one.
fn focus_on(core: &mut Canopy, tree: &mut Tree, target: Option<NodeId>)
    requires
        old(tree).wf(),
        old(core).governs(*old(tree)),
        old(core).focus_gen < u64::MAX,
        target is Some ==> target->Some_0 < old(tree).size(),
    ensures
        final(tree).wf(),
        final(core).governs(*final(tree)),
        focus_moved(*old(core), *old(tree), *final(core), *final(tree), target),
{
    match target {
        Some(t) => {
            core.set_focus(tree, t);
        },
        None => {},
    }
}

/// Gives focus to the first node in the preorder of the subtree at `root`
/// that may be given focus. Where there is none, nothing changes.
pub fn shift_first(core: &mut Canopy, tree: &mut Tree, root: NodeId) -> (r: Result<Outcome, Error>)
    requires
        old(tree).wf(),
        old(core).governs(*old(tree)),
        old(core).focus_gen < u64::MAX,
        root < old(tree).size(),
    ensures
        r == Ok::<Outcome, Error>(Outcome::Handle(crate::outcome::Handle { skip: true })),
        final(tree).wf(),
        final(core).governs(*final(tree)),
        focus_moved(
            *old(core),
            *old(tree),
            *final(core),
            *final(tree),
            first_target(*old(tree), root),
        ),
{
    let order = preorder_ids(tree, root);
    proof {
        lemma_preorder_in_tree(*tree, root);
    }
    let target = match find_accepting(tree, &order, 0) {
        Some(j) => Some(order[j]),
        None => None,
    };
    focus_on(core, tree, target);
    Ok(Outcome::handle())
}

/// Gives focus to the node after the one that has it, in the preorder of
/// the subtree at `root`, passing over the nodes that may not be given
/// focus. Where no node of the subtree has focus, or none after it may be
/// given focus, the first node that may be given focus gets it. Where no
/// node may be given focus, nothing changes.
pub fn shift_next(core: &mut Canopy, tree: &mut Tree, root: NodeId) -> (r: Result<Outcome, Error>)
    requires
        old(tree).wf(),
        old(core).governs(*old(tree)),
        old(core).focus_gen < u64::MAX,
        root < old(tree).size(),
    ensures
        r == Ok::<Outcome, Error>(Outcome::Handle(crate::outcome::Handle { skip: true })),
        final(tree).wf(),
        final(core).governs(*final(tree)),
        focus_moved(
            *old(core),
            *old(tree),
            *final(core),
            *final(tree),
            next_target(*old(tree), old(core).focus_gen, root),
        ),
{
    let order = preorder_ids(tree, root);
    proof {
        lemma_preorder_in_tree(*tree, root);
    }
    let first = match find_accepting(tree, &order, 0) {
        Some(j) => Some(order[j]),
        None => None,
    };
    let target = match find_stamped(tree, &order, core.focus_gen, 0) {
        Some(i) => match find_accepting(tree, &order, i + 1) {
            Some(j) => Some(order[j]),
            None => first,
        },
        None => first,
    };
    focus_on(core, tree, target);
    Ok(Outcome::handle())
}

/// Gives focus to the node before the one that has it, in the preorder of
/// the subtree at `root`, passing over the nodes that may not be given
/// focus. The search leaves out `root` itself: it neither gives focus to
/// `root` nor takes `root` for the node that has focus. Where none of the
/// other nodes has focus, the last of them that may be given focus gets it.
/// Where no node before the one that has focus may be given it, nothing
/// changes.
pub fn shift_prev(core: &mut Canopy, tree: &mut Tree, root: NodeId) -> (r: Result<Outcome, Error>)
    requires
        old(tree).wf(),
        old(core).governs(*old(tree)),
        old(core).focus_gen < u64::MAX,
        root < old(tree).size(),
    ensures
        r == Ok::<Outcome, Error>(Outcome::Handle(crate::outcome::Handle { skip: true })),
        final(tree).wf(),
        final(core).governs(*final(tree)),
        focus_moved(
            *old(core),
            *old(tree),
            *final(core),
            *final(tree),
            prev_target(*old(tree), old(core).focus_gen, root),
        ),
{
    let order = preorder_ids(tree, root);
    proof {
        lemma_preorder_in_tree(*tree, root);
    }
    let hi = match find_stamped(tree, &order, core.focus_gen, 1) {
        Some(i) => i,
        None => order.len(),
    };
    let target = match find_last_accepting(tree, &order, 1, hi) {
        Some(j) => Some(order[j]),
        None => None,
    };
    focus_on(core, tree, target);
    Ok(Outcome::handle())
}

/// The focus path of the subtree at `root`: the visible node that has
/// focus, then its ancestors in turn, with `root` last. Empty where no
/// visible node of the subtree has focus.
pub open spec fn focus_path(core: Canopy, tree: Tree, root: NodeId) -> Seq<NodeId> {
    trail(tree, root, Probe::Focus(core.focus_gen))
}

/// The names of the first `n` nodes of a trail, last node first, with a
/// stroke between each two.
pub open spec fn path_names(tree: Tree, t: Seq<NodeId>, n: nat) -> Seq<char>
    decreases n,
{
    if n == 0 {
        Seq::empty()
    } else if n == 1 {
        tree.name(t[0] as int)
    } else {
        tree.name(t[n - 1] as int) + seq!['/'] + path_names(tree, t, (n - 1) as nat)
    }
}

/// The focus path as text: a stroke, then the names from `root` down to the
/// node that has focus, with a stroke between each two.
pub open spec fn path_text(core: Canopy, tree: Tree, root: NodeId) -> Seq<char> {
    let t = focus_path(core, tree, root);
    seq!['/'] + path_names(tree, t, t.len())
}

/// The node that has focus and its ancestors up to `root`, in that order.
/// Empty where no visible node of the subtree at `root` has focus.
pub fn walk(core: &Canopy, tree: &Tree, root: NodeId) -> (t: Vec<NodeId>)
    requires
        tree.wf(),
        root < tree.size(),
    ensures
        t@ == focus_path(*core, *tree, root),
{
    trail_to(tree, root, Probe::Focus(core.focus_gen))
}

/// The visible nodes whose screen rectangle covers `p`, from the first
/// found, children before parents and in their declared order, up through
/// its ancestors to `root`. Empty where no visible node of the subtree
/// covers `p`.
pub fn locate(tree: &Tree, root: NodeId, p: Point) -> (t: Vec<NodeId>)
    requires
        tree.wf(),
        root < tree.size(),
    ensures
        t@ == trail(*tree, root, Probe::Point(p)),
{
    trail_to(tree, root, Probe::Point(p))
}

/// Is node `n` on the focus path: does it have focus, or is it an ancestor
/// of the node that has?
pub fn is_on_path(core: &Canopy, tree: &Tree, n: NodeId) -> (b: bool)
    requires
        tree.wf(),
        n < tree.size(),
    ensures
        b == (focus_path(*core, *tree, n).len() > 0),
{
    walk(core, tree, n).len() > 0
}

/// Is node `n` an ancestor of the node that has focus, without having
/// focus itself?
pub fn is_focus_ancestor(core: &Canopy, tree: &Tree, n: NodeId) -> (b: bool)
    requires
        tree.wf(),
        n < tree.size(),
    ensures
        b == (!core.focused(*tree, n as int) && focus_path(*core, *tree, n).len() > 0),
{
    if core.is_focused(tree, n) {
        false
    } else {
        is_on_path(core, tree, n)
    }
}

/// The number of nodes on the focus path from the node that has focus up
/// to `n`: zero where `n` is not on the focus path, one where `n` itself
/// has focus.
pub fn focus_depth(core: &Canopy, tree: &Tree, n: NodeId) -> (d: usize)
    requires
        tree.wf(),
        n < tree.size(),
    ensures
        d == focus_path(*core, *tree, n).len(),
{
    walk(core, tree, n).len()
}

/// The screen rectangle of the node that has focus, if a visible node of
/// the subtree at `root` has it.
pub fn get_area(core: &Canopy, tree: &Tree, root: NodeId) -> (r: Option<Rect>)
    requires
        tree.wf(),
        root < tree.size(),
    ensures
        focus_path(*core, *tree, root).len() == 0 ==> r is None,
        focus_path(*core, *tree, root).len() > 0 ==> r == Some(
            tree.state(focus_path(*core, *tree, root)[0] as int).viewport.screen_area(),
        ),
{
    let t = walk(core, tree, root);
    if t.len() == 0 {
        None
    } else {
        proof {
            lemma_trail_shape(*tree, root, Probe::Focus(core.focus_gen));
        }
        Some(tree.node_state(t[0]).viewport.screen_rect())
    }
}

/// The focus path of the subtree at `root` as text: `/` where nothing has
/// focus, else the names from `root` down to the node that has focus, each
/// after a `/`.
pub fn path(core: &Canopy, tree: &Tree, root: NodeId) -> (s: String)
    requires
        tree.wf(),
        root < tree.size(),
    ensures
        s@ == path_text(*core, *tree, root),
{
    let t = walk(core, tree, root);
    proof {
        lemma_trail_shape(*tree, root, Probe::Focus(core.focus_gen));
    }
    let mut names = String::new();
    let mut n: usize = 0;
    while n < t.len()
        invariant
            tree.wf(),
            n <= t@.len(),
            forall|i: int| 0 <= i < t@.len() ==> #[trigger] t@[i] < tree.size(),
            names@ == path_names(*tree, t@, n as nat),
        decreases t@.len() - n,
    {
        let mut longer = String::from_str(tree.node_name(t[n]));
        if n > 0 {
            longer.append("/");
            longer.append(names.as_str());
            proof {
                reveal_strlit("/");
                assert("/"@ == seq!['/']);
            }
        }
        names = longer;
        n = n + 1;
    }
    let mut out = String::from_str("/");
    out.append(names.as_str());
    proof {
        reveal_strlit("/");
        assert("/"@ == seq!['/']);
    }
    out
}

/// The number of lanes that a search from `start` in direction `dir`
/// sweeps at each step.
pub open spec fn lanes(start: Rect, dir: Direction) -> int {
    match dir {
        Direction::Left | Direction::Right => start.h as int,
        Direction::Up | Direction::Down => start.w as int,
    }
}

/// The node that a search from `start` in direction `dir` gives focus to,
/// when it has come to the given step and lane. The search tries the points
/// beyond the edge of `start` step by step outward and lane by lane within a
/// step. At each point it looks for the visible nodes under the point, the
/// deepest first, and takes the first of them that may be given focus. It
/// ends without a target at the first point outside `bounds`, or when it
/// runs off the grid.
pub open spec fn direction_target_from(
    tree: Tree,
    root: NodeId,
    start: Rect,
    bounds: Rect,
    dir: Direction,
    step: int,
    lane: int,
) -> Option<NodeId>
    decreases 0x10000 - step, lanes(start, dir) - lane,
{
    if step < 0 || step > u16::MAX || lane < 0 {
        None
    } else if lane >= lanes(start, dir) {
        direction_target_from(tree, root, start, bounds, dir, step + 1, 0)
    } else {
        match start.candidate(dir, step as u16, lane as u16) {
            None => direction_target_from(tree, root, start, bounds, dir, step, lane + 1),
            Some(p) => if !bounds.covers(p) {
                None
            } else {
                let t = trail(tree, root, Probe::Point(p));
                match first_accepting(tree, t, 0) {
                    Some(j) => Some(t[j]),
                    None => direction_target_from(tree, root, start, bounds, dir, step, lane + 1),
                }
            },
        }
    }
}

/// The node that `shift_direction` gives focus to: none where no visible
/// node of the subtree at `root` has focus; else what a search finds that
/// starts from the screen rectangle of the node that has focus and stays
/// within the screen rectangle of `root`.
pub open spec fn direction_target(core: Canopy, tree: Tree, root: NodeId, dir: Direction) -> Option<
    NodeId,
> {
    let path = focus_path(core, tree, root);
    if path.len() == 0 {
        None
    } else {
        direction_target_from(
            tree,
            root,
            tree.state(path[0] as int).viewport.screen_area(),
            tree.state(root as int).viewport.screen_area(),
            dir,
            0,
            0,
        )
    }
}

/// Searches from `start` in direction `dir` for a node to give focus to.
fn search_direction(tree: &Tree, root: NodeId, start: Rect, bounds: Rect, dir: Direction) -> (r:
    Option<NodeId>)
    requires
        tree.wf(),
        root < tree.size(),
    ensures
        r == direction_target_from(*tree, root, start, bounds, dir, 0, 0),
        r is Some ==> r->Some_0 < tree.size(),
{
    let width = start.search_lanes(dir);
    let mut step: u32 = 0;
    while step <= 0xffff
        invariant
            tree.wf(),
            root < tree.size(),
            width == lanes(start, dir),
            step <= 0x10000,
            direction_target_from(*tree, root, start, bounds, dir, step as int, 0)
                == direction_target_from(*tree, root, start, bounds, dir, 0, 0),
        decreases 0x10000 - step,
    {
        let mut lane: u16 = 0;
        while lane < width
            invariant
                tree.wf(),
                root < tree.size(),
                width == lanes(start, dir),
                step <= 0xffff,
                lane <= width,
                direction_target_from(*tree, root, start, bounds, dir, step as int, lane as int)
                    == direction_target_from(*tree, root, start, bounds, dir, 0, 0),
            decreases width - lane,
        {
            match start.search_at(dir, step as u16, lane) {
                None => {},
                Some(p) => {
                    if !bounds.contains_point(p) {
                        return None;
                    }
                    let t = locate(tree, root, p);
                    proof {
                        lemma_trail_shape(*tree, root, Probe::Point(p));
                    }
                    match find_accepting(tree, &t, 0) {
                        Some(j) => {
                            return Some(t[j]);
                        },
                        None => {},
                    }
                },
            }
            lane = lane + 1;
        }
        step = step + 1;
    }
    None
}

/// Moves focus in a direction on the screen. The search starts from the
/// screen rectangle of the node that has focus and tries the points beyond
/// its edge, one at a time, nearest first. The first point under which a
/// node may be given focus decides: the deepest such node gets it. Where
/// nothing has focus, or the search leaves the screen rectangle of `root`
/// before it finds a node, nothing changes.
pub fn shift_direction(core: &mut Canopy, tree: &mut Tree, root: NodeId, dir: Direction) -> (r:
    Result<Outcome, Error>)
    requires
        old(tree).wf(),
        old(core).governs(*old(tree)),
        old(core).focus_gen < u64::MAX,
        root < old(tree).size(),
    ensures
        r == Ok::<Outcome, Error>(Outcome::Handle(crate::outcome::Handle { skip: true })),
        final(tree).wf(),
        final(core).governs(*final(tree)),
        focus_moved(
            *old(core),
            *old(tree),
            *final(core),
            *final(tree),
            direction_target(*old(core), *old(tree), root, dir),
        ),
{
    let target = match get_area(core, tree, root) {
        None => None,
        Some(start) => {
            let bounds = tree.node_state(root).viewport.screen_rect();
            search_direction(tree, root, start, bounds, dir)
        },
    };
    focus_on(core, tree, target);
    Ok(Outcome::handle())
}

/// Moves focus to the right on the screen; see `shift_direction`.
pub fn shift_right(core: &mut Canopy, tree: &mut Tree, root: NodeId) -> (r: Result<Outcome, Error>)
    requires
        old(tree).wf(),
        old(core).governs(*old(tree)),
        old(core).focus_gen < u64::MAX,
        root < old(tree).size(),
    ensures
        r == Ok::<Outcome, Error>(Outcome::Handle(crate::outcome::Handle { skip: true })),
        final(tree).wf(),
        final(core).governs(*final(tree)),
        focus_moved(
            *old(core),
            *old(tree),
            *final(core),
            *final(tree),
            direction_target(*old(core), *old(tree), root, Direction::Right),
        ),
{
    shift_direction(core, tree, root, Direction::Right)
}

/// Moves focus to the left on the screen; see `shift_direction`.
pub fn shift_left(core: &mut Canopy, tree: &mut Tree, root: NodeId) -> (r: Result<Outcome, Error>)
    requires
        old(tree).wf(),
        old(core).governs(*old(tree)),
        old(core).focus_gen < u64::MAX,
        root < old(tree).size(),
    ensures
        r == Ok::<Outcome, Error>(Outcome::Handle(crate::outcome::Handle { skip: true })),
        final(tree).wf(),
        final(core).governs(*final(tree)),
        focus_moved(
            *old(core),
            *old(tree),
            *final(core),
            *final(tree),
            direction_target(*old(core), *old(tree), root, Direction::Left),
        ),
{
    shift_direction(core, tree, root, Direction::Left)
}

/// Moves focus upward on the screen; see `shift_direction`.
pub fn shift_up(core: &mut Canopy, tree: &mut Tree, root: NodeId) -> (r: Result<Outcome, Error>)
    requires
        old(tree).wf(),
        old(core).governs(*old(tree)),
        old(core).focus_gen < u64::MAX,
        root < old(tree).size(),
    ensures
        r == Ok::<Outcome, Error>(Outcome::Handle(crate::outcome::Handle { skip: true })),
        final(tree).wf(),
        final(core).governs(*final(tree)),
        focus_moved(
            *old(core),
            *old(tree),
            *final(core),
            *final(tree),
            direction_target(*old(core), *old(tree), root, Direction::Up),
        ),
{
    shift_direction(core, tree, root, Direction::Up)
}

/// Moves focus downward on the screen; see `shift_direction`.
pub fn shift_down(core: &mut Canopy, tree: &mut Tree, root: NodeId) -> (r: Result<Outcome, Error>)
    requires
        old(tree).wf(),
        old(core).governs(*old(tree)),
        old(core).focus_gen < u64::MAX,
        root < old(tree).size(),
    ensures
        r == Ok::<Outcome, Error>(Outcome::Handle(crate::outcome::Handle { skip: true })),
        final(tree).wf(),
        final(core).governs(*final(tree)),
        focus_moved(
            *old(core),
            *old(tree),
            *final(core),
            *final(tree),
            direction_target(*old(core), *old(tree), root, Direction::Down),
        ),
{
    shift_direction(core, tree, root, Direction::Down)
}

} // verus!
