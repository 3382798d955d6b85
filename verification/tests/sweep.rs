use canopy::dispatch::{key, mouse, walk_with};
use canopy::geom::{Point, Rect};
use canopy::node::Visitor;
use canopy::sweep::Phase;
use canopy::{Canopy, Error, Handle, Ignore, NodeId, Outcome, Tree};

const R: usize = 0;
const A: usize = 1;
const A_A: usize = 2;
const A_B: usize = 3;
const B: usize = 4;
const B_A: usize = 5;
const B_B: usize = 6;

fn troot() -> (Canopy, Tree) {
    let mut tree = Tree::new("r", true);
    for name in ["a", "b"] {
        let branch = tree.add_child(R, name, true);
        tree.add_child(branch, &format!("{name}_a"), true);
        tree.add_child(branch, &format!("{name}_b"), true);
    }
    tree.place(R, Rect::new(0, 0, 100, 100));
    tree.place(A, Rect::new(0, 0, 50, 100));
    tree.place(A_A, Rect::new(0, 0, 50, 50));
    tree.place(A_B, Rect::new(0, 50, 50, 50));
    tree.place(B, Rect::new(50, 0, 50, 100));
    tree.place(B_A, Rect::new(50, 0, 50, 50));
    tree.place(B_B, Rect::new(50, 50, 50, 50));
    (Canopy::new(), tree)
}

/// Stands for the handlers of the nodes: each node answers with the outcome
/// set for it, or fails where an error is set for it, and every call is
/// written down.
struct Handlers {
    outcomes: Vec<(NodeId, Result<Outcome, Error>)>,
    asked: Vec<NodeId>,
}

impl Handlers {
    fn new(outcomes: &[(NodeId, Result<Outcome, Error>)]) -> Self {
        Handlers { outcomes: outcomes.to_vec(), asked: vec![] }
    }
}

impl Visitor<Outcome> for Handlers {
    type Model = ();

    fn model(&self) {}

    fn step(_: (), _: Tree, _: NodeId) -> ((), Result<Outcome, Error>) {
        unreachable!("a description for proofs, never run")
    }

    fn visit(&mut self, _tree: &Tree, id: NodeId) -> Result<Outcome, Error> {
        self.asked.push(id);
        self.outcomes
            .iter()
            .find(|(n, _)| *n == id)
            .map(|(_, o)| *o)
            .unwrap_or(Ok(Outcome::ignore()))
    }
}

#[test]
fn phases_go_round() {
    assert_eq!(Phase::Idle.next(), Phase::FitLayout);
    assert_eq!(Phase::FitLayout.next(), Phase::Render);
    assert_eq!(Phase::Render.next(), Phase::Flush);
    assert_eq!(Phase::Flush.next(), Phase::Idle);
}

#[test]
fn nothing_is_due_in_a_fresh_tree() {
    let (mut core, tree) = troot();
    let wishes = vec![None; tree.len()];
    core.begin_sweep();
    assert_eq!(core.render_gen, 2);
    assert_eq!(core.render_plan(&tree, R, &wishes), Vec::<usize>::new());
}

#[test]
fn tainted_nodes_are_painted_once() {
    let (mut core, mut tree) = troot();
    let wishes = vec![None; tree.len()];
    core.taint(&mut tree, A_B);
    core.taint(&mut tree, B);
    assert!(core.taint);
    assert!(core.is_tainted(&tree, A_B) && !core.is_tainted(&tree, A));
    assert!(core.needs_sweep(Outcome::ignore()));

    core.begin_sweep();
    assert!(!core.taint);
    assert_eq!(core.render_plan(&tree, R, &wishes), [A_B, B]);
    assert!(core.should_render(&tree, R, B, None));
    assert!(!core.should_render(&tree, R, A, None));
    core.end_sweep();

    core.begin_sweep();
    assert_eq!(core.render_plan(&tree, R, &wishes), Vec::<usize>::new());
    assert!(!core.needs_sweep(Outcome::ignore()));
    assert!(core.needs_sweep(Outcome::handle()));
}

#[test]
fn taint_tree_marks_the_subtree() {
    let (mut core, mut tree) = troot();
    let wishes = vec![None; tree.len()];
    core.taint_tree(&mut tree, B);
    core.begin_sweep();
    assert_eq!(core.render_plan(&tree, R, &wishes), [B, B_A, B_B]);
    let before = tree.node_state(A);
    core.taint_tree(&mut tree, R);
    assert_eq!(tree.node_state(A).render_gen, core.render_gen + 1);
    assert_eq!(tree.node_state(A).focus_gen, before.focus_gen);
    core.begin_sweep();
    assert_eq!(core.render_plan(&tree, R, &wishes), [R, A, A_A, A_B, B, B_A, B_B]);
}

#[test]
fn wishes_override_marks() {
    let (mut core, mut tree) = troot();
    let mut wishes = vec![None; tree.len()];
    wishes[A] = Some(true);
    wishes[B] = Some(false);
    core.taint(&mut tree, B);
    core.taint(&mut tree, B_A);
    core.begin_sweep();
    assert_eq!(core.render_plan(&tree, R, &wishes), [A, B_A]);
    assert!(core.should_render(&tree, R, A, Some(true)));
    assert!(!core.should_render(&tree, R, B, Some(false)));
}

#[test]
fn hidden_subtrees_are_not_painted() {
    let (mut core, mut tree) = troot();
    let mut wishes = vec![None; tree.len()];
    wishes[B_B] = Some(true);
    core.taint_tree(&mut tree, R);
    tree.set_hidden(B, true);
    core.begin_sweep();
    assert_eq!(core.render_plan(&tree, R, &wishes), [R, A, A_A, A_B]);
}

#[test]
fn focus_moves_repaint_both_paths() {
    let (mut core, mut tree) = troot();
    let wishes = vec![None; tree.len()];
    core.set_focus(&mut tree, A_A);
    assert!(core.focus_changed());
    core.begin_sweep();
    assert_eq!(core.render_plan(&tree, R, &wishes), [R, A, A_A]);
    core.end_sweep();
    assert!(!core.focus_changed());

    core.begin_sweep();
    assert_eq!(core.render_plan(&tree, R, &wishes), Vec::<usize>::new());
    core.end_sweep();

    core.set_focus(&mut tree, B_B);
    core.begin_sweep();
    // The old path and the new one, in tree order. A node asked not to be
    // painted is painted all the same when focus passes over it.
    let mut no_b = wishes.clone();
    no_b[B] = Some(false);
    assert_eq!(core.render_plan(&tree, R, &no_b), [R, A, A_A, B, B_B]);
}

#[test]
fn key_goes_up_the_focus_path() {
    let (mut core, mut tree) = troot();
    core.set_focus(&mut tree, A_B);

    let mut h = Handlers::new(&[]);
    assert_eq!(key(&mut core, &tree, R, &mut h), Ok(Outcome::ignore()));
    assert_eq!(h.asked, [A_B, A, R]);
    assert!(!core.taint);

    let mut h = Handlers::new(&[(A, Ok(Outcome::handle()))]);
    assert_eq!(key(&mut core, &tree, R, &mut h), Ok(Outcome::handle()));
    assert_eq!(h.asked, [A_B, A]);
    assert!(core.taint);

    core.taint = false;
    let stay = Outcome::Handle(Handle { skip: false });
    let mut h = Handlers::new(&[(A_B, Ok(stay))]);
    assert_eq!(key(&mut core, &tree, R, &mut h), Ok(stay));
    assert_eq!(h.asked, [A_B, A, R]);
    assert!(core.taint);

    core.taint = false;
    let shy = Outcome::Ignore(Ignore { skip: true });
    let mut h = Handlers::new(&[(A_B, Ok(shy))]);
    assert_eq!(key(&mut core, &tree, R, &mut h), Ok(shy));
    assert_eq!(h.asked, [A_B, A, R]);
    assert!(!core.taint);

    let mut h = Handlers::new(&[(A, Err(Error::Render)), (R, Ok(Outcome::handle()))]);
    assert_eq!(key(&mut core, &tree, R, &mut h), Err(Error::Render));
    assert_eq!(h.asked, [A_B, A]);
    assert!(!core.taint);
}

#[test]
fn key_without_focus_is_dropped() {
    let (mut core, tree) = troot();
    let mut h = Handlers::new(&[(R, Ok(Outcome::handle()))]);
    assert_eq!(key(&mut core, &tree, R, &mut h), Ok(Outcome::ignore()));
    assert!(h.asked.is_empty());
}

#[test]
fn mouse_goes_to_the_deepest_node_first() {
    let (mut core, mut tree) = troot();
    let p = Point { x: 60, y: 70 };
    let mut h = Handlers::new(&[(B, Ok(Outcome::handle()))]);
    assert_eq!(mouse(&mut core, &tree, R, p, &mut h), Ok(Outcome::handle()));
    assert_eq!(h.asked, [B_B, B]);
    assert!(core.taint);

    tree.set_hidden(B_B, true);
    let mut h = Handlers::new(&[]);
    assert_eq!(mouse(&mut core, &tree, R, p, &mut h), Ok(Outcome::ignore()));
    assert_eq!(h.asked, [B, R]);

    let mut h = Handlers::new(&[]);
    let off = Point { x: 100, y: 0 };
    assert_eq!(mouse(&mut core, &tree, R, off, &mut h), Ok(Outcome::ignore()));
    assert!(h.asked.is_empty());
}

#[test]
fn walk_with_visits_the_whole_path() {
    let (mut core, mut tree) = troot();
    core.set_focus(&mut tree, B_A);
    let mut h = Handlers::new(&[(B_A, Ok(Outcome::handle()))]);
    let r: Result<Outcome, Error> = walk_with(&core, &tree, R, &mut h);
    assert_eq!(r, Ok(Outcome::handle()));
    assert_eq!(h.asked, [B_A, B, R]);
}
