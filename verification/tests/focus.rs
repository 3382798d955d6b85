use canopy::focus::{
    focus_depth, get_area, is_focus_ancestor, is_on_path, path, shift_first, shift_next,
    shift_prev, shift_right,
};
use canopy::geom::{Expanse, Rect};
use canopy::{Canopy, Outcome, Tree, ViewPort};

const R: usize = 0;
const A: usize = 1;
const A_A: usize = 2;
const A_B: usize = 3;
const B: usize = 4;
const B_A: usize = 5;
const B_B: usize = 6;

fn place(tree: &mut Tree, id: usize, r: Rect) {
    let vp = ViewPort::new(Expanse::new(r.w, r.h), Rect::new(0, 0, r.w, r.h), r.tl).unwrap();
    tree.set_viewport(id, vp);
}

/// A root with two branches of two leaves each, laid out on a screen of 100
/// by 100: the branches side by side, the leaves of each one above the
/// other.
fn troot() -> (Canopy, Tree) {
    let mut tree = Tree::new("r", true);
    let a = tree.add_child(R, "ba", true);
    tree.add_child(a, "ba_la", true);
    tree.add_child(a, "ba_lb", true);
    let b = tree.add_child(R, "bb", true);
    tree.add_child(b, "bb_la", true);
    tree.add_child(b, "bb_lb", true);
    assert_eq!((a, b), (A, B));

    let screen = Rect::new(0, 0, 100, 100);
    place(&mut tree, R, screen);
    let cols = screen.split_horizontal(2).unwrap();
    for (branch, col) in [(A, cols[0]), (B, cols[1])] {
        place(&mut tree, branch, col);
        let rows = col.split_vertical(2).unwrap();
        place(&mut tree, branch + 1, rows[0]);
        place(&mut tree, branch + 2, rows[1]);
    }
    (Canopy::new(), tree)
}

#[test]
fn tpath() {
    let (mut core, mut tree) = troot();
    assert_eq!(path(&core, &tree, R), "/".to_string());
    shift_next(&mut core, &mut tree, R).unwrap();
    assert_eq!(path(&core, &tree, R), "/r".to_string());
    shift_next(&mut core, &mut tree, R).unwrap();
    assert_eq!(path(&core, &tree, R), "/r/ba".to_string());
    shift_next(&mut core, &mut tree, R).unwrap();
    assert_eq!(path(&core, &tree, R), "/r/ba/ba_la".to_string());
}

#[test]
fn tshift_next() {
    let (mut core, mut tree) = troot();
    assert!(!core.is_focused(&tree, R));
    shift_next(&mut core, &mut tree, R).unwrap();
    assert!(core.is_focused(&tree, R));

    shift_next(&mut core, &mut tree, R).unwrap();
    assert!(core.is_focused(&tree, A));
    assert!(is_focus_ancestor(&core, &tree, R));
    assert!(!is_focus_ancestor(&core, &tree, A));

    shift_next(&mut core, &mut tree, R).unwrap();
    assert!(core.is_focused(&tree, A_A));
    assert!(is_focus_ancestor(&core, &tree, A));
    shift_next(&mut core, &mut tree, R).unwrap();
    assert!(core.is_focused(&tree, A_B));
    assert!(is_focus_ancestor(&core, &tree, A));
    shift_next(&mut core, &mut tree, R).unwrap();
    assert!(core.is_focused(&tree, B));

    core.set_focus(&mut tree, B_B);
    assert!(is_focus_ancestor(&core, &tree, B));
    shift_next(&mut core, &mut tree, R).unwrap();
    assert!(core.is_focused(&tree, R));
}

#[test]
fn t_shift_prev() {
    let (mut core, mut tree) = troot();
    assert!(!core.is_focused(&tree, R));
    shift_prev(&mut core, &mut tree, R).unwrap();
    assert!(core.is_focused(&tree, B_B));

    shift_prev(&mut core, &mut tree, R).unwrap();
    assert!(core.is_focused(&tree, B_A));

    shift_prev(&mut core, &mut tree, R).unwrap();
    assert!(core.is_focused(&tree, B));

    core.set_focus(&mut tree, R);
    shift_prev(&mut core, &mut tree, R).unwrap();
    assert!(core.is_focused(&tree, B_B));
}

#[test]
fn tshift_right() {
    let (mut core, mut tree) = troot();
    core.set_focus(&mut tree, A_A);
    shift_right(&mut core, &mut tree, R).unwrap();
    assert!(core.is_focused(&tree, B_A));
    shift_right(&mut core, &mut tree, R).unwrap();
    assert!(core.is_focused(&tree, B_A));

    core.set_focus(&mut tree, A_B);
    shift_right(&mut core, &mut tree, R).unwrap();
    assert!(core.is_focused(&tree, B_B));
    shift_right(&mut core, &mut tree, R).unwrap();
    assert!(core.is_focused(&tree, B_B));
}

#[test]
fn tfoci() {
    let (mut core, mut tree) = troot();
    assert_eq!(path(&core, &tree, R), "/".to_string());

    assert!(!is_on_path(&core, &tree, R));
    assert!(!is_on_path(&core, &tree, A));

    core.set_focus(&mut tree, A_A);
    assert!(is_on_path(&core, &tree, R));
    assert!(is_on_path(&core, &tree, A));
    assert!(!is_on_path(&core, &tree, B));
    assert_eq!(path(&core, &tree, R), "/r/ba/ba_la".to_string());

    core.set_focus(&mut tree, A);
    assert_eq!(path(&core, &tree, R), "/r/ba".to_string());

    core.set_focus(&mut tree, R);
    assert_eq!(path(&core, &tree, R), "/r".to_string());

    core.set_focus(&mut tree, B_A);
    assert_eq!(path(&core, &tree, R), "/r/bb/bb_la".to_string());
}

#[test]
fn shift_next_visits_in_preorder_and_wraps() {
    let (mut core, mut tree) = troot();
    let mut seen = Vec::new();
    for _ in 0..7 {
        assert_eq!(shift_next(&mut core, &mut tree, R), Ok(Outcome::handle()));
        let p = path(&core, &tree, R);
        seen.push(p.rsplit('/').next().unwrap().to_string());
    }
    assert_eq!(seen, ["r", "ba", "ba_la", "ba_lb", "bb", "bb_la", "bb_lb"]);
    shift_next(&mut core, &mut tree, R).unwrap();
    assert!(core.is_focused(&tree, R));
}

#[test]
fn shift_prev_undoes_shift_next_below_the_root() {
    let (mut core, mut tree) = troot();
    core.set_focus(&mut tree, A);
    for id in [A_A, A_B, B, B_A, B_B] {
        shift_next(&mut core, &mut tree, R).unwrap();
        assert!(core.is_focused(&tree, id));
    }
    for id in [B_A, B, A_B, A_A, A] {
        shift_prev(&mut core, &mut tree, R).unwrap();
        assert!(core.is_focused(&tree, id));
    }
    // The search leaves the root out, so focus stays on the first branch.
    shift_prev(&mut core, &mut tree, R).unwrap();
    assert!(core.is_focused(&tree, A));
}

#[test]
fn hidden_nodes_are_passed_over() {
    let (mut core, mut tree) = troot();
    tree.set_hidden(R, true);
    tree.set_hidden(A, true);
    shift_first(&mut core, &mut tree, R).unwrap();
    assert!(core.is_focused(&tree, A_A));
    tree.set_hidden(A_B, true);
    shift_next(&mut core, &mut tree, R).unwrap();
    assert!(core.is_focused(&tree, B));
}

#[test]
fn hidden_node_holds_no_focus_path() {
    let (mut core, mut tree) = troot();
    core.set_focus(&mut tree, A_A);
    assert_eq!(focus_depth(&core, &tree, R), 3);
    assert_eq!(focus_depth(&core, &tree, A_A), 1);
    assert_eq!(focus_depth(&core, &tree, B), 0);
    assert_eq!(get_area(&core, &tree, R), Some(Rect::new(0, 0, 50, 50)));
    tree.set_hidden(A_A, true);
    assert_eq!(focus_depth(&core, &tree, R), 0);
    assert_eq!(get_area(&core, &tree, R), None);
    assert_eq!(path(&core, &tree, R), "/");
}

#[test]
fn shift_first_without_candidates_changes_nothing() {
    let mut tree = Tree::new("r", false);
    tree.add_child(0, "a", false);
    let mut core = Canopy::new();
    shift_first(&mut core, &mut tree, 0).unwrap();
    assert_eq!(core, Canopy::new());
    assert_eq!(path(&core, &tree, 0), "/");
}

#[test]
fn shift_next_from_no_focus_goes_down_the_tree() {
    let mut tree = Tree::new("root", true);
    let a = tree.add_child(0, "branch_a", true);
    tree.add_child(a, "leaf_a1", true);
    tree.add_child(a, "leaf_a2", true);
    let b = tree.add_child(0, "branch_b", true);
    tree.add_child(b, "leaf_b1", true);
    tree.add_child(b, "leaf_b2", true);
    let mut core = Canopy::new();

    let mut visited = Vec::new();
    for _ in 0..5 {
        shift_next(&mut core, &mut tree, 0).unwrap();
        let at = canopy::focus::walk(&core, &tree, 0)[0];
        visited.push(tree.node_name(at).to_string());
    }
    assert_eq!(visited, ["root", "branch_a", "leaf_a1", "leaf_a2", "branch_b"]);
    assert_eq!(path(&core, &tree, 0), "/root/branch_b");
}
