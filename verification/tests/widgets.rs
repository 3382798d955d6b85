use canopy::focus::shift_next;
use canopy::geom::{Expanse, Point, Rect};
use canopy::node::{frame, wrap, Node};
use canopy::root::Root;
use canopy::widgets::scroll::ScrollState;
use canopy::widgets::{Panes, Scroll, Tabs};
use canopy::{Canopy, Error, Handle, Outcome, Tree, ViewPort};

/// Adds a branch with two leaves under `parent` and returns the branch.
fn tbranch(tree: &mut Tree, parent: usize, name: &str) -> usize {
    let b = tree.add_child(parent, name, true);
    tree.add_child(b, &format!("{name}:la"), true);
    tree.add_child(b, &format!("{name}:lb"), true);
    b
}

#[test]
fn panes_tlayout() {
    let mut core = Canopy::new();
    let mut tree = Tree::new("panes", false);
    let a = tbranch(&mut tree, 0, "a");
    let mut p = Panes::new(0, a);
    let r = Rect::new(0, 0, 100, 100);
    p.layout(&mut tree, r).unwrap();

    assert_eq!(p.shape(), vec![1]);
    let b = tbranch(&mut tree, 0, "b");
    p.insert_col(&mut core, &mut tree, b).unwrap();
    p.layout(&mut tree, r).unwrap();

    assert_eq!(p.shape(), vec![1, 1]);
    let a_a = tree.child(p.children[0][0], 0);
    core.set_focus(&mut tree, a_a);
    p.layout(&mut tree, r).unwrap();

    let c = tbranch(&mut tree, 0, "c");
    assert_eq!(p.focus_coords(&core, &tree), Some((0, 0)));
    p.insert_row(&mut core, &mut tree, c).unwrap();
    p.layout(&mut tree, r).unwrap();

    assert_eq!(p.shape(), vec![2, 1]);

    let b_a = tree.child(p.children[1][0], 0);
    core.set_focus(&mut tree, b_a);
    assert_eq!(p.focus_coords(&core, &tree), Some((1, 0)));
}

#[test]
fn panes_layout_places_cells() {
    let mut core = Canopy::new();
    let mut tree = Tree::new("panes", false);
    let a = tree.add_child(0, "a", true);
    let b = tree.add_child(0, "b", true);
    let c = tree.add_child(0, "c", true);
    let mut p = Panes::new(0, a);
    p.insert_col(&mut core, &mut tree, b).unwrap();
    // Focus went to b, so c lands above it in the second column.
    assert!(core.is_focused(&tree, b));
    p.insert_row(&mut core, &mut tree, c).unwrap();
    assert_eq!(p.children, vec![vec![a], vec![c, b]]);
    p.layout(&mut tree, Rect::new(0, 0, 101, 51)).unwrap();
    assert_eq!(tree.vp(a).screen_rect(), Rect::new(0, 0, 51, 51));
    assert_eq!(tree.vp(c).screen_rect(), Rect::new(51, 0, 50, 26));
    assert_eq!(tree.vp(b).screen_rect(), Rect::new(51, 26, 50, 25));
    assert!(core.taint);
    assert!(core.is_tainted(&tree, a));
    // The tree meets the panes in the order of the grid.
    assert_eq!(canopy::order::preorder_ids(&tree, 0), [0, a, c, b]);
}

#[test]
fn panes_refuse_nodes_they_cannot_hold() {
    let mut core = Canopy::new();
    let mut tree = Tree::new("panes", false);
    let a = tbranch(&mut tree, 0, "a");
    let leaf = tree.child(a, 0);
    let mut p = Panes::new(0, a);
    // A leaf of another pane, the same pane twice, and the grid's own node.
    for n in [leaf, a, 0] {
        assert_eq!(p.insert_row(&mut core, &mut tree, n), Err(Error::Structure));
        assert_eq!(p.insert_col(&mut core, &mut tree, n), Err(Error::Structure));
    }
    assert_eq!(p.children, vec![vec![a]]);
    assert_eq!(core, Canopy::new());
    assert_eq!(tree.child_count(0), 1);
}

#[test]
fn panes_delete_focus() {
    let mut core = Canopy::new();
    let mut tree = Tree::new("panes", false);
    let a = tree.add_child(0, "a", true);
    let b = tree.add_child(0, "b", true);
    let mut p = Panes::new(0, a);
    p.insert_col(&mut core, &mut tree, b).unwrap();
    assert_eq!(p.focus_coords(&core, &tree), Some((1, 0)));
    p.delete_focus(&mut core, &mut tree).unwrap();
    assert_eq!(p.children, vec![vec![a]]);
    assert_eq!(tree.child_count(0), 1);
    assert_eq!(tree.child(0, 0), a);
    // Focus moved on before the pane went, and wrapped round to the first.
    assert!(core.is_focused(&tree, a));

    let mut empty = Panes::new(0, a);
    empty.delete_focus(&mut core, &mut tree).unwrap();
    assert!(empty.children.is_empty());
    assert_eq!(empty.layout(&mut tree, Rect::new(0, 0, 10, 10)), Err(Error::Geometry));
    assert_eq!(empty.focus_coords(&core, &tree), None);
    let before = core;
    empty.delete_focus(&mut core, &mut tree).unwrap();
    assert_eq!(core, before);
}

#[test]
fn tabs_go_round() {
    let mut core = Canopy::new();
    let mut tree = Tree::new("tabs", false);
    let titles = vec!["Nodes".to_string(), "Events".to_string(), "Logs".to_string()];
    let mut t = Tabs::new(0, titles);
    assert_eq!(t.active, 0);
    t.next(&mut core, &mut tree);
    assert_eq!(t.active, 1);
    assert!(core.taint && core.is_tainted(&tree, 0));
    t.next(&mut core, &mut tree);
    t.next(&mut core, &mut tree);
    assert_eq!(t.active, 0);
    t.active = 2;
    t.prev(&mut core, &mut tree);
    assert_eq!(t.active, 1);
    t.prev(&mut core, &mut tree);
    assert_eq!(t.active, 0);
    // From the first tab the step back lands where the largest count does.
    t.prev(&mut core, &mut tree);
    assert_eq!(t.active, usize::MAX % 3);
    assert_eq!(t.name(), Some("tabs".to_string()));
}

fn scroller() -> (Canopy, Tree, Scroll) {
    let mut tree = Tree::new("scroll", false);
    let child = tree.add_child(0, "text", true);
    let mut s = Scroll::new(0, child);
    s.layout(&mut tree, Some(Rect::new(5, 5, 10, 10)), Rect::new(0, 0, 10, 100));
    (Canopy::new(), tree, s)
}

#[test]
fn scroll_moves_the_window() {
    let (mut core, mut tree, mut s) = scroller();
    let child = s.child;
    assert_eq!(s.bounds(), Some((Rect::new(0, 0, 10, 10), Rect::new(0, 0, 10, 100))));
    assert_eq!(tree.vp(child).screen_rect(), Rect::new(5, 5, 10, 10));
    assert_eq!(tree.vp(child).canvas(), Expanse::new(10, 100));

    let handled = Ok(Outcome::Handle(Handle { skip: false }));
    assert_eq!(s.down(&mut core, &mut tree), handled);
    assert_eq!(tree.vp(child).view(), Rect::new(0, 1, 10, 10));
    assert!(core.taint && core.is_tainted(&tree, child) && core.is_tainted(&tree, 0));
    assert_eq!(s.up(&mut core, &mut tree), handled);
    assert_eq!(s.up(&mut core, &mut tree), handled);
    assert_eq!(tree.vp(child).view(), Rect::new(0, 0, 10, 10));
    assert_eq!(s.page_down(&mut core, &mut tree), handled);
    assert_eq!(tree.vp(child).view(), Rect::new(0, 10, 10, 10));
    assert_eq!(s.page_up(&mut core, &mut tree), handled);
    assert_eq!(tree.vp(child).view(), Rect::new(0, 0, 10, 10));
    assert_eq!(s.scroll_to(&mut core, &mut tree, 3, 95), handled);
    assert_eq!(tree.vp(child).view(), Rect::new(0, 90, 10, 10));
    assert_eq!(s.scroll_by(&mut core, &mut tree, 7, -50), handled);
    assert_eq!(tree.vp(child).view(), Rect::new(0, 40, 10, 10));
    assert_eq!(s.right(&mut core, &mut tree), handled);
    assert_eq!(s.left(&mut core, &mut tree), handled);
    assert_eq!(tree.vp(child).view(), Rect::new(0, 40, 10, 10));
    assert_eq!(tree.vp(child).screen_rect(), Rect::new(5, 5, 10, 10));
}

#[test]
fn scroll_before_layout_and_too_large() {
    let mut core = Canopy::new();
    let mut tree = Tree::new("scroll", false);
    let child = tree.add_child(0, "text", true);
    let mut s = Scroll::new(0, child);
    let handled = Ok(Outcome::Handle(Handle { skip: false }));
    assert_eq!(s.scroll_to(&mut core, &mut tree, 1, 1), handled);
    assert_eq!(s.page_down(&mut core, &mut tree), handled);
    assert_eq!(core, Canopy::new());
    assert_eq!(s.bounds(), None);

    s.scrollstate = Some(ScrollState {
        rect: Rect::new(0, 0, 10, 10),
        virt: Rect::new(0, 0, 5, 5),
        window: Rect::new(0, 0, 10, 10),
    });
    assert_eq!(s.scroll_to(&mut core, &mut tree, 1, 1), Err(Error::Geometry));
    s.layout(&mut tree, None, Rect::new(0, 0, 0, 0));
    assert_eq!(s.scrollstate, None);
}

fn rooted() -> (Canopy, Tree, Root) {
    let mut tree = Tree::new("root", false);
    let inspector = tree.add_child(0, "inspector", true);
    tree.add_child(inspector, "logs", true);
    let app = tree.add_child(0, "app", true);
    tree.add_child(app, "left", true);
    tree.add_child(app, "right", true);
    tree.set_hidden(inspector, true);
    tree.set_hidden(inspector + 1, true);
    (Canopy::new(), tree, Root::new(0, app, inspector))
}

#[test]
fn root_inspector() {
    let (mut core, mut tree, mut root) = rooted();
    root.layout(&core, &mut tree, Expanse::new(80, 24)).unwrap();
    assert_eq!(tree.vp(root.app).screen_rect(), Rect::new(0, 0, 80, 24));

    root.focus_next(&mut core, &mut tree).unwrap();
    assert!(core.is_focused(&tree, root.app));
    root.focus_app(&mut core, &mut tree).unwrap();
    assert!(core.is_focused(&tree, root.app));

    root.toggle_inspector(&mut core, &mut tree).unwrap();
    assert!(root.inspector_active);
    assert!(!tree.is_hidden(root.inspector));
    assert!(core.is_focused(&tree, root.inspector));
    root.layout(&core, &mut tree, Expanse::new(81, 24)).unwrap();
    assert_eq!(tree.vp(root.inspector).screen_rect(), Rect::new(0, 0, 41, 24));
    assert_eq!(tree.vp(root.app).screen_rect(), Rect::new(41, 0, 40, 24));

    root.focus_app(&mut core, &mut tree).unwrap();
    assert!(core.is_focused(&tree, root.app));

    assert_eq!(root.quit(&mut core, &mut tree), Ok(None));
    assert!(!root.inspector_active);
    assert!(tree.is_hidden(root.inspector));
    assert_eq!(root.quit(&mut core, &mut tree), Ok(Some(0)));

    let (_, mut tree, root) = rooted();
    let root = root.with_inspector(&mut tree, true);
    assert!(root.inspector_active && !tree.is_hidden(root.inspector));
}

#[test]
fn root_moves_focus() {
    let (mut core, mut tree, mut root) = rooted();
    root.layout(&core, &mut tree, Expanse::new(80, 24)).unwrap();
    let (left, right) = (root.app + 1, root.app + 2);
    tree.place(left, Rect::new(0, 0, 40, 24));
    tree.place(right, Rect::new(40, 0, 40, 24));
    core.set_focus(&mut tree, left);
    root.focus_right(&mut core, &mut tree).unwrap();
    assert!(core.is_focused(&tree, right));
    root.focus_left(&mut core, &mut tree).unwrap();
    assert!(core.is_focused(&tree, left));
    root.focus_up(&mut core, &mut tree).unwrap();
    root.focus_down(&mut core, &mut tree).unwrap();
    assert!(core.is_focused(&tree, left));
    root.focus_next(&mut core, &mut tree).unwrap();
    assert!(core.is_focused(&tree, right));
    root.focus_prev(&mut core, &mut tree).unwrap();
    assert!(core.is_focused(&tree, left));
    shift_next(&mut core, &mut tree, root.app).unwrap();
    assert!(core.is_focused(&tree, right));
}

#[test]
fn fit_is_idempotent() {
    let mut tree = Tree::new("tabs", false);
    let mut t = Tabs::new(0, vec!["a".to_string()]);
    let target = Expanse::new(30, 2);
    assert_eq!(t.fit(target), Ok(target));
    assert_eq!(t.fit(target), Ok(target));
    assert_eq!(t.active, 0);

    let parent = ViewPort::new(Expanse::new(30, 2), Rect::new(0, 0, 30, 2), Point { x: 3, y: 4 }).unwrap();
    wrap(&mut tree, &mut t, parent).unwrap();
    let once = tree.vp(0);
    wrap(&mut tree, &mut t, parent).unwrap();
    assert_eq!(tree.vp(0), once);
    assert_eq!(once.screen_rect(), Rect::new(3, 4, 30, 2));
    assert_eq!(once.canvas(), Expanse::new(30, 2));

    let screen = frame(&mut tree, &mut t, parent, 1).unwrap();
    assert_eq!(screen, Rect::new(4, 5, 28, 0));
    assert_eq!(tree.vp(0).canvas(), Expanse::new(28, 0));
    assert!(!t.accept_focus());
}

#[test]
fn tabs_share_the_width() {
    let t = Tabs::new(0, vec!["a".to_string(), "b".to_string(), "c".to_string()]);
    assert_eq!(
        t.cells(Rect::new(2, 1, 20, 1)),
        Ok(vec![
            (Rect::new(2, 1, 6, 1), Rect::new(8, 1, 1, 1)),
            (Rect::new(9, 1, 6, 1), Rect::new(15, 1, 1, 1)),
            (Rect::new(16, 1, 5, 1), Rect::new(21, 1, 1, 1)),
        ])
    );
    assert_eq!(Tabs::new(0, vec![]).cells(Rect::new(0, 0, 10, 1)), Err(Error::Geometry));
    // A tab without room for the column that sets it off keeps what it has.
    assert_eq!(
        Tabs::new(0, vec!["a".to_string()]).cells(Rect::new(0, 0, 0, 1)),
        Ok(vec![(Rect::new(0, 0, 0, 1), Rect::new(0, 0, 0, 1))])
    );
}
