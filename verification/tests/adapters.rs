use canopy::event::{Key, KeyCode};
use canopy::geom::{Expanse, Point, Rect};
use canopy::graft::Graft;
use canopy::inspector::{Logs, View};
use canopy::layout::{set_root_size, ConstrainedWidthLayout, FillLayout};
use canopy::node::{Node, Visitor};
use canopy::{Canopy, Error, Handle, NodeId, Outcome, Tree};

/// Answers for one node with a set outcome, and ignores for the others.
struct Answer {
    node: NodeId,
    outcome: Outcome,
    asked: Vec<NodeId>,
}

impl Visitor<Outcome> for Answer {
    type Model = ();

    fn model(&self) {}

    fn step(_: (), _: Tree, _: NodeId) -> ((), Result<Outcome, Error>) {
        unreachable!("a description for proofs, never run")
    }

    fn visit(&mut self, _tree: &Tree, id: NodeId) -> Result<Outcome, Error> {
        self.asked.push(id);
        Ok(if id == self.node { self.outcome } else { Outcome::ignore() })
    }
}

#[test]
fn graft_relays_whether_handled() {
    let mut inner = Tree::new("inner", true);
    let leaf = inner.add_child(0, "leaf", true);
    inner.place(0, Rect::new(0, 0, 10, 10));
    inner.place(leaf, Rect::new(0, 0, 10, 5));
    let mut g = Graft::new(7, inner);
    assert_eq!(g.id(), 7);
    assert_eq!(g.name(), Some("graft".to_string()));
    assert!(g.accept_focus());
    assert_eq!(g.fit(Expanse::new(3, 3)), Ok(Expanse::new(3, 3)));

    let quiet = Outcome::Handle(Handle { skip: false });
    let mut v = Answer { node: leaf, outcome: quiet, asked: vec![] };
    assert_eq!(g.handle_key(&mut v), Ok(Outcome::ignore()));
    assert!(v.asked.is_empty());

    g.core.set_focus(&mut g.tree, leaf);
    assert_eq!(g.handle_key(&mut v), Ok(Outcome::handle()));
    assert_eq!(v.asked, [leaf, 0]);
    assert!(g.core.taint);

    let mut v = Answer { node: 99, outcome: quiet, asked: vec![] };
    assert_eq!(g.handle_mouse(Point { x: 1, y: 1 }, &mut v), Ok(Outcome::ignore()));
    assert_eq!(v.asked, [leaf, 0]);
    let mut v = Answer { node: 0, outcome: quiet, asked: vec![] };
    assert_eq!(g.handle_mouse(Point { x: 1, y: 7 }, &mut v), Ok(Outcome::handle()));
    assert_eq!(v.asked, [0]);
}

#[test]
fn inspector_tabs_follow_the_tab_key() {
    let mut core = Canopy::new();
    let mut tree = Tree::new("view", true);
    let tabs = tree.add_child(0, "tabs", false);
    let logs = tree.add_child(0, "logs", false);
    let mut v = View::new(0, tabs, logs);
    assert_eq!(v.tabs.tabs, ["Nodes", "Events", "Logs"]);
    assert_eq!(Logs::new(logs).id, v.logs.id);
    assert!(v.accept_focus());
    assert_eq!(v.name(), None);

    assert_eq!(v.handle_key(&mut core, &mut tree, Key::from_char('x')), Ok(Outcome::ignore()));
    assert_eq!((v.tabs.active, core.taint), (0, false));
    let tab = Key::from_code(KeyCode::Tab);
    assert_eq!(v.handle_key(&mut core, &mut tree, tab), Ok(Outcome::handle()));
    assert_eq!(v.tabs.active, 1);
    assert!(core.taint && core.is_tainted(&tree, tabs) && !core.is_tainted(&tree, logs));
    v.handle_key(&mut core, &mut tree, tab).unwrap();
    v.handle_key(&mut core, &mut tree, tab).unwrap();
    assert_eq!(v.tabs.active, 0);

    v.layout(&mut tree, Rect::new(40, 0, 40, 24));
    assert_eq!(tree.vp(tabs).screen_rect(), Rect::new(40, 0, 40, 1));
    assert_eq!(tree.vp(logs).screen_rect(), Rect::new(40, 1, 40, 23));
    v.layout(&mut tree, Rect::new(0, 0, 40, 0));
    assert_eq!(tree.vp(tabs).screen_rect(), Rect::new(0, 0, 40, 0));
    assert_eq!(tree.vp(logs).screen_rect(), Rect::new(0, 0, 40, 0));
}

/// A bar that fills its rectangle and gives its one child the first row.
struct Bar {
    id: NodeId,
    child: NodeId,
}

impl Node for Bar {
    fn node_id(&self) -> NodeId {
        self.id
    }

    fn fitted(&self, target: Expanse) -> Expanse {
        target
    }

    fn settled(&self, _: Expanse) -> bool {
        true
    }

    fn id(&self) -> NodeId {
        self.id
    }

    fn fit(&mut self, target: Expanse) -> Result<Expanse, Error> {
        Ok(target)
    }
}

impl FillLayout for Bar {
    fn layout_children(&mut self, _: &mut Canopy, tree: &mut Tree) -> Result<(), Error> {
        let r = tree.vp(self.id).screen_rect();
        tree.place(self.child, r.first_line());
        Ok(())
    }
}

/// Text of forty cells that is as high as its width makes it.
struct Para {
    id: NodeId,
}

impl Node for Para {
    fn node_id(&self) -> NodeId {
        self.id
    }

    fn fitted(&self, target: Expanse) -> Expanse {
        target
    }

    fn settled(&self, _: Expanse) -> bool {
        true
    }

    fn id(&self) -> NodeId {
        self.id
    }

    fn fit(&mut self, target: Expanse) -> Result<Expanse, Error> {
        Ok(target)
    }
}

impl ConstrainedWidthLayout for Para {
    fn constrain(&mut self, _: &mut Canopy, width: u16) -> Result<Rect, Error> {
        if width == 0 {
            Err(Error::Geometry)
        } else {
            Ok(Rect::new(0, 0, width, 40u16.div_ceil(width)))
        }
    }
}

#[test]
fn layouts_set_the_screen_area() {
    let mut core = Canopy::new();
    let mut tree = Tree::new("bar", false);
    let child = tree.add_child(0, "child", false);
    let mut bar = Bar { id: 0, child };
    FillLayout::layout(&mut bar, &mut core, &mut tree, Rect::new(2, 3, 20, 4)).unwrap();
    assert_eq!(tree.vp(0).screen_rect(), Rect::new(2, 3, 20, 4));
    assert_eq!(tree.vp(child).screen_rect(), Rect::new(2, 3, 20, 1));

    let mut para = Para { id: child };
    let virt = para.constrain(&mut core, 8).unwrap();
    assert_eq!(virt, Rect::new(0, 0, 8, 5));
    ConstrainedWidthLayout::layout(&mut para, &mut core, &mut tree, virt, Rect::new(2, 3, 8, 2))
        .unwrap();
    assert_eq!(tree.vp(child).canvas(), Expanse::new(8, 5));
    assert_eq!(tree.vp(child).view(), Rect::new(0, 0, 8, 2));
    assert_eq!(tree.vp(child).screen_rect(), Rect::new(2, 3, 8, 2));
    assert_eq!(para.constrain(&mut core, 0), Err(Error::Geometry));
    assert_eq!(core, Canopy::new());
}

#[test]
fn root_size_taints_the_tree() {
    let mut core = Canopy::new();
    let mut tree = Tree::new("root", false);
    let a = tree.add_child(0, "a", false);
    assert_eq!(set_root_size(&mut core, &mut tree, 0, Expanse::new(80, 24)), Ok(()));
    assert_eq!(tree.vp(0).screen_rect(), Rect::new(0, 0, 80, 24));
    assert_eq!(tree.vp(0).canvas(), Expanse::new(80, 24));
    assert!(core.taint && core.is_tainted(&tree, 0) && core.is_tainted(&tree, a));
    core.begin_sweep();
    assert_eq!(core.render_plan(&tree, 0, &vec![None, None]), [0, a]);
}
