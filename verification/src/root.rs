use vstd::prelude::*;
use crate::canopy::{lemma_governs_kept, Canopy};
use crate::error::Error;
use crate::focus::{
    direction_target, first_target, focus_moved, focus_path, is_on_path, next_target,
    prev_target, shift_direction, shift_first, shift_next, shift_prev,
};
use crate::geom::direction::Direction;
use crate::event::{Key, KeyCode, Mods};
use crate::geom::expanse::Expanse;
use crate::inputmap::{BindingView, Input};
use crate::mapbuilder::MapBuilder;
use crate::node::Node;
use crate::tree::{NodeId, Tree};

verus! {

/// The node at the base of an application. It holds the application's own
/// node and the inspector, of which the second is hidden until called for.
pub struct Root {
    /// The node of the tree at which the root stands.
    pub id: NodeId,
    /// The application's node.
    pub app: NodeId,
    /// The inspector's node.
    pub inspector: NodeId,
    /// Is the inspector open?
    pub inspector_active: bool,
}

impl Root {
    /// The root and its two parts are nodes of the tree, and the tree is in
    /// step with the shared state.
    pub open spec fn wf(self, core: Canopy, tree: Tree) -> bool {
        &&& tree.wf()
        &&& core.governs(tree)
        &&& self.id < tree.size()
        &&& self.app < tree.size()
        &&& self.inspector < tree.size()
    }

    /// The same root, whatever the state of the inspector.
    pub open spec fn same_nodes(self, other: Root) -> bool {
        self.id == other.id && self.app == other.app && self.inspector == other.inspector
    }

    /// The tree after the inspector was hidden or shown: nothing else has
    /// changed.
    pub open spec fn inspector_set(self, before: Tree, after: Tree, hidden: bool) -> bool {
        &&& after.same_shape(before)
        &&& after.state(self.inspector as int) == (crate::state::NodeState {
            hidden,
            ..before.state(self.inspector as int)
        })
        &&& forall|i: int|
            0 <= i < before.size() && i != self.inspector ==> #[trigger] after.state(i)
                == before.state(i)
    }

    /// A root over the application and the inspector, with the inspector
    /// closed.
    pub fn new(id: NodeId, app: NodeId, inspector: NodeId) -> (r: Root)
        ensures
            r == (Root { id, app, inspector, inspector_active: false }),
    {
        Root { id, app, inspector, inspector_active: false }
    }

    /// The root with the inspector open or closed from the start. An open
    /// inspector is shown; a closed one is left as it is.
    pub fn with_inspector(self, tree: &mut Tree, state: bool) -> (r: Root)
        requires
            old(tree).wf(),
            self.inspector < old(tree).size(),
        ensures
            r == (Root { inspector_active: state, ..self }),
            final(tree).wf(),
            state ==> self.inspector_set(*old(tree), *final(tree), false),
            !state ==> *final(tree) == *old(tree),
    {
        let mut r = self;
        r.inspector_active = state;
        if state {
            tree.set_hidden(r.inspector, false);
        }
        r
    }

    /// Moves focus to the next node of the application in tree order.
    pub fn focus_next(&mut self, core: &mut Canopy, tree: &mut Tree) -> (r: Result<(), Error>)
        requires
            old(self).wf(*old(core), *old(tree)),
            old(core).focus_gen < u64::MAX,
        ensures
            r is Ok,
            *final(self) == *old(self),
            final(self).wf(*final(core), *final(tree)),
            final(core).render_gen == old(core).render_gen,
            old(core).focus_gen <= final(core).focus_gen <= old(core).focus_gen + 1,
            focus_moved(
                *old(core),
                *old(tree),
                *final(core),
                *final(tree),
                next_target(*old(tree), old(core).focus_gen, old(self).id),
            ),
    {
        match shift_next(core, tree, self.id) {
            Ok(_) => Ok(()),
            Err(e) => Err(e),
        }
    }

    /// Moves focus to the previous node of the application in tree order.
    pub fn focus_prev(&mut self, core: &mut Canopy, tree: &mut Tree) -> (r: Result<(), Error>)
        requires
            old(self).wf(*old(core), *old(tree)),
            old(core).focus_gen < u64::MAX,
        ensures
            r is Ok,
            *final(self) == *old(self),
            final(self).wf(*final(core), *final(tree)),
            final(core).render_gen == old(core).render_gen,
            old(core).focus_gen <= final(core).focus_gen <= old(core).focus_gen + 1,
            focus_moved(
                *old(core),
                *old(tree),
                *final(core),
                *final(tree),
                prev_target(*old(tree), old(core).focus_gen, old(self).id),
            ),
    {
        match shift_prev(core, tree, self.id) {
            Ok(_) => Ok(()),
            Err(e) => Err(e),
        }
    }

    /// Moves focus in a direction on the screen.
    fn focus_dir(&mut self, core: &mut Canopy, tree: &mut Tree, dir: Direction) -> (r: Result<
        (),
        Error,
    >)
        requires
            old(self).wf(*old(core), *old(tree)),
            old(core).focus_gen < u64::MAX,
        ensures
            r is Ok,
            *final(self) == *old(self),
            final(self).wf(*final(core), *final(tree)),
            final(core).render_gen == old(core).render_gen,
            old(core).focus_gen <= final(core).focus_gen <= old(core).focus_gen + 1,
            focus_moved(
                *old(core),
                *old(tree),
                *final(core),
                *final(tree),
                direction_target(*old(core), *old(tree), old(self).id, dir),
            ),
    {
        match shift_direction(core, tree, self.id, dir) {
            Ok(_) => Ok(()),
            Err(e) => Err(e),
        }
    }

    /// Moves focus to the right on the screen.
    pub fn focus_right(&mut self, core: &mut Canopy, tree: &mut Tree) -> (r: Result<(), Error>)
        requires
            old(self).wf(*old(core), *old(tree)),
            old(core).focus_gen < u64::MAX,
        ensures
            r is Ok,
            *final(self) == *old(self),
            final(self).wf(*final(core), *final(tree)),
            final(core).render_gen == old(core).render_gen,
            old(core).focus_gen <= final(core).focus_gen <= old(core).focus_gen + 1,
            focus_moved(
                *old(core),
                *old(tree),
                *final(core),
                *final(tree),
                direction_target(*old(core), *old(tree), old(self).id, Direction::Right),
            ),
    {
        self.focus_dir(core, tree, Direction::Right)
    }

    /// Moves focus to the left on the screen.
    pub fn focus_left(&mut self, core: &mut Canopy, tree: &mut Tree) -> (r: Result<(), Error>)
        requires
            old(self).wf(*old(core), *old(tree)),
            old(core).focus_gen < u64::MAX,
        ensures
            r is Ok,
            *final(self) == *old(self),
            final(self).wf(*final(core), *final(tree)),
            final(core).render_gen == old(core).render_gen,
            old(core).focus_gen <= final(core).focus_gen <= old(core).focus_gen + 1,
            focus_moved(
                *old(core),
                *old(tree),
                *final(core),
                *final(tree),
                direction_target(*old(core), *old(tree), old(self).id, Direction::Left),
            ),
    {
        self.focus_dir(core, tree, Direction::Left)
    }

    /// Moves focus upward on the screen.
    pub fn focus_up(&mut self, core: &mut Canopy, tree: &mut Tree) -> (r: Result<(), Error>)
        requires
            old(self).wf(*old(core), *old(tree)),
            old(core).focus_gen < u64::MAX,
        ensures
            r is Ok,
            *final(self) == *old(self),
            final(self).wf(*final(core), *final(tree)),
            final(core).render_gen == old(core).render_gen,
            old(core).focus_gen <= final(core).focus_gen <= old(core).focus_gen + 1,
            focus_moved(
                *old(core),
                *old(tree),
                *final(core),
                *final(tree),
                direction_target(*old(core), *old(tree), old(self).id, Direction::Up),
            ),
    {
        self.focus_dir(core, tree, Direction::Up)
    }

    /// Moves focus downward on the screen.
    pub fn focus_down(&mut self, core: &mut Canopy, tree: &mut Tree) -> (r: Result<(), Error>)
        requires
            old(self).wf(*old(core), *old(tree)),
            old(core).focus_gen < u64::MAX,
        ensures
            r is Ok,
            *final(self) == *old(self),
            final(self).wf(*final(core), *final(tree)),
            final(core).render_gen == old(core).render_gen,
            old(core).focus_gen <= final(core).focus_gen <= old(core).focus_gen + 1,
            focus_moved(
                *old(core),
                *old(tree),
                *final(core),
                *final(tree),
                direction_target(*old(core), *old(tree), old(self).id, Direction::Down),
            ),
    {
        self.focus_dir(core, tree, Direction::Down)
    }
}

impl Root {
    /// Closes the inspector: it is hidden, and focus goes to the first node
    /// of the application that may be given it.
    pub fn hide_inspector(&mut self, core: &mut Canopy, tree: &mut Tree) -> (r: Result<(), Error>)
        requires
            old(self).wf(*old(core), *old(tree)),
            old(core).focus_gen < u64::MAX,
        ensures
            r is Ok,
            *final(self) == (Root { inspector_active: false, ..*old(self) }),
            final(self).wf(*final(core), *final(tree)),
            final(core).render_gen == old(core).render_gen,
            old(core).focus_gen <= final(core).focus_gen <= old(core).focus_gen + 1,
            exists|mid: Tree|
                #![auto]
                mid.wf() && old(self).inspector_set(*old(tree), mid, true) && focus_moved(
                    *old(core),
                    mid,
                    *final(core),
                    *final(tree),
                    first_target(mid, old(self).app),
                ),
    {
        self.inspector_active = false;
        tree.set_hidden(self.inspector, true);
        proof {
            lemma_governs_kept(*old(core), *old(tree), *core, *tree);
        }
        match shift_first(core, tree, self.app) {
            Ok(_) => Ok(()),
            Err(e) => Err(e),
        }
    }

    /// Opens the inspector: it is shown, and focus goes to the first of its
    /// nodes that may be given it.
    pub fn activate_inspector(&mut self, core: &mut Canopy, tree: &mut Tree) -> (r: Result<
        (),
        Error,
    >)
        requires
            old(self).wf(*old(core), *old(tree)),
            old(core).focus_gen < u64::MAX,
        ensures
            r is Ok,
            *final(self) == (Root { inspector_active: true, ..*old(self) }),
            final(self).wf(*final(core), *final(tree)),
            final(core).render_gen == old(core).render_gen,
            old(core).focus_gen <= final(core).focus_gen <= old(core).focus_gen + 1,
            exists|mid: Tree|
                #![auto]
                mid.wf() && old(self).inspector_set(*old(tree), mid, false) && focus_moved(
                    *old(core),
                    mid,
                    *final(core),
                    *final(tree),
                    first_target(mid, old(self).inspector),
                ),
    {
        self.inspector_active = true;
        tree.set_hidden(self.inspector, false);
        proof {
            lemma_governs_kept(*old(core), *old(tree), *core, *tree);
        }
        match shift_first(core, tree, self.inspector) {
            Ok(_) => Ok(()),
            Err(e) => Err(e),
        }
    }

    /// Closes the inspector where it is open, and opens it where it is
    /// closed.
    pub fn toggle_inspector(&mut self, core: &mut Canopy, tree: &mut Tree) -> (r: Result<(), Error>)
        requires
            old(self).wf(*old(core), *old(tree)),
            old(core).focus_gen < u64::MAX,
        ensures
            r is Ok,
            *final(self) == (Root {
                inspector_active: !old(self).inspector_active,
                ..*old(self)
            }),
            final(self).wf(*final(core), *final(tree)),
            final(core).render_gen == old(core).render_gen,
            old(core).focus_gen <= final(core).focus_gen <= old(core).focus_gen + 1,
            exists|mid: Tree|
                #![auto]
                mid.wf() && old(self).inspector_set(
                    *old(tree),
                    mid,
                    old(self).inspector_active,
                ) && focus_moved(
                    *old(core),
                    mid,
                    *final(core),
                    *final(tree),
                    first_target(
                        mid,
                        if old(self).inspector_active {
                            old(self).app
                        } else {
                            old(self).inspector
                        },
                    ),
                ),
    {
        if self.inspector_active {
            self.hide_inspector(core, tree)
        } else {
            self.activate_inspector(core, tree)
        }
    }

    /// Where focus is in the inspector, moves it to the first node of the
    /// application that may be given it; else does nothing.
    pub fn focus_app(&mut self, core: &mut Canopy, tree: &mut Tree) -> (r: Result<(), Error>)
        requires
            old(self).wf(*old(core), *old(tree)),
            old(core).focus_gen < u64::MAX,
        ensures
            r is Ok,
            *final(self) == *old(self),
            final(self).wf(*final(core), *final(tree)),
            final(core).render_gen == old(core).render_gen,
            old(core).focus_gen <= final(core).focus_gen <= old(core).focus_gen + 1,
            focus_moved(
                *old(core),
                *old(tree),
                *final(core),
                *final(tree),
                if focus_path(*old(core), *old(tree), old(self).inspector).len() > 0 {
                    first_target(*old(tree), old(self).app)
                } else {
                    None
                },
            ),
    {
        if is_on_path(core, tree, self.inspector) {
            match shift_first(core, tree, self.app) {
                Ok(_) => Ok(()),
                Err(e) => Err(e),
            }
        } else {
            Ok(())
        }
    }

    /// Asks to leave. With the inspector open, that closes the inspector
    /// and the program goes on: the result is `None`. Else the result is the
    /// exit code with which the program is to end, zero, and nothing changes.
    pub fn quit(&mut self, core: &mut Canopy, tree: &mut Tree) -> (r: Result<Option<i32>, Error>)
        requires
            old(self).wf(*old(core), *old(tree)),
            old(core).focus_gen < u64::MAX,
        ensures
            final(self).wf(*final(core), *final(tree)),
            final(core).render_gen == old(core).render_gen,
            old(core).focus_gen <= final(core).focus_gen <= old(core).focus_gen + 1,
            !old(self).inspector_active ==> r == Ok::<Option<i32>, Error>(Some(0i32))
                && *final(self) == *old(self) && *final(core) == *old(core)
                && *final(tree) == *old(tree),
            old(self).inspector_active ==> r == Ok::<Option<i32>, Error>(None) && *final(self) == (
            Root { inspector_active: false, ..*old(self) }) && exists|mid: Tree|
                #![auto]
                mid.wf() && old(self).inspector_set(*old(tree), mid, true) && focus_moved(
                    *old(core),
                    mid,
                    *final(core),
                    *final(tree),
                    first_target(mid, old(self).app),
                ),
    {
        if self.inspector_active {
            match self.hide_inspector(core, tree) {
                Ok(_) => Ok(None),
                Err(e) => Err(e),
            }
        } else {
            Ok(Some(0))
        }
    }

    /// Lays the root out on a screen of the given size. With the inspector
    /// open the screen is split into two columns, the inspector on the left
    /// and the application on the right; else the application has all of it.
    pub fn layout(&mut self, core: &Canopy, tree: &mut Tree, size: Expanse) -> (r: Result<(), Error>)
        requires
            old(self).wf(*core, *old(tree)),
        ensures
            r is Ok,
            *final(self) == *old(self),
            final(self).wf(*core, *final(tree)),
            final(tree).same_shape(*old(tree)),
            final(tree).state(old(self).app as int).viewport.fills(
                if old(self).inspector_active {
                    size.bounds().column(2, 1)
                } else {
                    size.bounds()
                },
            ),
            old(self).inspector_active && old(self).app != old(self).inspector
                ==> final(tree).state(old(self).inspector as int).viewport.fills(
                size.bounds().column(2, 0),
            ),
            old(self).id != old(self).app && old(self).id != old(self).inspector
                ==> final(tree).state(old(self).id as int).viewport.fills(size.bounds()),
            forall|i: int|
                0 <= i < old(tree).size() ==> (#[trigger] final(tree).state(i)).focus_gen == old(
                    tree,
                ).state(i).focus_gen && final(tree).state(i).render_gen == old(tree).state(
                    i,
                ).render_gen && final(tree).state(i).hidden == old(tree).state(i).hidden,
            forall|i: int|
                0 <= i < old(tree).size() && i != old(self).id && i != old(self).app && i != old(
                    self,
                ).inspector ==> #[trigger] final(tree).state(i) == old(tree).state(i),
    {
        let ghost t0 = *tree;
        let whole = size.rect();
        tree.place(self.id, whole);
        proof {
            lemma_governs_kept(*core, t0, *core, *tree);
        }
        let ghost t1 = *tree;
        if self.inspector_active {
            match whole.split_horizontal(2) {
                Ok(parts) => {
                    tree.place(self.inspector, parts[0]);
                    proof {
                        lemma_governs_kept(*core, t1, *core, *tree);
                    }
                    let ghost t2 = *tree;
                    tree.place(self.app, parts[1]);
                    proof {
                        lemma_governs_kept(*core, t2, *core, *tree);
                    }
                },
                Err(e) => {
                    return Err(e);
                },
            }
        } else {
            tree.place(self.app, whole);
            proof {
                lemma_governs_kept(*core, t1, *core, *tree);
            }
        }
        Ok(())
    }
}

/// The key that opens and closes the inspector: the right arrow with the
/// control key.
pub open spec fn inspector_key() -> Key {
    Key { mods: Some(Mods { shift: false, ctrl: true, alt: false }), code: KeyCode::Right }
}

/// The keys that a root is bound to from the start, in the mode that the
/// builder has: at the root, the inspector key toggles the inspector and `q`
/// quits; in the inspector, `a` takes focus back to the application.
pub open spec fn default_keys(mode: Seq<char>) -> Seq<BindingView> {
    seq![
        BindingView {
            input: Input::Key(inspector_key()),
            mode,
            path: "root"@,
            script: "root::toggle_inspector()"@,
        },
        BindingView {
            input: Input::Key(Key { mods: None, code: KeyCode::Char('q') }),
            mode,
            path: "root"@,
            script: "root::quit()"@,
        },
        BindingView {
            input: Input::Key(Key { mods: None, code: KeyCode::Char('a') }),
            mode,
            path: "inspector"@,
            script: "root::focus_app()"@,
        },
    ]
}

impl Root {
    /// Adds the root's own key bindings to a builder, and leaves the
    /// builder with the path filter of the inspector.
    pub fn defaults(b: MapBuilder) -> (out: MapBuilder)
        ensures
            out.key_list() == b.key_list() + default_keys(b.current_mode()),
            out.mouse_list() == b.mouse_list(),
            out.current_mode() == b.current_mode(),
            out.current_path() == "inspector"@,
    {
        let ctrl_right = Key {
            mods: Some(Mods { shift: false, ctrl: true, alt: false }),
            code: KeyCode::Right,
        };
        let out = b.with_path("root").key(ctrl_right, "root::toggle_inspector()").key(
            Key::from_char('q'),
            "root::quit()",
        ).with_path("inspector").key(Key::from_char('a'), "root::focus_app()");
        assert(out.key_list() =~= b.key_list() + default_keys(b.current_mode()));
        out
    }
}

impl Node for Root {
    open spec fn node_id(&self) -> NodeId {
        self.id
    }

    /// The root takes whatever size it is offered.
    open spec fn fitted(&self, target: Expanse) -> Expanse {
        target
    }

    open spec fn settled(&self, target: Expanse) -> bool {
        true
    }

    fn id(&self) -> (id: NodeId) {
        self.id
    }

    fn name(&self) -> (n: Option<String>)
        ensures
            n is Some && n->Some_0@ == "root"@,
    {
        Some("root".to_owned())
    }

    fn fit(&mut self, target: Expanse) -> (r: Result<Expanse, Error>) {
        Ok(target)
    }
}

} // verus!
