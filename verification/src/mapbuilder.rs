use vstd::prelude::*;
use crate::error::Error;
use crate::event::{Key, Mouse};
use crate::inputmap::{Binding, BindingView, Input, InputMap};

verus! {

/// Gathers bindings to put into an input map all at once. The mode and the
/// path filter that are set when a binding is added are the ones it gets.
pub struct MapBuilder {
    keys: Vec<Binding>,
    mice: Vec<Binding>,
    mode: String,
    path_filter: String,
}

/// The bindings of a list, as what they say.
pub open spec fn said(list: Seq<Binding>) -> Seq<BindingView> {
    Seq::new(list.len(), |i: int| list[i]@)
}

impl MapBuilder {
    /// The key bindings gathered so far.
    pub closed spec fn key_list(self) -> Seq<BindingView> {
        said(self.keys@)
    }

    /// The mouse bindings gathered so far.
    pub closed spec fn mouse_list(self) -> Seq<BindingView> {
        said(self.mice@)
    }

    /// The mode that the next binding gets.
    pub closed spec fn current_mode(self) -> Seq<char> {
        self.mode@
    }

    /// The path filter that the next binding gets.
    pub closed spec fn current_path(self) -> Seq<char> {
        self.path_filter@
    }

    /// A builder without bindings, with the empty mode and path filter.
    pub fn new() -> (b: MapBuilder)
        ensures
            b.key_list() == Seq::<BindingView>::empty(),
            b.mouse_list() == Seq::<BindingView>::empty(),
            b.current_mode() == Seq::<char>::empty(),
            b.current_path() == Seq::<char>::empty(),
    {
        let b = MapBuilder {
            keys: Vec::new(),
            mice: Vec::new(),
            mode: String::new(),
            path_filter: String::new(),
        };
        assert(b.key_list() =~= Seq::<BindingView>::empty());
        assert(b.mouse_list() =~= Seq::<BindingView>::empty());
        b
    }

    /// Sets the mode for the bindings that follow.
    pub fn with_mode(self, m: &str) -> (b: MapBuilder)
        ensures
            b.current_mode() == m@,
            b.current_path() == self.current_path(),
            b.key_list() == self.key_list(),
            b.mouse_list() == self.mouse_list(),
    {
        let mut b = self;
        b.mode = m.to_owned();
        b
    }

    /// Sets the path filter for the bindings that follow.
    pub fn with_path(self, m: &str) -> (b: MapBuilder)
        ensures
            b.current_path() == m@,
            b.current_mode() == self.current_mode(),
            b.key_list() == self.key_list(),
            b.mouse_list() == self.mouse_list(),
    {
        let mut b = self;
        b.path_filter = m.to_owned();
        b
    }

    /// Adds a binding of a script to a key.
    pub fn key(self, key: Key, script: &str) -> (b: MapBuilder)
        ensures
            b.current_mode() == self.current_mode(),
            b.current_path() == self.current_path(),
            b.mouse_list() == self.mouse_list(),
            b.key_list() == self.key_list().push(
                BindingView {
                    input: Input::Key(key),
                    mode: self.current_mode(),
                    path: self.current_path(),
                    script: script@,
                },
            ),
    {
        let mut b = self;
        let binding = Binding {
            input: Input::Key(key),
            script: script.to_owned(),
            mode: b.mode.clone(),
            path: b.path_filter.clone(),
        };
        b.keys.push(binding);
        assert(b.key_list() =~= self.key_list().push(
            BindingView {
                input: Input::Key(key),
                mode: self.current_mode(),
                path: self.current_path(),
                script: script@,
            },
        ));
        b
    }

    /// Adds a binding of a script to a mouse event.
    pub fn mouse(self, m: Mouse, script: &str) -> (b: MapBuilder)
        ensures
            b.current_mode() == self.current_mode(),
            b.current_path() == self.current_path(),
            b.key_list() == self.key_list(),
            b.mouse_list() == self.mouse_list().push(
                BindingView {
                    input: Input::Mouse(m),
                    mode: self.current_mode(),
                    path: self.current_path(),
                    script: script@,
                },
            ),
    {
        let mut b = self;
        let binding = Binding {
            input: Input::Mouse(m),
            script: script.to_owned(),
            mode: b.mode.clone(),
            path: b.path_filter.clone(),
        };
        b.mice.push(binding);
        assert(b.mouse_list() =~= self.mouse_list().push(
            BindingView {
                input: Input::Mouse(m),
                mode: self.current_mode(),
                path: self.current_path(),
                script: script@,
            },
        ));
        b
    }

    /// Puts the bindings into the map: the mouse bindings first, then the
    /// key bindings, each kind in the order in which it was added.
    pub fn build(self, c: &mut InputMap) -> (r: Result<(), Error>)
        ensures
            r is Ok,
            final(c)@ == old(c)@ + self.mouse_list() + self.key_list(),
    {
        let mut i: usize = 0;
        while i < self.mice.len()
            invariant
                i <= self.mice@.len(),
                c@ == old(c)@ + self.mouse_list().subrange(0, i as int),
            decreases self.mice@.len() - i,
        {
            let m = &self.mice[i];
            let ghost before = c@;
            c.bindings.push(
                Binding {
                    input: m.input,
                    mode: m.mode.clone(),
                    path: m.path.clone(),
                    script: m.script.clone(),
                },
            );
            assert(c@ =~= before.push(self.mouse_list()[i as int]));
            assert(before.push(self.mouse_list()[i as int]) =~= old(c)@
                + self.mouse_list().subrange(0, i + 1));
            i = i + 1;
        }
        assert(self.mouse_list().subrange(0, self.mice@.len() as int) =~= self.mouse_list());
        let mut k: usize = 0;
        while k < self.keys.len()
            invariant
                k <= self.keys@.len(),
                c@ == old(c)@ + self.mouse_list() + self.key_list().subrange(0, k as int),
            decreases self.keys@.len() - k,
        {
            let b = &self.keys[k];
            let ghost before = c@;
            c.bindings.push(
                Binding {
                    input: b.input,
                    mode: b.mode.clone(),
                    path: b.path.clone(),
                    script: b.script.clone(),
                },
            );
            assert(c@ =~= before.push(self.key_list()[k as int]));
            assert(before.push(self.key_list()[k as int]) =~= old(c)@ + self.mouse_list()
                + self.key_list().subrange(0, k + 1));
            k = k + 1;
        }
        assert(self.key_list().subrange(0, self.keys@.len() as int) =~= self.key_list());
        Ok(())
    }
}

} // verus!
