use vstd::prelude::*;
use crate::error::Error;
use crate::event::{Key, Mouse};

verus! {

/// What a binding is tied to.
#[derive(Clone, Copy, Debug, PartialEq, Eq, Structural)]
pub enum Input {
    Key(Key),
    Mouse(Mouse),
}

/// A script tied to an input. It applies in one mode, and to the nodes that
/// the path filter lets through.
pub struct Binding {
    pub input: Input,
    pub mode: String,
    pub path: String,
    pub script: String,
}

/// What a binding says.
pub ghost struct BindingView {
    pub input: Input,
    pub mode: Seq<char>,
    pub path: Seq<char>,
    pub script: Seq<char>,
}

impl View for Binding {
    type V = BindingView;

    open spec fn view(&self) -> BindingView {
        BindingView {
            input: self.input,
            mode: self.mode@,
            path: self.path@,
            script: self.script@,
        }
    }
}

/// The bindings of an application, in the order in which they were made.
pub struct InputMap {
    pub bindings: Vec<Binding>,
}

impl View for InputMap {
    type V = Seq<BindingView>;

    open spec fn view(&self) -> Seq<BindingView> {
        Seq::new(self.bindings@.len(), |i: int| self.bindings@[i]@)
    }
}

impl InputMap {
    /// A map without bindings.
    pub fn new() -> (m: InputMap)
        ensures
            m@ == Seq::<BindingView>::empty(),
    {
        let m = InputMap { bindings: Vec::new() };
        assert(m@ =~= Seq::<BindingView>::empty());
        m
    }

    /// The number of bindings.
    pub fn len(&self) -> (n: usize)
        ensures
            n == self@.len(),
    {
        self.bindings.len()
    }

    /// Ties a script to a key, in a mode and for a path filter.
    pub fn bind_mode_key(&mut self, key: Key, mode: &str, path: &str, script: &str) -> (r: Result<
        (),
        Error,
    >)
        ensures
            r is Ok,
            final(self)@ == old(self)@.push(
                BindingView { input: Input::Key(key), mode: mode@, path: path@, script: script@ },
            ),
    {
        self.bindings.push(
            Binding {
                input: Input::Key(key),
                mode: mode.to_owned(),
                path: path.to_owned(),
                script: script.to_owned(),
            },
        );
        assert(self@ =~= old(self)@.push(
            BindingView { input: Input::Key(key), mode: mode@, path: path@, script: script@ },
        ));
        Ok(())
    }

    /// Ties a script to a mouse event, in a mode and for a path filter.
    pub fn bind_mode_mouse(&mut self, mouse: Mouse, mode: &str, path: &str, script: &str) -> (r:
        Result<(), Error>)
        ensures
            r is Ok,
            final(self)@ == old(self)@.push(
                BindingView {
                    input: Input::Mouse(mouse),
                    mode: mode@,
                    path: path@,
                    script: script@,
                },
            ),
    {
        self.bindings.push(
            Binding {
                input: Input::Mouse(mouse),
                mode: mode.to_owned(),
                path: path.to_owned(),
                script: script.to_owned(),
            },
        );
        assert(self@ =~= old(self)@.push(
            BindingView { input: Input::Mouse(mouse), mode: mode@, path: path@, script: script@ },
        ));
        Ok(())
    }
}

} // verus!
