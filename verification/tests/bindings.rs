use canopy::commands::{Command, Commands, ReturnTypes};
use canopy::event::{Button, Key, KeyCode, Mods, Mouse, MouseAction};
use canopy::geom::Point;
use canopy::inputmap::{Input, InputMap};
use canopy::keybinding::Keybindings;
use canopy::mapbuilder::MapBuilder;
use canopy::Error;

struct Foo {
    a_triggered: bool,
    b_triggered: bool,
    c_triggered: bool,
}

impl Foo {
    /// This is a comment.
    /// Multiline too!
    fn a(&mut self) -> Result<(), Error> {
        self.a_triggered = true;
        Ok(())
    }

    fn b(&mut self) -> Result<(), Error> {
        self.b_triggered = true;
        Ok(())
    }

    fn c(&mut self) {
        self.c_triggered = true;
    }
}

fn cmd(node: &str, command: &str, docs: &str, return_type: ReturnTypes) -> Command {
    Command {
        node: node.to_string(),
        command: command.to_string(),
        docs: docs.to_string(),
        return_type,
    }
}

impl Commands for Foo {
    fn load_commands(name: Option<&str>) -> Vec<Command> {
        let node = name.unwrap_or("foo");
        vec![
            cmd(node, "a", " This is a comment.\n Multiline too!", ReturnTypes::Result),
            cmd(node, "b", "", ReturnTypes::Result),
            cmd(node, "c", "", ReturnTypes::Void),
        ]
    }

    fn commands(&self) -> Vec<Command> {
        Self::load_commands(None)
    }

    fn dispatch(&mut self, name: &str) -> Result<(), Error> {
        match name {
            "a" => self.a(),
            "b" => self.b(),
            "c" => {
                self.c();
                Ok(())
            }
            _ => Err(Error::UnknownCommand),
        }
    }
}

struct Bar {
    a_triggered: bool,
}

impl Commands for Bar {
    fn load_commands(name: Option<&str>) -> Vec<Command> {
        vec![cmd(name.unwrap_or("bar"), "a", "", ReturnTypes::Result)]
    }

    fn commands(&self) -> Vec<Command> {
        Self::load_commands(None)
    }

    fn dispatch(&mut self, name: &str) -> Result<(), Error> {
        if name == "a" {
            self.a_triggered = true;
            Ok(())
        } else {
            Err(Error::UnknownCommand)
        }
    }
}

#[test]
fn commands() {
    assert_eq!(
        Foo::load_commands(None),
        [
            Command {
                node: "foo".to_string(),
                command: "a".to_string(),
                docs: " This is a comment.\n Multiline too!".to_string(),
                return_type: ReturnTypes::Result,
            },
            Command {
                node: "foo".to_string(),
                command: "b".to_string(),
                docs: "".to_string(),
                return_type: ReturnTypes::Result,
            },
            Command {
                node: "foo".to_string(),
                command: "c".to_string(),
                docs: "".to_string(),
                return_type: ReturnTypes::Void,
            }
        ]
    );
    let mut f = Foo { a_triggered: false, b_triggered: false, c_triggered: false };
    f.dispatch("a").unwrap();
    assert!(f.a_triggered);

    f.dispatch("c").unwrap();
    assert!(f.c_triggered);

    assert_eq!(
        Bar::load_commands(None),
        [Command {
            node: "bar".to_string(),
            command: "a".to_string(),
            docs: "".to_string(),
            return_type: ReturnTypes::Result,
        },]
    );
    assert_eq!(
        Bar::load_commands(Some("xxx")),
        [Command {
            node: "xxx".to_string(),
            command: "a".to_string(),
            docs: "".to_string(),
            return_type: ReturnTypes::Result,
        },]
    );
    let mut b = Bar { a_triggered: false };
    b.dispatch("a").unwrap();
    assert!(b.a_triggered);
    assert_eq!(b.dispatch("nope"), Err(Error::UnknownCommand));
    assert!(!f.b_triggered);
    f.dispatch("b").unwrap();
    assert!(f.b_triggered);
}

#[test]
fn kb_load() {
    let mut kb = Keybindings::new();
    kb.load(Foo::load_commands(None));
    assert_eq!(kb.commands.len(), 3);
    kb.load(Bar::load_commands(Some("side")));
    assert_eq!(kb.commands.len(), 4);
    assert_eq!(kb.commands[3].fullname(), "side.a");
    assert_eq!(kb.commands[0].fullname(), "foo.a");
}

#[test]
fn command_fullname() {
    assert_eq!(cmd("root", "quit", "", ReturnTypes::Void).fullname(), "root.quit");
    assert_eq!(cmd("", "", "", ReturnTypes::Void).fullname(), ".");
}

#[test]
fn mapbuilder_orders_bindings() {
    let click = Mouse {
        action: Some(MouseAction::Down),
        button: Some(Button::Left),
        modifiers: None,
        loc: Point { x: 0, y: 0 },
    };
    let ctrl_right = Key {
        mods: Some(Mods { shift: false, ctrl: true, alt: false }),
        code: KeyCode::Right,
    };
    let mut map = InputMap::new();
    MapBuilder::new()
        .with_path("root")
        .key(ctrl_right, "root::toggle_inspector()")
        .key(Key::from_char('q'), "root::quit()")
        .with_mode("inspect")
        .with_path("inspector")
        .mouse(click, "root::focus_app()")
        .key(Key::from_code(KeyCode::Esc), "root::hide_inspector()")
        .build(&mut map)
        .unwrap();

    assert_eq!(map.len(), 4);
    let got: Vec<(Input, &str, &str, &str)> = map
        .bindings
        .iter()
        .map(|b| (b.input, b.mode.as_str(), b.path.as_str(), b.script.as_str()))
        .collect();
    assert_eq!(
        got,
        [
            (Input::Mouse(click), "inspect", "inspector", "root::focus_app()"),
            (Input::Key(ctrl_right), "", "root", "root::toggle_inspector()"),
            (Input::Key(Key::from_char('q')), "", "root", "root::quit()"),
            (
                Input::Key(Key::from_code(KeyCode::Esc)),
                "inspect",
                "inspector",
                "root::hide_inspector()"
            ),
        ]
    );

    map.bind_mode_key(Key::from_char('a'), "m", "p", "s()").unwrap();
    map.bind_mode_mouse(click, "m", "p", "t()").unwrap();
    assert_eq!(map.len(), 6);
    assert_eq!(map.bindings[5].script, "t()");
}

#[test]
fn root_default_bindings() {
    let mut map = InputMap::new();
    let b = canopy::root::Root::defaults(MapBuilder::new().with_mode("m"));
    b.key(Key::from_char('x'), "inspector::close()").build(&mut map).unwrap();
    let got: Vec<(Input, &str, &str, &str)> = map
        .bindings
        .iter()
        .map(|b| (b.input, b.mode.as_str(), b.path.as_str(), b.script.as_str()))
        .collect();
    let ctrl_right = Key {
        mods: Some(Mods { shift: false, ctrl: true, alt: false }),
        code: KeyCode::Right,
    };
    assert_eq!(
        got,
        [
            (Input::Key(ctrl_right), "m", "root", "root::toggle_inspector()"),
            (Input::Key(Key::from_char('q')), "m", "root", "root::quit()"),
            (Input::Key(Key::from_char('a')), "m", "inspector", "root::focus_app()"),
            (Input::Key(Key::from_char('x')), "m", "inspector", "inspector::close()"),
        ]
    );
}
