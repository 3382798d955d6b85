//! A retained-mode terminal UI core: geometry, viewports, a node tree with
//! ordered traversals, focus management, render sweeps and event dispatch.
//!
//! The nodes of an application live in a [`Tree`], which holds their names,
//! their order and their bookkeeping. The state that all nodes share, the
//! counters by which focus and repainting are told, lives in a [`Canopy`]
//! that is handed to every operation that needs it.

pub mod canopy;
pub mod commands;
pub mod dispatch;
pub mod error;
pub mod event;
pub mod focus;
pub mod focus_laws;
pub mod geom;
pub mod graft;
pub mod inputmap;
pub mod inspector;
pub mod keybinding;
pub mod layout;
pub mod mapbuilder;
pub mod node;
pub mod order;
pub mod outcome;
pub mod root;
pub mod state;
pub mod subtree;
pub mod sweep;
pub mod trail;
pub mod tree;
pub mod viewport;
pub mod walker;
pub mod widgets;

pub use canopy::Canopy;
pub use error::Error;
pub use node::{postorder, preorder, Node, Visitor};
pub use outcome::{Handle, Ignore, Outcome};
pub use state::NodeState;
pub use tree::{NodeId, Tree};
pub use viewport::ViewPort;
pub use walker::{SkipWalker, Walk, Walker};
