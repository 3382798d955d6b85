//! Widgets built on the node tree.

pub mod editor;
pub mod panes;
pub mod scroll;
pub mod tabs;

pub use panes::Panes;
pub use scroll::Scroll;
pub use tabs::Tabs;
