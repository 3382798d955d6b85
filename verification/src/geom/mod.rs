//! Integer geometry on the terminal grid.

pub mod carve;
pub mod direction;
pub mod expanse;
pub mod line;
pub mod point;
pub mod rect;
pub mod split;
pub mod view;

pub use direction::Direction;
pub use expanse::Expanse;
pub use line::Line;
pub use point::Point;
pub use rect::Rect;
pub use view::View;
