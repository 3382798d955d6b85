//! The building blocks of a text editor: chunks of text, and positions
//! within them.

pub mod chunk;
pub mod primitives;
pub mod state;

pub use chunk::Chunk;
pub use primitives::{CharPos, Cursor, InsertPos, Line, Pos, Window};
pub use state::State;
