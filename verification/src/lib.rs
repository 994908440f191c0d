//! A text-adventure maze: rooms joined by labelled exits, and a cursor that
//! walks them until it leaves an end room.
//!
//! - [`room`]: rooms, exits and their mathematical views.
//! - [`game`]: the session that walks a maze, and the laws it obeys.
//! - [`maze_file`]: the maze file, read from and written as a JSON document.
//! - [`json`]: JSON documents; reading JSON text is left to `serde_json`.
//! - [`error`]: why a maze could not be loaded.
//! - [`lookup`]: the first occurrence of a key in a sequence.
//!
//! Two things a maze may do are not errors here. An exit may lead to an id
//! that no room has: taking it moves the cursor there, and the session then
//! has no current room. Several rooms may share an id: the first of them is
//! the one the id names.

pub mod error;
pub mod game;
pub mod json;
pub mod lookup;
pub mod maze_file;
pub mod room;

pub use crate::error::LoadError;
pub use crate::game::GameAction;
pub use crate::game::GameState;
pub use crate::json::Json;
pub use crate::maze_file::MazeFile;
pub use crate::room::Exit;
pub use crate::room::Room;
