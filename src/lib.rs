//! Session engine for a multiplayer Parchis board game: the shared game
//! state, the line-oriented command protocol, and message framing.

pub mod framing;
pub mod game_state;
pub mod laws;
pub mod primitives;
pub mod session;
pub mod text;
