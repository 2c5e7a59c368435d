//! Input handling for the browser client of the tank game: the keyboard and
//! on-screen game pad are turned into key events, incoming socket frames are
//! sorted, and the queues that the game engine drains every frame are kept.

pub mod keys;
pub mod number;
pub mod game_pad;
pub mod context;
pub mod socket;
pub mod laws;
