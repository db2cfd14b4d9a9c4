//! The operations that the game's front end asks for.

pub mod factories;
