//! The rows of the economy's tables.

pub mod factory;
pub mod player;
pub mod user;
