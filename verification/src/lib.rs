//! The economy of a factory-management game: players acquire factories, work
//! them for goods and gold, and upgrade them along per-product level ladders.
//! Every state transition runs on an in-memory snapshot of the player's rows
//! and is applied as a whole or not at all.

pub mod acquire;
pub mod api;
pub mod audit;
pub mod economy;
pub mod error;
pub mod order;
pub mod laws;
pub mod ledger;
pub mod model;
pub mod table;
pub mod upgrade;
pub mod work;
