//! The per-player rows: resource account, ownership record, inventory, stats.

use chrono::NaiveDateTime;
use vstd::prelude::*;

verus! {

/// A player's resource account.
#[derive(Clone, Copy, Debug, PartialEq)]
pub struct PlayerData {
    pub energy: i32,
    pub gold: i32,
    pub exp: i32,
    pub id: u128,
    pub last_updated: NaiveDateTime,
    /// Passive income, in gold per day.
    pub gold_acc: i32,
    pub player_stats_id: u128,
    pub player_inventory_id: u128,
}

/// How many units of one factory a player owns.
#[derive(Clone, Copy, Debug, PartialEq, Eq)]
pub struct PlayerFactories {
    pub id: u128,
    pub user_id: u128,
    pub factory_id: u128,
    pub amount: i32,
}

/// A player's store of goods.
#[derive(Clone, Copy, Debug, PartialEq, Eq)]
pub struct PlayerInventory {
    pub id: u128,
    pub food_q1: i32,
    pub weapon_q1: i32,
    pub capacity: i32,
    pub special_currency: i32,
}

/// A player's combat attributes.
#[derive(Clone, Copy, Debug, PartialEq, Eq)]
pub struct PlayerStats {
    pub id: u128,
    pub strength: i32,
    pub agility: i32,
    pub stamina: i32,
}

} // verus!
