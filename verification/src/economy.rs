//! The economy's state: the catalog and the players' rows, held as five
//! tables, with the lookups that the operations are built on.

use crate::ledger::units;
use crate::model::factory::{Factory, ProductKind};
use crate::model::player::{PlayerData, PlayerFactories, PlayerInventory};
use crate::model::user::User;
use crate::table::{lemma_position, lemma_position_found, position};
use vstd::prelude::*;

verus! {

/// A snapshot of the economy.
pub struct Economy {
    /// The production catalog.
    pub factories: Vec<Factory>,
    pub users: Vec<User>,
    /// The resource accounts.
    pub players_data: Vec<PlayerData>,
    pub player_inventory: Vec<PlayerInventory>,
    /// The ownership ledger.
    pub player_factories: Vec<PlayerFactories>,
}

/// The economy as five sequences of rows.
pub struct EconomyView {
    pub factories: Seq<Factory>,
    pub users: Seq<User>,
    pub players_data: Seq<PlayerData>,
    pub player_inventory: Seq<PlayerInventory>,
    pub player_factories: Seq<PlayerFactories>,
}

impl View for Economy {
    type V = EconomyView;

    open spec fn view(&self) -> EconomyView {
        EconomyView {
            factories: self.factories@,
            users: self.users@,
            players_data: self.players_data@,
            player_inventory: self.player_inventory@,
            player_factories: self.player_factories@,
        }
    }
}

/// The catalog's key column.
pub open spec fn factory_ids(rows: Seq<Factory>) -> Seq<u128> {
    rows.map_values(|f: Factory| f.id)
}

/// The catalog's ladder column: product kind and level.
pub open spec fn factory_rungs(rows: Seq<Factory>) -> Seq<(ProductKind, int)> {
    rows.map_values(|f: Factory| (f.product, f.level as int))
}

/// The users' key column.
pub open spec fn user_ids(rows: Seq<User>) -> Seq<u128> {
    rows.map_values(|u: User| u.id)
}

/// The account that each user points to.
pub open spec fn user_account_ids(rows: Seq<User>) -> Seq<u128> {
    rows.map_values(|u: User| u.player_data_id)
}

/// The accounts' key column.
pub open spec fn account_ids(rows: Seq<PlayerData>) -> Seq<u128> {
    rows.map_values(|d: PlayerData| d.id)
}

/// The inventory that each account points to.
pub open spec fn account_inventory_ids(rows: Seq<PlayerData>) -> Seq<u128> {
    rows.map_values(|d: PlayerData| d.player_inventory_id)
}

/// The inventories' key column.
pub open spec fn inventory_ids(rows: Seq<PlayerInventory>) -> Seq<u128> {
    rows.map_values(|v: PlayerInventory| v.id)
}

/// The ledger's key column: player and factory.
pub open spec fn ownership_keys(rows: Seq<PlayerFactories>) -> Seq<(u128, u128)> {
    rows.map_values(|r: PlayerFactories| (r.user_id, r.factory_id))
}

/// An index of a table, or none, as a place in its column.
pub open spec fn place(at: Option<usize>) -> Option<int> {
    match at {
        Some(i) => Some(i as int),
        None => None,
    }
}

impl EconomyView {
    /// Where the catalog holds the factory `id`.
    pub open spec fn factory_pos(self, id: u128) -> Option<int> {
        position(factory_ids(self.factories), id)
    }

    /// Where the catalog holds the given level of the given product.
    pub open spec fn rung_pos(self, product: ProductKind, level: int) -> Option<int> {
        position(factory_rungs(self.factories), (product, level))
    }

    /// Where the users table holds the player `user`.
    pub open spec fn user_pos(self, user: u128) -> Option<int> {
        position(user_ids(self.users), user)
    }

    /// Where the accounts table holds the account of the player `user`.
    pub open spec fn account_pos(self, user: u128) -> Option<int> {
        match self.user_pos(user) {
            Some(u) => position(account_ids(self.players_data), self.users[u].player_data_id),
            None => None,
        }
    }

    /// Where the inventories table holds the inventory of the player `user`.
    pub open spec fn inventory_pos(self, user: u128) -> Option<int> {
        match self.account_pos(user) {
            Some(a) => position(
                inventory_ids(self.player_inventory),
                self.players_data[a].player_inventory_id,
            ),
            None => None,
        }
    }

    /// Where the ledger holds the record of `user` for `factory`.
    pub open spec fn record_pos(self, user: u128, factory: u128) -> Option<int> {
        position(ownership_keys(self.player_factories), (user, factory))
    }

    /// The account of the player `user`, where the player has one.
    pub open spec fn account_of(self, user: u128) -> PlayerData {
        self.players_data[self.account_pos(user)->0]
    }

    /// The inventory of the player `user`, where the player has one.
    pub open spec fn inventory_of(self, user: u128) -> PlayerInventory {
        self.player_inventory[self.inventory_pos(user)->0]
    }

    /// How many units of `factory` the player `user` holds.
    pub open spec fn owned(self, user: u128, factory: u128) -> int {
        units(self.player_factories, user, factory)
    }
}

impl Economy {
    /// An economy with nothing in it.
    pub fn new() -> (economy: Economy)
        ensures
            economy@.factories.len() == 0,
            economy@.users.len() == 0,
            economy@.players_data.len() == 0,
            economy@.player_inventory.len() == 0,
            economy@.player_factories.len() == 0,
            economy@.wf(),
    {
        Economy {
            factories: Vec::new(),
            users: Vec::new(),
            players_data: Vec::new(),
            player_inventory: Vec::new(),
            player_factories: Vec::new(),
        }
    }

    /// Finds the catalog row of the factory `id`.
    pub fn find_factory(&self, id: u128) -> (at: Option<usize>)
        ensures
            place(at) == self@.factory_pos(id),
    {
        let ghost keys = factory_ids(self@.factories);
        let mut i: usize = 0;
        while i < self.factories.len()
            invariant
                i <= self.factories.len(),
                keys == factory_ids(self@.factories),
                forall|j: int| 0 <= j < i ==> keys[j] != id,
            decreases self.factories.len() - i,
        {
            if self.factories[i].id == id {
                proof {
                    lemma_position_found(keys, id, i as int);
                }
                return Some(i);
            }
            i += 1;
        }
        proof {
            lemma_position(keys, id);
        }
        None
    }

    /// Finds the catalog row of the given level of the given product.
    pub fn find_rung(&self, product: ProductKind, level: i32) -> (at: Option<usize>)
        ensures
            place(at) == self@.rung_pos(product, level as int),
    {
        let ghost keys = factory_rungs(self@.factories);
        let ghost key = (product, level as int);
        let mut i: usize = 0;
        while i < self.factories.len()
            invariant
                i <= self.factories.len(),
                keys == factory_rungs(self@.factories),
                key == (product, level as int),
                forall|j: int| 0 <= j < i ==> keys[j] != key,
            decreases self.factories.len() - i,
        {
            if self.factories[i].product == product && self.factories[i].level == level {
                proof {
                    lemma_position_found(keys, key, i as int);
                }
                return Some(i);
            }
            i += 1;
        }
        proof {
            lemma_position(keys, key);
        }
        None
    }

    /// Finds the row of the player `user` in the users table.
    pub fn find_user(&self, user: u128) -> (at: Option<usize>)
        ensures
            place(at) == self@.user_pos(user),
    {
        let ghost keys = user_ids(self@.users);
        let mut i: usize = 0;
        while i < self.users.len()
            invariant
                i <= self.users.len(),
                keys == user_ids(self@.users),
                forall|j: int| 0 <= j < i ==> keys[j] != user,
            decreases self.users.len() - i,
        {
            if self.users[i].id == user {
                proof {
                    lemma_position_found(keys, user, i as int);
                }
                return Some(i);
            }
            i += 1;
        }
        proof {
            lemma_position(keys, user);
        }
        None
    }

    /// Finds the account with the id `id`.
    pub fn find_account_by_id(&self, id: u128) -> (at: Option<usize>)
        ensures
            place(at) == position(account_ids(self@.players_data), id),
    {
        let ghost keys = account_ids(self@.players_data);
        let mut i: usize = 0;
        while i < self.players_data.len()
            invariant
                i <= self.players_data.len(),
                keys == account_ids(self@.players_data),
                forall|j: int| 0 <= j < i ==> keys[j] != id,
            decreases self.players_data.len() - i,
        {
            if self.players_data[i].id == id {
                proof {
                    lemma_position_found(keys, id, i as int);
                }
                return Some(i);
            }
            i += 1;
        }
        proof {
            lemma_position(keys, id);
        }
        None
    }

    /// Finds the inventory with the id `id`.
    pub fn find_inventory_by_id(&self, id: u128) -> (at: Option<usize>)
        ensures
            place(at) == position(inventory_ids(self@.player_inventory), id),
    {
        let ghost keys = inventory_ids(self@.player_inventory);
        let mut i: usize = 0;
        while i < self.player_inventory.len()
            invariant
                i <= self.player_inventory.len(),
                keys == inventory_ids(self@.player_inventory),
                forall|j: int| 0 <= j < i ==> keys[j] != id,
            decreases self.player_inventory.len() - i,
        {
            if self.player_inventory[i].id == id {
                proof {
                    lemma_position_found(keys, id, i as int);
                }
                return Some(i);
            }
            i += 1;
        }
        proof {
            lemma_position(keys, id);
        }
        None
    }

    /// Finds the account of the player `user`, through the users table.
    pub fn find_account(&self, user: u128) -> (at: Option<usize>)
        ensures
            place(at) == self@.account_pos(user),
    {
        match self.find_user(user) {
            Some(u) => self.find_account_by_id(self.users[u].player_data_id),
            None => None,
        }
    }

    /// Finds the inventory of the player `user`, through the player's account.
    pub fn find_inventory(&self, user: u128) -> (at: Option<usize>)
        ensures
            place(at) == self@.inventory_pos(user),
    {
        match self.find_account(user) {
            Some(a) => self.find_inventory_by_id(self.players_data[a].player_inventory_id),
            None => None,
        }
    }

    /// Finds the ledger row of `user` for `factory`.
    pub fn find_record(&self, user: u128, factory: u128) -> (at: Option<usize>)
        ensures
            place(at) == self@.record_pos(user, factory),
    {
        let ghost keys = ownership_keys(self@.player_factories);
        let ghost key = (user, factory);
        let mut i: usize = 0;
        while i < self.player_factories.len()
            invariant
                i <= self.player_factories.len(),
                keys == ownership_keys(self@.player_factories),
                key == (user, factory),
                forall|j: int| 0 <= j < i ==> keys[j] != key,
            decreases self.player_factories.len() - i,
        {
            if self.player_factories[i].user_id == user && self.player_factories[i].factory_id
                == factory {
                proof {
                    lemma_position_found(keys, key, i as int);
                }
                return Some(i);
            }
            i += 1;
        }
        proof {
            lemma_position(keys, key);
        }
        None
    }
}

} // verus!
