//! What an orderly economy looks like: keys that identify, references that
//! resolve, quantities within their bounds, and accounts whose passive income
//! is what the ledger entitles them to.

use crate::economy::{
    account_ids, account_inventory_ids, factory_ids, factory_rungs, inventory_ids,
    user_account_ids, user_ids, EconomyView,
};
use crate::ledger::{income, ledger_wf};
use crate::model::factory::Factory;
use crate::model::player::{PlayerData, PlayerInventory};
use crate::table::{distinct, position};
use vstd::prelude::*;

verus! {

/// A catalog row with a positive level and no negative price, output or rate.
pub open spec fn factory_ok(f: Factory) -> bool {
    &&& f.level >= 1
    &&& f.price >= 0
    &&& f.product_amount >= 0
    &&& f.gold_per_day >= 0
}

/// An account with no negative energy, gold or income rate.
pub open spec fn account_ok(d: PlayerData) -> bool {
    &&& d.energy >= 0
    &&& d.gold >= 0
    &&& d.gold_acc >= 0
}

/// An inventory whose goods are not negative and fit its capacity.
pub open spec fn inventory_ok(v: PlayerInventory) -> bool {
    &&& v.food_q1 >= 0
    &&& v.weapon_q1 >= 0
    &&& v.capacity >= 1
    &&& v.food_q1 + v.weapon_q1 <= v.capacity
    &&& v.special_currency >= 0
}

impl EconomyView {
    /// The catalog has one row per id and one per product and level, and
    /// every row is in order.
    pub open spec fn catalog_wf(self) -> bool {
        &&& distinct(factory_ids(self.factories))
        &&& distinct(factory_rungs(self.factories))
        &&& forall|i: int|
            0 <= i < self.factories.len() ==> factory_ok(#[trigger] self.factories[i])
    }

    /// Every user has an account and every account an inventory, each its
    /// own, and every account and inventory is in order.
    pub open spec fn players_wf(self) -> bool {
        &&& distinct(user_ids(self.users))
        &&& distinct(user_account_ids(self.users))
        &&& distinct(account_ids(self.players_data))
        &&& distinct(account_inventory_ids(self.players_data))
        &&& distinct(inventory_ids(self.player_inventory))
        &&& forall|u: int|
            0 <= u < self.users.len() ==> position(
                account_ids(self.players_data),
                (#[trigger] self.users[u]).player_data_id,
            ) is Some
        &&& forall|a: int|
            0 <= a < self.players_data.len() ==> {
                &&& account_ok(#[trigger] self.players_data[a])
                &&& position(
                    inventory_ids(self.player_inventory),
                    self.players_data[a].player_inventory_id,
                ) is Some
            }
        &&& forall|v: int|
            0 <= v < self.player_inventory.len() ==> inventory_ok(
                #[trigger] self.player_inventory[v],
            )
    }

    /// The ledger is in order, and each of its rows names a known player and
    /// a factory of the catalog.
    pub open spec fn holdings_wf(self) -> bool {
        &&& ledger_wf(self.player_factories)
        &&& forall|r: int|
            0 <= r < self.player_factories.len() ==> {
                &&& self.user_pos((#[trigger] self.player_factories[r]).user_id) is Some
                &&& self.factory_pos(self.player_factories[r].factory_id) is Some
            }
    }

    /// The income rate on the account of `user` is what the ledger entitles
    /// the player to.
    pub open spec fn income_settled(self, user: u128) -> bool {
        match self.account_pos(user) {
            Some(a) => self.players_data[a].gold_acc == income(
                self.factories,
                self.player_factories,
                user,
            ),
            None => true,
        }
    }

    /// The economy is in order.
    pub open spec fn wf(self) -> bool {
        &&& self.catalog_wf()
        &&& self.players_wf()
        &&& self.holdings_wf()
        &&& forall|user: u128| #[trigger] self.income_settled(user)
    }

    /// This economy with the account at `a` replaced.
    pub open spec fn with_account(self, a: int, row: PlayerData) -> EconomyView {
        EconomyView { players_data: self.players_data.update(a, row), ..self }
    }

    /// This economy with the inventory at `v` replaced.
    pub open spec fn with_inventory(self, v: int, row: PlayerInventory) -> EconomyView {
        EconomyView { player_inventory: self.player_inventory.update(v, row), ..self }
    }
}

/// Replacing an account by one with the same id and the same inventory moves
/// no account and no inventory: every player finds them where they were.
pub proof fn lemma_with_account(s: EconomyView, a: int, row: PlayerData)
    requires
        0 <= a < s.players_data.len(),
        row.id == s.players_data[a].id,
        row.player_inventory_id == s.players_data[a].player_inventory_id,
    ensures
        account_ids(s.with_account(a, row).players_data) == account_ids(s.players_data),
        account_inventory_ids(s.with_account(a, row).players_data) == account_inventory_ids(
            s.players_data,
        ),
        forall|u: u128| #[trigger] s.with_account(a, row).account_pos(u) == s.account_pos(u),
        forall|u: u128| #[trigger] s.with_account(a, row).inventory_pos(u) == s.inventory_pos(u),
{
    let t = s.with_account(a, row);
    assert(account_ids(t.players_data) =~= account_ids(s.players_data));
    assert(account_inventory_ids(t.players_data) =~= account_inventory_ids(s.players_data));
    assert forall|u: u128| #[trigger] t.inventory_pos(u) == s.inventory_pos(u) by {
        assert(t.account_pos(u) == s.account_pos(u));
        if s.account_pos(u) is Some {
            crate::table::lemma_position(
                account_ids(s.players_data),
                s.users[s.user_pos(u)->0].player_data_id,
            );
        }
    }
}

/// Replacing an inventory by one with the same id moves no inventory: every
/// player finds account and inventory where they were.
pub proof fn lemma_with_inventory(s: EconomyView, v: int, row: PlayerInventory)
    requires
        0 <= v < s.player_inventory.len(),
        row.id == s.player_inventory[v].id,
    ensures
        inventory_ids(s.with_inventory(v, row).player_inventory) == inventory_ids(
            s.player_inventory,
        ),
        forall|u: u128| #[trigger] s.with_inventory(v, row).account_pos(u) == s.account_pos(u),
        forall|u: u128| #[trigger] s.with_inventory(v, row).inventory_pos(u) == s.inventory_pos(u),
{
    let t = s.with_inventory(v, row);
    assert(inventory_ids(t.player_inventory) =~= inventory_ids(s.player_inventory));
    assert forall|u: u128| #[trigger] t.inventory_pos(u) == s.inventory_pos(u) by {
        assert(t.account_pos(u) == s.account_pos(u));
    }
}

/// In an orderly economy two players have two inventories.
pub proof fn lemma_inventories_apart(s: EconomyView, u: u128, v: u128)
    requires
        s.players_wf(),
        u != v,
        s.inventory_pos(u) is Some,
        s.inventory_pos(v) is Some,
    ensures
        s.inventory_pos(u) != s.inventory_pos(v),
{
    lemma_accounts_apart(s, u, v);
    let ua = s.account_pos(u)->0;
    let va = s.account_pos(v)->0;
    crate::table::lemma_position(user_ids(s.users), u);
    crate::table::lemma_position(user_ids(s.users), v);
    crate::table::lemma_position(
        account_ids(s.players_data),
        s.users[s.user_pos(u)->0].player_data_id,
    );
    crate::table::lemma_position(
        account_ids(s.players_data),
        s.users[s.user_pos(v)->0].player_data_id,
    );
    assert(account_inventory_ids(s.players_data)[ua] != account_inventory_ids(s.players_data)[va]);
    crate::table::lemma_position(
        inventory_ids(s.player_inventory),
        s.players_data[ua].player_inventory_id,
    );
    crate::table::lemma_position(
        inventory_ids(s.player_inventory),
        s.players_data[va].player_inventory_id,
    );
}

/// In an orderly economy two players have two accounts.
pub proof fn lemma_accounts_apart(s: EconomyView, u: u128, v: u128)
    requires
        s.players_wf(),
        u != v,
        s.account_pos(u) is Some,
        s.account_pos(v) is Some,
    ensures
        s.account_pos(u) != s.account_pos(v),
{
    let ui = s.user_pos(u)->0;
    let vi = s.user_pos(v)->0;
    crate::table::lemma_position(user_ids(s.users), u);
    crate::table::lemma_position(user_ids(s.users), v);
    assert(ui != vi);
    assert(user_account_ids(s.users)[ui] != user_account_ids(s.users)[vi]);
    crate::table::lemma_position(account_ids(s.players_data), s.users[ui].player_data_id);
    crate::table::lemma_position(account_ids(s.players_data), s.users[vi].player_data_id);
}

} // verus!
