//! Working a shift in a factory: energy goes, goods and gold come.

use crate::economy::{account_ids, factory_ids, inventory_ids, user_ids, Economy, EconomyView};
use crate::error::EconomyError;
use crate::model::factory::ProductKind;
use crate::model::player::{PlayerData, PlayerInventory};
use crate::order::{account_ok, inventory_ok, lemma_with_account, lemma_with_inventory};
use crate::table::{lemma_position, position};
use vstd::prelude::*;

verus! {

/// The energy that one shift costs.
pub const SHIFT_COST: i32 = 10;

/// What a shift earned.
#[derive(Clone, Copy, Debug, PartialEq, Eq, Structural)]
pub struct WorkReceipt {
    pub product: ProductKind,
    /// Goods added to the inventory.
    pub amount: i32,
    /// Gold credited to the account.
    pub gold_earned: i32,
}

/// The inventory with `amount` more goods of the kind `product`.
pub open spec fn stocked(inventory: PlayerInventory, product: ProductKind, amount: int)
    -> PlayerInventory {
    match product {
        ProductKind::Food => PlayerInventory {
            food_q1: (inventory.food_q1 + amount) as i32,
            ..inventory
        },
        ProductKind::Weapon => PlayerInventory {
            weapon_q1: (inventory.weapon_q1 + amount) as i32,
            ..inventory
        },
    }
}

/// The goods of the kind `product` that the inventory holds.
pub open spec fn stock(inventory: PlayerInventory, product: ProductKind) -> int {
    match product {
        ProductKind::Food => inventory.food_q1 as int,
        ProductKind::Weapon => inventory.weapon_q1 as int,
    }
}

impl EconomyView {
    /// Why `user` cannot work a shift in `factory`, if anything stands in the
    /// way. In this order: the factory or the player is unknown; the player
    /// holds no unit of the factory; the output does not fit the inventory;
    /// the player lacks the energy; the store cannot hold the new stock or
    /// the new gold.
    pub open spec fn work_rejection(self, user: u128, factory: u128) -> Option<EconomyError> {
        if self.factory_pos(factory) is None || self.inventory_pos(user) is None {
            Some(EconomyError::NotFound)
        } else {
            let f = self.factories[self.factory_pos(factory)->0];
            let account = self.players_data[self.account_pos(user)->0];
            let inventory = self.player_inventory[self.inventory_pos(user)->0];
            if self.owned(user, factory) < 1 {
                Some(EconomyError::NotOwned)
            } else if inventory.food_q1 + inventory.weapon_q1 + f.product_amount
                > inventory.capacity {
                Some(
                    EconomyError::CapacityExceeded {
                        capacity: inventory.capacity,
                        current: (inventory.food_q1 + inventory.weapon_q1) as i64,
                        produced: f.product_amount,
                    },
                )
            } else if account.energy < SHIFT_COST {
                Some(EconomyError::InsufficientEnergy)
            } else if stock(inventory, f.product) + f.product_amount > i32::MAX || stock(
                inventory,
                f.product,
            ) + f.product_amount < i32::MIN || account.gold + f.gold_per_day > i32::MAX
                || account.gold + f.gold_per_day < i32::MIN {
                Some(EconomyError::StoreError)
            } else {
                None
            }
        }
    }

    /// The economy after `user` has worked a shift in `factory`: the shift's
    /// cost off the energy, the factory's rate on the gold, and the output in
    /// the inventory under the factory's product.
    pub open spec fn worked(self, user: u128, factory: u128) -> EconomyView {
        let f = self.factories[self.factory_pos(factory)->0];
        let a = self.account_pos(user)->0;
        let v = self.inventory_pos(user)->0;
        let account = self.players_data[a];
        EconomyView {
            players_data: self.players_data.update(
                a,
                PlayerData {
                    energy: (account.energy - SHIFT_COST) as i32,
                    gold: (account.gold + f.gold_per_day) as i32,
                    ..account
                },
            ),
            player_inventory: self.player_inventory.update(
                v,
                stocked(self.player_inventory[v], f.product, f.product_amount as int),
            ),
            ..self
        }
    }

    /// What a shift of `factory` earns.
    pub open spec fn work_receipt(self, factory: u128) -> WorkReceipt {
        let f = self.factories[self.factory_pos(factory)->0];
        WorkReceipt { product: f.product, amount: f.product_amount, gold_earned: f.gold_per_day }
    }
}

/// Working keeps an orderly economy in order.
pub proof fn lemma_work_keeps_order(s: EconomyView, user: u128, factory: u128)
    requires
        s.wf(),
        s.work_rejection(user, factory) is None,
    ensures
        s.worked(user, factory).wf(),
{
    let t = s.worked(user, factory);
    let f = s.factories[s.factory_pos(factory)->0];
    let a = s.account_pos(user)->0;
    let v = s.inventory_pos(user)->0;
    let account = s.players_data[a];
    let paid = PlayerData {
        energy: (account.energy - SHIFT_COST) as i32,
        gold: (account.gold + f.gold_per_day) as i32,
        ..account
    };
    let filled = stocked(s.player_inventory[v], f.product, f.product_amount as int);
    lemma_position(factory_ids(s.factories), factory);
    lemma_position(user_ids(s.users), user);
    lemma_position(account_ids(s.players_data), s.users[s.user_pos(user)->0].player_data_id);
    lemma_position(inventory_ids(s.player_inventory), account.player_inventory_id);
    let mid = s.with_account(a, paid);
    lemma_with_account(s, a, paid);
    lemma_with_inventory(mid, v, filled);
    assert(t == mid.with_inventory(v, filled));
    assert(crate::order::factory_ok(f));
    assert forall|u: u128| #[trigger] t.account_pos(u) == s.account_pos(u) by {
        assert(mid.account_pos(u) == s.account_pos(u));
    }
    assert(t.players_wf()) by {
        assert(inventory_ids(t.player_inventory) == inventory_ids(s.player_inventory));
        assert forall|i: int| 0 <= i < t.players_data.len() implies {
            &&& account_ok(#[trigger] t.players_data[i])
            &&& position(
                inventory_ids(t.player_inventory),
                t.players_data[i].player_inventory_id,
            ) is Some
        } by {
            if i != a {
                assert(t.players_data[i] == s.players_data[i]);
            } else {
                assert(account_ok(s.players_data[a]));
            }
        }
        assert forall|i: int| 0 <= i < t.player_inventory.len() implies inventory_ok(
            #[trigger] t.player_inventory[i],
        ) by {
            if i != v {
                assert(t.player_inventory[i] == s.player_inventory[i]);
            } else {
                assert(inventory_ok(s.player_inventory[v]));
            }
        }
    }
    assert(t.holdings_wf());
    assert forall|u: u128| #[trigger] t.income_settled(u) by {
        assert(s.income_settled(u));
        if s.account_pos(u) is Some {
            let i = s.account_pos(u)->0;
            lemma_position(user_ids(s.users), u);
            lemma_position(account_ids(s.players_data), s.users[s.user_pos(u)->0].player_data_id);
            assert(t.players_data[i].gold_acc == s.players_data[i].gold_acc);
        }
    }
}

impl Economy {
    /// Lets `user` work one shift in `factory`, a factory that the player
    /// holds. The shift costs energy, puts the factory's output into the
    /// inventory and credits the factory's rate in gold; the receipt says what
    /// was earned. A rejected request changes nothing.
    pub fn work(&mut self, user: u128, factory: u128) -> (outcome: Result<
        WorkReceipt,
        EconomyError,
    >)
        ensures
            match outcome {
                Ok(receipt) => {
                    &&& old(self)@.work_rejection(user, factory) is None
                    &&& final(self)@ == old(self)@.worked(user, factory)
                    &&& receipt == old(self)@.work_receipt(factory)
                },
                Err(reason) => {
                    &&& old(self)@.work_rejection(user, factory) == Some(reason)
                    &&& final(self)@ == old(self)@
                },
            },
            old(self)@.wf() ==> final(self)@.wf(),
    {
        let f = match self.find_factory(factory) {
            Some(f) => self.factories[f],
            None => { return Err(EconomyError::NotFound); },
        };
        let v = match self.find_inventory(user) {
            Some(v) => v,
            None => { return Err(EconomyError::NotFound); },
        };
        let a = match self.find_account(user) {
            Some(a) => a,
            None => { return Err(EconomyError::NotFound); },
        };
        let held: i32 = match self.find_record(user, factory) {
            Some(i) => self.player_factories[i].amount,
            None => 0,
        };
        if held < 1 {
            return Err(EconomyError::NotOwned);
        }
        let account = self.players_data[a];
        let inventory = self.player_inventory[v];
        let current: i64 = inventory.food_q1 as i64 + inventory.weapon_q1 as i64;
        if current + f.product_amount as i64 > inventory.capacity as i64 {
            return Err(
                EconomyError::CapacityExceeded {
                    capacity: inventory.capacity,
                    current,
                    produced: f.product_amount,
                },
            );
        }
        if account.energy < SHIFT_COST {
            return Err(EconomyError::InsufficientEnergy);
        }
        let filled = match f.product {
            ProductKind::Food => match inventory.food_q1.checked_add(f.product_amount) {
                Some(food_q1) => PlayerInventory { food_q1, ..inventory },
                None => { return Err(EconomyError::StoreError); },
            },
            ProductKind::Weapon => match inventory.weapon_q1.checked_add(f.product_amount) {
                Some(weapon_q1) => PlayerInventory { weapon_q1, ..inventory },
                None => { return Err(EconomyError::StoreError); },
            },
        };
        let gold: i32 = match account.gold.checked_add(f.gold_per_day) {
            Some(gold) => gold,
            None => { return Err(EconomyError::StoreError); },
        };
        let energy: i32 = account.energy - SHIFT_COST;
        self.players_data.set(a, PlayerData { energy, gold, ..account });
        self.player_inventory.set(v, filled);
        proof {
            if old(self)@.wf() {
                lemma_work_keeps_order(old(self)@, user, factory);
            }
        }
        Ok(
            WorkReceipt {
                product: f.product,
                amount: f.product_amount,
                gold_earned: f.gold_per_day,
            },
        )
    }
}

} // verus!
