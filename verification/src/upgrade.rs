//! Upgrading a factory: one unit is exchanged, at a price in gold, for one
//! unit of the next level of the same product.

use crate::economy::{
    account_ids, factory_ids, factory_rungs, inventory_ids, ownership_keys, user_ids, Economy,
    EconomyView,
};
use crate::error::EconomyError;
use crate::ledger::{
    grant, grant_at, income, lemma_grant, lemma_income_nonnegative, lemma_release, rate_of,
    release, release_at, restore_at, units,
};
use crate::model::player::PlayerData;
use crate::order::{account_ok, lemma_accounts_apart, lemma_with_account};
use crate::table::{lemma_position, lemma_position_distinct, position};
use vstd::prelude::*;

verus! {

/// The special currency that a player must hold to upgrade.
pub const SPECIAL_CURRENCY_NEEDED: i32 = 10;

impl EconomyView {
    /// Where the catalog holds the level that follows the factory `factory`.
    pub open spec fn next_level_pos(self, factory: u128) -> Option<int> {
        let f = self.factories[self.factory_pos(factory)->0];
        self.rung_pos(f.product, f.level + 1)
    }

    /// Why `user` cannot upgrade `factory`, if anything stands in the way. In
    /// this order: the factory or the player is unknown; the player holds no
    /// unit of the factory; the player lacks the gold or the special currency;
    /// the catalog has no next level; the store cannot hold the new gold, the
    /// new amount or the new income rate.
    pub open spec fn upgrade_rejection(self, user: u128, factory: u128) -> Option<EconomyError> {
        if self.factory_pos(factory) is None || self.inventory_pos(user) is None {
            Some(EconomyError::NotFound)
        } else {
            let f = self.factories[self.factory_pos(factory)->0];
            let account = self.players_data[self.account_pos(user)->0];
            let inventory = self.player_inventory[self.inventory_pos(user)->0];
            if self.owned(user, factory) < 1 {
                Some(EconomyError::NotOwned)
            } else if account.gold < f.price || inventory.special_currency
                < SPECIAL_CURRENCY_NEEDED {
                Some(EconomyError::InsufficientResources)
            } else if self.next_level_pos(factory) is None {
                Some(EconomyError::NoUpgradePath)
            } else {
                let next = self.factories[self.next_level_pos(factory)->0];
                let kept = release(self.player_factories, self.record_pos(user, factory)->0);
                let rate = account.gold_acc - f.gold_per_day + next.gold_per_day;
                if account.gold - f.price > i32::MAX || units(kept, user, next.id) + 1 > i32::MAX
                    || rate > i32::MAX || rate < i32::MIN {
                    Some(EconomyError::StoreError)
                } else {
                    None
                }
            }
        }
    }

    /// The economy after `user` has upgraded `factory`: one unit less of the
    /// factory on the ledger, and no row where that was the last; one unit
    /// more of the next level, in a row named `fresh` if the player had none;
    /// the price off the gold; and the income rate moved by the difference of
    /// the two factories' rates.
    pub open spec fn upgraded(self, user: u128, factory: u128, fresh: u128) -> EconomyView {
        let f = self.factories[self.factory_pos(factory)->0];
        let next = self.factories[self.next_level_pos(factory)->0];
        let a = self.account_pos(user)->0;
        let account = self.players_data[a];
        EconomyView {
            player_factories: grant(
                release(self.player_factories, self.record_pos(user, factory)->0),
                user,
                next.id,
                fresh,
            ),
            players_data: self.players_data.update(
                a,
                PlayerData {
                    gold: (account.gold - f.price) as i32,
                    gold_acc: (account.gold_acc - f.gold_per_day + next.gold_per_day) as i32,
                    ..account
                },
            ),
            ..self
        }
    }

    /// The level that an upgrade of `factory` leads to.
    pub open spec fn upgrade_level(self, factory: u128) -> i32 {
        self.factories[self.next_level_pos(factory)->0].level
    }
}

/// Upgrading keeps an orderly economy in order.
pub proof fn lemma_upgrade_keeps_order(s: EconomyView, user: u128, factory: u128, fresh: u128)
    requires
        s.wf(),
        s.upgrade_rejection(user, factory) is None,
    ensures
        s.upgraded(user, factory, fresh).wf(),
{
    let t = s.upgraded(user, factory, fresh);
    let fi = s.factory_pos(factory)->0;
    let ni = s.next_level_pos(factory)->0;
    let f = s.factories[fi];
    let next = s.factories[ni];
    let a = s.account_pos(user)->0;
    let at = s.record_pos(user, factory)->0;
    let account = s.players_data[a];
    let ledger = s.player_factories;
    let kept = release(ledger, at);
    let paid = PlayerData {
        gold: (account.gold - f.price) as i32,
        gold_acc: (account.gold_acc - f.gold_per_day + next.gold_per_day) as i32,
        ..account
    };
    lemma_position(factory_ids(s.factories), factory);
    lemma_position(factory_rungs(s.factories), (f.product, f.level + 1));
    lemma_position(user_ids(s.users), user);
    lemma_position(account_ids(s.players_data), s.users[s.user_pos(user)->0].player_data_id);
    lemma_position(ownership_keys(ledger), (user, factory));
    lemma_position_distinct(factory_ids(s.factories), ni);
    assert(crate::order::factory_ok(f) && crate::order::factory_ok(next));
    assert(rate_of(s.factories, factory) == f.gold_per_day);
    assert(rate_of(s.factories, next.id) == next.gold_per_day);
    assert(ledger[at].user_id == user && ledger[at].factory_id == factory);

    lemma_release(s.factories, ledger, at);
    lemma_grant(s.factories, kept, user, next.id, fresh);
    lemma_with_account(s, a, paid);
    let mid = s.with_account(a, paid);
    assert(t.players_data == mid.players_data);
    assert forall|u: u128| #[trigger] t.account_pos(u) == s.account_pos(u) by {
        assert(mid.account_pos(u) == s.account_pos(u));
    }
    assert(t.holdings_wf()) by {
        assert forall|r: int| 0 <= r < kept.len() implies {
            &&& s.user_pos((#[trigger] kept[r]).user_id) is Some
            &&& s.factory_pos(kept[r].factory_id) is Some
        } by {
            if ledger[at].amount > 1 {
                assert(kept[r].user_id == ledger[r].user_id);
                assert(kept[r].factory_id == ledger[r].factory_id);
            } else {
                let from = if r < at { r } else { r + 1 };
                assert(kept[r] == ledger[from]);
            }
        }
        let keys = ownership_keys(kept);
        lemma_position(keys, (user, next.id));
        assert forall|r: int| 0 <= r < t.player_factories.len() implies {
            &&& t.user_pos((#[trigger] t.player_factories[r]).user_id) is Some
            &&& t.factory_pos(t.player_factories[r].factory_id) is Some
        } by {
            if r < kept.len() && position(keys, (user, next.id)) != Some(r) {
                assert(t.player_factories[r] == kept[r]);
            }
        }
    }
    assert(income(t.factories, t.player_factories, user) == paid.gold_acc) by {
        assert(s.income_settled(user));
    }
    assert forall|u: u128| #[trigger] t.income_settled(u) by {
        assert(s.income_settled(u));
        if u != user && s.account_pos(u) is Some {
            lemma_accounts_apart(s, u, user);
        }
    }
    assert(t.players_wf()) by {
        assert forall|i: int| 0 <= i < t.player_factories.len() implies (
        #[trigger] t.player_factories[i]).amount >= 0 by {}
        lemma_income_nonnegative(t.factories, t.player_factories, user);
        assert forall|i: int| 0 <= i < t.players_data.len() implies {
            &&& account_ok(#[trigger] t.players_data[i])
            &&& position(
                inventory_ids(t.player_inventory),
                t.players_data[i].player_inventory_id,
            ) is Some
        } by {
            if i != a {
                assert(t.players_data[i] == s.players_data[i]);
            } else {
                assert(account_ok(s.players_data[a]));
            }
        }
    }
}

impl Economy {
    /// Lets `user` exchange one unit of `factory` for one unit of the next
    /// level of the same product, and hands back that level. The factory's
    /// price is paid in gold; the special currency is only required, not
    /// spent. A first unit of the next level opens a ledger row named `fresh`.
    /// A rejected request changes nothing, whichever step turned it down.
    pub fn upgrade(&mut self, user: u128, factory: u128, fresh: u128) -> (outcome: Result<
        i32,
        EconomyError,
    >)
        ensures
            match outcome {
                Ok(level) => {
                    &&& old(self)@.upgrade_rejection(user, factory) is None
                    &&& final(self)@ == old(self)@.upgraded(user, factory, fresh)
                    &&& level == old(self)@.upgrade_level(factory)
                },
                Err(reason) => {
                    &&& old(self)@.upgrade_rejection(user, factory) == Some(reason)
                    &&& final(self)@ == old(self)@
                },
            },
            old(self)@.wf() ==> final(self)@.wf(),
    {
        let f = match self.find_factory(factory) {
            Some(f) => self.factories[f],
            None => { return Err(EconomyError::NotFound); },
        };
        let v = match self.find_inventory(user) {
            Some(v) => v,
            None => { return Err(EconomyError::NotFound); },
        };
        let a = match self.find_account(user) {
            Some(a) => a,
            None => { return Err(EconomyError::NotFound); },
        };
        let at = match self.find_record(user, factory) {
            Some(at) => at,
            None => { return Err(EconomyError::NotOwned); },
        };
        let held = self.player_factories[at];
        if held.amount < 1 {
            return Err(EconomyError::NotOwned);
        }
        let account = self.players_data[a];
        if account.gold < f.price || self.player_inventory[v].special_currency
            < SPECIAL_CURRENCY_NEEDED {
            return Err(EconomyError::InsufficientResources);
        }
        if f.level == i32::MAX {
            proof {
                lemma_position(factory_rungs(self@.factories), (f.product, f.level + 1));
            }
            return Err(EconomyError::NoUpgradePath);
        }
        let next = match self.find_rung(f.product, f.level + 1) {
            Some(n) => self.factories[n],
            None => { return Err(EconomyError::NoUpgradePath); },
        };
        let gold: i32 = match account.gold.checked_sub(f.price) {
            Some(gold) => gold,
            None => { return Err(EconomyError::StoreError); },
        };
        let rate: i64 = account.gold_acc as i64 - f.gold_per_day as i64 + next.gold_per_day as i64;
        if rate > i32::MAX as i64 || rate < i32::MIN as i64 {
            return Err(EconomyError::StoreError);
        }
        release_at(&mut self.player_factories, at);
        let to = self.find_record(user, next.id);
        let full = match to {
            Some(i) => self.player_factories[i].amount == i32::MAX,
            None => false,
        };
        if full {
            restore_at(&mut self.player_factories, at, held);
            assert(self.player_factories@ =~= old(self).player_factories@);
            return Err(EconomyError::StoreError);
        }
        grant_at(&mut self.player_factories, to, user, next.id, fresh);
        self.players_data.set(a, PlayerData { gold, gold_acc: rate as i32, ..account });
        proof {
            if old(self)@.wf() {
                lemma_upgrade_keeps_order(old(self)@, user, factory, fresh);
            }
        }
        Ok(next.level)
    }
}

} // verus!
