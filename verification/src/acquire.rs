//! Acquiring a factory: one more unit on the ledger, and its passive income
//! on the player's account.

use crate::economy::{Economy, EconomyView};
use crate::error::EconomyError;
use crate::ledger::{grant, grant_at, granted_row, lemma_grant, rate_of};
use crate::model::player::{PlayerData, PlayerFactories};
use crate::order::{lemma_accounts_apart, lemma_with_account};
use crate::table::lemma_position;
use vstd::prelude::*;

verus! {

impl EconomyView {
    /// Why `user` cannot acquire `factory`, if anything stands in the way:
    /// the factory or the player is unknown, or the store cannot hold the new
    /// amount or the new income rate.
    pub open spec fn acquire_rejection(self, user: u128, factory: u128) -> Option<EconomyError> {
        if self.factory_pos(factory) is None || self.account_pos(user) is None {
            Some(EconomyError::NotFound)
        } else {
            let rate = self.account_of(user).gold_acc + rate_of(self.factories, factory);
            if self.owned(user, factory) + 1 > i32::MAX || rate > i32::MAX || rate < i32::MIN {
                Some(EconomyError::StoreError)
            } else {
                None
            }
        }
    }

    /// The economy after `user` has acquired `factory`: one more unit on the
    /// ledger, in a row named `fresh` if the player had none, and the
    /// factory's rate on top of the player's income rate.
    pub open spec fn acquired(self, user: u128, factory: u128, fresh: u128) -> EconomyView {
        let a = self.account_pos(user)->0;
        let account = self.players_data[a];
        EconomyView {
            player_factories: grant(self.player_factories, user, factory, fresh),
            players_data: self.players_data.update(
                a,
                PlayerData {
                    gold_acc: (account.gold_acc + rate_of(self.factories, factory)) as i32,
                    ..account
                },
            ),
            ..self
        }
    }
}

/// Acquiring keeps an orderly economy in order.
pub proof fn lemma_acquire_keeps_order(s: EconomyView, user: u128, factory: u128, fresh: u128)
    requires
        s.wf(),
        s.acquire_rejection(user, factory) is None,
    ensures
        s.acquired(user, factory, fresh).wf(),
{
    let t = s.acquired(user, factory, fresh);
    let a = s.account_pos(user)->0;
    let account = s.players_data[a];
    let rate = rate_of(s.factories, factory);
    let row = PlayerData { gold_acc: (account.gold_acc + rate) as i32, ..account };
    let mid = s.with_account(a, row);
    lemma_position(crate::economy::factory_ids(s.factories), factory);
    lemma_position(crate::economy::user_ids(s.users), user);
    lemma_position(
        crate::economy::account_ids(s.players_data),
        s.users[s.user_pos(user)->0].player_data_id,
    );
    assert(rate >= 0);
    lemma_with_account(s, a, row);
    lemma_grant(s.factories, s.player_factories, user, factory, fresh);
    assert(t.players_data == mid.players_data);
    assert(t.users == s.users && t.factories == s.factories && t.player_inventory
        == s.player_inventory);
    assert forall|u: u128| #[trigger] t.account_pos(u) == s.account_pos(u) by {
        assert(mid.account_pos(u) == s.account_pos(u));
    }
    assert(t.players_wf()) by {
        assert forall|i: int| 0 <= i < t.players_data.len() implies {
            &&& crate::order::account_ok(#[trigger] t.players_data[i])
            &&& crate::table::position(
                crate::economy::inventory_ids(t.player_inventory),
                t.players_data[i].player_inventory_id,
            ) is Some
        } by {
            if i != a {
                assert(t.players_data[i] == s.players_data[i]);
            } else {
                assert(crate::order::account_ok(s.players_data[a]));
            }
        }
    }
    assert(t.holdings_wf()) by {
        let keys = crate::economy::ownership_keys(s.player_factories);
        lemma_position(keys, (user, factory));
        assert forall|r: int| 0 <= r < t.player_factories.len() implies {
            &&& t.user_pos((#[trigger] t.player_factories[r]).user_id) is Some
            &&& t.factory_pos(t.player_factories[r].factory_id) is Some
        } by {
            if r < s.player_factories.len() && crate::table::position(keys, (user, factory))
                != Some(r) {
                assert(t.player_factories[r] == s.player_factories[r]);
            }
        }
    }
    assert forall|u: u128| #[trigger] t.income_settled(u) by {
        assert(s.income_settled(u));
        if u != user && s.account_pos(u) is Some {
            lemma_accounts_apart(s, u, user);
        }
    }
}

impl Economy {
    /// Lets `user` acquire one unit of `factory`. A first unit opens a ledger
    /// row named `fresh`; a further one raises the amount of the row that is
    /// there. Either way the factory's rate comes on top of the player's
    /// income rate, and the row is handed back as it now stands. A rejected
    /// request changes nothing.
    pub fn acquire(&mut self, user: u128, factory: u128, fresh: u128) -> (outcome: Result<
        PlayerFactories,
        EconomyError,
    >)
        ensures
            match outcome {
                Ok(row) => {
                    &&& old(self)@.acquire_rejection(user, factory) is None
                    &&& final(self)@ == old(self)@.acquired(user, factory, fresh)
                    &&& row == granted_row(old(self)@.player_factories, user, factory, fresh)
                },
                Err(reason) => {
                    &&& old(self)@.acquire_rejection(user, factory) == Some(reason)
                    &&& final(self)@ == old(self)@
                },
            },
            old(self)@.wf() ==> final(self)@.wf(),
    {
        let f = match self.find_factory(factory) {
            Some(f) => f,
            None => { return Err(EconomyError::NotFound); },
        };
        let a = match self.find_account(user) {
            Some(a) => a,
            None => { return Err(EconomyError::NotFound); },
        };
        let at = self.find_record(user, factory);
        let held: i32 = match at {
            Some(i) => self.player_factories[i].amount,
            None => 0,
        };
        let account = self.players_data[a];
        let rate: i32 = self.factories[f].gold_per_day;
        let gold_acc: i32 = match account.gold_acc.checked_add(rate) {
            Some(sum) => sum,
            None => { return Err(EconomyError::StoreError); },
        };
        if held == i32::MAX {
            return Err(EconomyError::StoreError);
        }
        let row = grant_at(&mut self.player_factories, at, user, factory, fresh);
        self.players_data.set(a, PlayerData { gold_acc, ..account });
        proof {
            if old(self)@.wf() {
                lemma_acquire_keeps_order(old(self)@, user, factory, fresh);
            }
        }
        Ok(row)
    }
}

} // verus!
