//! Telling at run time whether an economy is in order.

use crate::economy::{
    account_ids, account_inventory_ids, factory_ids, factory_rungs, inventory_ids,
    ownership_keys, user_account_ids, user_ids, Economy,
};
use crate::ledger::{income, ledger_wf, rate_of, row_income};
use crate::model::factory::{Factory, ProductKind};
use crate::model::player::{PlayerData, PlayerFactories, PlayerInventory};
use crate::model::user::User;
use crate::order::{account_ok, factory_ok, inventory_ok};
use crate::table::{distinct, lemma_position};
use vstd::prelude::*;

verus! {

/// Whether no two rows agree in the column `keys`, which `same` compares.
fn column_distinct<R, K, F: Fn(&R, &R) -> bool>(
    rows: &Vec<R>,
    Ghost(keys): Ghost<Seq<K>>,
    same: F,
) -> (ok: bool)
    requires
        keys.len() == rows.len(),
        forall|i: int, j: int|
            0 <= i < rows.len() && 0 <= j < rows.len() ==> call_requires(
                same,
                (&rows[i], &rows[j]),
            ),
        forall|i: int, j: int, b: bool|
            0 <= i < rows.len() && 0 <= j < rows.len() && call_ensures(
                same,
                (&rows[i], &rows[j]),
                b,
            ) ==> b == (keys[i] == keys[j]),
    ensures
        ok == distinct(keys),
{
    let mut j: usize = 0;
    while j < rows.len()
        invariant
            j <= rows.len(),
            keys.len() == rows.len(),
            forall|i: int, j: int|
                0 <= i < rows.len() && 0 <= j < rows.len() ==> call_requires(
                    same,
                    (&rows[i], &rows[j]),
                ),
            forall|i: int, j: int, b: bool|
                0 <= i < rows.len() && 0 <= j < rows.len() && call_ensures(
                    same,
                    (&rows[i], &rows[j]),
                    b,
                ) ==> b == (keys[i] == keys[j]),
            forall|a: int, b: int| 0 <= a < b < j ==> keys[a] != keys[b],
        decreases rows.len() - j,
    {
        let mut i: usize = 0;
        while i < j
            invariant
                i <= j < rows.len(),
                keys.len() == rows.len(),
                forall|i: int, j: int|
                    0 <= i < rows.len() && 0 <= j < rows.len() ==> call_requires(
                        same,
                        (&rows[i], &rows[j]),
                    ),
                forall|i: int, j: int, b: bool|
                    0 <= i < rows.len() && 0 <= j < rows.len() && call_ensures(
                        same,
                        (&rows[i], &rows[j]),
                        b,
                    ) ==> b == (keys[i] == keys[j]),
                forall|a: int| 0 <= a < i ==> keys[a] != keys[j as int],
            decreases j - i,
        {
            if same(&rows[i], &rows[j]) {
                assert(keys[i as int] == keys[j as int]);
                return false;
            }
            i += 1;
        }
        j += 1;
    }
    true
}

/// Whether a catalog row is in order.
fn factory_in_order(f: &Factory) -> (ok: bool)
    ensures
        ok == factory_ok(*f),
{
    f.level >= 1 && f.price >= 0 && f.product_amount >= 0 && f.gold_per_day >= 0
}

/// Whether an account is in order.
fn account_in_order(d: &PlayerData) -> (ok: bool)
    ensures
        ok == account_ok(*d),
{
    d.energy >= 0 && d.gold >= 0 && d.gold_acc >= 0
}

/// Whether an inventory is in order.
fn inventory_in_order(v: &PlayerInventory) -> (ok: bool)
    ensures
        ok == inventory_ok(*v),
{
    v.food_q1 >= 0 && v.weapon_q1 >= 0 && v.capacity >= 1 && v.food_q1 as i64 + v.weapon_q1 as i64
        <= v.capacity as i64 && v.special_currency >= 0
}

/// With no negative rate and no negative amount, the income from the first
/// rows of a ledger is at most the income from all of them.
proof fn lemma_income_grows(catalog: Seq<Factory>, ledger: Seq<PlayerFactories>, user: u128, k: int)
    requires
        forall|i: int| 0 <= i < catalog.len() ==> (#[trigger] catalog[i]).gold_per_day >= 0,
        forall|i: int| 0 <= i < ledger.len() ==> (#[trigger] ledger[i]).amount >= 0,
        0 <= k <= ledger.len(),
    ensures
        income(catalog, ledger.take(k), user) <= income(catalog, ledger, user),
    decreases ledger.len(),
{
    if k == ledger.len() {
        assert(ledger.take(k) =~= ledger);
    } else {
        let rest = ledger.drop_last();
        let row = ledger.last();
        let rate = rate_of(catalog, row.factory_id);
        lemma_position(factory_ids(catalog), row.factory_id);
        assert(row.amount * rate >= 0) by (nonlinear_arith)
            requires
                row.amount >= 0,
                rate >= 0,
        ;
        assert forall|i: int| 0 <= i < rest.len() implies (#[trigger] rest[i]).amount >= 0 by {
            assert(rest[i] == ledger[i]);
        }
        lemma_income_grows(catalog, rest, user, k);
        assert(rest.take(k) =~= ledger.take(k));
    }
}

impl Economy {
    /// Whether the catalog is in order.
    fn catalog_in_order(&self) -> (ok: bool)
        ensures
            ok == self@.catalog_wf(),
    {
        let by_id = |a: &Factory, b: &Factory| -> (same: bool)
            ensures
                same == (a.id == b.id),
            { a.id == b.id };
        if !column_distinct::<Factory, u128, _>(
            &self.factories,
            Ghost(factory_ids(self@.factories)),
            by_id,
        ) {
            return false;
        }
        let by_rung = |a: &Factory, b: &Factory| -> (same: bool)
            ensures
                same == (a.product == b.product && a.level == b.level),
            { a.product == b.product && a.level == b.level };
        if !column_distinct::<Factory, (ProductKind, int), _>(
            &self.factories,
            Ghost(factory_rungs(self@.factories)),
            by_rung,
        ) {
            return false;
        }
        let mut i: usize = 0;
        while i < self.factories.len()
            invariant
                i <= self.factories.len(),
                forall|j: int| 0 <= j < i ==> factory_ok(#[trigger] self@.factories[j]),
            decreases self.factories.len() - i,
        {
            if !factory_in_order(&self.factories[i]) {
                return false;
            }
            i += 1;
        }
        true
    }

    /// Whether the players' rows are in order.
    fn players_in_order(&self) -> (ok: bool)
        ensures
            ok == self@.players_wf(),
    {
        let user_by_id = |a: &User, b: &User| -> (same: bool)
            ensures
                same == (a.id == b.id),
            { a.id == b.id };
        let user_by_account = |a: &User, b: &User| -> (same: bool)
            ensures
                same == (a.player_data_id == b.player_data_id),
            { a.player_data_id == b.player_data_id };
        let account_by_id = |a: &PlayerData, b: &PlayerData| -> (same: bool)
            ensures
                same == (a.id == b.id),
            { a.id == b.id };
        let account_by_inventory = |a: &PlayerData, b: &PlayerData| -> (same: bool)
            ensures
                same == (a.player_inventory_id == b.player_inventory_id),
            { a.player_inventory_id == b.player_inventory_id };
        let inventory_by_id = |a: &PlayerInventory, b: &PlayerInventory| -> (same: bool)
            ensures
                same == (a.id == b.id),
            { a.id == b.id };
        if !column_distinct::<User, u128, _>(&self.users, Ghost(user_ids(self@.users)), user_by_id)
            || !column_distinct::<User, u128, _>(
            &self.users,
            Ghost(user_account_ids(self@.users)),
            user_by_account,
        ) || !column_distinct::<PlayerData, u128, _>(
            &self.players_data,
            Ghost(account_ids(self@.players_data)),
            account_by_id,
        ) || !column_distinct::<PlayerData, u128, _>(
            &self.players_data,
            Ghost(account_inventory_ids(self@.players_data)),
            account_by_inventory,
        ) || !column_distinct::<PlayerInventory, u128, _>(
            &self.player_inventory,
            Ghost(inventory_ids(self@.player_inventory)),
            inventory_by_id,
        ) {
            return false;
        }
        let mut u: usize = 0;
        while u < self.users.len()
            invariant
                u <= self.users.len(),
                forall|j: int|
                    0 <= j < u ==> crate::table::position(
                        account_ids(self@.players_data),
                        (#[trigger] self@.users[j]).player_data_id,
                    ) is Some,
            decreases self.users.len() - u,
        {
            if self.find_account_by_id(self.users[u].player_data_id).is_none() {
                return false;
            }
            u += 1;
        }
        let mut a: usize = 0;
        while a < self.players_data.len()
            invariant
                a <= self.players_data.len(),
                forall|j: int|
                    0 <= j < a ==> {
                        &&& account_ok(#[trigger] self@.players_data[j])
                        &&& crate::table::position(
                            inventory_ids(self@.player_inventory),
                            self@.players_data[j].player_inventory_id,
                        ) is Some
                    },
            decreases self.players_data.len() - a,
        {
            if !account_in_order(&self.players_data[a]) || self.find_inventory_by_id(
                self.players_data[a].player_inventory_id,
            ).is_none() {
                return false;
            }
            a += 1;
        }
        let mut v: usize = 0;
        while v < self.player_inventory.len()
            invariant
                v <= self.player_inventory.len(),
                forall|j: int| 0 <= j < v ==> inventory_ok(#[trigger] self@.player_inventory[j]),
            decreases self.player_inventory.len() - v,
        {
            if !inventory_in_order(&self.player_inventory[v]) {
                return false;
            }
            v += 1;
        }
        true
    }

    /// Whether the ledger is in order.
    fn holdings_in_order(&self) -> (ok: bool)
        ensures
            ok == self@.holdings_wf(),
    {
        let by_key = |a: &PlayerFactories, b: &PlayerFactories| -> (same: bool)
            ensures
                same == (a.user_id == b.user_id && a.factory_id == b.factory_id),
            { a.user_id == b.user_id && a.factory_id == b.factory_id };
        if !column_distinct::<PlayerFactories, (u128, u128), _>(
            &self.player_factories,
            Ghost(ownership_keys(self@.player_factories)),
            by_key,
        ) {
            return false;
        }
        let mut r: usize = 0;
        while r < self.player_factories.len()
            invariant
                r <= self.player_factories.len(),
                forall|j: int|
                    0 <= j < r ==> {
                        &&& (#[trigger] self@.player_factories[j]).amount >= 1
                        &&& self@.user_pos(self@.player_factories[j].user_id) is Some
                        &&& self@.factory_pos(self@.player_factories[j].factory_id) is Some
                    },
            decreases self.player_factories.len() - r,
        {
            let row = self.player_factories[r];
            if row.amount < 1 || self.find_user(row.user_id).is_none() || self.find_factory(
                row.factory_id,
            ).is_none() {
                return false;
            }
            r += 1;
        }
        true
    }

    /// The passive income that the ledger entitles `user` to, where that is
    /// within what an account can hold.
    fn entitled_income(&self, user: u128) -> (sum: Option<i32>)
        requires
            self@.catalog_wf(),
            self@.holdings_wf(),
        ensures
            match sum {
                Some(total) => total == income(self@.factories, self@.player_factories, user),
                None => income(self@.factories, self@.player_factories, user) > i32::MAX,
            },
    {
        let ghost catalog = self@.factories;
        let ghost ledger = self@.player_factories;
        let mut total: i64 = 0;
        let mut i: usize = 0;
        assert(ledger.take(0) =~= Seq::empty());
        while i < self.player_factories.len()
            invariant
                i <= self.player_factories.len(),
                catalog == self@.factories,
                ledger == self@.player_factories,
                self@.catalog_wf(),
                self@.holdings_wf(),
                0 <= total <= i32::MAX,
                total == income(catalog, ledger.take(i as int), user),
            decreases self.player_factories.len() - i,
        {
            let row = self.player_factories[i];
            proof {
                assert(ledger.take(i + 1).drop_last() =~= ledger.take(i as int));
                assert(ledger.take(i + 1).last() == row);
                lemma_position(factory_ids(catalog), row.factory_id);
            }
            if row.user_id == user {
                let rate: i32 = match self.find_factory(row.factory_id) {
                    Some(f) => self.factories[f].gold_per_day,
                    None => 0,
                };
                assert(rate == rate_of(catalog, row.factory_id));
                assert(0 <= row.amount * rate <= 0x4000_0000_0000_0000) by (nonlinear_arith)
                    requires
                        0 <= row.amount <= 0x7fff_ffff,
                        0 <= rate <= 0x7fff_ffff,
                ;
                total = total + row.amount as i64 * rate as i64;
                assert(total == income(catalog, ledger.take(i + 1), user));
                if total > i32::MAX as i64 {
                    proof {
                        lemma_income_grows(catalog, ledger, user, i + 1);
                    }
                    return None;
                }
            } else {
                assert(row_income(catalog, row, user) == 0);
            }
            i += 1;
        }
        assert(ledger.take(i as int) =~= ledger);
        Some(total as i32)
    }

    /// Whether the economy is in order: its keys identify, its references
    /// resolve, its quantities are within their bounds, and every account
    /// carries the passive income that the ledger entitles its player to.
    pub fn in_order(&self) -> (ok: bool)
        ensures
            ok == self@.wf(),
    {
        if !self.catalog_in_order() || !self.players_in_order() || !self.holdings_in_order() {
            return false;
        }
        let mut u: usize = 0;
        while u < self.users.len()
            invariant
                u <= self.users.len(),
                self@.catalog_wf(),
                self@.players_wf(),
                self@.holdings_wf(),
                forall|j: int| 0 <= j < u ==> self@.income_settled((#[trigger] self@.users[j]).id),
            decreases self.users.len() - u,
        {
            let user = self.users[u].id;
            let entitled = self.entitled_income(user);
            let settled = match self.find_account(user) {
                Some(a) => match entitled {
                    Some(total) => self.players_data[a].gold_acc == total,
                    None => false,
                },
                None => true,
            };
            if !settled {
                assert(!self@.income_settled(user));
                return false;
            }
            u += 1;
        }
        proof {
            assert forall|user: u128| #[trigger] self@.income_settled(user) by {
                if self@.account_pos(user) is Some {
                    lemma_position(user_ids(self@.users), user);
                    let at = self@.user_pos(user)->0;
                    assert(self@.users[at].id == user);
                }
            }
        }
        true
    }
}

} // verus!
