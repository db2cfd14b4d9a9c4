//! The ownership ledger: how a unit is granted, how one is given up, and the
//! passive income that the ledger entitles a player to.

use crate::economy::{factory_ids, ownership_keys};
use crate::model::factory::Factory;
use crate::model::player::PlayerFactories;
use crate::table::{
    distinct, first_at, lemma_position, lemma_position_found, lemma_position_push,
    lemma_position_remove, position,
};
use vstd::prelude::*;

verus! {

/// The passive income of one unit of the factory `id`; nothing for a factory
/// that the catalog does not list.
pub open spec fn rate_of(catalog: Seq<Factory>, id: u128) -> int {
    match position(factory_ids(catalog), id) {
        Some(i) => catalog[i].gold_per_day as int,
        None => 0,
    }
}

/// What one ledger row adds to the passive income of `user`.
pub open spec fn row_income(catalog: Seq<Factory>, row: PlayerFactories, user: u128) -> int {
    if row.user_id == user {
        row.amount * rate_of(catalog, row.factory_id)
    } else {
        0
    }
}

/// The passive income that the ledger entitles `user` to: the income rate of
/// each owned factory, once per unit.
pub open spec fn income(catalog: Seq<Factory>, ledger: Seq<PlayerFactories>, user: u128) -> int
    decreases ledger.len(),
{
    if ledger.len() == 0 {
        0
    } else {
        income(catalog, ledger.drop_last(), user) + row_income(catalog, ledger.last(), user)
    }
}

/// The row that `user` holds for `factory` once one more unit is granted: the
/// old row with one unit more, or a new row, named `fresh`, with one unit.
pub open spec fn granted_row(
    ledger: Seq<PlayerFactories>,
    user: u128,
    factory: u128,
    fresh: u128,
) -> PlayerFactories {
    match position(ownership_keys(ledger), (user, factory)) {
        Some(i) => PlayerFactories { amount: (ledger[i].amount + 1) as i32, ..ledger[i] },
        None => PlayerFactories { id: fresh, user_id: user, factory_id: factory, amount: 1 },
    }
}

/// The ledger after one more unit of `factory` is granted to `user`.
pub open spec fn grant(ledger: Seq<PlayerFactories>, user: u128, factory: u128, fresh: u128) -> Seq<
    PlayerFactories,
> {
    match position(ownership_keys(ledger), (user, factory)) {
        Some(i) => ledger.update(i, granted_row(ledger, user, factory, fresh)),
        None => ledger.push(granted_row(ledger, user, factory, fresh)),
    }
}

/// The ledger after the row at `at` gives up one unit: the row goes when its
/// last unit does.
pub open spec fn release(ledger: Seq<PlayerFactories>, at: int) -> Seq<PlayerFactories> {
    if ledger[at].amount > 1 {
        ledger.update(at, PlayerFactories { amount: (ledger[at].amount - 1) as i32, ..ledger[at] })
    } else {
        ledger.remove(at)
    }
}

/// Every row holds at least one unit, and no player has two rows for one
/// factory.
pub open spec fn ledger_wf(ledger: Seq<PlayerFactories>) -> bool {
    &&& distinct(ownership_keys(ledger))
    &&& forall|i: int| 0 <= i < ledger.len() ==> (#[trigger] ledger[i]).amount >= 1
}

/// The units that `user` holds of `factory`.
pub open spec fn units(ledger: Seq<PlayerFactories>, user: u128, factory: u128) -> int {
    match position(ownership_keys(ledger), (user, factory)) {
        Some(i) => ledger[i].amount as int,
        None => 0,
    }
}

/// Grants `user` one more unit of `factory`, given where the ledger holds the
/// player's row for it; hands back the row as it now stands.
pub(crate) fn grant_at(
    ledger: &mut Vec<PlayerFactories>,
    at: Option<usize>,
    user: u128,
    factory: u128,
    fresh: u128,
) -> (row: PlayerFactories)
    requires
        crate::economy::place(at) == position(ownership_keys(old(ledger)@), (user, factory)),
        units(old(ledger)@, user, factory) + 1 <= i32::MAX,
    ensures
        final(ledger)@ == grant(old(ledger)@, user, factory, fresh),
        row == granted_row(old(ledger)@, user, factory, fresh),
{
    proof {
        lemma_position(ownership_keys(ledger@), (user, factory));
    }
    match at {
        Some(i) => {
            let held = ledger[i];
            let row = PlayerFactories { amount: held.amount + 1, ..held };
            ledger.set(i, row);
            row
        },
        None => {
            let row = PlayerFactories { id: fresh, user_id: user, factory_id: factory, amount: 1 };
            ledger.push(row);
            row
        },
    }
}

/// Takes one unit from the row at `at`, and the row with its last unit.
pub(crate) fn release_at(ledger: &mut Vec<PlayerFactories>, at: usize)
    requires
        at < old(ledger)@.len(),
    ensures
        final(ledger)@ == release(old(ledger)@, at as int),
{
    let held = ledger[at];
    if held.amount > 1 {
        ledger.set(at, PlayerFactories { amount: held.amount - 1, ..held });
    } else {
        ledger.remove(at);
    }
}

/// Puts back the unit that `release_at` took from the row `held` at `at`.
pub(crate) fn restore_at(ledger: &mut Vec<PlayerFactories>, at: usize, held: PlayerFactories)
    requires
        at <= old(ledger)@.len(),
        held.amount > 1 ==> at < old(ledger)@.len(),
    ensures
        final(ledger)@ == (if held.amount > 1 {
            old(ledger)@.update(at as int, held)
        } else {
            old(ledger)@.insert(at as int, held)
        }),
{
    if held.amount > 1 {
        ledger.set(at, held);
    } else {
        ledger.insert(at, held);
    }
}

/// Replacing a row changes the income by the difference of the two rows.
pub proof fn lemma_income_update(
    catalog: Seq<Factory>,
    ledger: Seq<PlayerFactories>,
    at: int,
    row: PlayerFactories,
    user: u128,
)
    requires
        0 <= at < ledger.len(),
    ensures
        income(catalog, ledger.update(at, row), user) == income(catalog, ledger, user)
            - row_income(catalog, ledger[at], user) + row_income(catalog, row, user),
    decreases ledger.len(),
{
    let changed = ledger.update(at, row);
    if at == ledger.len() - 1 {
        assert(changed.drop_last() =~= ledger.drop_last());
    } else {
        assert(changed.drop_last() =~= ledger.drop_last().update(at, row));
        lemma_income_update(catalog, ledger.drop_last(), at, row, user);
    }
}

/// Taking a row out lowers the income by what the row added.
pub proof fn lemma_income_remove(
    catalog: Seq<Factory>,
    ledger: Seq<PlayerFactories>,
    at: int,
    user: u128,
)
    requires
        0 <= at < ledger.len(),
    ensures
        income(catalog, ledger.remove(at), user) == income(catalog, ledger, user) - row_income(
            catalog,
            ledger[at],
            user,
        ),
    decreases ledger.len(),
{
    let cut = ledger.remove(at);
    if at == ledger.len() - 1 {
        assert(cut =~= ledger.drop_last());
    } else {
        assert(cut.drop_last() =~= ledger.drop_last().remove(at));
        assert(cut.last() == ledger.last());
        lemma_income_remove(catalog, ledger.drop_last(), at, user);
    }
}

/// A new last row adds its own income.
pub proof fn lemma_income_push(
    catalog: Seq<Factory>,
    ledger: Seq<PlayerFactories>,
    row: PlayerFactories,
    user: u128,
)
    ensures
        income(catalog, ledger.push(row), user) == income(catalog, ledger, user) + row_income(
            catalog,
            row,
            user,
        ),
{
    assert(ledger.push(row).drop_last() =~= ledger);
}

/// Where no rate and no amount is negative, no income is.
pub proof fn lemma_income_nonnegative(
    catalog: Seq<Factory>,
    ledger: Seq<PlayerFactories>,
    user: u128,
)
    requires
        forall|i: int| 0 <= i < catalog.len() ==> (#[trigger] catalog[i]).gold_per_day >= 0,
        forall|i: int| 0 <= i < ledger.len() ==> (#[trigger] ledger[i]).amount >= 0,
    ensures
        income(catalog, ledger, user) >= 0,
    decreases ledger.len(),
{
    if ledger.len() > 0 {
        let row = ledger.last();
        let rate = rate_of(catalog, row.factory_id);
        lemma_position(factory_ids(catalog), row.factory_id);
        assert(rate >= 0);
        assert(row.amount * rate >= 0) by (nonlinear_arith)
            requires
                row.amount >= 0,
                rate >= 0,
        ;
        let rest = ledger.drop_last();
        assert forall|i: int| 0 <= i < rest.len() implies (#[trigger] rest[i]).amount >= 0 by {
            assert(rest[i] == ledger[i]);
        }
        lemma_income_nonnegative(catalog, rest, user);
    }
}

/// Granting a unit keeps the ledger in order, adds one unit to the row of the
/// player and the factory, leaves every other holding as it was, and raises
/// the player's income, and nobody else's, by the factory's rate.
pub proof fn lemma_grant(
    catalog: Seq<Factory>,
    ledger: Seq<PlayerFactories>,
    user: u128,
    factory: u128,
    fresh: u128,
)
    requires
        ledger_wf(ledger),
        units(ledger, user, factory) + 1 <= i32::MAX,
    ensures
        ledger_wf(grant(ledger, user, factory, fresh)),
        units(grant(ledger, user, factory, fresh), user, factory) == units(ledger, user, factory)
            + 1,
        forall|u: u128, f: u128|
            (u, f) != (user, factory) ==> #[trigger] units(
                grant(ledger, user, factory, fresh),
                u,
                f,
            ) == units(ledger, u, f),
        forall|u: u128| #[trigger]
            income(catalog, grant(ledger, user, factory, fresh), u) == income(catalog, ledger, u)
                + (if u == user {
                rate_of(catalog, factory)
            } else {
                0
            }),
{
    let keys = ownership_keys(ledger);
    let key = (user, factory);
    let row = granted_row(ledger, user, factory, fresh);
    let after = grant(ledger, user, factory, fresh);
    let rate = rate_of(catalog, factory);
    lemma_position(keys, key);
    match position(keys, key) {
        Some(i) => {
            assert(ownership_keys(after) =~= keys);
            assert(ledger[i].amount >= 1);
            assert forall|j: int| 0 <= j < after.len() implies (#[trigger] after[j]).amount
                >= 1 by {
                if j != i {
                    assert(after[j] == ledger[j]);
                }
            }
            assert forall|u: u128| #[trigger]
                income(catalog, after, u) == income(catalog, ledger, u) + (if u == user {
                    rate
                } else {
                    0
                }) by {
                lemma_income_update(catalog, ledger, i, row, u);
                assert((ledger[i].amount + 1) * rate == ledger[i].amount * rate + rate)
                    by (nonlinear_arith);
            }
        },
        None => {
            assert(ownership_keys(after) =~= keys.push(key));
            assert(distinct(keys.push(key)));
            assert forall|j: int| 0 <= j < after.len() implies (#[trigger] after[j]).amount
                >= 1 by {
                if j < ledger.len() {
                    assert(after[j] == ledger[j]);
                }
            }
            assert forall|u: u128, f: u128| (u, f) != (user, factory) implies #[trigger] units(
                after,
                u,
                f,
            ) == units(ledger, u, f) by {
                lemma_position_push(keys, key, (u, f));
                lemma_position(keys, (u, f));
            }
            lemma_position_push(keys, key, key);
            assert forall|u: u128| #[trigger]
                income(catalog, after, u) == income(catalog, ledger, u) + (if u == user {
                    rate
                } else {
                    0
                }) by {
                lemma_income_push(catalog, ledger, row, u);
                assert(1 * rate == rate);
            }
        },
    }
}

/// Giving up a unit of an orderly ledger keeps it in order, takes one unit
/// from the row's holding, leaves every other holding as it was, and lowers
/// the income of the row's player, and nobody else's, by the factory's rate.
pub proof fn lemma_release(catalog: Seq<Factory>, ledger: Seq<PlayerFactories>, at: int)
    requires
        ledger_wf(ledger),
        0 <= at < ledger.len(),
    ensures
        ledger_wf(release(ledger, at)),
        units(release(ledger, at), ledger[at].user_id, ledger[at].factory_id) == ledger[at].amount
            - 1,
        forall|u: u128, f: u128|
            (u, f) != (ledger[at].user_id, ledger[at].factory_id) ==> #[trigger] units(
                release(ledger, at),
                u,
                f,
            ) == units(ledger, u, f),
        forall|u: u128| #[trigger]
            income(catalog, release(ledger, at), u) == income(catalog, ledger, u) - (if u
                == ledger[at].user_id {
                rate_of(catalog, ledger[at].factory_id)
            } else {
                0
            }),
{
    let keys = ownership_keys(ledger);
    let old_row = ledger[at];
    let key = (old_row.user_id, old_row.factory_id);
    let after = release(ledger, at);
    let rate = rate_of(catalog, old_row.factory_id);
    assert(keys[at] == key);
    assert(old_row.amount >= 1);
    if old_row.amount > 1 {
        let row = PlayerFactories { amount: (old_row.amount - 1) as i32, ..old_row };
        assert(ownership_keys(after) =~= keys);
        assert(first_at(keys, key, at));
        lemma_position_found(keys, key, at);
        assert forall|j: int| 0 <= j < after.len() implies (#[trigger] after[j]).amount >= 1 by {
            if j != at {
                assert(after[j] == ledger[j]);
            }
        }
        assert forall|u: u128, f: u128| (u, f) != key implies #[trigger] units(after, u, f)
            == units(ledger, u, f) by {
            lemma_position(keys, (u, f));
        }
        assert forall|u: u128| #[trigger]
            income(catalog, after, u) == income(catalog, ledger, u) - (if u == old_row.user_id {
                rate
            } else {
                0
            }) by {
            lemma_income_update(catalog, ledger, at, row, u);
            assert((old_row.amount - 1) * rate == old_row.amount * rate - rate)
                by (nonlinear_arith);
        }
    } else {
        assert(ownership_keys(after) =~= keys.remove(at));
        lemma_position_remove(keys, at, key);
        assert forall|j: int| 0 <= j < after.len() implies (#[trigger] after[j]).amount >= 1 by {
            assert(after[j] == ledger[if j < at { j } else { j + 1 }]);
        }
        assert forall|u: u128, f: u128| (u, f) != key implies #[trigger] units(after, u, f)
            == units(ledger, u, f) by {
            lemma_position_remove(keys, at, (u, f));
            lemma_position(keys, (u, f));
        }
        assert forall|u: u128| #[trigger]
            income(catalog, after, u) == income(catalog, ledger, u) - (if u == old_row.user_id {
                rate
            } else {
                0
            }) by {
            lemma_income_remove(catalog, ledger, at, u);
            assert(1 * rate == rate);
        }
    }
}

} // verus!
