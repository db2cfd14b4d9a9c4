//! What the three operations do, read off the players' holdings, accounts and
//! inventories, and what they leave alone.

use crate::acquire::lemma_acquire_keeps_order;
use crate::economy::{
    account_ids, factory_ids, factory_rungs, inventory_ids, ownership_keys, user_ids, EconomyView,
};
use crate::ledger::{lemma_grant, lemma_release, rate_of, release};
use crate::model::player::PlayerData;
use crate::order::{
    lemma_accounts_apart, lemma_inventories_apart, lemma_with_account, lemma_with_inventory,
};
use crate::table::{lemma_position, lemma_position_distinct};
use crate::work::{stock, stocked, SHIFT_COST};
use vstd::prelude::*;

verus! {

/// An accepted acquire adds one unit to the player's holding of the factory
/// and the factory's rate to the player's income rate. It touches nothing
/// else on the player's account, no other holding, no other account, and no
/// inventory, user or catalog row.
pub proof fn lemma_acquire_moves(s: EconomyView, user: u128, factory: u128, fresh: u128)
    requires
        s.wf(),
        s.acquire_rejection(user, factory) is None,
    ensures
        s.acquired(user, factory, fresh).owned(user, factory) == s.owned(user, factory) + 1,
        forall|u: u128| #[trigger]
            s.acquired(user, factory, fresh).account_pos(u) == s.account_pos(u),
        s.acquired(user, factory, fresh).account_of(user) == (PlayerData {
            gold_acc: (s.account_of(user).gold_acc + rate_of(s.factories, factory)) as i32,
            ..s.account_of(user)
        }),
        s.acquired(user, factory, fresh).account_of(user).gold_acc == s.account_of(user).gold_acc
            + rate_of(s.factories, factory),
        forall|u: u128, f: u128|
            (u, f) != (user, factory) ==> #[trigger] s.acquired(user, factory, fresh).owned(u, f)
                == s.owned(u, f),
        forall|u: u128|
            u != user && s.account_pos(u) is Some ==> #[trigger] s.acquired(
                user,
                factory,
                fresh,
            ).account_of(u) == s.account_of(u),
        s.acquired(user, factory, fresh).player_inventory == s.player_inventory,
        s.acquired(user, factory, fresh).users == s.users,
        s.acquired(user, factory, fresh).factories == s.factories,
{
    let t = s.acquired(user, factory, fresh);
    let a = s.account_pos(user)->0;
    let paid = t.players_data[a];
    lemma_position(user_ids(s.users), user);
    lemma_position(account_ids(s.players_data), s.users[s.user_pos(user)->0].player_data_id);
    lemma_grant(s.factories, s.player_factories, user, factory, fresh);
    lemma_with_account(s, a, paid);
    assert(t.players_data =~= s.with_account(a, paid).players_data);
    assert forall|u: u128| #[trigger] t.account_pos(u) == s.account_pos(u) by {
        assert(s.with_account(a, paid).account_pos(u) == s.account_pos(u));
    }
    assert forall|u: u128| u != user && s.account_pos(u) is Some implies #[trigger] t.account_of(
        u,
    ) == s.account_of(u) by {
        lemma_accounts_apart(s, u, user);
        assert(t.account_pos(u) == s.account_pos(u));
    }
}

/// Two accepted acquires of one factory by one player add two units to the
/// player's holding and twice the factory's rate to the player's income
/// rate: a player who held none and had no income then holds two units and
/// has twice the rate.
pub proof fn lemma_acquire_twice(
    s: EconomyView,
    user: u128,
    factory: u128,
    first: u128,
    second: u128,
)
    requires
        s.wf(),
        s.acquire_rejection(user, factory) is None,
        s.acquired(user, factory, first).acquire_rejection(user, factory) is None,
    ensures
        ({
            let twice = s.acquired(user, factory, first).acquired(user, factory, second);
            &&& twice.wf()
            &&& twice.owned(user, factory) == s.owned(user, factory) + 2
            &&& twice.account_of(user).gold_acc == s.account_of(user).gold_acc + 2 * rate_of(
                s.factories,
                factory,
            )
            &&& s.owned(user, factory) == 0 && s.account_of(user).gold_acc == 0 ==> {
                &&& twice.owned(user, factory) == 2
                &&& twice.account_of(user).gold_acc == 2 * rate_of(s.factories, factory)
            }
        }),
{
    let once = s.acquired(user, factory, first);
    lemma_acquire_keeps_order(s, user, factory, first);
    lemma_acquire_moves(s, user, factory, first);
    lemma_acquire_keeps_order(once, user, factory, second);
    lemma_acquire_moves(once, user, factory, second);
}

/// The economy after `user` has acquired `factory` once for each name in
/// `names`, in their order.
pub open spec fn acquired_each(s: EconomyView, user: u128, factory: u128, names: Seq<u128>)
    -> EconomyView
    decreases names.len(),
{
    if names.len() == 0 {
        s
    } else {
        acquired_each(s, user, factory, names.drop_last()).acquired(user, factory, names.last())
    }
}

/// Each of the acquires behind `acquired_each` was accepted.
pub open spec fn each_acquire_accepted(s: EconomyView, user: u128, factory: u128, names: Seq<u128>)
    -> bool
    decreases names.len(),
{
    names.len() == 0 || {
        &&& each_acquire_accepted(s, user, factory, names.drop_last())
        &&& acquired_each(s, user, factory, names.drop_last()).acquire_rejection(user, factory)
            is None
    }
}

/// Acquires of one factory by one player add up, one after the other: where
/// the player and the factory are known and the store can hold the totals,
/// every one of them is accepted, and together they add as many units as
/// there were acquires, and as many times the factory's rate. No acquire is
/// lost.
pub proof fn lemma_acquires_add_up(s: EconomyView, user: u128, factory: u128, names: Seq<u128>)
    requires
        s.wf(),
        s.factory_pos(factory) is Some,
        s.account_pos(user) is Some,
        s.owned(user, factory) + names.len() <= i32::MAX,
        s.account_of(user).gold_acc + names.len() * rate_of(s.factories, factory) <= i32::MAX,
    ensures
        each_acquire_accepted(s, user, factory, names),
        acquired_each(s, user, factory, names).wf(),
        acquired_each(s, user, factory, names).factories == s.factories,
        acquired_each(s, user, factory, names).account_pos(user) == s.account_pos(user),
        acquired_each(s, user, factory, names).owned(user, factory) == s.owned(user, factory)
            + names.len(),
        acquired_each(s, user, factory, names).account_of(user).gold_acc == s.account_of(
            user,
        ).gold_acc + names.len() * rate_of(s.factories, factory),
    decreases names.len(),
{
    let rate = rate_of(s.factories, factory);
    lemma_position(factory_ids(s.factories), factory);
    assert(rate >= 0);
    if names.len() > 0 {
        let n = names.len() as int;
        let before = names.drop_last();
        assert((n - 1) * rate <= n * rate && n * rate == (n - 1) * rate + rate)
            by (nonlinear_arith)
            requires
                rate >= 0,
                n >= 1,
        ;
        lemma_acquires_add_up(s, user, factory, before);
        let mid = acquired_each(s, user, factory, before);
        assert(mid.account_of(user).gold_acc >= 0) by {
            lemma_position(user_ids(mid.users), user);
            lemma_position(
                account_ids(mid.players_data),
                mid.users[mid.user_pos(user)->0].player_data_id,
            );
        }
        assert(mid.acquire_rejection(user, factory) is None);
        lemma_acquire_keeps_order(mid, user, factory, names.last());
        lemma_acquire_moves(mid, user, factory, names.last());
    }
}

/// An accepted shift takes its cost off the player's energy, adds the
/// factory's rate to the player's gold and the factory's output to the
/// player's stock of the factory's product. It touches nothing else on the
/// player's account or in the player's inventory, no other account or
/// inventory, and no ledger, user or catalog row.
pub proof fn lemma_work_moves(s: EconomyView, user: u128, factory: u128)
    requires
        s.wf(),
        s.work_rejection(user, factory) is None,
    ensures
        forall|u: u128| #[trigger] s.worked(user, factory).account_pos(u) == s.account_pos(u),
        forall|u: u128| #[trigger] s.worked(user, factory).inventory_pos(u) == s.inventory_pos(u),
        s.worked(user, factory).account_of(user) == (PlayerData {
            energy: (s.account_of(user).energy - SHIFT_COST) as i32,
            gold: (s.account_of(user).gold + rate_of(s.factories, factory)) as i32,
            ..s.account_of(user)
        }),
        s.worked(user, factory).account_of(user).energy == s.account_of(user).energy - SHIFT_COST,
        s.worked(user, factory).account_of(user).gold == s.account_of(user).gold + rate_of(
            s.factories,
            factory,
        ),
        s.worked(user, factory).inventory_of(user) == stocked(
            s.inventory_of(user),
            s.work_receipt(factory).product,
            s.work_receipt(factory).amount as int,
        ),
        stock(s.worked(user, factory).inventory_of(user), s.work_receipt(factory).product)
            == stock(s.inventory_of(user), s.work_receipt(factory).product) + s.work_receipt(
            factory,
        ).amount,
        forall|u: u128|
            u != user && s.account_pos(u) is Some ==> #[trigger] s.worked(user, factory).account_of(
                u,
            ) == s.account_of(u),
        forall|u: u128|
            u != user && s.inventory_pos(u) is Some ==> #[trigger] s.worked(
                user,
                factory,
            ).inventory_of(u) == s.inventory_of(u),
        s.worked(user, factory).player_factories == s.player_factories,
        s.worked(user, factory).users == s.users,
        s.worked(user, factory).factories == s.factories,
{
    let t = s.worked(user, factory);
    let a = s.account_pos(user)->0;
    let v = s.inventory_pos(user)->0;
    let paid = t.players_data[a];
    let filled = t.player_inventory[v];
    lemma_position(user_ids(s.users), user);
    lemma_position(account_ids(s.players_data), s.users[s.user_pos(user)->0].player_data_id);
    lemma_position(inventory_ids(s.player_inventory), s.players_data[a].player_inventory_id);
    let mid = s.with_account(a, paid);
    lemma_with_account(s, a, paid);
    lemma_with_inventory(mid, v, filled);
    assert(t.players_data =~= mid.players_data);
    assert(t == mid.with_inventory(v, filled));
    assert forall|u: u128| #[trigger] t.account_pos(u) == s.account_pos(u) by {
        assert(mid.account_pos(u) == s.account_pos(u));
    }
    assert forall|u: u128| #[trigger] t.inventory_pos(u) == s.inventory_pos(u) by {
        assert(mid.inventory_pos(u) == s.inventory_pos(u));
        assert(mid.with_inventory(v, filled).inventory_pos(u) == mid.inventory_pos(u));
    }
    assert forall|u: u128| u != user && s.account_pos(u) is Some implies #[trigger] t.account_of(
        u,
    ) == s.account_of(u) by {
        lemma_accounts_apart(s, u, user);
        assert(t.account_pos(u) == s.account_pos(u));
    }
    assert forall|u: u128|
        u != user && s.inventory_pos(u) is Some implies #[trigger] t.inventory_of(u)
            == s.inventory_of(u) by {
        lemma_inventories_apart(s, u, user);
        assert(t.inventory_pos(u) == s.inventory_pos(u));
    }
}

/// An accepted upgrade takes one unit from the player's holding of the
/// factory, and the ledger row with the last unit; adds one unit to the
/// player's holding of the next level; takes the factory's price off the
/// player's gold; and moves the player's income rate by the difference of the
/// two factories' rates. It touches nothing else on the player's account, no
/// other holding, no other account, and no inventory, user or catalog row.
pub proof fn lemma_upgrade_moves(s: EconomyView, user: u128, factory: u128, fresh: u128)
    requires
        s.wf(),
        s.upgrade_rejection(user, factory) is None,
    ensures
        ({
            let t = s.upgraded(user, factory, fresh);
            let f = s.factories[s.factory_pos(factory)->0];
            let next = s.factories[s.next_level_pos(factory)->0];
            &&& next.product == f.product
            &&& next.level == f.level + 1
            &&& next.id != factory
            &&& t.owned(user, factory) == s.owned(user, factory) - 1
            &&& s.owned(user, factory) == 1 ==> t.record_pos(user, factory) is None
            &&& s.owned(user, factory) > 1 ==> t.record_pos(user, factory) is Some
            &&& t.owned(user, next.id) == s.owned(user, next.id) + 1
            &&& forall|u: u128| #[trigger] t.account_pos(u) == s.account_pos(u)
            &&& t.account_of(user) == (PlayerData {
                gold: (s.account_of(user).gold - f.price) as i32,
                gold_acc: (s.account_of(user).gold_acc - f.gold_per_day + next.gold_per_day) as i32,
                ..s.account_of(user)
            })
            &&& t.account_of(user).gold == s.account_of(user).gold - f.price
            &&& t.account_of(user).gold_acc == s.account_of(user).gold_acc + (next.gold_per_day
                - f.gold_per_day)
            &&& forall|u: u128, g: u128|
                (u, g) != (user, factory) && (u, g) != (user, next.id) ==> #[trigger] t.owned(u, g)
                    == s.owned(u, g)
            &&& forall|u: u128|
                u != user && s.account_pos(u) is Some ==> #[trigger] t.account_of(u)
                    == s.account_of(u)
            &&& t.player_inventory == s.player_inventory
            &&& t.users == s.users
            &&& t.factories == s.factories
        }),
{
    let t = s.upgraded(user, factory, fresh);
    let fi = s.factory_pos(factory)->0;
    let ni = s.next_level_pos(factory)->0;
    let f = s.factories[fi];
    let next = s.factories[ni];
    let a = s.account_pos(user)->0;
    let at = s.record_pos(user, factory)->0;
    let ledger = s.player_factories;
    let kept = release(ledger, at);
    let paid = t.players_data[a];
    lemma_position(factory_ids(s.factories), factory);
    lemma_position(factory_rungs(s.factories), (f.product, f.level + 1));
    lemma_position(user_ids(s.users), user);
    lemma_position(account_ids(s.players_data), s.users[s.user_pos(user)->0].player_data_id);
    lemma_position(ownership_keys(ledger), (user, factory));
    lemma_position_distinct(factory_ids(s.factories), ni);
    assert(factory_rungs(s.factories)[fi] != factory_rungs(s.factories)[ni]);
    assert(factory_ids(s.factories)[fi] != factory_ids(s.factories)[ni]);
    assert(ledger[at].user_id == user && ledger[at].factory_id == factory);
    lemma_release(s.factories, ledger, at);
    lemma_grant(s.factories, kept, user, next.id, fresh);
    lemma_position(ownership_keys(kept), (user, factory));
    lemma_position(ownership_keys(t.player_factories), (user, factory));
    assert(crate::ledger::units(kept, user, factory) == ledger[at].amount - 1);
    assert(crate::ledger::units(t.player_factories, user, factory) == crate::ledger::units(
        kept,
        user,
        factory,
    ));
    assert(crate::ledger::ledger_wf(t.player_factories));
    lemma_with_account(s, a, paid);
    assert(t.players_data =~= s.with_account(a, paid).players_data);
    assert forall|u: u128| #[trigger] t.account_pos(u) == s.account_pos(u) by {
        assert(s.with_account(a, paid).account_pos(u) == s.account_pos(u));
    }
    assert forall|u: u128, g: u128|
        (u, g) != (user, factory) && (u, g) != (user, next.id) implies #[trigger] t.owned(u, g)
            == s.owned(u, g) by {
        assert(crate::ledger::units(kept, u, g) == crate::ledger::units(ledger, u, g));
    }
    assert forall|u: u128| u != user && s.account_pos(u) is Some implies #[trigger] t.account_of(
        u,
    ) == s.account_of(u) by {
        lemma_accounts_apart(s, u, user);
        assert(t.account_pos(u) == s.account_pos(u));
    }
}

} // verus!
