//! The five requests on factories: list the catalog, list a player's
//! holdings, acquire, work, upgrade.

use crate::economy::{Economy, EconomyView};
use crate::error::EconomyError;
use crate::ledger::granted_row;
use crate::model::factory::Factory;
use crate::model::player::PlayerFactories;
use crate::work::WorkReceipt;
use vstd::prelude::*;

verus! {

/// Names a player.
#[derive(Clone, Copy, Debug, PartialEq, Eq, Structural)]
pub struct UserId {
    pub id: u128,
}

/// Names a player and a factory.
#[derive(Clone, Copy, Debug, PartialEq, Eq, Structural)]
pub struct PlayerPayload {
    pub user_id: u128,
    pub factory_id: u128,
}

/// The bits of an identifier that say how it was made.
pub const ID_KIND_BITS: u128 = 0x0000_0000_0000_f000_c000_0000_0000_0000;

/// What those bits hold in an identifier that was drawn at random.
pub const ID_KIND_RANDOM: u128 = 0x0000_0000_0000_4000_8000_0000_0000_0000;

/// `id` is marked as drawn at random: version 4, in the standard variant.
pub open spec fn is_random_id(id: u128) -> bool {
    (id & ID_KIND_BITS) == ID_KIND_RANDOM
}

/// Draws a name for a new row with `uuid::Uuid::new_v4`, read as a number by
/// `Uuid::as_u128`. Which number comes is left to the system's random source,
/// and nothing is claimed of it but that it carries the marks of a random
/// identifier, which `new_v4` sets on every number it draws. Where the system
/// has no random source to draw from, `new_v4` panics.
#[verifier::external_body]
fn fresh_id() -> (id: u128)
    ensures
        is_random_id(id),
{
    uuid::Uuid::new_v4().as_u128()
}

impl EconomyView {
    /// The ledger rows of the player `user`, in the ledger's order.
    pub open spec fn holdings(self, user: u128) -> Seq<PlayerFactories> {
        self.player_factories.filter(|row: PlayerFactories| row.user_id == user)
    }
}

/// The whole catalog, in its order.
pub fn get_factories(economy: &Economy) -> (list: Vec<Factory>)
    ensures
        list@ == economy@.factories,
{
    let mut list: Vec<Factory> = Vec::new();
    let mut i: usize = 0;
    while i < economy.factories.len()
        invariant
            i <= economy.factories.len(),
            list@ == economy@.factories.take(i as int),
        decreases economy.factories.len() - i,
    {
        list.push(economy.factories[i]);
        assert(economy@.factories.take(i + 1) =~= economy@.factories.take(i as int).push(
            economy@.factories[i as int],
        ));
        i += 1;
    }
    assert(economy@.factories.take(i as int) =~= economy@.factories);
    list
}

/// The ledger rows of one player, in the ledger's order.
pub fn get_player_factories(user: &UserId, economy: &Economy) -> (list: Vec<PlayerFactories>)
    ensures
        list@ == economy@.holdings(user.id),
{
    let ghost mine = |row: PlayerFactories| row.user_id == user.id;
    let mut list: Vec<PlayerFactories> = Vec::new();
    let mut i: usize = 0;
    proof {
        reveal(Seq::filter);
        assert(economy@.player_factories.take(0).filter(mine) =~= Seq::empty());
    }
    while i < economy.player_factories.len()
        invariant
            i <= economy.player_factories.len(),
            mine == |row: PlayerFactories| row.user_id == user.id,
            list@ == economy@.player_factories.take(i as int).filter(mine),
        decreases economy.player_factories.len() - i,
    {
        let row = economy.player_factories[i];
        proof {
            let seen = economy@.player_factories.take(i as int);
            assert(economy@.player_factories.take(i + 1) =~= seen.push(row));
            seen.lemma_filter_push(row, mine);
        }
        if row.user_id == user.id {
            list.push(row);
        }
        i += 1;
    }
    assert(economy@.player_factories.take(i as int) =~= economy@.player_factories);
    list
}

/// Lets a player acquire one unit of a factory, and hands back the player's
/// ledger row for it. A new row gets a random name. A rejected request
/// changes nothing.
pub fn add_player_factories(player_data: &PlayerPayload, economy: &mut Economy) -> (outcome:
    Result<PlayerFactories, EconomyError>)
    ensures
        match outcome {
            Ok(row) => {
                &&& old(economy)@.acquire_rejection(player_data.user_id, player_data.factory_id)
                    is None
                &&& final(economy)@ == old(economy)@.acquired(
                    player_data.user_id,
                    player_data.factory_id,
                    row.id,
                )
                &&& row == granted_row(
                    old(economy)@.player_factories,
                    player_data.user_id,
                    player_data.factory_id,
                    row.id,
                )
                &&& old(economy)@.record_pos(player_data.user_id, player_data.factory_id)
                    is None ==> is_random_id(row.id)
            },
            Err(reason) => {
                &&& old(economy)@.acquire_rejection(player_data.user_id, player_data.factory_id)
                    == Some(reason)
                &&& final(economy)@ == old(economy)@
            },
        },
        old(economy)@.wf() ==> final(economy)@.wf(),
{
    let fresh = fresh_id();
    economy.acquire(player_data.user_id, player_data.factory_id, fresh)
}

/// Lets a player work one shift in a factory, and hands back what the shift
/// earned. A rejected request changes nothing.
pub fn work_factory(player_data: &PlayerPayload, economy: &mut Economy) -> (outcome: Result<
    WorkReceipt,
    EconomyError,
>)
    ensures
        match outcome {
            Ok(receipt) => {
                &&& old(economy)@.work_rejection(player_data.user_id, player_data.factory_id)
                    is None
                &&& final(economy)@ == old(economy)@.worked(
                    player_data.user_id,
                    player_data.factory_id,
                )
                &&& receipt == old(economy)@.work_receipt(player_data.factory_id)
            },
            Err(reason) => {
                &&& old(economy)@.work_rejection(player_data.user_id, player_data.factory_id)
                    == Some(reason)
                &&& final(economy)@ == old(economy)@
            },
        },
        old(economy)@.wf() ==> final(economy)@.wf(),
{
    economy.work(player_data.user_id, player_data.factory_id)
}

/// Lets a player exchange one unit of a factory for one of the next level,
/// and hands back that level. A new ledger row gets a random name. A rejected
/// request changes nothing.
pub fn upgrade_factory(player_data: &PlayerPayload, economy: &mut Economy) -> (outcome: Result<
    i32,
    EconomyError,
>)
    ensures
        match outcome {
            Ok(level) => {
                &&& old(economy)@.upgrade_rejection(player_data.user_id, player_data.factory_id)
                    is None
                &&& exists|fresh: u128|
                    is_random_id(fresh) && final(economy)@ == #[trigger] old(economy)@.upgraded(
                        player_data.user_id,
                        player_data.factory_id,
                        fresh,
                    )
                &&& level == old(economy)@.upgrade_level(player_data.factory_id)
            },
            Err(reason) => {
                &&& old(economy)@.upgrade_rejection(player_data.user_id, player_data.factory_id)
                    == Some(reason)
                &&& final(economy)@ == old(economy)@
            },
        },
        old(economy)@.wf() ==> final(economy)@.wf(),
{
    let fresh = fresh_id();
    economy.upgrade(player_data.user_id, player_data.factory_id, fresh)
}

} // verus!
