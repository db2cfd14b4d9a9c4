use chrono::NaiveDate;
use factory_economy::api::factories::{upgrade_factory, PlayerPayload};
use factory_economy::economy::Economy;
use factory_economy::error::EconomyError;
use factory_economy::model::factory::{Factory, ProductKind};
use factory_economy::model::player::{PlayerData, PlayerFactories, PlayerInventory};
use factory_economy::model::user::User;
use factory_economy::upgrade::SPECIAL_CURRENCY_NEEDED;

const OWNER: u128 = 100;
const RIVAL: u128 = 200;
const FARM_1: u128 = 1;
const FARM_2: u128 = 2;
const FORGE_1: u128 = 3;

fn factory(id: u128, product: ProductKind, level: i32, price: i32, rate: i32) -> Factory {
    Factory { id, product, level, price, product_amount: 5, gold_per_day: rate }
}

fn upgrade_world(amount: i32, gold: i32, special: i32) -> Economy {
    let stamp = NaiveDate::from_ymd_opt(2022, 2, 2).unwrap().and_hms_opt(0, 0, 0).unwrap();
    let user = |id: u128, data: u128| User {
        id,
        email: String::new(),
        username: String::new(),
        password: String::new(),
        created_on: stamp,
        player_data_id: data,
    };
    let account = |id: u128, inventory: u128, gold: i32, gold_acc: i32| PlayerData {
        energy: 30,
        gold,
        exp: 0,
        id,
        last_updated: stamp,
        gold_acc,
        player_stats_id: 0,
        player_inventory_id: inventory,
    };
    let inventory = |id: u128, special_currency: i32| PlayerInventory {
        id,
        food_q1: 2,
        weapon_q1: 3,
        capacity: 50,
        special_currency,
    };
    Economy {
        factories: vec![
            factory(FARM_1, ProductKind::Food, 1, 100, 7),
            factory(FARM_2, ProductKind::Food, 2, 300, 19),
            factory(FORGE_1, ProductKind::Weapon, 1, 150, 11),
        ],
        users: vec![user(OWNER, 10), user(RIVAL, 20)],
        players_data: vec![account(10, 11, gold, 7 * amount + 11), account(20, 21, 1000, 7)],
        player_inventory: vec![inventory(11, special), inventory(21, 50)],
        player_factories: vec![
            PlayerFactories { id: 1, user_id: RIVAL, factory_id: FARM_1, amount: 1 },
            PlayerFactories { id: 2, user_id: OWNER, factory_id: FARM_1, amount },
            PlayerFactories { id: 3, user_id: OWNER, factory_id: FORGE_1, amount: 1 },
        ],
    }
}

fn exchange(factory_id: u128) -> PlayerPayload {
    PlayerPayload { user_id: OWNER, factory_id }
}

fn state_of(economy: &Economy) -> (Vec<PlayerData>, Vec<PlayerInventory>, Vec<PlayerFactories>) {
    (
        economy.players_data.clone(),
        economy.player_inventory.clone(),
        economy.player_factories.clone(),
    )
}

#[test]
fn upgrade_of_the_last_unit_deletes_the_row() {
    let mut economy = upgrade_world(1, 250, 10);
    assert_eq!(SPECIAL_CURRENCY_NEEDED, 10);
    assert_eq!(economy.upgrade(OWNER, FARM_1, 77), Ok(2));
    assert_eq!(
        economy.player_factories,
        vec![
            PlayerFactories { id: 1, user_id: RIVAL, factory_id: FARM_1, amount: 1 },
            PlayerFactories { id: 3, user_id: OWNER, factory_id: FORGE_1, amount: 1 },
            PlayerFactories { id: 77, user_id: OWNER, factory_id: FARM_2, amount: 1 },
        ]
    );
    assert_eq!(economy.players_data[0].gold, 150);
    assert_eq!(economy.players_data[0].gold_acc, 18 + (19 - 7));
    assert_eq!(economy.players_data[0].energy, 30);
    assert_eq!(economy.player_inventory[0].special_currency, 10);
    assert_eq!(economy.players_data[1].gold, 1000);
    assert_eq!(economy.players_data[1].gold_acc, 7);
}

#[test]
fn upgrade_of_one_of_two_units_keeps_the_row() {
    let mut economy = upgrade_world(2, 100, 12);
    assert_eq!(upgrade_factory(&exchange(FARM_1), &mut economy), Ok(2));
    assert_eq!(economy.player_factories.len(), 4);
    assert_eq!(
        economy.player_factories[1],
        PlayerFactories { id: 2, user_id: OWNER, factory_id: FARM_1, amount: 1 }
    );
    let new_row = economy.player_factories[3];
    assert_eq!((new_row.user_id, new_row.factory_id, new_row.amount), (OWNER, FARM_2, 1));
    assert_eq!((new_row.id >> 76) & 0xf, 4);
    assert_eq!((new_row.id >> 62) & 0x3, 2);
    assert_eq!(economy.players_data[0].gold, 0);
    assert_eq!(economy.players_data[0].gold_acc, 25 + 19 - 7);
}

#[test]
fn upgrade_adds_to_a_row_of_the_next_level() {
    let mut economy = upgrade_world(2, 500, 10);
    assert_eq!(economy.upgrade(OWNER, FARM_1, 5), Ok(2));
    assert_eq!(economy.upgrade(OWNER, FARM_1, 6), Ok(2));
    assert_eq!(
        economy.player_factories,
        vec![
            PlayerFactories { id: 1, user_id: RIVAL, factory_id: FARM_1, amount: 1 },
            PlayerFactories { id: 3, user_id: OWNER, factory_id: FORGE_1, amount: 1 },
            PlayerFactories { id: 5, user_id: OWNER, factory_id: FARM_2, amount: 2 },
        ]
    );
    assert_eq!(economy.players_data[0].gold, 300);
    assert_eq!(economy.players_data[0].gold_acc, 2 * 19 + 11);
}

#[test]
fn upgrade_without_a_next_level_changes_nothing() {
    let mut economy = upgrade_world(1, 1000, 10);
    let before = state_of(&economy);
    assert_eq!(upgrade_factory(&exchange(FORGE_1), &mut economy), Err(EconomyError::NoUpgradePath));
    assert_eq!(state_of(&economy), before);
    economy.player_factories.push(PlayerFactories {
        id: 4,
        user_id: OWNER,
        factory_id: FARM_2,
        amount: 1,
    });
    let before = state_of(&economy);
    assert_eq!(upgrade_factory(&exchange(FARM_2), &mut economy), Err(EconomyError::NoUpgradePath));
    assert_eq!(state_of(&economy), before);
}

#[test]
fn upgrade_at_the_highest_level_has_no_path() {
    let mut economy = upgrade_world(1, 1000, 10);
    economy.factories[0].level = i32::MAX;
    let before = state_of(&economy);
    assert_eq!(upgrade_factory(&exchange(FARM_1), &mut economy), Err(EconomyError::NoUpgradePath));
    assert_eq!(state_of(&economy), before);
}

#[test]
fn upgrade_needs_a_unit_of_the_factory() {
    let mut economy = upgrade_world(1, 1000, 10);
    let before = state_of(&economy);
    assert_eq!(upgrade_factory(&exchange(FARM_2), &mut economy), Err(EconomyError::NotOwned));
    let rival = PlayerPayload { user_id: RIVAL, factory_id: FORGE_1 };
    assert_eq!(upgrade_factory(&rival, &mut economy), Err(EconomyError::NotOwned));
    assert_eq!(state_of(&economy), before);
}

#[test]
fn upgrade_needs_the_gold() {
    let mut economy = upgrade_world(1, 99, 10);
    let before = state_of(&economy);
    assert_eq!(
        upgrade_factory(&exchange(FARM_1), &mut economy),
        Err(EconomyError::InsufficientResources)
    );
    assert_eq!(state_of(&economy), before);
}

#[test]
fn upgrade_needs_the_special_currency() {
    let mut economy = upgrade_world(1, 1000, 9);
    let before = state_of(&economy);
    assert_eq!(
        upgrade_factory(&exchange(FARM_1), &mut economy),
        Err(EconomyError::InsufficientResources)
    );
    assert_eq!(state_of(&economy), before);
}

#[test]
fn upgrade_looks_at_resources_before_the_path() {
    let mut economy = upgrade_world(1, 10, 10);
    assert_eq!(
        upgrade_factory(&exchange(FORGE_1), &mut economy),
        Err(EconomyError::InsufficientResources)
    );
}

#[test]
fn upgrade_of_the_unknown_is_not_found() {
    let mut economy = upgrade_world(1, 1000, 10);
    let before = state_of(&economy);
    assert_eq!(upgrade_factory(&exchange(42), &mut economy), Err(EconomyError::NotFound));
    let stranger = PlayerPayload { user_id: 1, factory_id: FARM_1 };
    assert_eq!(upgrade_factory(&stranger, &mut economy), Err(EconomyError::NotFound));
    assert_eq!(state_of(&economy), before);
}

#[test]
fn upgrade_puts_the_unit_back_when_the_next_row_is_full() {
    let mut economy = upgrade_world(1, 1000, 10);
    economy.player_factories.push(PlayerFactories {
        id: 4,
        user_id: OWNER,
        factory_id: FARM_2,
        amount: i32::MAX,
    });
    let before = state_of(&economy);
    assert_eq!(upgrade_factory(&exchange(FARM_1), &mut economy), Err(EconomyError::StoreError));
    assert_eq!(state_of(&economy), before);
    economy.player_factories[1].amount = 2;
    let before = state_of(&economy);
    assert_eq!(upgrade_factory(&exchange(FARM_1), &mut economy), Err(EconomyError::StoreError));
    assert_eq!(state_of(&economy), before);
}

#[test]
fn upgrade_fails_when_the_income_rate_cannot_grow() {
    let mut economy = upgrade_world(1, 1000, 10);
    economy.players_data[0].gold_acc = i32::MAX - 11;
    let before = state_of(&economy);
    assert_eq!(upgrade_factory(&exchange(FARM_1), &mut economy), Err(EconomyError::StoreError));
    assert_eq!(state_of(&economy), before);
    economy.players_data[0].gold_acc = i32::MAX - 12;
    assert_eq!(upgrade_factory(&exchange(FARM_1), &mut economy), Ok(2));
    assert_eq!(economy.players_data[0].gold_acc, i32::MAX);
}
