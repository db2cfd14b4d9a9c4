use chrono::NaiveDate;
use factory_economy::economy::Economy;
use factory_economy::model::factory::{Factory, ProductKind};
use factory_economy::model::player::{PlayerData, PlayerFactories, PlayerInventory};
use factory_economy::model::user::User;

const ANN: u128 = 100;
const BEN: u128 = 200;
const FARM_1: u128 = 1;
const FARM_2: u128 = 2;
const FORGE_1: u128 = 3;

fn audited_world() -> Economy {
    let stamp = NaiveDate::from_ymd_opt(2023, 3, 4).unwrap().and_hms_opt(5, 6, 7).unwrap();
    let user = |id: u128, data: u128| User {
        id,
        email: String::new(),
        username: String::new(),
        password: String::new(),
        created_on: stamp,
        player_data_id: data,
    };
    let account = |id: u128, inventory: u128, gold_acc: i32| PlayerData {
        energy: 30,
        gold: 1000,
        exp: 0,
        id,
        last_updated: stamp,
        gold_acc,
        player_stats_id: 0,
        player_inventory_id: inventory,
    };
    let inventory = |id: u128| PlayerInventory {
        id,
        food_q1: 2,
        weapon_q1: 3,
        capacity: 50,
        special_currency: 10,
    };
    let factory = |id: u128, product: ProductKind, level: i32, rate: i32| Factory {
        id,
        product,
        level,
        price: 100,
        product_amount: 5,
        gold_per_day: rate,
    };
    Economy {
        factories: vec![
            factory(FARM_1, ProductKind::Food, 1, 7),
            factory(FARM_2, ProductKind::Food, 2, 19),
            factory(FORGE_1, ProductKind::Weapon, 1, 11),
        ],
        users: vec![user(ANN, 10), user(BEN, 20)],
        players_data: vec![account(10, 11, 2 * 7 + 11), account(20, 21, 19)],
        player_inventory: vec![inventory(11), inventory(21)],
        player_factories: vec![
            PlayerFactories { id: 1, user_id: ANN, factory_id: FARM_1, amount: 2 },
            PlayerFactories { id: 2, user_id: BEN, factory_id: FARM_2, amount: 1 },
            PlayerFactories { id: 3, user_id: ANN, factory_id: FORGE_1, amount: 1 },
        ],
    }
}

#[test]
fn an_empty_economy_is_in_order() {
    assert!(Economy::new().in_order());
}

#[test]
fn a_consistent_economy_is_in_order() {
    assert!(audited_world().in_order());
}

#[test]
fn the_operations_keep_the_economy_in_order() {
    let mut economy = audited_world();
    assert_eq!(economy.acquire(BEN, FORGE_1, 50).map(|row| row.amount), Ok(1));
    assert!(economy.in_order());
    assert_eq!(economy.acquire(ANN, FARM_1, 51).map(|row| row.amount), Ok(3));
    assert!(economy.in_order());
    assert!(economy.work(ANN, FARM_1).is_ok());
    assert!(economy.in_order());
    assert!(economy.work(BEN, FORGE_1).is_ok());
    assert!(economy.in_order());
    assert_eq!(economy.upgrade(ANN, FARM_1, 52), Ok(2));
    assert!(economy.in_order());
    assert_eq!(economy.upgrade(ANN, FARM_1, 53), Ok(2));
    assert_eq!(economy.upgrade(ANN, FARM_1, 54), Ok(2));
    assert!(economy.in_order());
    assert_eq!(economy.find_record(ANN, FARM_1), None);
    assert!(economy.upgrade(ANN, FARM_1, 55).is_err());
    assert!(economy.work(ANN, FARM_1).is_err());
    assert!(economy.in_order());
    assert_eq!(economy.players_data[0].gold_acc, 3 * 19 + 11);
    assert_eq!(economy.players_data[1].gold_acc, 19 + 11);
}

#[test]
fn a_repeated_key_is_out_of_order() {
    let mut economy = audited_world();
    economy.factories[1].id = FARM_1;
    assert!(!economy.in_order());

    let mut economy = audited_world();
    economy.factories[1].level = 1;
    assert!(!economy.in_order());

    let mut economy = audited_world();
    economy.users[1].id = ANN;
    assert!(!economy.in_order());

    let mut economy = audited_world();
    economy.users[1].player_data_id = 10;
    assert!(!economy.in_order());

    let mut economy = audited_world();
    economy.players_data[1].id = 10;
    assert!(!economy.in_order());

    let mut economy = audited_world();
    economy.players_data[1].player_inventory_id = 11;
    assert!(!economy.in_order());

    let mut economy = audited_world();
    economy.player_inventory[1].id = 11;
    assert!(!economy.in_order());

    let mut economy = audited_world();
    economy.player_factories[2].factory_id = FARM_1;
    assert!(!economy.in_order());
}

#[test]
fn a_dangling_reference_is_out_of_order() {
    let mut economy = audited_world();
    economy.users[0].player_data_id = 99;
    assert!(!economy.in_order());

    let mut economy = audited_world();
    economy.players_data[0].player_inventory_id = 99;
    assert!(!economy.in_order());

    let mut economy = audited_world();
    economy.player_factories[0].user_id = 99;
    assert!(!economy.in_order());

    let mut economy = audited_world();
    economy.player_factories[1].factory_id = 99;
    assert!(!economy.in_order());
}

#[test]
fn a_quantity_out_of_bounds_is_out_of_order() {
    let mut economy = audited_world();
    economy.factories[0].level = 0;
    assert!(!economy.in_order());

    let mut economy = audited_world();
    economy.factories[0].price = -1;
    assert!(!economy.in_order());

    let mut economy = audited_world();
    economy.players_data[0].energy = -1;
    assert!(!economy.in_order());

    let mut economy = audited_world();
    economy.players_data[1].gold = -1;
    assert!(!economy.in_order());

    let mut economy = audited_world();
    economy.player_inventory[0].food_q1 = 48;
    assert!(!economy.in_order());
    economy.player_inventory[0].food_q1 = 47;
    assert!(economy.in_order());

    let mut economy = audited_world();
    economy.player_inventory[1].special_currency = -5;
    assert!(!economy.in_order());

    let mut economy = audited_world();
    economy.player_factories.push(PlayerFactories {
        id: 9,
        user_id: BEN,
        factory_id: FARM_1,
        amount: 0,
    });
    assert!(!economy.in_order());
}

#[test]
fn an_unsettled_income_rate_is_out_of_order() {
    let mut economy = audited_world();
    economy.players_data[0].gold_acc = 24;
    assert!(!economy.in_order());
    economy.players_data[0].gold_acc = 25;
    assert!(economy.in_order());
    economy.player_factories[1].amount = 2;
    assert!(!economy.in_order());
    economy.players_data[1].gold_acc = 38;
    assert!(economy.in_order());
}

#[test]
fn an_income_beyond_any_account_is_out_of_order() {
    let mut economy = audited_world();
    economy.factories[1].gold_per_day = i32::MAX;
    economy.players_data[1].gold_acc = i32::MAX;
    assert!(economy.in_order());
    economy.player_factories[1].amount = i32::MAX;
    assert!(!economy.in_order());
}
