use chrono::NaiveDate;
use factory_economy::api::factories::{add_player_factories, PlayerPayload};
use factory_economy::economy::Economy;
use factory_economy::error::EconomyError;
use factory_economy::model::factory::{Factory, ProductKind};
use factory_economy::model::player::{PlayerData, PlayerFactories, PlayerInventory};
use factory_economy::model::user::User;

const PLAYER: u128 = 100;
const OTHER: u128 = 200;
const FARM: u128 = 1;
const FORGE: u128 = 3;

fn acquire_world() -> Economy {
    let stamp = NaiveDate::from_ymd_opt(2020, 5, 17).unwrap().and_hms_opt(8, 30, 0).unwrap();
    let user = |id: u128, name: &str, data: u128| User {
        id,
        email: format!("{}@example.org", name),
        username: name.to_string(),
        password: "secret".to_string(),
        created_on: stamp,
        player_data_id: data,
    };
    let account = |id: u128, inventory: u128| PlayerData {
        energy: 50,
        gold: 500,
        exp: 7,
        id,
        last_updated: stamp,
        gold_acc: 0,
        player_stats_id: id + 1000,
        player_inventory_id: inventory,
    };
    let inventory = |id: u128| PlayerInventory {
        id,
        food_q1: 0,
        weapon_q1: 0,
        capacity: 100,
        special_currency: 20,
    };
    Economy {
        factories: vec![
            Factory {
                id: FARM,
                product: ProductKind::Food,
                level: 1,
                price: 100,
                product_amount: 5,
                gold_per_day: 7,
            },
            Factory {
                id: FORGE,
                product: ProductKind::Weapon,
                level: 1,
                price: 150,
                product_amount: 2,
                gold_per_day: 11,
            },
        ],
        users: vec![user(PLAYER, "ada", 10), user(OTHER, "bob", 20)],
        players_data: vec![account(10, 11), account(20, 21)],
        player_inventory: vec![inventory(11), inventory(21)],
        player_factories: vec![],
    }
}

fn acquire_request(factory_id: u128) -> PlayerPayload {
    PlayerPayload { user_id: PLAYER, factory_id }
}

#[test]
fn acquire_in_an_empty_economy_finds_nothing() {
    let mut economy = Economy::new();
    assert_eq!(
        add_player_factories(&acquire_request(FARM), &mut economy),
        Err(EconomyError::NotFound)
    );
    assert!(economy.player_factories.is_empty());
}

#[test]
fn acquire_of_an_unknown_factory_is_not_found() {
    let mut economy = acquire_world();
    assert_eq!(
        add_player_factories(&acquire_request(999), &mut economy),
        Err(EconomyError::NotFound)
    );
    assert!(economy.player_factories.is_empty());
    assert_eq!(economy.players_data[0].gold_acc, 0);
}

#[test]
fn acquire_by_an_unknown_player_is_not_found() {
    let mut economy = acquire_world();
    let request = PlayerPayload { user_id: 555, factory_id: FARM };
    assert_eq!(add_player_factories(&request, &mut economy), Err(EconomyError::NotFound));
    assert!(economy.player_factories.is_empty());
}

#[test]
fn first_acquire_opens_a_row_with_one_unit() {
    let mut economy = acquire_world();
    let row = economy.acquire(PLAYER, FARM, 4242).unwrap();
    assert_eq!(row, PlayerFactories { id: 4242, user_id: PLAYER, factory_id: FARM, amount: 1 });
    assert_eq!(economy.player_factories, vec![row]);
    assert_eq!(economy.players_data[0].gold_acc, 7);
    assert_eq!(economy.players_data[0].gold, 500);
    assert_eq!(economy.players_data[0].energy, 50);
    assert_eq!(economy.players_data[1].gold_acc, 0);
}

#[test]
fn acquiring_twice_gives_two_units_and_twice_the_rate() {
    let mut economy = acquire_world();
    let first = add_player_factories(&acquire_request(FARM), &mut economy).unwrap();
    let second = add_player_factories(&acquire_request(FARM), &mut economy).unwrap();
    assert_eq!(first.amount, 1);
    assert_eq!(second.amount, 2);
    assert_eq!(second.id, first.id);
    assert_eq!(economy.player_factories.len(), 1);
    assert_eq!(economy.player_factories[0].amount, 2);
    assert_eq!(economy.players_data[0].gold_acc, 2 * 7);
}

#[test]
fn ten_acquires_in_a_row_leave_ten_units() {
    let mut economy = acquire_world();
    for _ in 0..10 {
        add_player_factories(&acquire_request(FORGE), &mut economy).unwrap();
    }
    assert_eq!(economy.player_factories.len(), 1);
    assert_eq!(economy.player_factories[0].amount, 10);
    assert_eq!(economy.players_data[0].gold_acc, 10 * 11);
}

#[test]
fn new_rows_get_random_names() {
    let mut economy = acquire_world();
    let farm = add_player_factories(&acquire_request(FARM), &mut economy).unwrap();
    let forge = add_player_factories(&acquire_request(FORGE), &mut economy).unwrap();
    assert_ne!(farm.id, forge.id);
    for id in [farm.id, forge.id] {
        assert_eq!((id >> 76) & 0xf, 4);
        assert_eq!((id >> 62) & 0x3, 2);
        assert_eq!(uuid::Uuid::from_u128(id).get_version_num(), 4);
    }
}

#[test]
fn acquire_keeps_players_apart() {
    let mut economy = acquire_world();
    economy.acquire(PLAYER, FARM, 1).unwrap();
    economy.acquire(OTHER, FARM, 2).unwrap();
    economy.acquire(OTHER, FARM, 3).unwrap();
    assert_eq!(
        economy.player_factories,
        vec![
            PlayerFactories { id: 1, user_id: PLAYER, factory_id: FARM, amount: 1 },
            PlayerFactories { id: 2, user_id: OTHER, factory_id: FARM, amount: 2 },
        ]
    );
    assert_eq!(economy.players_data[0].gold_acc, 7);
    assert_eq!(economy.players_data[1].gold_acc, 14);
}

#[test]
fn acquire_fails_when_the_amount_cannot_grow() {
    let mut economy = acquire_world();
    economy.player_factories.push(PlayerFactories {
        id: 9,
        user_id: PLAYER,
        factory_id: FARM,
        amount: i32::MAX,
    });
    assert_eq!(economy.acquire(PLAYER, FARM, 1), Err(EconomyError::StoreError));
    assert_eq!(economy.player_factories[0].amount, i32::MAX);
    assert_eq!(economy.players_data[0].gold_acc, 0);
}

#[test]
fn acquire_fails_when_the_income_rate_cannot_grow() {
    let mut economy = acquire_world();
    economy.players_data[0].gold_acc = i32::MAX - 6;
    assert_eq!(economy.acquire(PLAYER, FARM, 1), Err(EconomyError::StoreError));
    assert!(economy.player_factories.is_empty());
    assert_eq!(economy.players_data[0].gold_acc, i32::MAX - 6);
    economy.players_data[0].gold_acc = i32::MAX - 7;
    assert_eq!(economy.acquire(PLAYER, FARM, 1).map(|row| row.amount), Ok(1));
    assert_eq!(economy.players_data[0].gold_acc, i32::MAX);
}

#[test]
fn lookups_answer_with_the_first_row() {
    let economy = acquire_world();
    assert_eq!(economy.find_factory(FARM), Some(0));
    assert_eq!(economy.find_factory(FORGE), Some(1));
    assert_eq!(economy.find_factory(77), None);
    assert_eq!(economy.find_rung(ProductKind::Weapon, 1), Some(1));
    assert_eq!(economy.find_rung(ProductKind::Weapon, 2), None);
    assert_eq!(economy.find_user(OTHER), Some(1));
    assert_eq!(economy.find_account(OTHER), Some(1));
    assert_eq!(economy.find_inventory(OTHER), Some(1));
    assert_eq!(economy.find_inventory(3), None);
    assert_eq!(economy.find_record(PLAYER, FARM), None);
}
