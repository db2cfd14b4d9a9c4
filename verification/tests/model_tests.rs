use chrono::NaiveDate;
use factory_economy::api::factories::{
    get_factories, get_player_factories, PlayerPayload, UserId,
};
use factory_economy::economy::Economy;
use factory_economy::error::{EconomyError, ErrorClass};
use factory_economy::model::factory::{Factory, ProductKind};
use factory_economy::model::player::{PlayerFactories, PlayerStats};
use factory_economy::model::user::{NewUser, User};

#[test]
fn remove_pwd_blanks_the_password_only() {
    let day = NaiveDate::from_ymd_opt(2019, 12, 31).unwrap();
    let created_on = day.and_hms_opt(23, 59, 58).unwrap();
    let user = User {
        id: 7,
        email: "ada@example.org".to_string(),
        username: "ada".to_string(),
        password: "hunter2".to_string(),
        created_on,
        player_data_id: 70,
    };
    let shown = user.clone().remove_pwd();
    assert_eq!(shown.password, "");
    assert_eq!(shown, User { password: String::new(), ..user });
}

#[test]
fn remove_pwd_of_a_blank_password_changes_nothing() {
    let created_on = NaiveDate::from_ymd_opt(2019, 1, 1).unwrap().and_hms_opt(0, 0, 0).unwrap();
    let user = User {
        id: 8,
        email: String::new(),
        username: "bob".to_string(),
        password: String::new(),
        created_on,
        player_data_id: 80,
    };
    assert_eq!(user.clone().remove_pwd(), user);
}

#[test]
fn product_kinds_are_read_from_their_names() {
    assert_eq!(ProductKind::from_name("food"), Some(ProductKind::Food));
    assert_eq!(ProductKind::from_name("weapon"), Some(ProductKind::Weapon));
    assert_eq!(ProductKind::from_name("Food"), None);
    assert_eq!(ProductKind::from_name("weapons"), None);
    assert_eq!(ProductKind::from_name(""), None);
}

#[test]
fn product_kinds_are_written_as_their_names() {
    assert_eq!(ProductKind::Food.name(), "food");
    assert_eq!(ProductKind::Weapon.name(), "weapon");
    for kind in [ProductKind::Food, ProductKind::Weapon] {
        assert_eq!(ProductKind::from_name(&kind.name()), Some(kind));
    }
}

#[test]
fn every_error_has_its_class() {
    let full = EconomyError::CapacityExceeded { capacity: 1, current: 1, produced: 1 };
    assert_eq!(EconomyError::NotOwned.class(), ErrorClass::ValidationRejection);
    assert_eq!(full.class(), ErrorClass::ValidationRejection);
    assert_eq!(EconomyError::InsufficientEnergy.class(), ErrorClass::ValidationRejection);
    assert_eq!(EconomyError::InsufficientResources.class(), ErrorClass::ValidationRejection);
    assert_eq!(EconomyError::NotFound.class(), ErrorClass::NotFoundError);
    assert_eq!(EconomyError::NoUpgradePath.class(), ErrorClass::NotFoundError);
    assert_eq!(EconomyError::Conflict.class(), ErrorClass::ConflictError);
    assert_eq!(EconomyError::StoreError.class(), ErrorClass::StoreError);
}

#[test]
fn the_catalog_is_listed_in_its_order() {
    let mut economy = Economy::new();
    assert_eq!(get_factories(&economy), vec![]);
    let farm = Factory {
        id: 9,
        product: ProductKind::Food,
        level: 1,
        price: 10,
        product_amount: 1,
        gold_per_day: 1,
    };
    let forge = Factory { id: 4, product: ProductKind::Weapon, level: 3, ..farm };
    economy.factories = vec![farm, forge];
    assert_eq!(get_factories(&economy), vec![farm, forge]);
}

#[test]
fn holdings_are_listed_for_one_player() {
    let mut economy = Economy::new();
    let row = |id: u128, user_id: u128, factory_id: u128, amount: i32| PlayerFactories {
        id,
        user_id,
        factory_id,
        amount,
    };
    economy.player_factories =
        vec![row(1, 5, 50, 2), row(2, 6, 50, 1), row(3, 5, 51, 4), row(4, 7, 52, 1)];
    assert_eq!(
        get_player_factories(&UserId { id: 5 }, &economy),
        vec![row(1, 5, 50, 2), row(3, 5, 51, 4)]
    );
    assert_eq!(get_player_factories(&UserId { id: 6 }, &economy), vec![row(2, 6, 50, 1)]);
    assert_eq!(get_player_factories(&UserId { id: 8 }, &economy), vec![]);
}

#[test]
fn plain_rows_compare_by_their_fields() {
    let stats = PlayerStats { id: 1, strength: 2, agility: 3, stamina: 4 };
    assert_eq!(stats, stats.clone());
    assert_ne!(stats, PlayerStats { stamina: 5, ..stats });
    let form = NewUser {
        username: "ada".to_string(),
        email: "ada@example.org".to_string(),
        password: "hunter2".to_string(),
    };
    assert_eq!(form.clone(), form);
    assert_eq!(UserId { id: 3 }, UserId { id: 3 });
    assert_ne!(
        PlayerPayload { user_id: 1, factory_id: 2 },
        PlayerPayload { user_id: 2, factory_id: 1 }
    );
}
