//! A registered user and the sign-up form it comes from.

use chrono::NaiveDateTime;
use vstd::prelude::*;

verus! {

/// `chrono::NaiveDateTime`, carried through unread: no function here looks
/// inside a timestamp.
#[verifier::external_type_specification]
#[verifier::external_body]
pub struct ExNaiveDateTime(NaiveDateTime);

/// `NaiveDateTime::clone`, which chrono derives for a `Copy` type: the clone
/// is the timestamp itself.
pub assume_specification[ <NaiveDateTime as Clone>::clone ](stamp: &NaiveDateTime) -> (copy:
    NaiveDateTime)
    ensures
        copy == *stamp,
;

/// A row of the users table.
#[derive(Clone, Debug, PartialEq)]
pub struct User {
    pub id: u128,
    pub email: String,
    pub username: String,
    pub password: String,
    pub created_on: NaiveDateTime,
    /// The resource account that belongs to this user.
    pub player_data_id: u128,
}

impl User {
    /// The same user with the password blanked, fit to be shown.
    pub fn remove_pwd(self) -> (shown: Self)
        ensures
            shown.password@ == Seq::<char>::empty(),
            shown.id == self.id,
            shown.email == self.email,
            shown.username == self.username,
            shown.created_on == self.created_on,
            shown.player_data_id == self.player_data_id,
    {
        let mut shown = self;
        shown.password = String::new();
        shown
    }
}

/// What a visitor submits to sign up.
#[derive(Clone, Debug, PartialEq)]
pub struct NewUser {
    pub username: String,
    pub email: String,
    pub password: String,
}

} // verus!
