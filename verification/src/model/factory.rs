//! The production catalog's rows.

use vstd::prelude::*;

verus! {

/// What a factory produces.
#[derive(Clone, Copy, Debug, PartialEq, Eq, Structural)]
pub enum ProductKind {
    Food,
    Weapon,
}

/// The product kind that a catalog text names, if it names one.
pub open spec fn kind_named(name: Seq<char>) -> Option<ProductKind> {
    if name == "food"@ {
        Some(ProductKind::Food)
    } else if name == "weapon"@ {
        Some(ProductKind::Weapon)
    } else {
        None
    }
}

impl ProductKind {
    /// Reads a product kind from the text that the catalog stores for it.
    pub fn from_name(name: &str) -> (kind: Option<ProductKind>)
        ensures
            kind == kind_named(name@),
    {
        let text = name.to_owned();
        if text == "food".to_owned() {
            Some(ProductKind::Food)
        } else if text == "weapon".to_owned() {
            Some(ProductKind::Weapon)
        } else {
            None
        }
    }

    /// The text that the catalog stores for this product kind.
    pub fn name(&self) -> (text: String)
        ensures
            kind_named(text@) == Some(*self),
            text@ == (match *self {
                ProductKind::Food => "food"@,
                ProductKind::Weapon => "weapon"@,
            }),
    {
        proof {
            reveal_strlit("food");
            reveal_strlit("weapon");
            assert("food"@.len() == 4 && "weapon"@.len() == 6);
        }
        match self {
            ProductKind::Food => "food".to_owned(),
            ProductKind::Weapon => "weapon".to_owned(),
        }
    }
}

/// One level of one product line: what it costs to move on from it, what a
/// shift in it yields, and the passive income it brings.
#[derive(Clone, Copy, Debug, PartialEq, Eq, Structural)]
pub struct Factory {
    pub id: u128,
    pub product: ProductKind,
    pub level: i32,
    /// Gold paid to exchange one unit for the next level.
    pub price: i32,
    /// Goods produced per work shift.
    pub product_amount: i32,
    /// Passive income, in gold per day.
    pub gold_per_day: i32,
}

} // verus!
