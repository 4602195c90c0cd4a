//! Row types of the three tables and their mathematical views.
use vstd::prelude::*;

verus! {

/// A registered account. `id` is assigned by the store when the row is
/// inserted; the password is kept exactly as it was given.
#[derive(Debug, Clone)]
pub struct DbUser {
    pub id: Option<i64>,
    pub email: String,
    pub password: String,
}

/// A catalog entry owned by the user whose email is `user_email`.
///
/// The price is carried as the bit pattern of an IEEE-754 double
/// (`f64::to_bits`), so that a stored price comes back bit for bit.
#[derive(Debug, Clone)]
pub struct DbProduct {
    pub id: Option<i64>,
    pub name: String,
    pub price_bits: u64,
    pub description: String,
    pub category: String,
    pub user_email: String,
}

/// What a `DbUser` means: its fields, strings seen as character sequences.
pub struct UserRecord {
    pub id: Option<i64>,
    pub email: Seq<char>,
    pub password: Seq<char>,
}

/// What a `DbProduct` means: its fields, strings seen as character sequences.
pub struct ProductRecord {
    pub id: Option<i64>,
    pub name: Seq<char>,
    pub price_bits: u64,
    pub description: Seq<char>,
    pub category: Seq<char>,
    pub user_email: Seq<char>,
}

impl View for DbUser {
    type V = UserRecord;

    open spec fn view(&self) -> UserRecord {
        UserRecord { id: self.id, email: self.email@, password: self.password@ }
    }
}

impl View for DbProduct {
    type V = ProductRecord;

    open spec fn view(&self) -> ProductRecord {
        ProductRecord {
            id: self.id,
            name: self.name@,
            price_bits: self.price_bits,
            description: self.description@,
            category: self.category@,
            user_email: self.user_email@,
        }
    }
}

/// Why an operation on the store did not take place.
#[derive(Debug, Clone, Copy, PartialEq, Eq, Structural)]
pub enum StoreError {
    /// A user with the same email is already registered.
    DuplicateEmail,
    /// The table has used up its identifiers: the last one given out is
    /// `i64::MAX`.
    IdsExhausted,
    /// The price is a NaN, which a price column does not hold.
    NanPrice,
    /// The rows handed to the store contradict one of its invariants.
    InvalidRows,
}

impl DbUser {
    /// A copy of the row, field for field.
    pub fn duplicate(&self) -> (r: DbUser)
        ensures
            r@ == self@,
    {
        DbUser { id: self.id, email: self.email.clone(), password: self.password.clone() }
    }
}

impl DbProduct {
    /// A copy of the row, field for field.
    pub fn duplicate(&self) -> (r: DbProduct)
        ensures
            r@ == self@,
    {
        DbProduct {
            id: self.id,
            name: self.name.clone(),
            price_bits: self.price_bits,
            description: self.description.clone(),
            category: self.category.clone(),
            user_email: self.user_email.clone(),
        }
    }
}

} // verus!
