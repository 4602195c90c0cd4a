//! A verified store for user accounts, a single active session and a
//! per-user product catalog.
//!
//! The store keeps three tables: users (unique by email), a session slot
//! holding at most one email, and products owned by an email. Every mutation
//! of a product is scoped by its owner: an update or delete that names an id
//! together with an email matches only a row that carries both.
pub mod model;
pub mod records;
pub mod store;

pub use records::{DbProduct, DbUser, ProductRecord, StoreError, UserRecord};

pub use store::{
    add_product, clear_current_user, create_user, delete_product, get_current_user, get_products,
    get_user, get_user_products, set_current_user, update_product, Store,
};
