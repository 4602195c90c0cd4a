use catalog_db::{
    add_product, clear_current_user, create_user, delete_product, get_current_user, get_products,
    get_user, get_user_products, set_current_user, update_product, DbProduct, DbUser, Store,
    StoreError,
};

fn summary(p: &DbProduct) -> (Option<i64>, String, u64, String, String, String) {
    (
        p.id,
        p.name.clone(),
        p.price_bits,
        p.description.clone(),
        p.category.clone(),
        p.user_email.clone(),
    )
}

#[test]
fn duplicate_email_rejected() {
    let mut st = Store::new();
    assert_eq!(create_user(&mut st, "a@x.com", "first"), Ok(()));
    assert_eq!(create_user(&mut st, "a@x.com", "second"), Err(StoreError::DuplicateEmail));
    let u = get_user(&st, "a@x.com").unwrap();
    assert_eq!(u.id, Some(1));
    assert_eq!(u.password, "first");
    assert_eq!(st.users().len(), 1);
}

#[test]
fn users_get_consecutive_ids() {
    let mut st = Store::new();
    assert_eq!(create_user(&mut st, "a@x.com", "pa"), Ok(()));
    assert_eq!(create_user(&mut st, "b@y.com", "pb"), Ok(()));
    let b = get_user(&st, "b@y.com").unwrap();
    assert_eq!(b.id, Some(2));
    assert_eq!(b.email, "b@y.com");
    assert_eq!(b.password, "pb");
    assert_eq!(st.user_seq(), 2);
}

#[test]
fn unknown_email_is_absent() {
    let mut st = Store::new();
    assert!(get_user(&st, "nobody@x.com").is_none());
    create_user(&mut st, "a@x.com", "pw").unwrap();
    assert!(get_user(&st, "nobody@x.com").is_none());
}

#[test]
fn email_lookup_is_case_sensitive() {
    let mut st = Store::new();
    create_user(&mut st, "a@x.com", "pw").unwrap();
    assert!(get_user(&st, "A@x.com").is_none());
    assert!(get_user(&st, "a@x.com").is_some());
}

#[test]
fn latest_session_wins() {
    let mut st = Store::new();
    assert_eq!(get_current_user(&st), None);
    set_current_user(&mut st, "a@x.com");
    set_current_user(&mut st, "b@y.com");
    assert_eq!(get_current_user(&st), Some("b@y.com".to_string()));
}

#[test]
fn cleared_session_is_absent() {
    let mut st = Store::new();
    set_current_user(&mut st, "a@x.com");
    clear_current_user(&mut st);
    assert_eq!(get_current_user(&st), None);
    clear_current_user(&mut st);
    assert_eq!(get_current_user(&st), None);
}

#[test]
fn listings_separate_owners() {
    let mut st = Store::new();
    create_user(&mut st, "u1@x.com", "p1").unwrap();
    create_user(&mut st, "u2@x.com", "p2").unwrap();
    let id1 = add_product(&mut st, "lamp", 10.5f64.to_bits(), "desk lamp", "home", "u1@x.com").unwrap();
    let id2 = add_product(&mut st, "mug", 3.25f64.to_bits(), "tea mug", "kitchen", "u2@x.com").unwrap();
    let mine = get_user_products(&st, "u1@x.com");
    assert_eq!(mine.len(), 1);
    assert_eq!(mine[0].id, Some(id1));
    assert_eq!(mine[0].name, "lamp");
    let theirs = get_user_products(&st, "u2@x.com");
    assert_eq!(theirs.len(), 1);
    assert_eq!(theirs[0].id, Some(id2));
    let all = get_products(&st);
    assert_eq!(all.len(), 2);
    assert_eq!(all[0].id, Some(id1));
    assert_eq!(all[1].id, Some(id2));
    assert!(get_user_products(&st, "nobody@x.com").is_empty());
}

#[test]
fn foreign_update_leaves_product() {
    let mut st = Store::new();
    let id = add_product(&mut st, "lamp", 10.0f64.to_bits(), "desk lamp", "home", "u1@x.com").unwrap();
    let before = summary(&get_products(&st)[0]);
    let n = update_product(&mut st, id, "stolen", 0.0f64.to_bits(), "x", "y", "u2@x.com");
    assert_eq!(n, Ok(0));
    assert_eq!(summary(&get_products(&st)[0]), before);
}

#[test]
fn owner_update_changes_fields() {
    let mut st = Store::new();
    let id = add_product(&mut st, "lamp", 10.0f64.to_bits(), "desk lamp", "home", "u1@x.com").unwrap();
    let other = add_product(&mut st, "mug", 2.0f64.to_bits(), "mug", "kitchen", "u1@x.com").unwrap();
    let n = update_product(&mut st, id, "floor lamp", 42.75f64.to_bits(), "tall", "living", "u1@x.com");
    assert_eq!(n, Ok(1));
    let all = get_products(&st);
    assert_eq!(
        summary(&all[0]),
        (
            Some(id),
            "floor lamp".to_string(),
            42.75f64.to_bits(),
            "tall".to_string(),
            "living".to_string(),
            "u1@x.com".to_string()
        )
    );
    assert_eq!(all[1].id, Some(other));
    assert_eq!(all[1].name, "mug");
}

#[test]
fn update_of_missing_id_changes_nothing() {
    let mut st = Store::new();
    add_product(&mut st, "lamp", 1.0f64.to_bits(), "", "", "u1@x.com").unwrap();
    assert_eq!(update_product(&mut st, 99, "x", 0, "x", "x", "u1@x.com"), Ok(0));
    assert_eq!(get_products(&st)[0].name, "lamp");
}

#[test]
fn foreign_delete_leaves_row() {
    let mut st = Store::new();
    let id = add_product(&mut st, "lamp", 10.0f64.to_bits(), "desk lamp", "home", "u1@x.com").unwrap();
    assert_eq!(delete_product(&mut st, id, "u2@x.com"), 0);
    assert_eq!(get_products(&st).len(), 1);
    assert_eq!(get_products(&st)[0].id, Some(id));
}

#[test]
fn owner_delete_removes_only_that_row() {
    let mut st = Store::new();
    let a = add_product(&mut st, "a", 1.0f64.to_bits(), "", "", "u1@x.com").unwrap();
    let b = add_product(&mut st, "b", 2.0f64.to_bits(), "", "", "u1@x.com").unwrap();
    let c = add_product(&mut st, "c", 3.0f64.to_bits(), "", "", "u2@x.com").unwrap();
    assert_eq!(delete_product(&mut st, b, "u1@x.com"), 1);
    let ids: Vec<Option<i64>> = get_products(&st).iter().map(|p| p.id).collect();
    assert_eq!(ids, vec![Some(a), Some(c)]);
    assert_eq!(delete_product(&mut st, b, "u1@x.com"), 0);
}

#[test]
fn added_product_reads_back() {
    let mut st = Store::new();
    let price = 19.99f64;
    let id = add_product(&mut st, "chair", price.to_bits(), "oak chair", "furniture", "u1@x.com").unwrap();
    assert_eq!(id, 1);
    let listed = get_user_products(&st, "u1@x.com");
    let found: Vec<&DbProduct> = listed.iter().filter(|p| p.id == Some(id)).collect();
    assert_eq!(found.len(), 1);
    let p = found[0];
    assert_eq!(p.name, "chair");
    assert_eq!(f64::from_bits(p.price_bits), price);
    assert_eq!(p.description, "oak chair");
    assert_eq!(p.category, "furniture");
    assert_eq!(p.user_email, "u1@x.com");
}

#[test]
fn product_ids_are_not_reused() {
    let mut st = Store::new();
    let a = add_product(&mut st, "a", 0, "", "", "u@x.com").unwrap();
    assert_eq!(delete_product(&mut st, a, "u@x.com"), 1);
    let b = add_product(&mut st, "b", 0, "", "", "u@x.com").unwrap();
    assert_eq!(b, a + 1);
}

fn user(id: i64, email: &str) -> DbUser {
    DbUser { id: Some(id), email: email.to_string(), password: "pw".to_string() }
}

fn product(id: i64, owner: &str) -> DbProduct {
    DbProduct {
        id: Some(id),
        name: "n".to_string(),
        price_bits: 0,
        description: "d".to_string(),
        category: "c".to_string(),
        user_email: owner.to_string(),
    }
}

#[test]
fn from_rows_accepts_consistent_rows() {
    let st = Store::from_rows(
        vec![user(1, "a@x.com"), user(3, "b@y.com")],
        Some("a@x.com".to_string()),
        vec![product(2, "a@x.com")],
        3,
        5,
    )
    .unwrap();
    assert_eq!(get_user(&st, "b@y.com").unwrap().id, Some(3));
    assert_eq!(get_current_user(&st), Some("a@x.com".to_string()));
    assert_eq!(get_products(&st).len(), 1);
    assert_eq!(st.product_seq(), 5);
}

#[test]
fn from_rows_rejects_duplicate_email() {
    let r = Store::from_rows(vec![user(1, "a@x.com"), user(2, "a@x.com")], None, vec![], 2, 0);
    assert_eq!(r.err(), Some(StoreError::InvalidRows));
}

#[test]
fn from_rows_rejects_duplicate_product_id() {
    let r = Store::from_rows(vec![], None, vec![product(1, "a"), product(1, "b")], 0, 1);
    assert_eq!(r.err(), Some(StoreError::InvalidRows));
}

#[test]
fn from_rows_rejects_id_beyond_sequence() {
    let r = Store::from_rows(vec![user(4, "a@x.com")], None, vec![], 3, 0);
    assert_eq!(r.err(), Some(StoreError::InvalidRows));
    let r = Store::from_rows(vec![], None, vec![product(0, "a")], 0, 3);
    assert_eq!(r.err(), Some(StoreError::InvalidRows));
}

#[test]
fn exhausted_user_ids_refuse_registration() {
    let mut st = Store::from_rows(vec![user(i64::MAX, "a@x.com")], None, vec![], i64::MAX, 0).unwrap();
    assert_eq!(create_user(&mut st, "b@y.com", "pw"), Err(StoreError::IdsExhausted));
    assert_eq!(create_user(&mut st, "a@x.com", "pw"), Err(StoreError::DuplicateEmail));
    assert!(get_user(&st, "b@y.com").is_none());
}

#[test]
fn exhausted_product_ids_refuse_insert() {
    let mut st = Store::from_rows(vec![], None, vec![], 0, i64::MAX).unwrap();
    assert_eq!(add_product(&mut st, "a", 0, "", "", "u@x.com"), Err(StoreError::IdsExhausted));
    assert!(get_products(&st).is_empty());
}

#[test]
fn nan_price_refused_on_add() {
    let mut st = Store::new();
    let r = add_product(&mut st, "lamp", f64::NAN.to_bits(), "d", "c", "u1@x.com");
    assert_eq!(r, Err(StoreError::NanPrice));
    let r = add_product(&mut st, "lamp", 0x7FF0_0000_0000_0001, "d", "c", "u1@x.com");
    assert_eq!(r, Err(StoreError::NanPrice));
    assert!(get_products(&st).is_empty());
    assert_eq!(st.product_seq(), 0);
    let inf = add_product(&mut st, "lamp", f64::INFINITY.to_bits(), "d", "c", "u1@x.com");
    assert_eq!(inf, Ok(1));
}

#[test]
fn nan_price_refused_on_owned_update() {
    let mut st = Store::new();
    let id = add_product(&mut st, "lamp", 10.0f64.to_bits(), "desk lamp", "home", "u1@x.com").unwrap();
    let before = summary(&get_products(&st)[0]);
    let r = update_product(&mut st, id, "x", f64::NAN.to_bits(), "y", "z", "u1@x.com");
    assert_eq!(r, Err(StoreError::NanPrice));
    assert_eq!(summary(&get_products(&st)[0]), before);
}

#[test]
fn nan_price_update_reaching_no_row_succeeds() {
    let mut st = Store::new();
    let id = add_product(&mut st, "lamp", 10.0f64.to_bits(), "desk lamp", "home", "u1@x.com").unwrap();
    let r = update_product(&mut st, id, "x", f64::NAN.to_bits(), "y", "z", "u2@x.com");
    assert_eq!(r, Ok(0));
    assert_eq!(get_products(&st)[0].name, "lamp");
}
