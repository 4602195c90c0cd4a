//! The store itself and the operations on it.
use vstd::prelude::*;

use crate::model::{
    add_product_outcome, after_add_product, after_clear_current_user, after_create_user,
    after_delete_product, after_set_current_user, after_update_product, create_user_outcome,
    empty_state, has_user, is_nan_bits, update_product_outcome, lemma_filter_keeps_valid, lookup_user, owned_by, owner_is,
    products_valid, revise, revised, spares, target_count, targets, users_valid, valid,
    StoreState,
};
use crate::records::{DbProduct, DbUser, ProductRecord, StoreError, UserRecord};

verus! {

pub open spec fn user_views(v: Seq<DbUser>) -> Seq<UserRecord> {
    v.map_values(|u: DbUser| u@)
}

pub open spec fn product_views(v: Seq<DbProduct>) -> Seq<ProductRecord> {
    v.map_values(|p: DbProduct| p@)
}

pub open spec fn session_view(session: Option<String>) -> Option<Seq<char>> {
    match session {
        Some(e) => Some(e@),
        None => None,
    }
}

/// The three tables, held in memory. Each operation takes the store by
/// reference; whoever owns it decides how it is shared and persisted.
#[derive(Clone)]
pub struct Store {
    users: Vec<DbUser>,
    session: Option<String>,
    products: Vec<DbProduct>,
    user_seq: i64,
    product_seq: i64,
}

impl View for Store {
    type V = StoreState;

    closed spec fn view(&self) -> StoreState {
        StoreState {
            users: user_views(self.users@),
            session: session_view(self.session),
            products: product_views(self.products@),
            user_seq: self.user_seq as int,
            product_seq: self.product_seq as int,
        }
    }
}

impl Store {
    /// An empty store.
    pub fn new() -> (r: Store)
        ensures
            r@ == empty_state(),
            valid(r@),
    {
        let r = Store {
            users: Vec::new(),
            session: None,
            products: Vec::new(),
            user_seq: 0,
            product_seq: 0,
        };
        assert(r@.users =~= Seq::<UserRecord>::empty());
        assert(r@.products =~= Seq::<ProductRecord>::empty());
        r
    }
}

/// The state described by rows as they were persisted.
pub open spec fn state_of(
    users: Seq<DbUser>,
    session: Option<String>,
    products: Seq<DbProduct>,
    user_seq: i64,
    product_seq: i64,
) -> StoreState {
    StoreState {
        users: user_views(users),
        session: session_view(session),
        products: product_views(products),
        user_seq: user_seq as int,
        product_seq: product_seq as int,
    }
}

fn users_ok(users: &Vec<DbUser>, seq: i64) -> (r: bool)
    ensures
        r == users_valid(user_views(users@), seq as int),
{
    let ghost vs = user_views(users@);
    let mut i: usize = 0;
    while i < users.len()
        invariant
            vs == user_views(users@),
            0 <= i <= users.len(),
            forall|a: int| 0 <= a < i ==> (#[trigger] vs[a]).id is Some && 0 < vs[a].id->0 <= seq,
            forall|a: int, b: int|
                0 <= a < b < i ==> (#[trigger] vs[a]).email != (#[trigger] vs[b]).email && vs[a].id
                    != vs[b].id,
        decreases users.len() - i,
    {
        assert(vs[i as int] == users@[i as int]@);
        let x = match users[i].id {
            Some(x) => x,
            None => {
                return false;
            },
        };
        if x <= 0 || x > seq {
            return false;
        }
        let mut j: usize = 0;
        while j < i
            invariant
                vs == user_views(users@),
                0 <= j <= i < users.len(),
                vs[i as int].id == Some(x),
                forall|a: int| 0 <= a < j ==> (#[trigger] vs[a]).email != vs[i as int].email
                    && vs[a].id != vs[i as int].id,
            decreases i - j,
        {
            assert(vs[j as int] == users@[j as int]@);
            let same_id = match users[j].id {
                Some(a) => a == x,
                None => false,
            };
            if same_id || users[j].email == users[i].email {
                assert(vs[j as int].email == vs[i as int].email || vs[j as int].id == vs[i as int].id);
                return false;
            }
            j = j + 1;
        }
        i = i + 1;
    }
    true
}

fn products_ok(products: &Vec<DbProduct>, seq: i64) -> (r: bool)
    ensures
        r == products_valid(product_views(products@), seq as int),
{
    let ghost vs = product_views(products@);
    let mut i: usize = 0;
    while i < products.len()
        invariant
            vs == product_views(products@),
            0 <= i <= products.len(),
            forall|a: int| 0 <= a < i ==> (#[trigger] vs[a]).id is Some && 0 < vs[a].id->0 <= seq,
            forall|a: int, b: int| 0 <= a < b < i ==> (#[trigger] vs[a]).id != (#[trigger] vs[b]).id,
        decreases products.len() - i,
    {
        assert(vs[i as int] == products@[i as int]@);
        let x = match products[i].id {
            Some(x) => x,
            None => {
                return false;
            },
        };
        if x <= 0 || x > seq {
            return false;
        }
        let mut j: usize = 0;
        while j < i
            invariant
                vs == product_views(products@),
                0 <= j <= i < products.len(),
                vs[i as int].id == Some(x),
                forall|a: int| 0 <= a < j ==> (#[trigger] vs[a]).id != vs[i as int].id,
            decreases i - j,
        {
            assert(vs[j as int] == products@[j as int]@);
            let same_id = match products[j].id {
                Some(a) => a == x,
                None => false,
            };
            if same_id {
                assert(vs[j as int].id == vs[i as int].id);
                return false;
            }
            j = j + 1;
        }
        i = i + 1;
    }
    true
}

impl Store {
    /// A store holding the given rows, where they meet the store's
    /// invariant; `InvalidRows` where they do not. `user_seq` and
    /// `product_seq` are the last identifiers handed out in each table.
    pub fn from_rows(
        users: Vec<DbUser>,
        session: Option<String>,
        products: Vec<DbProduct>,
        user_seq: i64,
        product_seq: i64,
    ) -> (r: Result<Store, StoreError>)
        ensures
            match r {
                Ok(st) => st@ == state_of(users@, session, products@, user_seq, product_seq)
                    && valid(st@),
                Err(e) => e == StoreError::InvalidRows && !valid(
                    state_of(users@, session, products@, user_seq, product_seq),
                ),
            },
    {
        if user_seq < 0 || product_seq < 0 {
            return Err(StoreError::InvalidRows);
        }
        if !users_ok(&users, user_seq) || !products_ok(&products, product_seq) {
            return Err(StoreError::InvalidRows);
        }
        Ok(Store { users, session, products, user_seq, product_seq })
    }

    /// Every registered user, in the order of registration.
    pub fn users(&self) -> (r: Vec<DbUser>)
        ensures
            user_views(r@) == self@.users,
    {
        let mut out: Vec<DbUser> = Vec::new();
        let mut i: usize = 0;
        while i < self.users.len()
            invariant
                0 <= i <= self.users.len(),
                user_views(out@) =~= self@.users.take(i as int),
            decreases self.users.len() - i,
        {
            let u = self.users[i].duplicate();
            let ghost before = out@;
            out.push(u);
            proof {
                let k = i as int;
                assert(self@.users[k] == self.users@[k]@);
                assert(self@.users.take(k + 1) =~= self@.users.take(k).push(u@));
                assert(user_views(out@) =~= user_views(before).push(u@));
            }
            i = i + 1;
        }
        assert(self@.users.take(i as int) =~= self@.users);
        out
    }

    /// The last user identifier handed out.
    pub fn user_seq(&self) -> (r: i64)
        ensures
            r as int == self@.user_seq,
    {
        self.user_seq
    }

    /// The last product identifier handed out.
    pub fn product_seq(&self) -> (r: i64)
        ensures
            r as int == self@.product_seq,
    {
        self.product_seq
    }
}

/// Registers a user. Fails with `DuplicateEmail`, leaving the store as it
/// was, when the email is taken (exact, case-sensitive match).
pub fn create_user(store: &mut Store, email: &str, password: &str) -> (r: Result<(), StoreError>)
    requires
        valid(old(store)@),
    ensures
        r == create_user_outcome(old(store)@, email@),
        final(store)@ == after_create_user(old(store)@, email@, password@),
        valid(final(store)@),
{
    let ghost s = store@;
    let key = email.to_owned();
    let mut i: usize = 0;
    while i < store.users.len()
        invariant
            store@ == s,
            valid(s),
            key@ == email@,
            0 <= i <= store.users.len(),
            forall|j: int| 0 <= j < i ==> (#[trigger] s.users[j]).email != email@,
        decreases store.users.len() - i,
    {
        if store.users[i].email == key {
            assert(s.users[i as int] == store.users@[i as int]@);
            return Err(StoreError::DuplicateEmail);
        }
        i = i + 1;
    }
    assert(!has_user(s.users, email@));
    if store.user_seq == i64::MAX {
        return Err(StoreError::IdsExhausted);
    }
    let id = store.user_seq + 1;
    let user = DbUser { id: Some(id), email: key, password: password.to_owned() };
    store.users.push(user);
    store.user_seq = id;
    assert(store@.users =~= s.users.push(user@));
    proof {
        let n = s.users.len() as int;
        assert forall|a: int, b: int| 0 <= a < b < store@.users.len() implies
            (#[trigger] store@.users[a]).email != (#[trigger] store@.users[b]).email
            && store@.users[a].id != store@.users[b].id by {
            if b == n {
                assert(s.users[a].email != email@);
            }
        }
    }
    Ok(())
}

/// The user registered under exactly `email`, or `None` when there is none.
pub fn get_user(store: &Store, email: &str) -> (r: Option<DbUser>)
    requires
        valid(store@),
    ensures
        match r {
            Some(u) => lookup_user(store@, email@) == Some(u@),
            None => lookup_user(store@, email@) is None,
        },
{
    let key = email.to_owned();
    let mut i: usize = 0;
    while i < store.users.len()
        invariant
            valid(store@),
            key@ == email@,
            0 <= i <= store.users.len(),
            forall|j: int| 0 <= j < i ==> (#[trigger] store@.users[j]).email != email@,
        decreases store.users.len() - i,
    {
        if store.users[i].email == key {
            let u = store.users[i].duplicate();
            proof {
                let k = i as int;
                assert(store@.users[k] == store.users@[k]@);
                assert(store@.users[k].email == email@);
                assert(has_user(store@.users, email@));
                let c = choose|c: int|
                    0 <= c < store@.users.len() && (#[trigger] store@.users[c]).email == email@;
                if c < k {
                    assert(store@.users[c].email != store@.users[k].email);
                } else if k < c {
                    assert(store@.users[k].email != store@.users[c].email);
                }
            }
            return Some(u);
        }
        i = i + 1;
    }
    None
}

/// Makes `email` the current user. Whatever session there was is replaced:
/// afterwards the session holds exactly this email.
pub fn set_current_user(store: &mut Store, email: &str)
    requires
        valid(old(store)@),
    ensures
        final(store)@ == after_set_current_user(old(store)@, email@),
        valid(final(store)@),
{
    store.session = Some(email.to_owned());
}

/// The email of the current user, or `None` when nobody is signed in.
pub fn get_current_user(store: &Store) -> (r: Option<String>)
    ensures
        match r {
            Some(e) => store@.session == Some(e@),
            None => store@.session is None,
        },
{
    match &store.session {
        Some(e) => Some(e.clone()),
        None => None,
    }
}

/// Ends the session, if there is one.
pub fn clear_current_user(store: &mut Store)
    requires
        valid(old(store)@),
    ensures
        final(store)@ == after_clear_current_user(old(store)@),
        valid(final(store)@),
{
    store.session = None;
}

/// Whether `bits` encodes a NaN as an IEEE-754 double.
fn price_is_nan(bits: u64) -> (r: bool)
    ensures
        r == is_nan_bits(bits),
{
    (bits >> 52u64) & 0x7ffu64 == 0x7ffu64 && bits & 0xf_ffff_ffff_ffffu64 != 0u64
}

/// Adds a product owned by `user_email` and returns its identifier. A NaN
/// price is refused with `NanPrice`; no other field is validated, and the
/// owner need not be a registered user.
pub fn add_product(
    store: &mut Store,
    name: &str,
    price_bits: u64,
    description: &str,
    category: &str,
    user_email: &str,
) -> (r: Result<i64, StoreError>)
    requires
        valid(old(store)@),
    ensures
        r == add_product_outcome(old(store)@, price_bits),
        final(store)@ == after_add_product(
            old(store)@,
            name@,
            price_bits,
            description@,
            category@,
            user_email@,
        ),
        valid(final(store)@),
{
    let ghost s = store@;
    if store.product_seq == i64::MAX {
        return Err(StoreError::IdsExhausted);
    }
    if price_is_nan(price_bits) {
        return Err(StoreError::NanPrice);
    }
    let id = store.product_seq + 1;
    let product = DbProduct {
        id: Some(id),
        name: name.to_owned(),
        price_bits,
        description: description.to_owned(),
        category: category.to_owned(),
        user_email: user_email.to_owned(),
    };
    store.products.push(product);
    store.product_seq = id;
    assert(store@.products =~= s.products.push(product@));
    Ok(id)
}

/// Every product, of every owner, in store order.
pub fn get_products(store: &Store) -> (r: Vec<DbProduct>)
    ensures
        product_views(r@) == store@.products,
{
    let mut out: Vec<DbProduct> = Vec::new();
    let mut i: usize = 0;
    while i < store.products.len()
        invariant
            0 <= i <= store.products.len(),
            product_views(out@) =~= store@.products.take(i as int),
        decreases store.products.len() - i,
    {
        let p = store.products[i].duplicate();
        let ghost before = out@;
        out.push(p);
        proof {
            let k = i as int;
            assert(store@.products[k] == store.products@[k]@);
            assert(store@.products.take(k + 1) =~= store@.products.take(k).push(p@));
            assert(product_views(out@) =~= product_views(before).push(p@));
        }
        i = i + 1;
    }
    assert(store@.products.take(i as int) =~= store@.products);
    out
}

/// The products owned by `user_email`, in store order.
pub fn get_user_products(store: &Store, user_email: &str) -> (r: Vec<DbProduct>)
    ensures
        product_views(r@) == owned_by(store@.products, user_email@),
{
    let ghost all = store@.products;
    let key = user_email.to_owned();
    let mut out: Vec<DbProduct> = Vec::new();
    let mut i: usize = 0;
    while i < store.products.len()
        invariant
            all == store@.products,
            key@ == user_email@,
            0 <= i <= store.products.len(),
            product_views(out@) =~= owned_by(all.take(i as int), user_email@),
        decreases store.products.len() - i,
    {
        let ghost k = i as int;
        proof {
            assert(all.take(k + 1) =~= all.take(k).push(all[k]));
            all.take(k).lemma_filter_push(all[k], owner_is(user_email@));
            assert(all[k] == store.products@[k]@);
        }
        if store.products[i].user_email == key {
            let p = store.products[i].duplicate();
            out.push(p);
        }
        i = i + 1;
    }
    assert(all.take(i as int) =~= all);
    out
}

/// Replaces name, price, description and category of product `id`, but only
/// where that product is owned by `user_email`; any other row is left as it
/// was. Returns the number of rows changed: 0 when `user_email` owns no
/// product `id`, else 1. A NaN price is refused with `NanPrice`, leaving the
/// store as it was, wherever it would be written to a row.
pub fn update_product(
    store: &mut Store,
    id: i64,
    name: &str,
    price_bits: u64,
    description: &str,
    category: &str,
    user_email: &str,
) -> (r: Result<usize, StoreError>)
    requires
        valid(old(store)@),
    ensures
        final(store)@ == after_update_product(
            old(store)@,
            id,
            name@,
            price_bits,
            description@,
            category@,
            user_email@,
        ),
        r == update_product_outcome(old(store)@, id, price_bits, user_email@),
        valid(final(store)@),
{
    let ghost s = store@;
    let ghost all = s.products;
    let key = user_email.to_owned();
    let nan = price_is_nan(price_bits);
    let mut out: Vec<DbProduct> = Vec::new();
    let mut count: usize = 0;
    let mut i: usize = 0;
    while i < store.products.len()
        invariant
            store@ == s,
            key@ == user_email@,
            all == s.products,
            0 <= i <= store.products.len(),
            product_views(out@) =~= all.take(i as int).map_values(revise(id, name@, price_bits, description@, category@, user_email@)),
            count == all.take(i as int).filter(targets(id, user_email@)).len(),
            count <= i,
        decreases store.products.len() - i,
    {
        let ghost k = i as int;
        proof {
            assert(all.take(k + 1) =~= all.take(k).push(all[k]));
            all.take(k).lemma_filter_push(all[k], targets(id, user_email@));
            assert(all[k] == store.products@[k]@);
        }
        let hit = match store.products[i].id {
            Some(x) => x == id && store.products[i].user_email == key,
            None => false,
        };
        let ghost before = out@;
        if hit {
            let p = DbProduct {
                id: store.products[i].id,
                name: name.to_owned(),
                price_bits,
                description: description.to_owned(),
                category: category.to_owned(),
                user_email: store.products[i].user_email.clone(),
            };
            assert(p@ == revised(all[k], id, name@, price_bits, description@, category@, user_email@));
            out.push(p);
            count = count + 1;
        } else {
            let p = store.products[i].duplicate();
            assert(p@ == revised(all[k], id, name@, price_bits, description@, category@, user_email@));
            out.push(p);
        }
        proof {
            assert(revise(id, name@, price_bits, description@, category@, user_email@)(all[k]) == revised(
                all[k],
                id,
                name@,
                price_bits,
                description@,
                category@,
                user_email@,
            ));
            assert(product_views(out@) =~= product_views(before).push(revise(id, name@, price_bits, description@, category@, user_email@)(all[k])));
            assert(all.take(k + 1).map_values(revise(id, name@, price_bits, description@, category@, user_email@)) =~= all.take(k).map_values(revise(id, name@, price_bits, description@, category@, user_email@)).push(revise(id, name@, price_bits, description@, category@, user_email@)(all[k])));
        }
        i = i + 1;
    }
    assert(all.take(i as int) =~= all);
    if nan && count > 0 {
        return Err(StoreError::NanPrice);
    }
    store.products = out;
    assert(store@.products =~= all.map_values(revise(id, name@, price_bits, description@, category@, user_email@)));
    Ok(count)
}

/// Deletes product `id`, but only where it is owned by `user_email`; every
/// other row stays. Returns the number of rows removed: 0 when `user_email`
/// owns no product `id`, else 1.
pub fn delete_product(store: &mut Store, id: i64, user_email: &str) -> (r: usize)
    requires
        valid(old(store)@),
    ensures
        final(store)@ == after_delete_product(old(store)@, id, user_email@),
        r == target_count(old(store)@.products, id, user_email@),
        valid(final(store)@),
{
    let ghost s = store@;
    let ghost all = s.products;
    let key = user_email.to_owned();
    let mut out: Vec<DbProduct> = Vec::new();
    let mut count: usize = 0;
    let mut i: usize = 0;
    while i < store.products.len()
        invariant
            store@ == s,
            key@ == user_email@,
            all == s.products,
            0 <= i <= store.products.len(),
            product_views(out@) =~= all.take(i as int).filter(spares(id, user_email@)),
            count == all.take(i as int).filter(targets(id, user_email@)).len(),
            count <= i,
        decreases store.products.len() - i,
    {
        let ghost k = i as int;
        proof {
            assert(all.take(k + 1) =~= all.take(k).push(all[k]));
            all.take(k).lemma_filter_push(all[k], targets(id, user_email@));
            all.take(k).lemma_filter_push(all[k], spares(id, user_email@));
            assert(all[k] == store.products@[k]@);
        }
        let hit = match store.products[i].id {
            Some(x) => x == id && store.products[i].user_email == key,
            None => false,
        };
        if hit {
            count = count + 1;
        } else {
            let p = store.products[i].duplicate();
            out.push(p);
        }
        i = i + 1;
    }
    assert(all.take(i as int) =~= all);
    store.products = out;
    proof {
        lemma_filter_keeps_valid(all, spares(id, user_email@), s.product_seq);
    }
    count
}

} // verus!
