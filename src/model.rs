//! The store as mathematics: its three tables, the invariant that ties them
//! together, what each operation does to them, and the laws that follow.
use vstd::prelude::*;

use crate::records::{ProductRecord, StoreError, UserRecord};

verus! {

/// The contents of the store.
///
/// `user_seq` and `product_seq` are the last identifiers handed out in each
/// table; a new row gets the next one, and identifiers are never reused.
pub struct StoreState {
    pub users: Seq<UserRecord>,
    pub session: Option<Seq<char>>,
    pub products: Seq<ProductRecord>,
    pub user_seq: int,
    pub product_seq: int,
}

/// Every user row has an identifier in `1..=seq`; emails and identifiers are
/// pairwise distinct.
pub open spec fn users_valid(users: Seq<UserRecord>, seq: int) -> bool {
    &&& forall|i: int|
        0 <= i < users.len() ==> (#[trigger] users[i]).id is Some && 0 < users[i].id->0 <= seq
    &&& forall|i: int, j: int|
        0 <= i < j < users.len() ==> (#[trigger] users[i]).email != (#[trigger] users[j]).email
            && users[i].id != users[j].id
}

/// Every product row has an identifier in `1..=seq`; identifiers are pairwise
/// distinct.
pub open spec fn products_valid(products: Seq<ProductRecord>, seq: int) -> bool {
    &&& forall|i: int|
        0 <= i < products.len() ==> (#[trigger] products[i]).id is Some && 0 < products[i].id->0
            <= seq
    &&& forall|i: int, j: int|
        0 <= i < j < products.len() ==> (#[trigger] products[i]).id != (#[trigger] products[j]).id
}

/// The invariant of the store.
pub open spec fn valid(s: StoreState) -> bool {
    &&& 0 <= s.user_seq <= i64::MAX
    &&& 0 <= s.product_seq <= i64::MAX
    &&& users_valid(s.users, s.user_seq)
    &&& products_valid(s.products, s.product_seq)
}

/// A store with no rows, no session, and no identifier handed out yet.
pub open spec fn empty_state() -> StoreState {
    StoreState {
        users: Seq::empty(),
        session: None,
        products: Seq::empty(),
        user_seq: 0,
        product_seq: 0,
    }
}

pub open spec fn has_user(users: Seq<UserRecord>, email: Seq<char>) -> bool {
    exists|i: int| 0 <= i < users.len() && (#[trigger] users[i]).email == email
}

/// The user registered under exactly this email, if any.
pub open spec fn lookup_user(s: StoreState, email: Seq<char>) -> Option<UserRecord> {
    if has_user(s.users, email) {
        Some(s.users[choose|i: int| 0 <= i < s.users.len() && (#[trigger] s.users[i]).email == email])
    } else {
        None
    }
}

/// Whether registering `email` succeeds, and why not.
pub open spec fn create_user_outcome(s: StoreState, email: Seq<char>) -> Result<(), StoreError> {
    if has_user(s.users, email) {
        Err(StoreError::DuplicateEmail)
    } else if s.user_seq >= i64::MAX {
        Err(StoreError::IdsExhausted)
    } else {
        Ok(())
    }
}

/// The store after registering `email` with `password`: one new row with the
/// next identifier, or no change at all when registration fails.
pub open spec fn after_create_user(s: StoreState, email: Seq<char>, password: Seq<char>) -> StoreState {
    if create_user_outcome(s, email) is Ok {
        StoreState {
            users: s.users.push(
                UserRecord { id: Some((s.user_seq + 1) as i64), email, password },
            ),
            user_seq: s.user_seq + 1,
            ..s
        }
    } else {
        s
    }
}

/// The store after making `email` the current user: the session holds that
/// email and nothing else.
pub open spec fn after_set_current_user(s: StoreState, email: Seq<char>) -> StoreState {
    StoreState { session: Some(email), ..s }
}

/// The store after ending the session.
pub open spec fn after_clear_current_user(s: StoreState) -> StoreState {
    StoreState { session: None, ..s }
}

/// Whether `bits` encodes a NaN as an IEEE-754 double: all exponent bits
/// set and a fraction that is not zero.
pub open spec fn is_nan_bits(bits: u64) -> bool {
    (bits >> 52u64) & 0x7ffu64 == 0x7ffu64 && bits & 0xf_ffff_ffff_ffffu64 != 0u64
}

/// The identifier a new product gets, or why it is not added: no identifier
/// is left, or the price is a NaN.
pub open spec fn add_product_outcome(s: StoreState, price_bits: u64) -> Result<i64, StoreError> {
    if s.product_seq >= i64::MAX {
        Err(StoreError::IdsExhausted)
    } else if is_nan_bits(price_bits) {
        Err(StoreError::NanPrice)
    } else {
        Ok((s.product_seq + 1) as i64)
    }
}

/// The store after adding a product: one new row at the end, or no change
/// when it is not added.
pub open spec fn after_add_product(
    s: StoreState,
    name: Seq<char>,
    price_bits: u64,
    description: Seq<char>,
    category: Seq<char>,
    user_email: Seq<char>,
) -> StoreState {
    match add_product_outcome(s, price_bits) {
        Ok(id) => StoreState {
            products: s.products.push(
                ProductRecord { id: Some(id), name, price_bits, description, category, user_email },
            ),
            product_seq: s.product_seq + 1,
            ..s
        },
        Err(_) => s,
    }
}

pub open spec fn owner_is(email: Seq<char>) -> spec_fn(ProductRecord) -> bool {
    |p: ProductRecord| p.user_email == email
}

/// The products owned by `email`, in store order.
pub open spec fn owned_by(products: Seq<ProductRecord>, email: Seq<char>) -> Seq<ProductRecord> {
    products.filter(owner_is(email))
}

/// Whether a row is the one that an owner-scoped mutation of `id` by `email`
/// reaches: it must carry both.
pub open spec fn is_target(p: ProductRecord, id: i64, email: Seq<char>) -> bool {
    p.id == Some(id) && p.user_email == email
}

pub open spec fn targets(id: i64, email: Seq<char>) -> spec_fn(ProductRecord) -> bool {
    |p: ProductRecord| is_target(p, id, email)
}

pub open spec fn spares(id: i64, email: Seq<char>) -> spec_fn(ProductRecord) -> bool {
    |p: ProductRecord| !is_target(p, id, email)
}

/// How many rows an owner-scoped mutation of `id` by `email` reaches.
pub open spec fn target_count(products: Seq<ProductRecord>, id: i64, email: Seq<char>) -> nat {
    products.filter(targets(id, email)).len()
}

/// A product row after an owner-scoped update: the four editable fields are
/// replaced on the target row; identifier and owner stay.
pub open spec fn revised(
    p: ProductRecord,
    id: i64,
    name: Seq<char>,
    price_bits: u64,
    description: Seq<char>,
    category: Seq<char>,
    user_email: Seq<char>,
) -> ProductRecord {
    if is_target(p, id, user_email) {
        ProductRecord { name, price_bits, description, category, ..p }
    } else {
        p
    }
}

pub open spec fn revise(
    id: i64,
    name: Seq<char>,
    price_bits: u64,
    description: Seq<char>,
    category: Seq<char>,
    user_email: Seq<char>,
) -> spec_fn(ProductRecord) -> ProductRecord {
    |p: ProductRecord| revised(p, id, name, price_bits, description, category, user_email)
}

/// How many rows an owner-scoped update of product `id` changes, or why it
/// changes none: a NaN price is refused wherever it would be written.
pub open spec fn update_product_outcome(
    s: StoreState,
    id: i64,
    price_bits: u64,
    user_email: Seq<char>,
) -> Result<usize, StoreError> {
    if is_nan_bits(price_bits) && target_count(s.products, id, user_email) > 0 {
        Err(StoreError::NanPrice)
    } else {
        Ok(target_count(s.products, id, user_email) as usize)
    }
}

/// The store after an owner-scoped update of product `id`; unchanged when
/// the update is refused.
pub open spec fn after_update_product(
    s: StoreState,
    id: i64,
    name: Seq<char>,
    price_bits: u64,
    description: Seq<char>,
    category: Seq<char>,
    user_email: Seq<char>,
) -> StoreState {
    if update_product_outcome(s, id, price_bits, user_email) is Ok {
        StoreState {
            products: s.products.map_values(
                revise(id, name, price_bits, description, category, user_email),
            ),
            ..s
        }
    } else {
        s
    }
}

/// The store after an owner-scoped delete of product `id`.
pub open spec fn after_delete_product(s: StoreState, id: i64, user_email: Seq<char>) -> StoreState {
    StoreState { products: s.products.filter(spares(id, user_email)), ..s }
}

/// Dropping rows keeps identifiers in range and distinct.
pub proof fn lemma_filter_keeps_valid(
    products: Seq<ProductRecord>,
    pred: spec_fn(ProductRecord) -> bool,
    seq: int,
)
    requires
        products_valid(products, seq),
    ensures
        products_valid(products.filter(pred), seq),
    decreases products.len(),
{
    reveal(Seq::filter);
    if products.len() > 0 {
        let rest = products.drop_last();
        assert(products_valid(rest, seq));
        lemma_filter_keeps_valid(rest, pred, seq);
        let kept = rest.filter(pred);
        if pred(products.last()) {
            assert forall|i: int| 0 <= i < kept.len() implies (#[trigger] kept[i]).id
                != products.last().id by {
                broadcast use vstd::seq_lib::group_filter_ensures;
                lemma_filter_member(rest, pred, i);
            }
        }
    }
}

/// Every row that survives a filter was a row of the original sequence.
pub proof fn lemma_filter_member(s: Seq<ProductRecord>, pred: spec_fn(ProductRecord) -> bool, i: int)
    requires
        0 <= i < s.filter(pred).len(),
    ensures
        exists|j: int| 0 <= j < s.len() && s[j] == #[trigger] s.filter(pred)[i],
    decreases s.len(),
{
    reveal(Seq::filter);
    if s.len() > 0 {
        let rest = s.drop_last();
        let kept = rest.filter(pred);
        if i < kept.len() {
            lemma_filter_member(rest, pred, i);
            let j = choose|j: int| 0 <= j < rest.len() && rest[j] == #[trigger] kept[i];
            assert(s[j] == rest[j]);
        } else {
            assert(s[s.len() - 1] == s.filter(pred)[i]);
        }
    }
}

/// A filter whose predicate holds of every row keeps the sequence whole.
pub proof fn lemma_filter_keeps_all(s: Seq<ProductRecord>, pred: spec_fn(ProductRecord) -> bool)
    requires
        forall|i: int| 0 <= i < s.len() ==> pred(#[trigger] s[i]),
    ensures
        s.filter(pred) == s,
    decreases s.len(),
{
    reveal(Seq::filter);
    if s.len() > 0 {
        lemma_filter_keeps_all(s.drop_last(), pred);
        assert(s.drop_last().push(s.last()) =~= s);
    }
}

/// A filter whose predicate holds of no row keeps nothing.
pub proof fn lemma_filter_keeps_none(s: Seq<ProductRecord>, pred: spec_fn(ProductRecord) -> bool)
    requires
        forall|i: int| 0 <= i < s.len() ==> !pred(#[trigger] s[i]),
    ensures
        s.filter(pred) == Seq::<ProductRecord>::empty(),
    decreases s.len(),
{
    reveal(Seq::filter);
    if s.len() > 0 {
        lemma_filter_keeps_none(s.drop_last(), pred);
    } else {
        assert(s =~= Seq::<ProductRecord>::empty());
    }
}

/// Registering an email that is already taken fails with `DuplicateEmail`,
/// and the row already stored under it is unchanged.
pub proof fn lemma_duplicate_email_rejected(
    s: StoreState,
    email: Seq<char>,
    password: Seq<char>,
    existing: UserRecord,
)
    requires
        valid(s),
        lookup_user(s, email) == Some(existing),
    ensures
        create_user_outcome(s, email) == Err::<(), StoreError>(StoreError::DuplicateEmail),
        after_create_user(s, email, password) == s,
        lookup_user(after_create_user(s, email, password), email) == Some(existing),
{
}

/// A registered user is found under its email with the password it was given;
/// registering the same email once more is then refused.
pub proof fn lemma_registered_user_found(
    s: StoreState,
    email: Seq<char>,
    password: Seq<char>,
    again: Seq<char>,
)
    requires
        valid(s),
        create_user_outcome(s, email) is Ok,
    ensures
        lookup_user(after_create_user(s, email, password), email) == Some(
            UserRecord { id: Some((s.user_seq + 1) as i64), email, password },
        ),
        create_user_outcome(after_create_user(s, email, password), email) == Err::<(), StoreError>(
            StoreError::DuplicateEmail,
        ),
        after_create_user(after_create_user(s, email, password), email, again) == after_create_user(
            s,
            email,
            password,
        ),
{
    let s1 = after_create_user(s, email, password);
    let n = s.users.len() as int;
    assert(s1.users[n].email == email);
    let c = choose|c: int| 0 <= c < s1.users.len() && (#[trigger] s1.users[c]).email == email;
    if c < n {
        assert(s.users[c].email == email);
        assert(has_user(s.users, email));
    }
}

/// Looking up an email that was never registered gives no user, not an
/// error; registering other emails does not change that.
pub proof fn lemma_unregistered_email_absent(
    s: StoreState,
    email: Seq<char>,
    other: Seq<char>,
    password: Seq<char>,
)
    requires
        valid(s),
        !has_user(s.users, email),
        other != email,
    ensures
        lookup_user(empty_state(), email) is None,
        lookup_user(s, email) is None,
        lookup_user(after_create_user(s, other, password), email) is None,
{
    let s1 = after_create_user(s, other, password);
    if has_user(s1.users, email) {
        let c = choose|c: int| 0 <= c < s1.users.len() && (#[trigger] s1.users[c]).email == email;
        if create_user_outcome(s, other) is Ok {
            if c < s.users.len() {
                assert(s.users[c] == s1.users[c]);
            }
        }
    }
}

/// The session holds the email of the last `set_current_user`: never both
/// emails, never neither.
pub proof fn lemma_latest_session_wins(s: StoreState, first: Seq<char>, second: Seq<char>)
    ensures
        after_set_current_user(after_set_current_user(s, first), second).session == Some(second),
{
}

/// After the session is cleared there is no current user, whatever came
/// before.
pub proof fn lemma_cleared_session_absent(s: StoreState, email: Seq<char>)
    ensures
        after_clear_current_user(s).session is None,
        after_clear_current_user(after_set_current_user(s, email)).session is None,
{
}

/// The products listed for an owner are exactly the stored products that
/// carry that owner.
pub proof fn lemma_owned_by_exactly(products: Seq<ProductRecord>, email: Seq<char>)
    ensures
        forall|p: ProductRecord|
            #[trigger] owned_by(products, email).contains(p) <==> (products.contains(p)
                && p.user_email == email),
{
    broadcast use vstd::seq_lib::group_filter_ensures;

    assert forall|p: ProductRecord| #[trigger]
        owned_by(products, email).contains(p) implies products.contains(p) && p.user_email
        == email by {
        let i = choose|i: int|
            0 <= i < owned_by(products, email).len() && owned_by(products, email)[i] == p;
        lemma_filter_member(products, owner_is(email), i);
    }
    assert forall|p: ProductRecord|
        products.contains(p) && p.user_email == email implies #[trigger] owned_by(
        products,
        email,
    ).contains(p) by {
        let i = choose|i: int| 0 <= i < products.len() && products[i] == p;
        products.lemma_filter_contains(owner_is(email), i);
    }
}

/// Two products added for two different owners: each owner's listing gains
/// exactly its own product, and the full listing gains both.
pub proof fn lemma_listings_separate_owners(
    s: StoreState,
    first: ProductRecord,
    second: ProductRecord,
)
    requires
        valid(s),
        first.user_email != second.user_email,
        s.product_seq + 2 <= i64::MAX,
        !is_nan_bits(first.price_bits),
        !is_nan_bits(second.price_bits),
    ensures
        ({
            let s1 = after_add_product(
                s,
                first.name,
                first.price_bits,
                first.description,
                first.category,
                first.user_email,
            );
            let s2 = after_add_product(
                s1,
                second.name,
                second.price_bits,
                second.description,
                second.category,
                second.user_email,
            );
            let r1 = ProductRecord { id: Some((s.product_seq + 1) as i64), ..first };
            let r2 = ProductRecord { id: Some((s.product_seq + 2) as i64), ..second };
            &&& s2.products == s.products.push(r1).push(r2)
            &&& owned_by(s2.products, first.user_email) == owned_by(s.products, first.user_email).push(r1)
            &&& owned_by(s2.products, second.user_email) == owned_by(s.products, second.user_email).push(r2)
        }),
{
    let r1 = ProductRecord { id: Some((s.product_seq + 1) as i64), ..first };
    let r2 = ProductRecord { id: Some((s.product_seq + 2) as i64), ..second };
    s.products.lemma_filter_push(r1, owner_is(first.user_email));
    s.products.push(r1).lemma_filter_push(r2, owner_is(first.user_email));
    s.products.lemma_filter_push(r1, owner_is(second.user_email));
    s.products.push(r1).lemma_filter_push(r2, owner_is(second.user_email));
}

/// No row is reached when product `id` belongs to someone other than `email`.
proof fn lemma_foreign_id_untargeted(s: StoreState, k: int, id: i64, email: Seq<char>)
    requires
        valid(s),
        0 <= k < s.products.len(),
        s.products[k].id == Some(id),
        s.products[k].user_email != email,
    ensures
        forall|j: int| 0 <= j < s.products.len() ==> !is_target(#[trigger] s.products[j], id, email),
{
    assert forall|j: int| 0 <= j < s.products.len() implies !is_target(
        #[trigger] s.products[j],
        id,
        email,
    ) by {
        if j < k {
            assert(s.products[j].id != s.products[k].id);
        } else if k < j {
            assert(s.products[k].id != s.products[j].id);
        }
    }
}

/// An update of a product by anyone but its owner changes nothing and
/// reaches no row.
pub proof fn lemma_foreign_update_is_noop(
    s: StoreState,
    k: int,
    id: i64,
    name: Seq<char>,
    price_bits: u64,
    description: Seq<char>,
    category: Seq<char>,
    email: Seq<char>,
)
    requires
        valid(s),
        0 <= k < s.products.len(),
        s.products[k].id == Some(id),
        s.products[k].user_email != email,
    ensures
        after_update_product(s, id, name, price_bits, description, category, email) == s,
        update_product_outcome(s, id, price_bits, email) == Ok::<usize, StoreError>(0),
        target_count(s.products, id, email) == 0,
{
    lemma_foreign_id_untargeted(s, k, id, email);
    let t = after_update_product(s, id, name, price_bits, description, category, email);
    assert(t.products =~= s.products);
    lemma_filter_keeps_none(s.products, targets(id, email));
}

/// A delete of a product by anyone but its owner leaves every row in place.
pub proof fn lemma_foreign_delete_is_noop(s: StoreState, k: int, id: i64, email: Seq<char>)
    requires
        valid(s),
        0 <= k < s.products.len(),
        s.products[k].id == Some(id),
        s.products[k].user_email != email,
    ensures
        after_delete_product(s, id, email) == s,
        target_count(s.products, id, email) == 0,
{
    lemma_foreign_id_untargeted(s, k, id, email);
    lemma_filter_keeps_all(s.products, spares(id, email));
    lemma_filter_keeps_none(s.products, targets(id, email));
}

/// A delete of a product by its owner removes that row and no other.
pub proof fn lemma_owner_delete_removes_row(s: StoreState, k: int, id: i64)
    requires
        valid(s),
        0 <= k < s.products.len(),
        s.products[k].id == Some(id),
    ensures
        after_delete_product(s, id, s.products[k].user_email).products == s.products.remove(k),
        target_count(s.products, id, s.products[k].user_email) == 1,
{
    broadcast use vstd::seq_lib::group_seq_lib_default;

    let ps = s.products;
    let email = ps[k].user_email;
    let front = ps.take(k);
    let back = ps.skip(k + 1);
    let mid = Seq::<ProductRecord>::empty().push(ps[k]);
    assert forall|j: int| 0 <= j < ps.len() && j != k implies !is_target(
        #[trigger] ps[j],
        id,
        email,
    ) by {
        if j < k {
            assert(ps[j].id != ps[k].id);
        } else {
            assert(ps[k].id != ps[j].id);
        }
    }
    assert(ps =~= front + mid + back);
    assert(ps.remove(k) =~= front + back);
    lemma_filter_keeps_all(front, spares(id, email));
    lemma_filter_keeps_all(back, spares(id, email));
    lemma_filter_keeps_none(front, targets(id, email));
    lemma_filter_keeps_none(back, targets(id, email));
    reveal(Seq::filter);
    Seq::<ProductRecord>::empty().lemma_filter_push(ps[k], spares(id, email));
    Seq::<ProductRecord>::empty().lemma_filter_push(ps[k], targets(id, email));
    assert(mid.filter(spares(id, email)) =~= Seq::<ProductRecord>::empty());
    assert(mid.filter(targets(id, email)) =~= mid);
    assert((front + mid).filter(spares(id, email)) == front.filter(spares(id, email)) + mid.filter(spares(id, email)));
    assert((front + mid + back).filter(spares(id, email)) =~= front + back);
    assert((front + mid).filter(targets(id, email)) == front.filter(targets(id, email)) + mid.filter(targets(id, email)));
    assert((front + mid + back).filter(targets(id, email)) =~= mid);
}

/// A product that was added reads back with the identifier it was given and
/// exactly the field values it was added with, in its owner's listing and as
/// the only row under that identifier.
pub proof fn lemma_added_product_reads_back(
    s: StoreState,
    name: Seq<char>,
    price_bits: u64,
    description: Seq<char>,
    category: Seq<char>,
    email: Seq<char>,
)
    requires
        valid(s),
        add_product_outcome(s, price_bits) is Ok,
    ensures
        ({
            let id = add_product_outcome(s, price_bits)->Ok_0;
            let s1 = after_add_product(s, name, price_bits, description, category, email);
            let r = ProductRecord {
                id: Some(id),
                name,
                price_bits,
                description,
                category,
                user_email: email,
            };
            &&& owned_by(s1.products, email) == owned_by(s.products, email).push(r)
            &&& forall|j: int|
                0 <= j < s1.products.len() && (#[trigger] s1.products[j]).id == Some(id)
                    ==> s1.products[j] == r
        }),
{
    let id = add_product_outcome(s, price_bits)->Ok_0;
    let r = ProductRecord { id: Some(id), name, price_bits, description, category, user_email: email };
    s.products.lemma_filter_push(r, owner_is(email));
    let s1 = after_add_product(s, name, price_bits, description, category, email);
    assert forall|j: int|
        0 <= j < s1.products.len() && (#[trigger] s1.products[j]).id == Some(id) implies s1.products[j]
        == r by {
        if j < s.products.len() {
            assert(s.products[j] == s1.products[j]);
        }
    }
}

} // verus!
