//! Owners and their credentials: saving, listing, changing and deleting
//! owners, and replacing the credentials of an owner.

use crate::clock::{fresh_id, utc_now};
use crate::error::{Rule, StoreError};
use crate::records::coupang::{
    CoupangItemRow, CoupangItemRowView, CoupangPaymentRow, CoupangPaymentRowView,
};
use crate::records::naver::{NaverItemRow, NaverItemRowView, NaverPaymentRow, NaverPaymentRowView};
use crate::records::owner::{Credential, CredentialView, KeyValue, KeyValueView, User, UserView};
use crate::rows::{
    clone_all, distinct_by, find_row, has_key, keyed, lemma_filter_keys, lemma_filter_numbered,
    lemma_filter_refers, lemma_filter_twice, lemma_keyed_position, lemma_map_step, lemma_pushed,
    not_keyed, ordered_by, position, refers_into, retain_rows, select_rows, sort_rows, sortable,
};
use crate::store::{
    by_user_id, coupang_item_id, coupang_item_key, coupang_item_parent, coupang_row_id,
    coupang_row_key, coupang_row_owner, credential_key, credential_owner, naver_item_id,
    naver_item_key, naver_item_parent, naver_row_id, naver_row_key, naver_row_owner, Store,
    StoreView,
};
use crate::text::{lemma_text_order, text_before, text_lt};
use crate::rows::{lemma_filter_all, lemma_filter_none};
use vstd::prelude::*;

verus! {

/// The order of owner listings: the owner created later first.
pub open spec fn user_newest_first() -> spec_fn(UserView, UserView) -> bool {
    |a: UserView, b: UserView| text_lt(b.created_at, a.created_at)
}

/// The credential that `kv` makes for the owner `user` at `now`.
pub open spec fn credential_made(user: Seq<char>, kv: KeyValueView, now: Seq<char>) -> CredentialView {
    CredentialView { user_id: user, key: kv.key, value: kv.value, updated_at: now }
}

/// `creds` after the owner `user` got the credential `kv`: any credential
/// of the owner under the same key gives way to the new one.
pub open spec fn credential_put(
    creds: Seq<CredentialView>,
    user: Seq<char>,
    kv: KeyValueView,
    now: Seq<char>,
) -> Seq<CredentialView> {
    creds.filter(not_keyed(credential_key(), (user, kv.key))).push(credential_made(user, kv, now))
}

/// `creds` after the owner `user` got every credential of `items`, one
/// after another: where a key comes twice, the later value stands.
pub open spec fn credentials_put(
    creds: Seq<CredentialView>,
    user: Seq<char>,
    items: Seq<KeyValueView>,
    now: Seq<char>,
) -> Seq<CredentialView>
    decreases items.len(),
{
    if items.len() == 0 {
        creds
    } else {
        credential_put(credentials_put(creds, user, items.drop_last(), now), user, items.last(), now)
    }
}

/// The owner that a new account makes.
pub open spec fn user_made(
    id: Seq<char>,
    provider: Seq<char>,
    alias: Seq<char>,
    curl: Seq<char>,
    now: Seq<char>,
) -> UserView {
    UserView { id, provider, alias, curl, created_at: now, updated_at: now }
}

/// The store after a new owner was saved with the credentials `items`.
pub open spec fn account_saved(
    s: StoreView,
    user: UserView,
    items: Seq<KeyValueView>,
) -> StoreView {
    StoreView {
        users: s.users.push(user),
        credentials: credentials_put(s.credentials, user.id, items, user.created_at),
        ..s
    }
}

/// The owners after the owner `id`, if there, was changed by `change`.
pub open spec fn user_changed(
    users: Seq<UserView>,
    id: Seq<char>,
    change: spec_fn(UserView) -> UserView,
) -> Seq<UserView> {
    let at = position(users, keyed(by_user_id(), id));
    if at < users.len() {
        users.update(at, change(users[at]))
    } else {
        users
    }
}

/// Giving an owner the name `alias` at `now`.
pub open spec fn renamed(alias: Seq<char>, now: Seq<char>) -> spec_fn(UserView) -> UserView {
    |u: UserView| UserView { alias, updated_at: now, ..u }
}

/// Giving an owner the stored request `curl` at `now`.
pub open spec fn recurled(curl: Seq<char>, now: Seq<char>) -> spec_fn(UserView) -> UserView {
    |u: UserView| UserView { curl, updated_at: now, ..u }
}

/// The store after the credentials of the owner `user` were replaced by
/// `items` and the owner's stored request by `curl`: none of the owner's
/// old credentials stays.
pub open spec fn credentials_replaced(
    s: StoreView,
    user: Seq<char>,
    curl: Seq<char>,
    items: Seq<KeyValueView>,
    now: Seq<char>,
) -> StoreView {
    StoreView {
        users: user_changed(s.users, user, recurled(curl, now)),
        credentials: credentials_put(
            s.credentials.filter(not_keyed(credential_owner(), user)),
            user,
            items,
            now,
        ),
        ..s
    }
}

/// The test for being a line of a payment that is in `payments`.
pub open spec fn naver_parent_in(payments: Seq<NaverPaymentRowView>) -> spec_fn(
    NaverItemRowView,
) -> bool {
    |r: NaverItemRowView| has_key(payments, naver_row_id(), r.payment_id)
}

/// The test for being a line of an order that is in `payments`.
pub open spec fn coupang_parent_in(payments: Seq<CoupangPaymentRowView>) -> spec_fn(
    CoupangItemRowView,
) -> bool {
    |r: CoupangItemRowView| has_key(payments, coupang_row_id(), r.payment_id)
}

/// The store after the owner `id` was deleted: the owner is gone, and with
/// the owner the owner's credentials, payments and orders, and with those
/// their lines. Every other row stays as it is, in its place among those
/// that stay.
pub open spec fn user_deleted(s: StoreView, id: Seq<char>) -> StoreView {
    let naver = s.naver_payments.filter(not_keyed(naver_row_owner(), id));
    let coupang = s.coupang_payments.filter(not_keyed(coupang_row_owner(), id));
    StoreView {
        users: s.users.filter(not_keyed(by_user_id(), id)),
        credentials: s.credentials.filter(not_keyed(credential_owner(), id)),
        naver_payments: naver,
        naver_items: s.naver_items.filter(naver_parent_in(naver)),
        coupang_payments: coupang,
        coupang_items: s.coupang_items.filter(coupang_parent_in(coupang)),
        ..s
    }
}

/// What an owner's credentials hand back: each key with its value.
pub open spec fn credentials_of(creds: Seq<CredentialView>, user: Seq<char>) -> Seq<KeyValueView> {
    creds.filter(keyed(credential_owner(), user)).map_values(
        |c: CredentialView| KeyValueView { key: c.key, value: c.value },
    )
}

/// Credentials that are in order stay in order when an owner who exists
/// gets more.
pub proof fn lemma_credentials_put(
    creds: Seq<CredentialView>,
    users: Seq<UserView>,
    user: Seq<char>,
    items: Seq<KeyValueView>,
    now: Seq<char>,
)
    requires
        distinct_by(creds, credential_key()),
        refers_into(creds, credential_owner(), users, by_user_id()),
        has_key(users, by_user_id(), user) || items.len() == 0,
    ensures
        distinct_by(credentials_put(creds, user, items, now), credential_key()),
        refers_into(credentials_put(creds, user, items, now), credential_owner(), users, by_user_id()),
    decreases items.len(),
{
    if items.len() > 0 {
        let front = items.drop_last();
        let kv = items.last();
        lemma_credentials_put(creds, users, user, front, now);
        let r = credentials_put(creds, user, front, now);
        let keep = not_keyed(credential_key(), (user, kv.key));
        lemma_filter_keys(r, keep, credential_key());
        let kept = r.filter(keep);
        let out = credential_put(r, user, kv, now);
        assert forall|i: int, j: int| 0 <= i < j < out.len() implies credential_key()(out[i])
            != credential_key()(out[j]) by {
            assert(out[i] == kept[i]);
            if j < kept.len() {
                assert(out[j] == kept[j]);
            } else {
                assert(keep(kept[i]));
            }
        }
        assert forall|i: int| 0 <= i < out.len() implies has_key(
            users,
            by_user_id(),
            credential_owner()(#[trigger] out[i]),
        ) by {
            if i < kept.len() {
                assert(out[i] == kept[i]);
                assert(r.contains(kept[i]));
                let j = choose|j: int| 0 <= j < r.len() && r[j] == kept[i];
                assert(has_key(users, by_user_id(), credential_owner()(r[j])));
            }
        }
    }
}

/// The key of a credential as it is handed in.
pub open spec fn handed_key() -> spec_fn(KeyValueView) -> Seq<char> {
    |kv: KeyValueView| kv.key
}

/// A credential under a key that the owner has none under goes to the end
/// and takes nothing away.
proof fn lemma_credential_put_new(
    creds: Seq<CredentialView>,
    user: Seq<char>,
    kv: KeyValueView,
    now: Seq<char>,
)
    requires
        forall|i: int|
            0 <= i < creds.len() ==> not_keyed(credential_key(), (user, kv.key))(#[trigger] creds[i]),
    ensures
        credential_put(creds, user, kv, now) == creds.push(credential_made(user, kv, now)),
{
    lemma_filter_all(creds, not_keyed(credential_key(), (user, kv.key)));
}

/// An owner who has no credentials and gets some, each key once, has
/// exactly those, in the order given, behind the credentials of the others.
pub proof fn lemma_credentials_put_fresh(
    creds: Seq<CredentialView>,
    user: Seq<char>,
    items: Seq<KeyValueView>,
    now: Seq<char>,
)
    requires
        forall|i: int| 0 <= i < creds.len() ==> (#[trigger] creds[i]).user_id != user,
        distinct_by(items, handed_key()),
    ensures
        credentials_put(creds, user, items, now) == creds + items.map_values(
            |kv: KeyValueView| credential_made(user, kv, now),
        ),
        credentials_of(credentials_put(creds, user, items, now), user) == items,
    decreases items.len(),
{
    let made = items.map_values(|kv: KeyValueView| credential_made(user, kv, now));
    let mine = keyed(credential_owner(), user);
    if items.len() == 0 {
        assert(creds + made =~= creds);
    } else {
        let front = items.drop_last();
        let last = items.last();
        assert forall|i: int, j: int| 0 <= i < j < front.len() implies handed_key()(front[i])
            != handed_key()(front[j]) by {
            assert(front[i] == items[i] && front[j] == items[j]);
        }
        lemma_credentials_put_fresh(creds, user, front, now);
        let before = front.map_values(|kv: KeyValueView| credential_made(user, kv, now));
        let prev = creds + before;
        let keep = not_keyed(credential_key(), (user, last.key));
        assert forall|i: int| 0 <= i < prev.len() implies keep(#[trigger] prev[i]) by {
            if i < creds.len() {
                assert(prev[i] == creds[i]);
            } else {
                let j = i - creds.len();
                assert(prev[i] == credential_made(user, front[j], now));
                assert(front[j] == items[j]);
                assert(items[items.len() - 1] == last);
                assert(handed_key()(items[j]) != handed_key()(items[items.len() - 1]));
            }
        }
        lemma_credential_put_new(prev, user, last, now);
        assert(prev.push(credential_made(user, last, now)) =~= creds + made);
    }
    let out = creds + made;
    assert forall|i: int| 0 <= i < creds.len() implies !mine(#[trigger] creds[i]) by {}
    assert forall|i: int| 0 <= i < made.len() implies mine(#[trigger] made[i]) by {}
    lemma_filter_none(creds, mine);
    lemma_filter_all(made, mine);
    Seq::filter_distributes_over_add(creds, made, mine);
    assert(Seq::<CredentialView>::empty() + made =~= made);
    assert(made.map_values(|c: CredentialView| KeyValueView { key: c.key, value: c.value })
        =~= items);
}

/// The credentials of an owner are exactly those handed in, where each key
/// is handed in once: after the owner was saved with them, and after they
/// replaced what the owner had; and the credentials of every other owner
/// are as they were.
pub proof fn lemma_credentials_exact(
    s: StoreView,
    user: UserView,
    curl: Seq<char>,
    items: Seq<KeyValueView>,
    now: Seq<char>,
    other: Seq<char>,
)
    requires
        s.wf(),
        distinct_by(items, handed_key()),
        other != user.id,
    ensures
        !has_key(s.users, by_user_id(), user.id) ==> credentials_of(
            account_saved(s, user, items).credentials,
            user.id,
        ) == items && credentials_of(account_saved(s, user, items).credentials, other)
            == credentials_of(s.credentials, other),
        credentials_of(credentials_replaced(s, user.id, curl, items, now).credentials, user.id)
            == items,
        credentials_of(credentials_replaced(s, user.id, curl, items, now).credentials, other)
            == credentials_of(s.credentials, other),
{
    let theirs = keyed(credential_owner(), other);
    let made_at = |t: Seq<char>| items.map_values(|kv: KeyValueView| credential_made(user.id, kv, t));
    if !has_key(s.users, by_user_id(), user.id) {
        assert forall|i: int| 0 <= i < s.credentials.len() implies (
        #[trigger] s.credentials[i]).user_id != user.id by {
            assert(has_key(s.users, by_user_id(), credential_owner()(s.credentials[i])));
        }
        lemma_credentials_put_fresh(s.credentials, user.id, items, user.created_at);
        let made = made_at(user.created_at);
        assert forall|i: int| 0 <= i < made.len() implies !theirs(#[trigger] made[i]) by {}
        lemma_filter_none(made, theirs);
        Seq::filter_distributes_over_add(s.credentials, made, theirs);
        assert(s.credentials.filter(theirs) + Seq::<CredentialView>::empty()
            =~= s.credentials.filter(theirs));
    }
    let clear = not_keyed(credential_owner(), user.id);
    let cleared = s.credentials.filter(clear);
    lemma_filter_keys(s.credentials, clear, credential_key());
    assert forall|i: int| 0 <= i < cleared.len() implies (#[trigger] cleared[i]).user_id
        != user.id by {
        assert(clear(cleared[i]));
    }
    lemma_credentials_put_fresh(cleared, user.id, items, now);
    let made = made_at(now);
    assert forall|i: int| 0 <= i < made.len() implies !theirs(#[trigger] made[i]) by {}
    lemma_filter_none(made, theirs);
    Seq::filter_distributes_over_add(cleared, made, theirs);
    lemma_filter_twice(s.credentials, clear, theirs);
    assert(cleared.filter(theirs) + Seq::<CredentialView>::empty() =~= cleared.filter(theirs));
}

/// Whether the store holds any owner.
pub fn has_users(store: &Store) -> (r: bool)
    ensures
        r == (store@.users.len() > 0),
{
    store.users.len() > 0
}

/// The owners, the one created later first.
pub fn list_users(store: &Store) -> (r: Vec<User>)
    ensures
        r.deep_view() == ordered_by(store@.users, user_newest_first()),
{
    let all = clone_all(&store.users);
    sort_rows(
        all,
        |a: &User, b: &User| -> (r: bool)
            ensures r == text_lt(b@.created_at, a@.created_at)
        {
            text_before(b.created_at.as_str(), a.created_at.as_str())
        },
        Ghost(user_newest_first()),
    )
}

/// Gives the owner `user` every credential of `items`.
fn put_credentials(table: &mut Vec<Credential>, user: &String, items: &Vec<KeyValue>, now: &String)
    ensures
        final(table).deep_view() == credentials_put(
            old(table).deep_view(),
            user@,
            items.deep_view(),
            now@,
        ),
{
    let ghost rows0 = table.deep_view();
    let ghost all = items.deep_view();
    let mut k: usize = 0;
    proof {
        assert(all.take(0) =~= Seq::<KeyValueView>::empty());
    }
    while k < items.len()
        invariant
            k <= items.len(),
            all == items.deep_view(),
            table.deep_view() == credentials_put(rows0, user@, all.take(k as int), now@),
        decreases items.len() - k,
    {
        let kv = &items[k];
        let ghost gone = (user@, kv@.key);
        retain_rows(
            table,
            |c: &Credential| -> (b: bool)
                ensures b == ((c@.user_id, c@.key) != gone)
            {
                !(c.user_id == *user && c.key == kv.key)
            },
            Ghost(not_keyed(credential_key(), gone)),
        );
        let ghost prior = *table;
        let made = Credential {
            user_id: user.clone(),
            key: kv.key.clone(),
            value: kv.value.clone(),
            updated_at: now.clone(),
        };
        table.push(made);
        proof {
            lemma_pushed(prior, *table, made);
            assert(all.take(k as int + 1).drop_last() =~= all.take(k as int));
            assert(all.take(k as int + 1).last() == kv@);
        }
        k += 1;
    }
    proof {
        assert(all.take(k as int) =~= all);
    }
}

/// Saves a new owner under the identifier `id`, with the credentials
/// `headers`, as of the time `now`. Refused, with nothing changed, when an
/// owner with that identifier exists.
pub fn save_account_at(
    store: &mut Store,
    id: String,
    provider: String,
    alias: String,
    curl: String,
    headers: Vec<KeyValue>,
    now: &str,
) -> (r: Result<String, StoreError>)
    requires
        old(store).wf(),
    ensures
        final(store).wf(),
        r is Ok <==> !has_key(old(store)@.users, by_user_id(), id@),
        r matches Ok(v) ==> v@ == id@ && final(store)@ == account_saved(
            old(store)@,
            user_made(id@, provider@, alias@, curl@, now@),
            headers.deep_view(),
        ),
        r matches Err(e) ==> e == StoreError::Constraint(Rule::IdentifierTaken) && final(store)@ == old(store)@,
{
    let now = now.to_owned();
    let ghost s0 = store@;
    let at = find_row(
        &store.users,
        |u: &User| -> (b: bool)
            ensures b == (u@.id == id@)
        {
            u.id == id
        },
        Ghost(keyed(by_user_id(), id@)),
    );
    proof {
        lemma_keyed_position(s0.users, by_user_id(), id@);
    }
    if at < store.users.len() {
        return Err(StoreError::Constraint(Rule::IdentifierTaken));
    }
    let user = User {
        id: id.clone(),
        provider,
        alias,
        curl,
        created_at: now.clone(),
        updated_at: now.clone(),
    };
    let ghost prior = store.users;
    store.users.push(user);
    proof {
        lemma_pushed(prior, store.users, user);
    }
    put_credentials(&mut store.credentials, &id, &headers, &now);
    proof {
        let made = user_made(id@, user@.provider, user@.alias, user@.curl, now@);
        let out = account_saved(s0, made, headers.deep_view());
        assert(store@ =~= out);
        assert(has_key(out.users, by_user_id(), id@)) by {
            assert(by_user_id()(out.users[s0.users.len() as int]) == id@);
        }
        assert forall|i: int| 0 <= i < s0.credentials.len() implies has_key(
            out.users,
            by_user_id(),
            credential_owner()(#[trigger] s0.credentials[i]),
        ) by {
            let w = choose|w: int|
                0 <= w < s0.users.len() && by_user_id()(#[trigger] s0.users[w]) == credential_owner()(
                    s0.credentials[i],
                );
            assert(out.users[w] == s0.users[w]);
        }
        lemma_credentials_put(s0.credentials, out.users, id@, headers.deep_view(), now@);
        lemma_users_grew(s0, out);
    }
    Ok(id)
}

/// What held of the rows that point at owners still holds when owners were
/// only added or changed in place, identifiers kept.
proof fn lemma_users_grew(s: StoreView, out: StoreView)
    requires
        s.wf(),
        out.users.len() >= s.users.len(),
        forall|i: int| 0 <= i < s.users.len() ==> (#[trigger] out.users[i]).id == s.users[i].id,
        distinct_by(out.users, by_user_id()),
        distinct_by(out.credentials, credential_key()),
        refers_into(out.credentials, credential_owner(), out.users, by_user_id()),
        out == (StoreView { users: out.users, credentials: out.credentials, ..s }),
    ensures
        out.wf(),
{
    assert forall|k: Seq<char>| has_key(s.users, by_user_id(), k) implies has_key(
        out.users,
        by_user_id(),
        k,
    ) by {
        let w = choose|w: int| 0 <= w < s.users.len() && by_user_id()(#[trigger] s.users[w]) == k;
        assert(by_user_id()(out.users[w]) == k);
    }
    assert forall|i: int| 0 <= i < s.naver_payments.len() implies has_key(
        out.users,
        by_user_id(),
        naver_row_owner()(#[trigger] s.naver_payments[i]),
    ) by {
        assert(has_key(s.users, by_user_id(), naver_row_owner()(s.naver_payments[i])));
    }
    assert forall|i: int| 0 <= i < s.coupang_payments.len() implies has_key(
        out.users,
        by_user_id(),
        coupang_row_owner()(#[trigger] s.coupang_payments[i]),
    ) by {
        assert(has_key(s.users, by_user_id(), coupang_row_owner()(s.coupang_payments[i])));
    }
}

/// Saves a new owner with the credentials `headers`, under a fresh
/// identifier and as of the current time, and returns the identifier.
/// Refused, with nothing changed, should the identifier be taken by an
/// owner: where the store holds no owner, the account is always saved.
pub fn save_account(
    store: &mut Store,
    provider: String,
    alias: String,
    curl: String,
    headers: Vec<KeyValue>,
) -> (r: Result<String, StoreError>)
    requires
        old(store).wf(),
    ensures
        final(store).wf(),
        r matches Ok(v) ==> !has_key(old(store)@.users, by_user_id(), v@) && exists|now: Seq<char>|
            final(store)@ == account_saved(
                old(store)@,
                user_made(v@, provider@, alias@, curl@, now),
                headers.deep_view(),
            ),
        r matches Err(e) ==> e == StoreError::Constraint(Rule::IdentifierTaken) && final(store)@
            == old(store)@,
        r is Err ==> exists|id: Seq<char>| has_key(old(store)@.users, by_user_id(), id),
{
    let id = fresh_id();
    let now = utc_now();
    let ghost drawn = id@;
    let ghost s0 = store@;
    let r = save_account_at(store, id, provider, alias, curl, headers, now.as_str());
    proof {
        if r is Err {
            assert(has_key(s0.users, by_user_id(), drawn));
        }
    }
    r
}

/// Whether a payment with the identifier `id` is in `rows`.
fn has_naver_payment(rows: &Vec<NaverPaymentRow>, id: i64) -> (r: bool)
    ensures
        r == has_key(rows.deep_view(), naver_row_id(), id),
{
    let at = find_row(
        rows,
        |p: &NaverPaymentRow| -> (b: bool)
            ensures b == (p@.id == id)
        {
            p.id == id
        },
        Ghost(keyed(naver_row_id(), id)),
    );
    proof {
        lemma_keyed_position(rows.deep_view(), naver_row_id(), id);
    }
    at < rows.len()
}

/// Whether an order with the identifier `id` is in `rows`.
fn has_coupang_payment(rows: &Vec<CoupangPaymentRow>, id: i64) -> (r: bool)
    ensures
        r == has_key(rows.deep_view(), coupang_row_id(), id),
{
    let at = find_row(
        rows,
        |p: &CoupangPaymentRow| -> (b: bool)
            ensures b == (p@.id == id)
        {
            p.id == id
        },
        Ghost(keyed(coupang_row_id(), id)),
    );
    proof {
        lemma_keyed_position(rows.deep_view(), coupang_row_id(), id);
    }
    at < rows.len()
}

/// A store that is in order stays in order when an owner is deleted.
pub proof fn lemma_user_deleted_wf(s: StoreView, id: Seq<char>)
    requires
        s.wf(),
    ensures
        user_deleted(s, id).wf(),
{
    let out = user_deleted(s, id);
    let keep_user = not_keyed(by_user_id(), id);
    lemma_filter_keys(s.users, keep_user, by_user_id());
    lemma_filter_keys(s.credentials, not_keyed(credential_owner(), id), credential_key());
    lemma_filter_refers(
        s.credentials,
        not_keyed(credential_owner(), id),
        credential_owner(),
        s.users,
        keep_user,
        by_user_id(),
    );
    lemma_filter_numbered(
        s.naver_payments,
        not_keyed(naver_row_owner(), id),
        naver_row_id(),
        naver_row_key(),
        s.naver_payment_seq,
    );
    lemma_filter_refers(
        s.naver_payments,
        not_keyed(naver_row_owner(), id),
        naver_row_owner(),
        s.users,
        keep_user,
        by_user_id(),
    );
    lemma_filter_numbered(
        s.naver_items,
        naver_parent_in(out.naver_payments),
        naver_item_id(),
        naver_item_key(),
        s.naver_item_seq,
    );
    lemma_filter_keys(s.naver_items, naver_parent_in(out.naver_payments), naver_item_id());
    assert forall|i: int| 0 <= i < out.naver_items.len() implies has_key(
        out.naver_payments,
        naver_row_id(),
        naver_item_parent()(#[trigger] out.naver_items[i]),
    ) by {
        assert(naver_parent_in(out.naver_payments)(out.naver_items[i]));
    }
    lemma_filter_numbered(
        s.coupang_payments,
        not_keyed(coupang_row_owner(), id),
        coupang_row_id(),
        coupang_row_key(),
        s.coupang_payment_seq,
    );
    lemma_filter_refers(
        s.coupang_payments,
        not_keyed(coupang_row_owner(), id),
        coupang_row_owner(),
        s.users,
        keep_user,
        by_user_id(),
    );
    lemma_filter_numbered(
        s.coupang_items,
        coupang_parent_in(out.coupang_payments),
        coupang_item_id(),
        coupang_item_key(),
        s.coupang_item_seq,
    );
    lemma_filter_keys(s.coupang_items, coupang_parent_in(out.coupang_payments), coupang_item_id());
    assert forall|i: int| 0 <= i < out.coupang_items.len() implies has_key(
        out.coupang_payments,
        coupang_row_id(),
        coupang_item_parent()(#[trigger] out.coupang_items[i]),
    ) by {
        assert(coupang_parent_in(out.coupang_payments)(out.coupang_items[i]));
    }
}

/// Deleting an owner takes away exactly what is the owner's: nothing of the
/// owner stays, and what another owner has stays as it was, credentials,
/// payments and orders, and the lines of each payment and order that stays.
pub proof fn lemma_user_deleted_exact(s: StoreView, id: Seq<char>, other: Seq<char>)
    requires
        s.wf(),
        other != id,
    ensures
        ({
            let out = user_deleted(s, id);
            &&& !has_key(out.users, by_user_id(), id)
            &&& out.credentials.filter(keyed(credential_owner(), id)).len() == 0
            &&& out.naver_payments.filter(keyed(naver_row_owner(), id)).len() == 0
            &&& out.coupang_payments.filter(keyed(coupang_row_owner(), id)).len() == 0
            &&& has_key(s.users, by_user_id(), other) ==> has_key(out.users, by_user_id(), other)
            &&& out.credentials.filter(keyed(credential_owner(), other)) == s.credentials.filter(
                keyed(credential_owner(), other),
            )
            &&& out.naver_payments.filter(keyed(naver_row_owner(), other))
                == s.naver_payments.filter(keyed(naver_row_owner(), other))
            &&& out.coupang_payments.filter(keyed(coupang_row_owner(), other))
                == s.coupang_payments.filter(keyed(coupang_row_owner(), other))
            &&& forall|i: int|
                0 <= i < out.naver_payments.len() ==> out.naver_items.filter(
                    keyed(naver_item_parent(), (#[trigger] out.naver_payments[i]).id),
                ) == s.naver_items.filter(keyed(naver_item_parent(), out.naver_payments[i].id))
            &&& forall|i: int|
                0 <= i < out.coupang_payments.len() ==> out.coupang_items.filter(
                    keyed(coupang_item_parent(), (#[trigger] out.coupang_payments[i]).id),
                ) == s.coupang_items.filter(
                    keyed(coupang_item_parent(), out.coupang_payments[i].id),
                )
        }),
{
    let out = user_deleted(s, id);
    lemma_filter_keys(s.users, not_keyed(by_user_id(), id), by_user_id());
    if has_key(out.users, by_user_id(), id) {
        let w = choose|w: int| 0 <= w < out.users.len() && by_user_id()(#[trigger] out.users[w]) == id;
        assert(not_keyed(by_user_id(), id)(out.users[w]));
    }
    if has_key(s.users, by_user_id(), other) {
        let w = choose|w: int| 0 <= w < s.users.len() && by_user_id()(#[trigger] s.users[w]) == other;
        assert(not_keyed(by_user_id(), id)(s.users[w]));
    }
    lemma_filter_twice(
        s.credentials,
        not_keyed(credential_owner(), id),
        keyed(credential_owner(), id),
    );
    lemma_filter_twice(
        s.credentials,
        not_keyed(credential_owner(), id),
        keyed(credential_owner(), other),
    );
    lemma_filter_twice(
        s.naver_payments,
        not_keyed(naver_row_owner(), id),
        keyed(naver_row_owner(), id),
    );
    lemma_filter_twice(
        s.naver_payments,
        not_keyed(naver_row_owner(), id),
        keyed(naver_row_owner(), other),
    );
    lemma_filter_twice(
        s.coupang_payments,
        not_keyed(coupang_row_owner(), id),
        keyed(coupang_row_owner(), id),
    );
    lemma_filter_twice(
        s.coupang_payments,
        not_keyed(coupang_row_owner(), id),
        keyed(coupang_row_owner(), other),
    );
    assert forall|i: int| 0 <= i < out.naver_payments.len() implies out.naver_items.filter(
        keyed(naver_item_parent(), (#[trigger] out.naver_payments[i]).id),
    ) == s.naver_items.filter(keyed(naver_item_parent(), out.naver_payments[i].id)) by {
        let pk = out.naver_payments[i].id;
        assert(has_key(out.naver_payments, naver_row_id(), pk)) by {
            assert(naver_row_id()(out.naver_payments[i]) == pk);
        }
        lemma_filter_twice(
            s.naver_items,
            naver_parent_in(out.naver_payments),
            keyed(naver_item_parent(), pk),
        );
    }
    assert forall|i: int| 0 <= i < out.coupang_payments.len() implies out.coupang_items.filter(
        keyed(coupang_item_parent(), (#[trigger] out.coupang_payments[i]).id),
    ) == s.coupang_items.filter(keyed(coupang_item_parent(), out.coupang_payments[i].id)) by {
        let pk = out.coupang_payments[i].id;
        assert(has_key(out.coupang_payments, coupang_row_id(), pk)) by {
            assert(coupang_row_id()(out.coupang_payments[i]) == pk);
        }
        lemma_filter_twice(
            s.coupang_items,
            coupang_parent_in(out.coupang_payments),
            keyed(coupang_item_parent(), pk),
        );
    }
}

/// Deletes the owner `id`, and with the owner the owner's credentials,
/// payments, orders and their lines. Nothing else changes; where there is
/// no such owner, nothing changes at all.
pub fn delete_user(store: &mut Store, id: &str)
    requires
        old(store).wf(),
    ensures
        final(store).wf(),
        final(store)@ == user_deleted(old(store)@, id@),
{
    let id = id.to_owned();
    let ghost s0 = store@;
    retain_rows(
        &mut store.users,
        |u: &User| -> (b: bool)
            ensures b == (u@.id != id@)
        {
            !(u.id == id)
        },
        Ghost(not_keyed(by_user_id(), id@)),
    );
    retain_rows(
        &mut store.credentials,
        |c: &Credential| -> (b: bool)
            ensures b == (c@.user_id != id@)
        {
            !(c.user_id == id)
        },
        Ghost(not_keyed(credential_owner(), id@)),
    );
    retain_rows(
        &mut store.naver_payments,
        |r: &NaverPaymentRow| -> (b: bool)
            ensures b == (r@.user_id != id@)
        {
            !(r.user_id == id)
        },
        Ghost(not_keyed(naver_row_owner(), id@)),
    );
    let naver = &store.naver_payments;
    retain_rows(
        &mut store.naver_items,
        |r: &NaverItemRow| -> (b: bool)
            ensures b == has_key(naver.deep_view(), naver_row_id(), r@.payment_id)
        {
            has_naver_payment(naver, r.payment_id)
        },
        Ghost(naver_parent_in(naver.deep_view())),
    );
    retain_rows(
        &mut store.coupang_payments,
        |r: &CoupangPaymentRow| -> (b: bool)
            ensures b == (r@.user_id != id@)
        {
            !(r.user_id == id)
        },
        Ghost(not_keyed(coupang_row_owner(), id@)),
    );
    let coupang = &store.coupang_payments;
    retain_rows(
        &mut store.coupang_items,
        |r: &CoupangItemRow| -> (b: bool)
            ensures b == has_key(coupang.deep_view(), coupang_row_id(), r@.payment_id)
        {
            has_coupang_payment(coupang, r.payment_id)
        },
        Ghost(coupang_parent_in(coupang.deep_view())),
    );
    proof {
        lemma_user_deleted_wf(s0, id@);
        assert(store@ =~= user_deleted(s0, id@));
    }
}

/// The credentials of the owner `user_id`, each key with its value, in the
/// order they were stored.
pub fn get_user_credentials(store: &Store, user_id: &str) -> (r: Vec<KeyValue>)
    ensures
        r.deep_view() == credentials_of(store@.credentials, user_id@),
{
    let user = user_id.to_owned();
    let picked = select_rows(
        &store.credentials,
        |c: &Credential| -> (b: bool)
            ensures b == (c@.user_id == user@)
        {
            c.user_id == user
        },
        Ghost(keyed(credential_owner(), user@)),
    );
    let mut out: Vec<KeyValue> = Vec::new();
    let mut i: usize = 0;
    while i < picked.len()
        invariant
            i <= picked.len(),
            out.deep_view() =~= picked.deep_view().take(i as int).map_values(
                |c: CredentialView| KeyValueView { key: c.key, value: c.value },
            ),
        decreases picked.len() - i,
    {
        let kv = KeyValue { key: picked[i].key.clone(), value: picked[i].value.clone() };
        let ghost prior = out;
        out.push(kv);
        proof {
            lemma_pushed(prior, out, kv);
            lemma_map_step(
                picked.deep_view(),
                |c: CredentialView| KeyValueView { key: c.key, value: c.value },
                i as int,
            );
        }
        i += 1;
    }
    proof {
        assert(picked.deep_view().take(i as int) =~= picked.deep_view());
    }
    out
}

/// A store that is in order stays in order when an owner is changed in
/// place, identifier kept.
proof fn lemma_user_changed_wf(s: StoreView, id: Seq<char>, change: spec_fn(UserView) -> UserView)
    requires
        s.wf(),
        forall|u: UserView| (#[trigger] change(u)).id == u.id,
    ensures
        (StoreView { users: user_changed(s.users, id, change), ..s }).wf(),
        user_changed(s.users, id, change).len() == s.users.len(),
        forall|i: int|
            0 <= i < s.users.len() ==> (#[trigger] user_changed(s.users, id, change)[i]).id
                == s.users[i].id,
{
    let users = user_changed(s.users, id, change);
    let out = StoreView { users, ..s };
    lemma_keyed_position(s.users, by_user_id(), id);
    let at = position(s.users, keyed(by_user_id(), id));
    assert forall|i: int| 0 <= i < s.users.len() implies (#[trigger] users[i]).id
        == s.users[i].id by {
        if at < s.users.len() && i == at {
            assert(users[i] == change(s.users[at]));
        }
    }
    assert forall|i: int, j: int| 0 <= i < j < users.len() implies by_user_id()(users[i])
        != by_user_id()(users[j]) by {
        assert(users[i].id == s.users[i].id && users[j].id == s.users[j].id);
        assert(by_user_id()(s.users[i]) != by_user_id()(s.users[j]));
    }
    assert forall|i: int| 0 <= i < s.credentials.len() implies has_key(
        users,
        by_user_id(),
        credential_owner()(#[trigger] s.credentials[i]),
    ) by {
        let w = choose|w: int|
            0 <= w < s.users.len() && by_user_id()(#[trigger] s.users[w]) == credential_owner()(
                s.credentials[i],
            );
        assert(by_user_id()(users[w]) == by_user_id()(s.users[w]));
    }
    lemma_users_grew(s, out);
}

/// Gives the owner `id` the name `alias`, as of the time `now`, and
/// returns the owner as stored after that. Where there is no such owner,
/// nothing changes and the answer is that it was not found.
pub fn update_user_at(store: &mut Store, id: &str, alias: String, now: &str) -> (r: Result<
    User,
    StoreError,
>)
    requires
        old(store).wf(),
    ensures
        final(store).wf(),
        r is Ok <==> has_key(old(store)@.users, by_user_id(), id@),
        final(store)@ == (StoreView {
            users: user_changed(old(store)@.users, id@, renamed(alias@, now@)),
            ..old(store)@
        }),
        r matches Ok(u) ==> u@ == renamed(alias@, now@)(
            old(store)@.users[position(old(store)@.users, keyed(by_user_id(), id@))],
        ),
        r matches Err(e) ==> e == StoreError::NotFound && final(store)@ == old(store)@,
{
    let id = id.to_owned();
    let ghost s0 = store@;
    let at = find_row(
        &store.users,
        |u: &User| -> (b: bool)
            ensures b == (u@.id == id@)
        {
            u.id == id
        },
        Ghost(keyed(by_user_id(), id@)),
    );
    proof {
        lemma_keyed_position(s0.users, by_user_id(), id@);
        lemma_user_changed_wf(s0, id@, renamed(alias@, now@));
    }
    if at >= store.users.len() {
        proof {
            assert(store@ =~= (StoreView {
                users: user_changed(s0.users, id@, renamed(alias@, now@)),
                ..s0
            }));
        }
        return Err(StoreError::NotFound);
    }
    store.users[at].alias = alias;
    store.users[at].updated_at = now.to_owned();
    let out = store.users[at].clone();
    proof {
        assert(store.users.deep_view() =~= user_changed(s0.users, id@, renamed(alias@, now@)));
    }
    Ok(out)
}

/// Gives the owner `id` the name `alias`, as of the current time, and
/// returns the owner as stored after that.
pub fn update_user(store: &mut Store, id: &str, alias: String) -> (r: Result<User, StoreError>)
    requires
        old(store).wf(),
    ensures
        final(store).wf(),
        r is Ok <==> has_key(old(store)@.users, by_user_id(), id@),
        r matches Ok(u) ==> exists|now: Seq<char>|
            final(store)@ == (StoreView {
                users: user_changed(old(store)@.users, id@, renamed(alias@, now)),
                ..old(store)@
            }) && u@ == renamed(alias@, now)(
                old(store)@.users[position(old(store)@.users, keyed(by_user_id(), id@))],
            ),
        r matches Err(e) ==> e == StoreError::NotFound && final(store)@ == old(store)@,
{
    let now = utc_now();
    update_user_at(store, id, alias, now.as_str())
}

/// Whether the credentials of `user` can be replaced by `items`: the owner
/// exists, or there is nothing to store.
pub open spec fn credentials_replaceable(
    s: StoreView,
    user: Seq<char>,
    items: Seq<KeyValueView>,
) -> bool {
    has_key(s.users, by_user_id(), user) || items.len() == 0
}

/// A store that is in order stays in order when the credentials of an
/// owner are replaced.
pub proof fn lemma_credentials_replaced_wf(
    s: StoreView,
    user: Seq<char>,
    curl: Seq<char>,
    items: Seq<KeyValueView>,
    now: Seq<char>,
)
    requires
        s.wf(),
        credentials_replaceable(s, user, items),
    ensures
        credentials_replaced(s, user, curl, items, now).wf(),
{
    let out = credentials_replaced(s, user, curl, items, now);
    lemma_user_changed_wf(s, user, recurled(curl, now));
    let mid = StoreView { users: out.users, ..s };
    let cleared = s.credentials.filter(not_keyed(credential_owner(), user));
    lemma_filter_keys(s.credentials, not_keyed(credential_owner(), user), credential_key());
    assert forall|i: int| 0 <= i < cleared.len() implies has_key(
        out.users,
        by_user_id(),
        credential_owner()(#[trigger] cleared[i]),
    ) by {
        assert(s.credentials.contains(cleared[i]));
        let j = choose|j: int| 0 <= j < s.credentials.len() && s.credentials[j] == cleared[i];
        assert(has_key(mid.users, by_user_id(), credential_owner()(mid.credentials[j])));
    }
    if has_key(s.users, by_user_id(), user) {
        let w = choose|w: int| 0 <= w < s.users.len() && by_user_id()(#[trigger] s.users[w]) == user;
        assert(by_user_id()(out.users[w]) == user);
    }
    lemma_credentials_put(cleared, out.users, user, items, now);
    lemma_users_grew(s, out);
}

/// Replaces the credentials of the owner `user_id` by `headers` and the
/// owner's stored request by `curl`, as of the time `now`. None of the old
/// credentials stays. Refused, with nothing changed, when there is
/// something to store for an owner who does not exist.
pub fn update_account_credentials_at(
    store: &mut Store,
    user_id: &str,
    curl: String,
    headers: Vec<KeyValue>,
    now: &str,
) -> (r: Result<(), StoreError>)
    requires
        old(store).wf(),
    ensures
        final(store).wf(),
        r is Ok <==> credentials_replaceable(old(store)@, user_id@, headers.deep_view()),
        r is Ok ==> final(store)@ == credentials_replaced(
            old(store)@,
            user_id@,
            curl@,
            headers.deep_view(),
            now@,
        ),
        r matches Err(e) ==> e == StoreError::Constraint(Rule::OwnerMissing) && final(store)@ == old(store)@,
{
    let user = user_id.to_owned();
    let now = now.to_owned();
    let ghost s0 = store@;
    let at = find_row(
        &store.users,
        |u: &User| -> (b: bool)
            ensures b == (u@.id == user@)
        {
            u.id == user
        },
        Ghost(keyed(by_user_id(), user@)),
    );
    proof {
        lemma_keyed_position(s0.users, by_user_id(), user@);
    }
    if at >= store.users.len() && headers.len() > 0 {
        return Err(StoreError::Constraint(Rule::OwnerMissing));
    }
    proof {
        lemma_credentials_replaced_wf(s0, user@, curl@, headers.deep_view(), now@);
    }
    if at < store.users.len() {
        store.users[at].curl = curl;
        store.users[at].updated_at = now.clone();
    }
    proof {
        assert(store.users.deep_view() =~= user_changed(s0.users, user@, recurled(curl@, now@)));
    }
    retain_rows(
        &mut store.credentials,
        |c: &Credential| -> (b: bool)
            ensures b == (c@.user_id != user@)
        {
            !(c.user_id == user)
        },
        Ghost(not_keyed(credential_owner(), user@)),
    );
    put_credentials(&mut store.credentials, &user, &headers, &now);
    proof {
        assert(store@ =~= credentials_replaced(s0, user@, curl@, headers.deep_view(), now@));
    }
    Ok(())
}

/// Replaces the credentials of the owner `user_id` by `headers` and the
/// owner's stored request by `curl`, as of the current time.
pub fn update_account_credentials(
    store: &mut Store,
    user_id: &str,
    curl: String,
    headers: Vec<KeyValue>,
) -> (r: Result<(), StoreError>)
    requires
        old(store).wf(),
    ensures
        final(store).wf(),
        r is Ok <==> credentials_replaceable(old(store)@, user_id@, headers.deep_view()),
        r is Ok ==> exists|now: Seq<char>|
            final(store)@ == credentials_replaced(
                old(store)@,
                user_id@,
                curl@,
                headers.deep_view(),
                now,
            ),
        r matches Err(e) ==> e == StoreError::Constraint(Rule::OwnerMissing) && final(store)@ == old(store)@,
{
    let now = utc_now();
    update_account_credentials_at(store, user_id, curl, headers, now.as_str())
}

/// The order of the listing of owners can be ordered by.
pub proof fn lemma_user_orders()
    ensures
        sortable(user_newest_first()),
{
    lemma_text_order();
}

} // verus!
