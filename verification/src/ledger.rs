//! The hand-kept ledger: accounts with passwords that lapse, entries with
//! their tags, and a record of every change to an entry.

use crate::clock::{fresh_id, utc_after_days, utc_now, PASSWORD_DAYS};
use crate::digest::{hash_password, password_digest};
use crate::error::{Rule, StoreError};
use crate::records::ledger::{
    EntryFields, EntryFieldsView, HistoryAction, LedgerAccount, LedgerAccountView, LedgerEntry,
    LedgerEntryInput, LedgerEntryInputView, LedgerEntryRow, LedgerEntryRowView, LedgerEntryView,
    LedgerHistory, LedgerHistoryView, LedgerTag, LedgerTagView,
};
use crate::rows::{
    changed, clone_all, distinct_by, find_row, has_key, keyed, lemma_changed_keeps,
    lemma_filter_all, lemma_filter_keys, lemma_filter_refers, lemma_keyed_position,
    lemma_map_step, lemma_mapped_keeps, lemma_position_is, lemma_pushed, lemma_refers_kept,
    not_keyed, ordered_by, position, refers_into, retain_rows, select_rows, sort_rows,
};
use crate::store::{
    by_account_id, by_entry_id, by_history_id, entry_account, entry_fields_ok, history_entry,
    ledger_tag_entry, ledger_tag_key, Store, StoreView,
};
use crate::text::{
    like, starting_with, text_before, text_eq, text_lt, text_starts_with, texts_distinct,
};
use crate::rows::sortable;
use crate::text::lemma_text_order;
use vstd::prelude::*;

verus! {

/// Whether the password of `a` has lapsed by `now`.
pub open spec fn lapsed(a: LedgerAccountView, now: Seq<char>) -> bool {
    match a.password_expires_at {
        Some(t) => text_lt(t, now),
        None => false,
    }
}

/// What becomes of an account at `now`: one whose password has lapsed loses
/// it, any other stays as it is.
pub open spec fn expire(now: Seq<char>) -> spec_fn(LedgerAccountView) -> LedgerAccountView {
    |a: LedgerAccountView|
        if lapsed(a, now) {
            LedgerAccountView {
                password_hash: None,
                password_expires_at: None,
                updated_at: now,
                ..a
            }
        } else {
            a
        }
}

/// The store after every password that has lapsed by `now` was cleared.
pub open spec fn purged(s: StoreView, now: Seq<char>) -> StoreView {
    StoreView { ledger_accounts: s.ledger_accounts.map_values(expire(now)), ..s }
}

/// Clearing lapsed passwords clears exactly those: an account whose
/// password lapsed before `now` has no password after it, and every other
/// account is as it was. No account comes or goes.
pub proof fn lemma_purged(s: StoreView, now: Seq<char>)
    requires
        s.wf(),
    ensures
        purged(s, now).wf(),
        purged(s, now).ledger_accounts.len() == s.ledger_accounts.len(),
        forall|i: int|
            0 <= i < s.ledger_accounts.len() && lapsed(#[trigger] s.ledger_accounts[i], now) ==> {
                &&& purged(s, now).ledger_accounts[i].password_hash is None
                &&& purged(s, now).ledger_accounts[i].password_expires_at is None
                &&& purged(s, now).ledger_accounts[i].id == s.ledger_accounts[i].id
                &&& purged(s, now).ledger_accounts[i].nickname == s.ledger_accounts[i].nickname
            },
        forall|i: int|
            0 <= i < s.ledger_accounts.len() && !lapsed(#[trigger] s.ledger_accounts[i], now)
                ==> purged(s, now).ledger_accounts[i] == s.ledger_accounts[i],
        forall|k: Seq<char>|
            has_key(s.ledger_accounts, by_account_id(), k) <==> has_key(
                purged(s, now).ledger_accounts,
                by_account_id(),
                k,
            ),
{
    lemma_mapped_keeps(s.ledger_accounts, expire(now), by_account_id());
    lemma_refers_kept(
        s.ledger_entries,
        entry_account(),
        s.ledger_accounts,
        purged(s, now).ledger_accounts,
        by_account_id(),
    );
}

/// Clears the password of `a` if it has lapsed by `now`.
fn expire_account(a: &mut LedgerAccount, now: &String)
    ensures
        final(a)@ == expire(now@)(old(a)@),
{
    let gone = match &a.password_expires_at {
        Some(t) => text_before(t.as_str(), now.as_str()),
        None => false,
    };
    if gone {
        a.password_hash = None;
        a.password_expires_at = None;
        a.updated_at = now.clone();
    }
}

/// Clears every password in `accounts` that has lapsed by `now`.
fn purge_expired(accounts: &mut Vec<LedgerAccount>, now: &String)
    ensures
        final(accounts).deep_view() == old(accounts).deep_view().map_values(expire(now@)),
{
    let ghost before = accounts.deep_view();
    let mut i: usize = 0;
    while i < accounts.len()
        invariant
            accounts.len() == before.len(),
            i <= accounts.len(),
            forall|k: int| 0 <= k < i ==> accounts.deep_view()[k] == expire(now@)(before[k]),
            forall|k: int| i <= k < accounts.len() ==> accounts.deep_view()[k] == before[k],
        decreases accounts.len() - i,
    {
        let ghost prior = accounts.deep_view();
        expire_account(&mut accounts[i], now);
        proof {
            assert(accounts.deep_view() =~= prior.update(i as int, expire(now@)(prior[i as int])));
        }
        i += 1;
    }
    proof {
        assert(accounts.deep_view() =~= before.map_values(expire(now@)));
    }
}

/// What a password makes of an account's two password fields: its digest,
/// and the time at which it lapses.
pub open spec fn password_set(
    digest: Option<Seq<char>>,
    expires: Seq<char>,
    now: Seq<char>,
) -> spec_fn(LedgerAccountView) -> LedgerAccountView {
    |a: LedgerAccountView|
        LedgerAccountView {
            password_hash: digest,
            password_expires_at: if digest is Some {
                Some(expires)
            } else {
                None
            },
            updated_at: now,
            ..a
        }
}

/// The account that is made under `id` with the name `nickname` and, where
/// a password is given, its digest and the time at which it lapses.
pub open spec fn account_made(
    id: Seq<char>,
    nickname: Seq<char>,
    digest: Option<Seq<char>>,
    now: Seq<char>,
    expires: Seq<char>,
) -> LedgerAccountView {
    LedgerAccountView {
        id,
        nickname,
        password_hash: digest,
        password_expires_at: if digest is Some {
            Some(expires)
        } else {
            None
        },
        created_at: now,
        updated_at: now,
    }
}

/// The digest of a password where one is given.
pub open spec fn digest_of(password: Option<Seq<char>>) -> Option<Seq<char>> {
    match password {
        Some(p) => Some(password_digest(p)),
        None => None,
    }
}

/// The store after lapsed passwords were cleared and the account `a` was
/// added.
pub open spec fn account_created(s: StoreView, a: LedgerAccountView, now: Seq<char>) -> StoreView {
    StoreView { ledger_accounts: purged(s, now).ledger_accounts.push(a), ..s }
}

/// The store after lapsed passwords were cleared and the account `id`, if
/// there, got the password with the digest `digest`.
pub open spec fn password_updated(
    s: StoreView,
    id: Seq<char>,
    digest: Seq<char>,
    now: Seq<char>,
    expires: Seq<char>,
) -> StoreView {
    StoreView {
        ledger_accounts: changed(
            purged(s, now).ledger_accounts,
            by_account_id(),
            id,
            password_set(Some(digest), expires, now),
        ),
        ..s
    }
}

/// The test for being a tag of an entry that is in `entries`.
pub open spec fn tag_entry_in(entries: Seq<LedgerEntryRowView>) -> spec_fn(LedgerTagView) -> bool {
    |t: LedgerTagView| has_key(entries, by_entry_id(), t.entry_id)
}

/// The store after lapsed passwords were cleared and the account `id` was
/// deleted, and with it its entries and their tags. The record of changes
/// stays.
pub open spec fn account_deleted(s: StoreView, id: Seq<char>, now: Seq<char>) -> StoreView {
    let entries = s.ledger_entries.filter(not_keyed(entry_account(), id));
    StoreView {
        ledger_accounts: purged(s, now).ledger_accounts.filter(not_keyed(by_account_id(), id)),
        ledger_entries: entries,
        ledger_tags: s.ledger_tags.filter(tag_entry_in(entries)),
        ..s
    }
}

/// The accounts, the one created later first.
pub open spec fn account_newest_first() -> spec_fn(LedgerAccountView, LedgerAccountView) -> bool {
    |a: LedgerAccountView, b: LedgerAccountView| text_lt(b.created_at, a.created_at)
}

/// A store that is in order stays in order when only its accounts change
/// and every account that entries point at stays.
proof fn lemma_accounts_changed(s: StoreView, accounts: Seq<LedgerAccountView>)
    requires
        s.wf(),
        distinct_by(accounts, by_account_id()),
        refers_into(s.ledger_entries, entry_account(), accounts, by_account_id()),
    ensures
        (StoreView { ledger_accounts: accounts, ..s }).wf(),
{
}

/// Clears every password that has lapsed by `now`.
pub fn check_password_expiry_at(store: &mut Store, now: &str)
    requires
        old(store).wf(),
    ensures
        final(store).wf(),
        final(store)@ == purged(old(store)@, now@),
{
    let now = now.to_owned();
    proof {
        lemma_purged(store@, now@);
    }
    purge_expired(&mut store.ledger_accounts, &now);
}

/// Clears every password that has lapsed by the current time.
pub fn check_password_expiry(store: &mut Store)
    requires
        old(store).wf(),
    ensures
        final(store).wf(),
        exists|now: Seq<char>| final(store)@ == purged(old(store)@, now),
{
    let now = utc_now();
    check_password_expiry_at(store, now.as_str())
}

/// Clears lapsed passwords, then adds an account under `id` with the name
/// `nickname` and, where `password` is given, its digest, to lapse at
/// `expires`. Where an account with that identifier exists, none is added,
/// though lapsed passwords are cleared all the same.
pub fn create_ledger_account_at(
    store: &mut Store,
    id: String,
    nickname: String,
    password: Option<String>,
    now: &str,
    expires: &str,
) -> (r: Result<LedgerAccount, StoreError>)
    requires
        old(store).wf(),
    ensures
        final(store).wf(),
        r is Ok <==> !has_key(old(store)@.ledger_accounts, by_account_id(), id@),
        r matches Ok(a) ==> a@ == account_made(
            id@,
            nickname@,
            digest_of(password.deep_view()),
            now@,
            expires@,
        ) && final(store)@ == account_created(old(store)@, a@, now@),
        r matches Err(e) ==> e == StoreError::Constraint(Rule::IdentifierTaken) && final(store)@ == purged(
            old(store)@,
            now@,
        ),
{
    let now = now.to_owned();
    let ghost s0 = store@;
    proof {
        lemma_purged(s0, now@);
    }
    purge_expired(&mut store.ledger_accounts, &now);
    let at = find_row(
        &store.ledger_accounts,
        |a: &LedgerAccount| -> (b: bool)
            ensures b == (a@.id == id@)
        {
            a.id == id
        },
        Ghost(keyed(by_account_id(), id@)),
    );
    proof {
        lemma_keyed_position(store@.ledger_accounts, by_account_id(), id@);
    }
    if at < store.ledger_accounts.len() {
        return Err(StoreError::Constraint(Rule::IdentifierTaken));
    }
    let digest = match &password {
        Some(p) => Some(hash_password(p.as_str())),
        None => None,
    };
    let lapses = match &digest {
        Some(_) => Some(expires.to_owned()),
        None => None,
    };
    let account = LedgerAccount {
        id,
        nickname,
        password_hash: digest,
        password_expires_at: lapses,
        created_at: now.clone(),
        updated_at: now.clone(),
    };
    let out = account.clone();
    let ghost prior = store.ledger_accounts;
    store.ledger_accounts.push(account);
    proof {
        lemma_pushed(prior, store.ledger_accounts, account);
        let accounts = store@.ledger_accounts;
        let before = purged(s0, now@).ledger_accounts;
        assert forall|i: int, j: int| 0 <= i < j < accounts.len() implies by_account_id()(accounts[i])
            != by_account_id()(accounts[j]) by {
            assert(accounts[i] == before[i]);
            if j < before.len() {
                assert(accounts[j] == before[j]);
            } else {
                assert(by_account_id()(before[i]) != id@);
            }
        }
        assert forall|k: Seq<char>| has_key(before, by_account_id(), k) implies has_key(
            accounts,
            by_account_id(),
            k,
        ) by {
            let w = choose|w: int| 0 <= w < before.len() && by_account_id()(#[trigger] before[w]) == k;
            assert(accounts[w] == before[w]);
        }
        lemma_refers_kept(s0.ledger_entries, entry_account(), before, accounts, by_account_id());
        lemma_accounts_changed(s0, accounts);
        assert(store@ =~= account_created(s0, out@, now@));
    }
    Ok(out)
}

/// Clears lapsed passwords, then adds an account with the name `nickname`
/// under a fresh identifier; a password given stays valid for 30 days.
/// Refused should the identifier be taken by an account: where the ledger
/// holds no account, the account is always added.
pub fn create_ledger_account(store: &mut Store, nickname: String, password: Option<String>) -> (r:
    Result<LedgerAccount, StoreError>)
    requires
        old(store).wf(),
    ensures
        final(store).wf(),
        r matches Ok(a) ==> exists|now: Seq<char>, expires: Seq<char>|
            a@ == account_made(a@.id, nickname@, digest_of(password.deep_view()), now, expires)
                && !has_key(old(store)@.ledger_accounts, by_account_id(), a@.id) && final(store)@
                == account_created(old(store)@, a@, now),
        r matches Err(e) ==> e == StoreError::Constraint(Rule::IdentifierTaken) && exists|now: Seq<char>|
            final(store)@ == purged(old(store)@, now),
        r is Err ==> exists|id: Seq<char>| has_key(old(store)@.ledger_accounts, by_account_id(), id),
{
    let id = fresh_id();
    let now = utc_now();
    let expires = utc_after_days(PASSWORD_DAYS);
    let ghost s0 = store@;
    let ghost drawn = id@;
    let r = create_ledger_account_at(store, id, nickname, password, now.as_str(), expires.as_str());
    proof {
        if r is Err {
            assert(has_key(s0.ledger_accounts, by_account_id(), drawn));
        }
        if r is Ok {
            let a = r->Ok_0;
            assert(a@ == account_made(a@.id, nickname@, digest_of(password.deep_view()), now@, expires@)
                && !has_key(s0.ledger_accounts, by_account_id(), a@.id) && store@
                == account_created(s0, a@, now@));
        }
    }
    r
}

/// Clears lapsed passwords, then returns the accounts, the one created
/// later first.
pub fn list_ledger_accounts_at(store: &mut Store, now: &str) -> (r: Vec<LedgerAccount>)
    requires
        old(store).wf(),
    ensures
        final(store).wf(),
        final(store)@ == purged(old(store)@, now@),
        r.deep_view() == ordered_by(final(store)@.ledger_accounts, account_newest_first()),
{
    check_password_expiry_at(store, now);
    let all = clone_all(&store.ledger_accounts);
    sort_rows(
        all,
        |a: &LedgerAccount, b: &LedgerAccount| -> (r: bool)
            ensures r == text_lt(b@.created_at, a@.created_at)
        {
            text_before(b.created_at.as_str(), a.created_at.as_str())
        },
        Ghost(account_newest_first()),
    )
}

/// Clears the passwords that have lapsed by the current time, then returns
/// the accounts, the one created later first.
pub fn list_ledger_accounts(store: &mut Store) -> (r: Vec<LedgerAccount>)
    requires
        old(store).wf(),
    ensures
        final(store).wf(),
        exists|now: Seq<char>| final(store)@ == purged(old(store)@, now),
        r.deep_view() == ordered_by(final(store)@.ledger_accounts, account_newest_first()),
{
    let now = utc_now();
    list_ledger_accounts_at(store, now.as_str())
}

/// Whether `password` is the password of the account `a`: the account has
/// one, and its digest is the digest of `password`.
pub open spec fn password_matches(a: LedgerAccountView, password: Seq<char>) -> bool {
    a.password_hash == Some(password_digest(password))
}

/// Clears lapsed passwords, then says whether `password` is the password of
/// the account `account_id`. An account without a password, or whose
/// password has lapsed, has none that matches. Where there is no such
/// account the answer is that it was not found.
pub fn verify_ledger_password_at(
    store: &mut Store,
    account_id: &str,
    password: &str,
    now: &str,
) -> (r: Result<bool, StoreError>)
    requires
        old(store).wf(),
    ensures
        final(store).wf(),
        final(store)@ == purged(old(store)@, now@),
        r is Ok <==> has_key(old(store)@.ledger_accounts, by_account_id(), account_id@),
        r matches Ok(b) ==> b == password_matches(
            final(store)@.ledger_accounts[position(
                final(store)@.ledger_accounts,
                keyed(by_account_id(), account_id@),
            )],
            password@,
        ),
        r matches Err(e) ==> e == StoreError::NotFound,
{
    let ghost s0 = store@;
    check_password_expiry_at(store, now);
    let id = account_id.to_owned();
    let at = find_row(
        &store.ledger_accounts,
        |a: &LedgerAccount| -> (b: bool)
            ensures b == (a@.id == id@)
        {
            a.id == id
        },
        Ghost(keyed(by_account_id(), id@)),
    );
    proof {
        lemma_purged(s0, now@);
        lemma_keyed_position(store@.ledger_accounts, by_account_id(), id@);
    }
    if at >= store.ledger_accounts.len() {
        return Err(StoreError::NotFound);
    }
    let digest = hash_password(password);
    let same = match &store.ledger_accounts[at].password_hash {
        Some(h) => *h == digest,
        None => false,
    };
    Ok(same)
}

/// Clears the passwords that have lapsed by the current time, then says
/// whether `password` is the password of the account `account_id`.
pub fn verify_ledger_password(store: &mut Store, account_id: &str, password: &str) -> (r: Result<
    bool,
    StoreError,
>)
    requires
        old(store).wf(),
    ensures
        final(store).wf(),
        exists|now: Seq<char>| final(store)@ == purged(old(store)@, now),
        r is Ok <==> has_key(old(store)@.ledger_accounts, by_account_id(), account_id@),
        r matches Ok(b) ==> b == password_matches(
            final(store)@.ledger_accounts[position(
                final(store)@.ledger_accounts,
                keyed(by_account_id(), account_id@),
            )],
            password@,
        ),
        r matches Err(e) ==> e == StoreError::NotFound,
{
    let now = utc_now();
    verify_ledger_password_at(store, account_id, password, now.as_str())
}

/// Clears lapsed passwords, then gives the account `account_id` the
/// password `password`, to lapse at `expires`. Where there is no such
/// account, nothing more happens.
pub fn update_ledger_password_at(
    store: &mut Store,
    account_id: &str,
    password: &str,
    now: &str,
    expires: &str,
)
    requires
        old(store).wf(),
    ensures
        final(store).wf(),
        final(store)@ == password_updated(
            old(store)@,
            account_id@,
            password_digest(password@),
            now@,
            expires@,
        ),
{
    let ghost s0 = store@;
    check_password_expiry_at(store, now);
    let id = account_id.to_owned();
    let at = find_row(
        &store.ledger_accounts,
        |a: &LedgerAccount| -> (b: bool)
            ensures b == (a@.id == id@)
        {
            a.id == id
        },
        Ghost(keyed(by_account_id(), id@)),
    );
    let ghost before = store@.ledger_accounts;
    let ghost set = password_set(Some(password_digest(password@)), expires@, now@);
    proof {
        lemma_changed_keeps(before, by_account_id(), id@, set, by_account_id());
        lemma_refers_kept(
            s0.ledger_entries,
            entry_account(),
            before,
            changed(before, by_account_id(), id@, set),
            by_account_id(),
        );
        lemma_accounts_changed(store@, changed(before, by_account_id(), id@, set));
    }
    if at < store.ledger_accounts.len() {
        store.ledger_accounts[at].password_hash = Some(hash_password(password));
        store.ledger_accounts[at].password_expires_at = Some(expires.to_owned());
        store.ledger_accounts[at].updated_at = now.to_owned();
    }
    proof {
        assert(store@.ledger_accounts =~= changed(before, by_account_id(), id@, set));
    }
}

/// Clears the passwords that have lapsed by the current time, then gives
/// the account `account_id` the password `password`, valid for 30 days.
pub fn update_ledger_password(store: &mut Store, account_id: &str, password: &str)
    requires
        old(store).wf(),
    ensures
        final(store).wf(),
        exists|now: Seq<char>, expires: Seq<char>|
            final(store)@ == password_updated(
                old(store)@,
                account_id@,
                password_digest(password@),
                now,
                expires,
            ),
{
    let now = utc_now();
    let expires = utc_after_days(PASSWORD_DAYS);
    update_ledger_password_at(store, account_id, password, now.as_str(), expires.as_str())
}

/// The tags of the entry `id`, in the order they were stored.
pub open spec fn stored_tags(tags: Seq<LedgerTagView>, id: Seq<char>) -> Seq<Seq<char>> {
    tags.filter(keyed(ledger_tag_entry(), id)).map_values(|t: LedgerTagView| t.tag)
}

/// The entry that the stored row `row` and the tags `tags` make up.
pub open spec fn entry_state(row: LedgerEntryRowView, tags: Seq<Seq<char>>) -> LedgerEntryView {
    LedgerEntryView {
        id: row.id,
        account_id: row.account_id,
        fields: row.fields,
        tags,
        created_at: row.created_at,
        updated_at: row.updated_at,
    }
}

/// The rows that the tags `tags` of the entry `id` make.
pub open spec fn tags_made(id: Seq<char>, tags: Seq<Seq<char>>, now: Seq<char>) -> Seq<
    LedgerTagView,
> {
    tags.map_values(|t: Seq<char>| LedgerTagView { entry_id: id, tag: t, created_at: now })
}

/// The row that a new entry makes.
pub open spec fn entry_made(
    id: Seq<char>,
    account: Seq<char>,
    fields: EntryFieldsView,
    now: Seq<char>,
) -> LedgerEntryRowView {
    LedgerEntryRowView { id, account_id: account, fields, created_at: now, updated_at: now }
}

/// The stored row `row` after an edit to `fields` at `now`.
pub open spec fn entry_edited(
    row: LedgerEntryRowView,
    fields: EntryFieldsView,
    now: Seq<char>,
) -> LedgerEntryRowView {
    LedgerEntryRowView { fields, updated_at: now, ..row }
}

/// The record of one change to the entry `entry`.
pub open spec fn history_made(
    id: Seq<char>,
    entry: Seq<char>,
    action: HistoryAction,
    before: Option<LedgerEntryView>,
    after: Option<LedgerEntryView>,
    now: Seq<char>,
) -> LedgerHistoryView {
    LedgerHistoryView {
        id,
        entry_id: entry,
        action,
        snapshot_before: before,
        snapshot_after: after,
        created_at: now,
    }
}

/// Whether an entry can be created: its identifier and that of the record
/// of its creation are free, its account exists, it is of a known kind and
/// platform, and it has no tag twice.
pub open spec fn entry_creatable(
    s: StoreView,
    entry: Seq<char>,
    history: Seq<char>,
    account: Seq<char>,
    input: LedgerEntryInputView,
) -> bool {
    &&& !has_key(s.ledger_entries, by_entry_id(), entry)
    &&& has_key(s.ledger_accounts, by_account_id(), account)
    &&& entry_fields_ok(input.fields)
    &&& input.tags.no_duplicates()
    &&& !has_key(s.ledger_history, by_history_id(), history)
}

/// The store after lapsed passwords were cleared and an entry was created:
/// the entry and its tags are added, and one record of the creation, which
/// holds the new entry and nothing before it.
pub open spec fn entry_created(
    s: StoreView,
    entry: Seq<char>,
    history: Seq<char>,
    account: Seq<char>,
    input: LedgerEntryInputView,
    now: Seq<char>,
) -> StoreView {
    let row = entry_made(entry, account, input.fields, now);
    StoreView {
        ledger_accounts: purged(s, now).ledger_accounts,
        ledger_entries: s.ledger_entries.push(row),
        ledger_tags: s.ledger_tags + tags_made(entry, input.tags, now),
        ledger_history: s.ledger_history.push(
            history_made(
                history,
                entry,
                HistoryAction::Create,
                None,
                Some(entry_state(row, input.tags)),
                now,
            ),
        ),
        ..s
    }
}

/// Whether the entry `entry` can be edited: it exists, the identifier of
/// the record of the edit is free, and the edit leaves it of a known kind
/// and platform and with no tag twice.
pub open spec fn entry_updatable(
    s: StoreView,
    entry: Seq<char>,
    history: Seq<char>,
    input: LedgerEntryInputView,
) -> bool {
    &&& has_key(s.ledger_entries, by_entry_id(), entry)
    &&& entry_fields_ok(input.fields)
    &&& input.tags.no_duplicates()
    &&& !has_key(s.ledger_history, by_history_id(), history)
}

/// The stored row of the entry `entry`.
pub open spec fn entry_row(s: StoreView, entry: Seq<char>) -> LedgerEntryRowView {
    s.ledger_entries[position(s.ledger_entries, keyed(by_entry_id(), entry))]
}

/// The entry `entry` as it is stored, with its tags in stored order.
pub open spec fn entry_stored(s: StoreView, entry: Seq<char>) -> LedgerEntryView {
    entry_state(entry_row(s, entry), stored_tags(s.ledger_tags, entry))
}

/// The store after lapsed passwords were cleared and the entry `entry` was
/// edited: its fields are those handed in, its tags are replaced by those
/// handed in, and one record of the edit is added, which holds the entry as
/// it was and as it is.
pub open spec fn entry_updated(
    s: StoreView,
    entry: Seq<char>,
    history: Seq<char>,
    input: LedgerEntryInputView,
    now: Seq<char>,
) -> StoreView {
    let row = entry_edited(entry_row(s, entry), input.fields, now);
    StoreView {
        ledger_accounts: purged(s, now).ledger_accounts,
        ledger_entries: s.ledger_entries.update(
            position(s.ledger_entries, keyed(by_entry_id(), entry)),
            row,
        ),
        ledger_tags: s.ledger_tags.filter(not_keyed(ledger_tag_entry(), entry)) + tags_made(
            entry,
            input.tags,
            now,
        ),
        ledger_history: s.ledger_history.push(
            history_made(
                history,
                entry,
                HistoryAction::Update,
                Some(entry_stored(s, entry)),
                Some(entry_state(row, input.tags)),
                now,
            ),
        ),
        ..s
    }
}

/// Whether the entry `entry` can be deleted: it exists, and the identifier
/// of the record of the deletion is free.
pub open spec fn entry_deletable(s: StoreView, entry: Seq<char>, history: Seq<char>) -> bool {
    &&& has_key(s.ledger_entries, by_entry_id(), entry)
    &&& !has_key(s.ledger_history, by_history_id(), history)
}

/// The store after lapsed passwords were cleared and the entry `entry` was
/// deleted: the entry and its tags are gone, and one record of the deletion
/// is added, which holds the entry as it was and nothing after it. The
/// records of earlier changes stay.
pub open spec fn entry_deleted(
    s: StoreView,
    entry: Seq<char>,
    history: Seq<char>,
    now: Seq<char>,
) -> StoreView {
    StoreView {
        ledger_accounts: purged(s, now).ledger_accounts,
        ledger_entries: s.ledger_entries.filter(not_keyed(by_entry_id(), entry)),
        ledger_tags: s.ledger_tags.filter(not_keyed(ledger_tag_entry(), entry)),
        ledger_history: s.ledger_history.push(
            history_made(
                history,
                entry,
                HistoryAction::Delete,
                Some(entry_stored(s, entry)),
                None,
                now,
            ),
        ),
        ..s
    }
}

/// Why an entry that cannot be created is refused, the first rule that
/// is broken: its identifier is taken, its account does not exist, it is of
/// no known kind or platform, a tag comes twice, or the identifier of the
/// record is taken.
pub open spec fn entry_create_refused(
    s: StoreView,
    entry: Seq<char>,
    history: Seq<char>,
    account: Seq<char>,
    input: LedgerEntryInputView,
) -> StoreError {
    if has_key(s.ledger_entries, by_entry_id(), entry) {
        StoreError::Constraint(Rule::IdentifierTaken)
    } else if !has_key(s.ledger_accounts, by_account_id(), account) {
        StoreError::Constraint(Rule::AccountMissing)
    } else if !entry_fields_ok(input.fields) {
        StoreError::Constraint(Rule::EntryFields)
    } else if !input.tags.no_duplicates() {
        StoreError::Constraint(Rule::TagTwice)
    } else {
        StoreError::Constraint(Rule::IdentifierTaken)
    }
}

/// Why an edit that cannot be made is refused, the first reason that
/// holds: the entry was not found, the edit makes it of no known kind or
/// platform, a tag comes twice, or the identifier of the record is taken.
pub open spec fn entry_update_refused(
    s: StoreView,
    entry: Seq<char>,
    history: Seq<char>,
    input: LedgerEntryInputView,
) -> StoreError {
    if !has_key(s.ledger_entries, by_entry_id(), entry) {
        StoreError::NotFound
    } else if !entry_fields_ok(input.fields) {
        StoreError::Constraint(Rule::EntryFields)
    } else if !input.tags.no_duplicates() {
        StoreError::Constraint(Rule::TagTwice)
    } else {
        StoreError::Constraint(Rule::IdentifierTaken)
    }
}

/// Why a deletion that cannot be made is refused: the entry was not found,
/// or else the identifier of the record is taken.
pub open spec fn entry_delete_refused(s: StoreView, entry: Seq<char>, history: Seq<char>) -> StoreError {
    if !has_key(s.ledger_entries, by_entry_id(), entry) {
        StoreError::NotFound
    } else {
        StoreError::Constraint(Rule::IdentifierTaken)
    }
}

/// Tags that are in order stay in order when the tags of one entry, which
/// has none among them, are added, none of them twice.
proof fn lemma_tags_added(
    tags: Seq<LedgerTagView>,
    entries: Seq<LedgerEntryRowView>,
    entry: Seq<char>,
    added: Seq<Seq<char>>,
    now: Seq<char>,
)
    requires
        distinct_by(tags, ledger_tag_key()),
        refers_into(tags, ledger_tag_entry(), entries, by_entry_id()),
        forall|i: int| 0 <= i < tags.len() ==> (#[trigger] tags[i]).entry_id != entry,
        has_key(entries, by_entry_id(), entry) || added.len() == 0,
        added.no_duplicates(),
    ensures
        distinct_by(tags + tags_made(entry, added, now), ledger_tag_key()),
        refers_into(tags + tags_made(entry, added, now), ledger_tag_entry(), entries, by_entry_id()),
{
    let made = tags_made(entry, added, now);
    let out = tags + made;
    assert forall|i: int, j: int| 0 <= i < j < out.len() implies ledger_tag_key()(out[i])
        != ledger_tag_key()(out[j]) by {
        if j < tags.len() {
            assert(out[i] == tags[i] && out[j] == tags[j]);
        } else if i < tags.len() {
            assert(out[i] == tags[i]);
            assert(out[j] == made[j - tags.len()]);
        } else {
            assert(out[i] == made[i - tags.len()]);
            assert(out[j] == made[j - tags.len()]);
            assert(added[i - tags.len()] != added[j - tags.len()]);
        }
    }
    assert forall|i: int| 0 <= i < out.len() implies has_key(
        entries,
        by_entry_id(),
        ledger_tag_entry()(#[trigger] out[i]),
    ) by {
        if i < tags.len() {
            assert(out[i] == tags[i]);
            assert(has_key(entries, by_entry_id(), ledger_tag_entry()(tags[i])));
        } else {
            assert(out[i] == made[i - tags.len()]);
        }
    }
}

/// History rows keep distinct identifiers when one is added under a free
/// identifier.
proof fn lemma_history_added(history: Seq<LedgerHistoryView>, row: LedgerHistoryView)
    requires
        distinct_by(history, by_history_id()),
        !has_key(history, by_history_id(), row.id),
    ensures
        distinct_by(history.push(row), by_history_id()),
{
    let out = history.push(row);
    assert forall|i: int, j: int| 0 <= i < j < out.len() implies by_history_id()(out[i])
        != by_history_id()(out[j]) by {
        assert(out[i] == history[i]);
        if j < history.len() {
            assert(out[j] == history[j]);
        } else {
            assert(by_history_id()(history[i]) != row.id);
        }
    }
}

/// A store that is in order stays in order when an entry that can be
/// created is created.
pub proof fn lemma_entry_created_wf(
    s: StoreView,
    entry: Seq<char>,
    history: Seq<char>,
    account: Seq<char>,
    input: LedgerEntryInputView,
    now: Seq<char>,
)
    requires
        s.wf(),
        entry_creatable(s, entry, history, account, input),
    ensures
        entry_created(s, entry, history, account, input, now).wf(),
{
    let out = entry_created(s, entry, history, account, input, now);
    let row = entry_made(entry, account, input.fields, now);
    lemma_purged(s, now);
    assert forall|i: int, j: int| 0 <= i < j < out.ledger_entries.len() implies by_entry_id()(
        out.ledger_entries[i],
    ) != by_entry_id()(out.ledger_entries[j]) by {
        assert(out.ledger_entries[i] == s.ledger_entries[i]);
        if j < s.ledger_entries.len() {
            assert(out.ledger_entries[j] == s.ledger_entries[j]);
        } else {
            assert(by_entry_id()(s.ledger_entries[i]) != entry);
        }
    }
    assert forall|i: int| 0 <= i < out.ledger_entries.len() implies has_key(
        out.ledger_accounts,
        by_account_id(),
        entry_account()(#[trigger] out.ledger_entries[i]),
    ) && entry_fields_ok(out.ledger_entries[i].fields) by {
        if i < s.ledger_entries.len() {
            assert(out.ledger_entries[i] == s.ledger_entries[i]);
            assert(has_key(s.ledger_accounts, by_account_id(), entry_account()(s.ledger_entries[i])));
        }
    }
    assert forall|k: Seq<char>| has_key(s.ledger_entries, by_entry_id(), k) implies has_key(
        out.ledger_entries,
        by_entry_id(),
        k,
    ) by {
        let w = choose|w: int|
            0 <= w < s.ledger_entries.len() && by_entry_id()(#[trigger] s.ledger_entries[w]) == k;
        assert(out.ledger_entries[w] == s.ledger_entries[w]);
    }
    assert(has_key(out.ledger_entries, by_entry_id(), entry)) by {
        assert(by_entry_id()(out.ledger_entries[s.ledger_entries.len() as int]) == entry);
    }
    lemma_refers_kept(
        s.ledger_tags,
        ledger_tag_entry(),
        s.ledger_entries,
        out.ledger_entries,
        by_entry_id(),
    );
    assert forall|i: int| 0 <= i < s.ledger_tags.len() implies (#[trigger] s.ledger_tags[i]).entry_id
        != entry by {
        assert(has_key(s.ledger_entries, by_entry_id(), ledger_tag_entry()(s.ledger_tags[i])));
    }
    lemma_tags_added(s.ledger_tags, out.ledger_entries, entry, input.tags, now);
    lemma_history_added(s.ledger_history, out.ledger_history.last());
}

/// A store that is in order stays in order when an entry that can be
/// edited is edited.
pub proof fn lemma_entry_updated_wf(
    s: StoreView,
    entry: Seq<char>,
    history: Seq<char>,
    input: LedgerEntryInputView,
    now: Seq<char>,
)
    requires
        s.wf(),
        entry_updatable(s, entry, history, input),
    ensures
        entry_updated(s, entry, history, input, now).wf(),
{
    let out = entry_updated(s, entry, history, input, now);
    lemma_purged(s, now);
    lemma_keyed_position(s.ledger_entries, by_entry_id(), entry);
    let at = position(s.ledger_entries, keyed(by_entry_id(), entry));
    assert forall|i: int| 0 <= i < s.ledger_entries.len() implies (#[trigger] out.ledger_entries[i]).id
        == s.ledger_entries[i].id && out.ledger_entries[i].account_id
        == s.ledger_entries[i].account_id by {}
    assert forall|i: int, j: int| 0 <= i < j < out.ledger_entries.len() implies by_entry_id()(
        out.ledger_entries[i],
    ) != by_entry_id()(out.ledger_entries[j]) by {
        assert(by_entry_id()(s.ledger_entries[i]) != by_entry_id()(s.ledger_entries[j]));
    }
    assert forall|i: int| 0 <= i < out.ledger_entries.len() implies has_key(
        out.ledger_accounts,
        by_account_id(),
        entry_account()(#[trigger] out.ledger_entries[i]),
    ) && entry_fields_ok(out.ledger_entries[i].fields) by {
        assert(has_key(s.ledger_accounts, by_account_id(), entry_account()(s.ledger_entries[i])));
        if i != at {
            assert(out.ledger_entries[i] == s.ledger_entries[i]);
        }
    }
    assert forall|k: Seq<char>| has_key(s.ledger_entries, by_entry_id(), k) implies has_key(
        out.ledger_entries,
        by_entry_id(),
        k,
    ) by {
        let w = choose|w: int|
            0 <= w < s.ledger_entries.len() && by_entry_id()(#[trigger] s.ledger_entries[w]) == k;
        assert(by_entry_id()(out.ledger_entries[w]) == k);
    }
    let keep = not_keyed(ledger_tag_entry(), entry);
    lemma_filter_keys(s.ledger_tags, keep, ledger_tag_key());
    let kept = s.ledger_tags.filter(keep);
    assert forall|i: int| 0 <= i < kept.len() implies has_key(
        out.ledger_entries,
        by_entry_id(),
        ledger_tag_entry()(#[trigger] kept[i]),
    ) && kept[i].entry_id != entry by {
        assert(s.ledger_tags.contains(kept[i]));
        let j = choose|j: int| 0 <= j < s.ledger_tags.len() && s.ledger_tags[j] == kept[i];
        assert(has_key(s.ledger_entries, by_entry_id(), ledger_tag_entry()(s.ledger_tags[j])));
        assert(keep(kept[i]));
    }
    lemma_tags_added(kept, out.ledger_entries, entry, input.tags, now);
    lemma_history_added(s.ledger_history, out.ledger_history.last());
}

/// A store that is in order stays in order when an entry that can be
/// deleted is deleted.
pub proof fn lemma_entry_deleted_wf(s: StoreView, entry: Seq<char>, history: Seq<char>, now: Seq<char>)
    requires
        s.wf(),
        entry_deletable(s, entry, history),
    ensures
        entry_deleted(s, entry, history, now).wf(),
{
    let out = entry_deleted(s, entry, history, now);
    lemma_purged(s, now);
    let keep = not_keyed(by_entry_id(), entry);
    lemma_filter_keys(s.ledger_entries, keep, by_entry_id());
    assert forall|i: int| 0 <= i < out.ledger_entries.len() implies has_key(
        out.ledger_accounts,
        by_account_id(),
        entry_account()(#[trigger] out.ledger_entries[i]),
    ) && entry_fields_ok(out.ledger_entries[i].fields) by {
        assert(s.ledger_entries.contains(out.ledger_entries[i]));
        let j = choose|j: int|
            0 <= j < s.ledger_entries.len() && s.ledger_entries[j] == out.ledger_entries[i];
        assert(has_key(s.ledger_accounts, by_account_id(), entry_account()(s.ledger_entries[j])));
    }
    lemma_filter_keys(s.ledger_tags, not_keyed(ledger_tag_entry(), entry), ledger_tag_key());
    lemma_filter_refers(
        s.ledger_tags,
        not_keyed(ledger_tag_entry(), entry),
        ledger_tag_entry(),
        s.ledger_entries,
        keep,
        by_entry_id(),
    );
    lemma_history_added(s.ledger_history, out.ledger_history.last());
}

/// Whether the fields of an entry are of a known kind and platform.
pub(crate) fn fields_ok(f: &EntryFields) -> (r: bool)
    ensures
        r == entry_fields_ok(f@),
{
    let kind = text_eq(f.kind.as_str(), "income") || text_eq(f.kind.as_str(), "expense");
    let platform = match &f.platform {
        Some(p) => text_eq(p.as_str(), "offline") || text_eq(p.as_str(), "online_shopping")
            || text_eq(p.as_str(), "social") || text_eq(p.as_str(), "app") || text_eq(
            p.as_str(),
            "subscription",
        ) || text_eq(p.as_str(), "etc"),
        None => true,
    };
    kind && platform
}

/// Adds a row for each of the tags `tags` of the entry `entry`.
fn push_tags(table: &mut Vec<LedgerTag>, entry: &String, tags: &Vec<String>, now: &String)
    ensures
        final(table).deep_view() == old(table).deep_view() + tags_made(
            entry@,
            tags.deep_view(),
            now@,
        ),
{
    let ghost before = table.deep_view();
    let ghost made = tags_made(entry@, tags.deep_view(), now@);
    let mut i: usize = 0;
    proof {
        assert(table.deep_view() =~= before + made.take(0));
    }
    while i < tags.len()
        invariant
            i <= tags.len(),
            made == tags_made(entry@, tags.deep_view(), now@),
            table.deep_view() =~= before + made.take(i as int),
        decreases tags.len() - i,
    {
        let row = LedgerTag { entry_id: entry.clone(), tag: tags[i].clone(), created_at: now.clone() };
        let ghost prior = *table;
        table.push(row);
        proof {
            lemma_pushed(prior, *table, row);
            assert(row@ == made[i as int]);
            assert(made.take(i as int + 1) =~= made.take(i as int).push(made[i as int]));
        }
        i += 1;
    }
    proof {
        assert(made.take(i as int) =~= made);
    }
}

/// The tags of the entry `entry`, in the order they were stored.
fn tags_of(table: &Vec<LedgerTag>, entry: &String) -> (r: Vec<String>)
    ensures
        r.deep_view() == stored_tags(table.deep_view(), entry@),
{
    let picked = select_rows(
        table,
        |t: &LedgerTag| -> (b: bool)
            ensures b == (t@.entry_id == entry@)
        {
            t.entry_id == *entry
        },
        Ghost(keyed(ledger_tag_entry(), entry@)),
    );
    let mut out: Vec<String> = Vec::new();
    let mut i: usize = 0;
    while i < picked.len()
        invariant
            i <= picked.len(),
            out.deep_view() =~= picked.deep_view().take(i as int).map_values(
                |t: LedgerTagView| t.tag,
            ),
        decreases picked.len() - i,
    {
        let tag = picked[i].tag.clone();
        let ghost prior = out;
        out.push(tag);
        proof {
            lemma_pushed(prior, out, tag);
            lemma_map_step(picked.deep_view(), |t: LedgerTagView| t.tag, i as int);
        }
        i += 1;
    }
    proof {
        assert(picked.deep_view().take(i as int) =~= picked.deep_view());
    }
    out
}

/// The entry that the stored row `row` and the tags `tags` make up.
fn make_entry(row: &LedgerEntryRow, tags: Vec<String>) -> (r: LedgerEntry)
    ensures
        r@ == entry_state(row@, tags.deep_view()),
{
    LedgerEntry {
        id: row.id.clone(),
        account_id: row.account_id.clone(),
        fields: row.fields.clone(),
        tags,
        created_at: row.created_at.clone(),
        updated_at: row.updated_at.clone(),
    }
}

/// Whether a row with the identifier `id` is in `rows`.
fn has_history(rows: &Vec<LedgerHistory>, id: &String) -> (r: bool)
    ensures
        r == has_key(rows.deep_view(), by_history_id(), id@),
{
    let at = find_row(
        rows,
        |h: &LedgerHistory| -> (b: bool)
            ensures b == (h@.id == id@)
        {
            h.id == *id
        },
        Ghost(keyed(by_history_id(), id@)),
    );
    proof {
        lemma_keyed_position(rows.deep_view(), by_history_id(), id@);
    }
    at < rows.len()
}

/// The index of the entry `id` in `rows`, or their number.
fn find_entry(rows: &Vec<LedgerEntryRow>, id: &String) -> (r: usize)
    ensures
        r as int == position(rows.deep_view(), keyed(by_entry_id(), id@)),
        r <= rows.len(),
        r < rows.len() <==> has_key(rows.deep_view(), by_entry_id(), id@),
{
    let at = find_row(
        rows,
        |e: &LedgerEntryRow| -> (b: bool)
            ensures b == (e@.id == id@)
        {
            e.id == *id
        },
        Ghost(keyed(by_entry_id(), id@)),
    );
    proof {
        lemma_keyed_position(rows.deep_view(), by_entry_id(), id@);
    }
    at
}

/// Whether an account with the identifier `id` is in `rows`.
fn has_account(rows: &Vec<LedgerAccount>, id: &String) -> (r: bool)
    ensures
        r == has_key(rows.deep_view(), by_account_id(), id@),
{
    let at = find_row(
        rows,
        |a: &LedgerAccount| -> (b: bool)
            ensures b == (a@.id == id@)
        {
            a.id == *id
        },
        Ghost(keyed(by_account_id(), id@)),
    );
    proof {
        lemma_keyed_position(rows.deep_view(), by_account_id(), id@);
    }
    at < rows.len()
}

/// Creates an entry of the account `account_id` under the identifier
/// `entry_id`, as of the time `now`, and records the creation under
/// `history_id`. Lapsed passwords are cleared on the way. Refused, with
/// nothing changed, when the entry cannot be created.
pub fn create_ledger_entry_at(
    store: &mut Store,
    entry_id: String,
    history_id: String,
    account_id: &str,
    entry: LedgerEntryInput,
    now: &str,
) -> (r: Result<String, StoreError>)
    requires
        old(store).wf(),
    ensures
        final(store).wf(),
        r is Ok <==> entry_creatable(old(store)@, entry_id@, history_id@, account_id@, entry@),
        r matches Ok(v) ==> v@ == entry_id@ && final(store)@ == entry_created(
            old(store)@,
            entry_id@,
            history_id@,
            account_id@,
            entry@,
            now@,
        ),
        r matches Err(e) ==> e == entry_create_refused(
            old(store)@,
            entry_id@,
            history_id@,
            account_id@,
            entry@,
        ) && final(store)@ == old(store)@,
{
    let account = account_id.to_owned();
    let now = now.to_owned();
    let ghost s0 = store@;
    if find_entry(&store.ledger_entries, &entry_id) < store.ledger_entries.len() {
        return Err(StoreError::Constraint(Rule::IdentifierTaken));
    }
    if !has_account(&store.ledger_accounts, &account) {
        return Err(StoreError::Constraint(Rule::AccountMissing));
    }
    if !fields_ok(&entry.fields) {
        return Err(StoreError::Constraint(Rule::EntryFields));
    }
    if !texts_distinct(&entry.tags) {
        return Err(StoreError::Constraint(Rule::TagTwice));
    }
    if has_history(&store.ledger_history, &history_id) {
        return Err(StoreError::Constraint(Rule::IdentifierTaken));
    }
    proof {
        lemma_entry_created_wf(s0, entry_id@, history_id@, account@, entry@, now@);
    }
    purge_expired(&mut store.ledger_accounts, &now);
    let row = LedgerEntryRow {
        id: entry_id.clone(),
        account_id: account,
        fields: entry.fields,
        created_at: now.clone(),
        updated_at: now.clone(),
    };
    push_tags(&mut store.ledger_tags, &entry_id, &entry.tags, &now);
    let after = make_entry(&row, entry.tags);
    let record = LedgerHistory {
        id: history_id,
        entry_id: entry_id.clone(),
        action: HistoryAction::Create,
        snapshot_before: None,
        snapshot_after: Some(after),
        created_at: now,
    };
    let ghost entries = store.ledger_entries;
    store.ledger_entries.push(row);
    let ghost records = store.ledger_history;
    store.ledger_history.push(record);
    proof {
        lemma_pushed(entries, store.ledger_entries, row);
        lemma_pushed(records, store.ledger_history, record);
        assert(store@ =~= entry_created(s0, entry_id@, history_id@, account_id@, entry@, now@));
    }
    Ok(entry_id)
}

/// Edits the entry `entry_id` to what `entry` says, as of the time `now`,
/// and records the edit under `history_id`. Lapsed passwords are cleared on
/// the way. Where there is no such entry the answer is that it was not
/// found; where the edit cannot be made it is refused. Either way nothing
/// changes then.
pub fn update_ledger_entry_at(
    store: &mut Store,
    entry_id: &str,
    history_id: String,
    entry: LedgerEntryInput,
    now: &str,
) -> (r: Result<(), StoreError>)
    requires
        old(store).wf(),
    ensures
        final(store).wf(),
        r is Ok <==> entry_updatable(old(store)@, entry_id@, history_id@, entry@),
        r is Ok ==> final(store)@ == entry_updated(
            old(store)@,
            entry_id@,
            history_id@,
            entry@,
            now@,
        ),
        r matches Err(e) ==> final(store)@ == old(store)@ && e == entry_update_refused(
            old(store)@,
            entry_id@,
            history_id@,
            entry@,
        ),
{
    let id = entry_id.to_owned();
    let now = now.to_owned();
    let ghost s0 = store@;
    let at = find_entry(&store.ledger_entries, &id);
    if at >= store.ledger_entries.len() {
        return Err(StoreError::NotFound);
    }
    if !fields_ok(&entry.fields) {
        return Err(StoreError::Constraint(Rule::EntryFields));
    }
    if !texts_distinct(&entry.tags) {
        return Err(StoreError::Constraint(Rule::TagTwice));
    }
    if has_history(&store.ledger_history, &history_id) {
        return Err(StoreError::Constraint(Rule::IdentifierTaken));
    }
    proof {
        lemma_entry_updated_wf(s0, id@, history_id@, entry@, now@);
    }
    purge_expired(&mut store.ledger_accounts, &now);
    let before = make_entry(&store.ledger_entries[at], tags_of(&store.ledger_tags, &id));
    store.ledger_entries[at].fields = entry.fields;
    store.ledger_entries[at].updated_at = now.clone();
    proof {
        assert(store.ledger_entries.deep_view() =~= s0.ledger_entries.update(
            at as int,
            entry_edited(entry_row(s0, id@), entry@.fields, now@),
        ));
    }
    retain_rows(
        &mut store.ledger_tags,
        |t: &LedgerTag| -> (b: bool)
            ensures b == (t@.entry_id != id@)
        {
            !(t.entry_id == id)
        },
        Ghost(not_keyed(ledger_tag_entry(), id@)),
    );
    push_tags(&mut store.ledger_tags, &id, &entry.tags, &now);
    let after = make_entry(&store.ledger_entries[at], entry.tags);
    let record = LedgerHistory {
        id: history_id,
        entry_id: id,
        action: HistoryAction::Update,
        snapshot_before: Some(before),
        snapshot_after: Some(after),
        created_at: now,
    };
    let ghost records = store.ledger_history;
    store.ledger_history.push(record);
    proof {
        lemma_pushed(records, store.ledger_history, record);
        assert(store@ =~= entry_updated(s0, entry_id@, history_id@, entry@, now@));
    }
    Ok(())
}

/// Deletes the entry `entry_id` and its tags, as of the time `now`, and
/// records the deletion under `history_id`. Lapsed passwords are cleared on
/// the way. Where there is no such entry the answer is that it was not
/// found; where the record's identifier is taken the deletion is refused.
/// Either way nothing changes then.
pub fn delete_ledger_entry_at(store: &mut Store, entry_id: &str, history_id: String, now: &str) -> (r:
    Result<(), StoreError>)
    requires
        old(store).wf(),
    ensures
        final(store).wf(),
        r is Ok <==> entry_deletable(old(store)@, entry_id@, history_id@),
        r is Ok ==> final(store)@ == entry_deleted(old(store)@, entry_id@, history_id@, now@),
        r matches Err(e) ==> final(store)@ == old(store)@ && e == entry_delete_refused(
            old(store)@,
            entry_id@,
            history_id@,
        ),
{
    let id = entry_id.to_owned();
    let now = now.to_owned();
    let ghost s0 = store@;
    let at = find_entry(&store.ledger_entries, &id);
    if at >= store.ledger_entries.len() {
        return Err(StoreError::NotFound);
    }
    if has_history(&store.ledger_history, &history_id) {
        return Err(StoreError::Constraint(Rule::IdentifierTaken));
    }
    proof {
        lemma_entry_deleted_wf(s0, id@, history_id@, now@);
    }
    purge_expired(&mut store.ledger_accounts, &now);
    let before = make_entry(&store.ledger_entries[at], tags_of(&store.ledger_tags, &id));
    let record = LedgerHistory {
        id: history_id,
        entry_id: id.clone(),
        action: HistoryAction::Delete,
        snapshot_before: Some(before),
        snapshot_after: None,
        created_at: now,
    };
    let ghost records = store.ledger_history;
    store.ledger_history.push(record);
    retain_rows(
        &mut store.ledger_entries,
        |e: &LedgerEntryRow| -> (b: bool)
            ensures b == (e@.id != id@)
        {
            !(e.id == id)
        },
        Ghost(not_keyed(by_entry_id(), id@)),
    );
    retain_rows(
        &mut store.ledger_tags,
        |t: &LedgerTag| -> (b: bool)
            ensures b == (t@.entry_id != id@)
        {
            !(t.entry_id == id)
        },
        Ghost(not_keyed(ledger_tag_entry(), id@)),
    );
    proof {
        lemma_pushed(records, store.ledger_history, record);
        assert(store@ =~= entry_deleted(s0, entry_id@, history_id@, now@));
    }
    Ok(())
}

/// Creates an entry of the account `account_id`, under a fresh identifier
/// and as of the current time, and returns the identifier.
pub fn create_ledger_entry(store: &mut Store, account_id: &str, entry: LedgerEntryInput) -> (r:
    Result<String, StoreError>)
    requires
        old(store).wf(),
    ensures
        final(store).wf(),
        r matches Ok(v) ==> exists|history: Seq<char>, now: Seq<char>|
            entry_creatable(old(store)@, v@, history, account_id@, entry@) && final(store)@
                == entry_created(old(store)@, v@, history, account_id@, entry@, now),
        r matches Err(e) ==> final(store)@ == old(store)@ && exists|id: Seq<char>, history: Seq<char>|
            !entry_creatable(old(store)@, id, history, account_id@, entry@) && e
                == #[trigger] entry_create_refused(old(store)@, id, history, account_id@, entry@),
{
    let entry_id = fresh_id();
    let history_id = fresh_id();
    let now = utc_now();
    let ghost s0 = store@;
    let ghost input = entry@;
    let ghost id = entry_id@;
    let r = create_ledger_entry_at(store, entry_id, history_id, account_id, entry, now.as_str());
    proof {
        if r is Err {
            assert(!entry_creatable(s0, id, history_id@, account_id@, input) && r->Err_0
                == entry_create_refused(s0, id, history_id@, account_id@, input));
        }
        if r is Ok {
            let v = r->Ok_0;
            assert(entry_creatable(s0, v@, history_id@, account_id@, input) && store@
                == entry_created(s0, v@, history_id@, account_id@, input, now@));
        }
    }
    r
}

/// Edits the entry `entry_id` to what `entry` says, as of the current time.
pub fn update_ledger_entry(store: &mut Store, entry_id: &str, entry: LedgerEntryInput) -> (r: Result<
    (),
    StoreError,
>)
    requires
        old(store).wf(),
    ensures
        final(store).wf(),
        r is Ok ==> exists|history: Seq<char>, now: Seq<char>|
            entry_updatable(old(store)@, entry_id@, history, entry@) && final(store)@
                == entry_updated(old(store)@, entry_id@, history, entry@, now),
        r matches Err(e) ==> final(store)@ == old(store)@ && exists|history: Seq<char>|
            !entry_updatable(old(store)@, entry_id@, history, entry@) && e
                == #[trigger] entry_update_refused(old(store)@, entry_id@, history, entry@),
{
    let history_id = fresh_id();
    let now = utc_now();
    let ghost s0 = store@;
    let ghost input = entry@;
    let r = update_ledger_entry_at(store, entry_id, history_id, entry, now.as_str());
    proof {
        if r is Err {
            assert(!entry_updatable(s0, entry_id@, history_id@, input) && r->Err_0
                == entry_update_refused(s0, entry_id@, history_id@, input));
        }
        if r is Ok {
            assert(entry_updatable(s0, entry_id@, history_id@, input) && store@ == entry_updated(
                s0,
                entry_id@,
                history_id@,
                input,
                now@,
            ));
        }
    }
    r
}

/// Deletes the entry `entry_id` and its tags, as of the current time.
pub fn delete_ledger_entry(store: &mut Store, entry_id: &str) -> (r: Result<(), StoreError>)
    requires
        old(store).wf(),
    ensures
        final(store).wf(),
        r is Ok ==> exists|history: Seq<char>, now: Seq<char>|
            entry_deletable(old(store)@, entry_id@, history) && final(store)@ == entry_deleted(
                old(store)@,
                entry_id@,
                history,
                now,
            ),
        r matches Err(e) ==> final(store)@ == old(store)@ && exists|history: Seq<char>|
            !entry_deletable(old(store)@, entry_id@, history) && e
                == #[trigger] entry_delete_refused(old(store)@, entry_id@, history),
{
    let history_id = fresh_id();
    let now = utc_now();
    let ghost s0 = store@;
    let r = delete_ledger_entry_at(store, entry_id, history_id, now.as_str());
    proof {
        if r is Err {
            assert(!entry_deletable(s0, entry_id@, history_id@) && r->Err_0 == entry_delete_refused(
                s0,
                entry_id@,
                history_id@,
            ));
        }
        if r is Ok {
            assert(entry_deletable(s0, entry_id@, history_id@) && store@ == entry_deleted(
                s0,
                entry_id@,
                history_id@,
                now@,
            ));
        }
    }
    r
}

/// The tags that an entry is stored with are the tags it was given, where
/// no tag of the entry was among `tags` before.
proof fn lemma_stored_tags_made(
    tags: Seq<LedgerTagView>,
    entry: Seq<char>,
    given: Seq<Seq<char>>,
    now: Seq<char>,
)
    requires
        forall|i: int| 0 <= i < tags.len() ==> (#[trigger] tags[i]).entry_id != entry,
    ensures
        stored_tags(tags + tags_made(entry, given, now), entry) == given,
{
    let made = tags_made(entry, given, now);
    let mine = keyed(ledger_tag_entry(), entry);
    Seq::filter_distributes_over_add(tags, made, mine);
    assert(tags.filter(mine).len() == 0) by {
        lemma_filter_keys(tags, mine, ledger_tag_entry());
        if tags.filter(mine).len() > 0 {
            let x = tags.filter(mine)[0];
            assert(mine(x));
            assert(tags.contains(x));
        }
    }
    lemma_filter_all(made, mine);
    assert(tags.filter(mine) + made =~= made);
    assert(made.map_values(|t: LedgerTagView| t.tag) =~= given);
}

/// Every change to an entry adds exactly one record, and the records tell
/// the entry's story without a gap:
/// a creation records nothing before and the new entry after, which is the
/// entry as handed in and as it is then stored;
/// an edit records the entry as it was stored before and as it is stored
/// after, with the fields and tags handed in;
/// a deletion records the entry as it was stored before and nothing after,
/// and the entry is gone.
/// Records that were there stay as they were.
pub proof fn lemma_entry_history(
    s: StoreView,
    entry: Seq<char>,
    history: Seq<char>,
    account: Seq<char>,
    input: LedgerEntryInputView,
    now: Seq<char>,
)
    requires
        s.wf(),
    ensures
        entry_creatable(s, entry, history, account, input) ==> ({
            let out = entry_created(s, entry, history, account, input, now);
            let record = out.ledger_history.last();
            &&& out.ledger_history == s.ledger_history.push(record)
            &&& record.entry_id == entry
            &&& record.action == HistoryAction::Create
            &&& record.snapshot_before is None
            &&& record.snapshot_after == Some(entry_stored(out, entry))
            &&& entry_stored(out, entry).fields == input.fields
            &&& entry_stored(out, entry).tags == input.tags
            &&& entry_stored(out, entry).account_id == account
        }),
        entry_updatable(s, entry, history, input) ==> ({
            let out = entry_updated(s, entry, history, input, now);
            let record = out.ledger_history.last();
            &&& out.ledger_history == s.ledger_history.push(record)
            &&& record.entry_id == entry
            &&& record.action == HistoryAction::Update
            &&& record.snapshot_before == Some(entry_stored(s, entry))
            &&& record.snapshot_after == Some(entry_stored(out, entry))
            &&& entry_stored(out, entry).fields == input.fields
            &&& entry_stored(out, entry).tags == input.tags
            &&& entry_stored(out, entry).account_id == entry_stored(s, entry).account_id
            &&& entry_stored(out, entry).created_at == entry_stored(s, entry).created_at
        }),
        entry_deletable(s, entry, history) ==> ({
            let out = entry_deleted(s, entry, history, now);
            let record = out.ledger_history.last();
            &&& out.ledger_history == s.ledger_history.push(record)
            &&& record.entry_id == entry
            &&& record.action == HistoryAction::Delete
            &&& record.snapshot_before == Some(entry_stored(s, entry))
            &&& record.snapshot_after is None
            &&& !has_key(out.ledger_entries, by_entry_id(), entry)
        }),
{
    let mine = keyed(by_entry_id(), entry);
    if entry_creatable(s, entry, history, account, input) {
        let out = entry_created(s, entry, history, account, input, now);
        lemma_keyed_position(s.ledger_entries, by_entry_id(), entry);
        assert forall|j: int| 0 <= j < s.ledger_entries.len() implies !mine(
            #[trigger] out.ledger_entries[j],
        ) by {
            assert(out.ledger_entries[j] == s.ledger_entries[j]);
            assert(by_entry_id()(s.ledger_entries[j]) != entry);
        }
        assert(mine(out.ledger_entries[s.ledger_entries.len() as int]));
        lemma_position_is(out.ledger_entries, mine, s.ledger_entries.len() as int);
        assert forall|i: int| 0 <= i < s.ledger_tags.len() implies (#[trigger] s.ledger_tags[i]).entry_id
            != entry by {
            assert(has_key(s.ledger_entries, by_entry_id(), ledger_tag_entry()(s.ledger_tags[i])));
        }
        lemma_stored_tags_made(s.ledger_tags, entry, input.tags, now);
    }
    if entry_updatable(s, entry, history, input) {
        let out = entry_updated(s, entry, history, input, now);
        lemma_keyed_position(s.ledger_entries, by_entry_id(), entry);
        let at = position(s.ledger_entries, mine);
        assert forall|j: int| 0 <= j < at implies !mine(#[trigger] out.ledger_entries[j]) by {
            assert(out.ledger_entries[j] == s.ledger_entries[j]);
            assert(by_entry_id()(s.ledger_entries[j]) != entry);
        }
        assert(mine(out.ledger_entries[at]));
        lemma_position_is(out.ledger_entries, mine, at);
        let kept = s.ledger_tags.filter(not_keyed(ledger_tag_entry(), entry));
        lemma_filter_keys(s.ledger_tags, not_keyed(ledger_tag_entry(), entry), ledger_tag_entry());
        assert forall|i: int| 0 <= i < kept.len() implies (#[trigger] kept[i]).entry_id != entry by {
            assert(not_keyed(ledger_tag_entry(), entry)(kept[i]));
        }
        lemma_stored_tags_made(kept, entry, input.tags, now);
    }
    if entry_deletable(s, entry, history) {
        let out = entry_deleted(s, entry, history, now);
        lemma_filter_keys(s.ledger_entries, not_keyed(by_entry_id(), entry), by_entry_id());
        if has_key(out.ledger_entries, by_entry_id(), entry) {
            let w = choose|w: int|
                0 <= w < out.ledger_entries.len() && by_entry_id()(#[trigger] out.ledger_entries[w])
                    == entry;
            assert(not_keyed(by_entry_id(), entry)(out.ledger_entries[w]));
        }
    }
}

/// A store that is in order stays in order when an account is deleted.
pub proof fn lemma_account_deleted_wf(s: StoreView, id: Seq<char>, now: Seq<char>)
    requires
        s.wf(),
    ensures
        account_deleted(s, id, now).wf(),
{
    let out = account_deleted(s, id, now);
    let p = purged(s, now);
    lemma_purged(s, now);
    lemma_filter_keys(p.ledger_accounts, not_keyed(by_account_id(), id), by_account_id());
    lemma_filter_keys(s.ledger_entries, not_keyed(entry_account(), id), by_entry_id());
    lemma_filter_refers(
        p.ledger_entries,
        not_keyed(entry_account(), id),
        entry_account(),
        p.ledger_accounts,
        not_keyed(by_account_id(), id),
        by_account_id(),
    );
    assert forall|i: int| 0 <= i < out.ledger_entries.len() implies entry_fields_ok(
        (#[trigger] out.ledger_entries[i]).fields,
    ) by {
        assert(s.ledger_entries.contains(out.ledger_entries[i]));
        let j = choose|j: int|
            0 <= j < s.ledger_entries.len() && s.ledger_entries[j] == out.ledger_entries[i];
        assert(entry_fields_ok(s.ledger_entries[j].fields));
    }
    lemma_filter_keys(s.ledger_tags, tag_entry_in(out.ledger_entries), ledger_tag_key());
    assert forall|i: int| 0 <= i < out.ledger_tags.len() implies has_key(
        out.ledger_entries,
        by_entry_id(),
        ledger_tag_entry()(#[trigger] out.ledger_tags[i]),
    ) by {
        assert(tag_entry_in(out.ledger_entries)(out.ledger_tags[i]));
    }
}

/// Clears lapsed passwords, then deletes the account `account_id`, and with
/// it its entries and their tags. The record of changes stays. Where there
/// is no such account, nothing more happens.
pub fn delete_ledger_account_at(store: &mut Store, account_id: &str, now: &str)
    requires
        old(store).wf(),
    ensures
        final(store).wf(),
        final(store)@ == account_deleted(old(store)@, account_id@, now@),
{
    let id = account_id.to_owned();
    let ghost s0 = store@;
    proof {
        lemma_account_deleted_wf(s0, id@, now@);
    }
    check_password_expiry_at(store, now);
    retain_rows(
        &mut store.ledger_accounts,
        |a: &LedgerAccount| -> (b: bool)
            ensures b == (a@.id != id@)
        {
            !(a.id == id)
        },
        Ghost(not_keyed(by_account_id(), id@)),
    );
    retain_rows(
        &mut store.ledger_entries,
        |e: &LedgerEntryRow| -> (b: bool)
            ensures b == (e@.account_id != id@)
        {
            !(e.account_id == id)
        },
        Ghost(not_keyed(entry_account(), id@)),
    );
    let entries = &store.ledger_entries;
    retain_rows(
        &mut store.ledger_tags,
        |t: &LedgerTag| -> (b: bool)
            ensures b == has_key(entries.deep_view(), by_entry_id(), t@.entry_id)
        {
            find_entry(entries, &t.entry_id) < entries.len()
        },
        Ghost(tag_entry_in(entries.deep_view())),
    );
    proof {
        assert(store@ =~= account_deleted(s0, id@, now@));
    }
}

/// Clears the passwords that have lapsed by the current time, then deletes
/// the account `account_id` with its entries and their tags.
pub fn delete_ledger_account(store: &mut Store, account_id: &str)
    requires
        old(store).wf(),
    ensures
        final(store).wf(),
        exists|now: Seq<char>| final(store)@ == account_deleted(old(store)@, account_id@, now),
{
    let now = utc_now();
    delete_ledger_account_at(store, account_id, now.as_str())
}

/// The order of tags in what reads return: as texts sort.
pub open spec fn tag_order() -> spec_fn(Seq<char>, Seq<char>) -> bool {
    |a: Seq<char>, b: Seq<char>| text_lt(a, b)
}

/// The entry of the stored row `row` as reads return it: with its tags in
/// the order of texts.
pub open spec fn entry_shown(s: StoreView, row: LedgerEntryRowView) -> LedgerEntryView {
    entry_state(row, ordered_by(stored_tags(s.ledger_tags, row.id), tag_order()))
}

/// The test for being an entry of `account` whose date starts with `month`,
/// read as a pattern.
pub open spec fn entry_listed(account: Seq<char>, month: Seq<char>) -> spec_fn(
    LedgerEntryRowView,
) -> bool {
    |e: LedgerEntryRowView| e.account_id == account && like(starting_with(month), e.fields.date)
}

/// The order of entry listings: the later date first, and among entries of
/// one date the one created later first.
pub open spec fn entry_newest_first() -> spec_fn(LedgerEntryRowView, LedgerEntryRowView) -> bool {
    |a: LedgerEntryRowView, b: LedgerEntryRowView|
        text_lt(b.fields.date, a.fields.date) || (a.fields.date == b.fields.date && text_lt(
            b.created_at,
            a.created_at,
        ))
}

/// The entries of `account` whose date starts with `month`, newest first.
pub open spec fn entries_listing(s: StoreView, account: Seq<char>, month: Seq<char>) -> Seq<
    LedgerEntryView,
> {
    ordered_by(s.ledger_entries.filter(entry_listed(account, month)), entry_newest_first()).map_values(
        |row: LedgerEntryRowView| entry_shown(s, row),
    )
}

/// The entry `entry` as reads return it, if it exists.
pub open spec fn entry_found(s: StoreView, entry: Seq<char>) -> Option<LedgerEntryView> {
    if has_key(s.ledger_entries, by_entry_id(), entry) {
        Some(entry_shown(s, entry_row(s, entry)))
    } else {
        None
    }
}

/// The order of history listings: the later record first.
pub open spec fn history_newest_first() -> spec_fn(LedgerHistoryView, LedgerHistoryView) -> bool {
    |a: LedgerHistoryView, b: LedgerHistoryView| text_lt(b.created_at, a.created_at)
}

/// The records of the changes to the entry `entry`, the later first.
pub open spec fn history_listing(s: StoreView, entry: Seq<char>) -> Seq<LedgerHistoryView> {
    ordered_by(s.ledger_history.filter(keyed(history_entry(), entry)), history_newest_first())
}

/// The entry of the stored row `row` as reads return it.
fn show_entry(tags: &Vec<LedgerTag>, row: &LedgerEntryRow) -> (r: LedgerEntry)
    ensures
        r@ == entry_state(row@, ordered_by(stored_tags(tags.deep_view(), row@.id), tag_order())),
{
    let stored = tags_of(tags, &row.id);
    let sorted = sort_rows(
        stored,
        |a: &String, b: &String| -> (r: bool)
            ensures r == text_lt(a@, b@)
        {
            text_before(a.as_str(), b.as_str())
        },
        Ghost(tag_order()),
    );
    make_entry(row, sorted)
}

/// Clears lapsed passwords, then returns the entries of the account
/// `account_id` whose date starts with `year_month`: the later date first,
/// and among entries of one date the one created later first, each with its
/// tags in the order of texts.
pub fn list_ledger_entries_at(store: &mut Store, account_id: &str, year_month: &str, now: &str) -> (r:
    Vec<LedgerEntry>)
    requires
        old(store).wf(),
    ensures
        final(store).wf(),
        final(store)@ == purged(old(store)@, now@),
        r.deep_view() == entries_listing(final(store)@, account_id@, year_month@),
{
    check_password_expiry_at(store, now);
    let account = account_id.to_owned();
    let picked = select_rows(
        &store.ledger_entries,
        |e: &LedgerEntryRow| -> (b: bool)
            ensures b == entry_listed(account@, year_month@)(e@)
        {
            e.account_id == account && text_starts_with(e.fields.date.as_str(), year_month)
        },
        Ghost(entry_listed(account@, year_month@)),
    );
    let sorted = sort_rows(
        picked,
        |a: &LedgerEntryRow, b: &LedgerEntryRow| -> (r: bool)
            ensures r == entry_newest_first()(a@, b@)
        {
            text_before(b.fields.date.as_str(), a.fields.date.as_str()) || (a.fields.date
                == b.fields.date && text_before(b.created_at.as_str(), a.created_at.as_str()))
        },
        Ghost(entry_newest_first()),
    );
    let mut out: Vec<LedgerEntry> = Vec::new();
    let mut i: usize = 0;
    while i < sorted.len()
        invariant
            i <= sorted.len(),
            out.deep_view() =~= sorted.deep_view().take(i as int).map_values(
                |row: LedgerEntryRowView| entry_shown(store@, row),
            ),
        decreases sorted.len() - i,
    {
        let shown = show_entry(&store.ledger_tags, &sorted[i]);
        let ghost prior = out;
        out.push(shown);
        proof {
            lemma_pushed(prior, out, shown);
            lemma_map_step(
                sorted.deep_view(),
                |row: LedgerEntryRowView| entry_shown(store@, row),
                i as int,
            );
        }
        i += 1;
    }
    proof {
        assert(sorted.deep_view().take(i as int) =~= sorted.deep_view());
    }
    out
}

/// Clears the passwords that have lapsed by the current time, then returns
/// the entries of the account `account_id` whose date starts with
/// `year_month`, newest first.
pub fn list_ledger_entries(store: &mut Store, account_id: &str, year_month: &str) -> (r: Vec<
    LedgerEntry,
>)
    requires
        old(store).wf(),
    ensures
        final(store).wf(),
        exists|now: Seq<char>| final(store)@ == purged(old(store)@, now),
        r.deep_view() == entries_listing(final(store)@, account_id@, year_month@),
{
    let now = utc_now();
    list_ledger_entries_at(store, account_id, year_month, now.as_str())
}

/// Clears lapsed passwords, then returns the entry `entry_id` with its tags
/// in the order of texts, if it exists.
pub fn get_ledger_entry_at(store: &mut Store, entry_id: &str, now: &str) -> (r: Option<LedgerEntry>)
    requires
        old(store).wf(),
    ensures
        final(store).wf(),
        final(store)@ == purged(old(store)@, now@),
        r.deep_view() == entry_found(final(store)@, entry_id@),
{
    check_password_expiry_at(store, now);
    let id = entry_id.to_owned();
    let at = find_entry(&store.ledger_entries, &id);
    if at < store.ledger_entries.len() {
        Some(show_entry(&store.ledger_tags, &store.ledger_entries[at]))
    } else {
        None
    }
}

/// Clears the passwords that have lapsed by the current time, then returns
/// the entry `entry_id`, if it exists.
pub fn get_ledger_entry(store: &mut Store, entry_id: &str) -> (r: Option<LedgerEntry>)
    requires
        old(store).wf(),
    ensures
        final(store).wf(),
        exists|now: Seq<char>| final(store)@ == purged(old(store)@, now),
        r.deep_view() == entry_found(final(store)@, entry_id@),
{
    let now = utc_now();
    get_ledger_entry_at(store, entry_id, now.as_str())
}

/// Clears lapsed passwords, then returns the records of the changes to the
/// entry `entry_id`, the later first. The records of an entry that was
/// deleted are returned like any other.
pub fn list_ledger_history_at(store: &mut Store, entry_id: &str, now: &str) -> (r: Vec<LedgerHistory>)
    requires
        old(store).wf(),
    ensures
        final(store).wf(),
        final(store)@ == purged(old(store)@, now@),
        r.deep_view() == history_listing(final(store)@, entry_id@),
{
    check_password_expiry_at(store, now);
    let id = entry_id.to_owned();
    let picked = select_rows(
        &store.ledger_history,
        |h: &LedgerHistory| -> (b: bool)
            ensures b == (h@.entry_id == id@)
        {
            h.entry_id == id
        },
        Ghost(keyed(history_entry(), id@)),
    );
    sort_rows(
        picked,
        |a: &LedgerHistory, b: &LedgerHistory| -> (r: bool)
            ensures r == text_lt(b@.created_at, a@.created_at)
        {
            text_before(b.created_at.as_str(), a.created_at.as_str())
        },
        Ghost(history_newest_first()),
    )
}

/// Clears the passwords that have lapsed by the current time, then returns
/// the records of the changes to the entry `entry_id`, the later first.
pub fn list_ledger_history(store: &mut Store, entry_id: &str) -> (r: Vec<LedgerHistory>)
    requires
        old(store).wf(),
    ensures
        final(store).wf(),
        exists|now: Seq<char>| final(store)@ == purged(old(store)@, now),
        r.deep_view() == history_listing(final(store)@, entry_id@),
{
    let now = utc_now();
    list_ledger_history_at(store, entry_id, now.as_str())
}

/// The orders of the listings of the ledger can be ordered by.
pub proof fn lemma_ledger_orders()
    ensures
        sortable(account_newest_first()),
        sortable(entry_newest_first()),
        sortable(history_newest_first()),
        sortable(tag_order()),
{
    lemma_text_order();
}

/// Passwords lapse only when the ledger is touched: merging a payment or an
/// order, deleting an owner, replacing credentials, saving or deleting
/// notes, deleting a category and bringing the schema up to date leave
/// every ledger account as it is.
pub proof fn lemma_accounts_untouched(s: StoreView, user: Seq<char>, now: Seq<char>)
    ensures
        forall|p: crate::records::naver::NaverPaymentView|
            (#[trigger] crate::naver::naver_synced(s, user, p, now)).ledger_accounts
                == s.ledger_accounts,
        forall|p: crate::records::coupang::CoupangPaymentView|
            (#[trigger] crate::coupang::coupang_synced(s, user, p, now)).ledger_accounts
                == s.ledger_accounts,
        crate::accounts::user_deleted(s, user).ledger_accounts == s.ledger_accounts,
        forall|curl: Seq<char>, items: Seq<crate::records::owner::KeyValueView>|
            (#[trigger] crate::accounts::credentials_replaced(
                s,
                user,
                curl,
                items,
                now,
            )).ledger_accounts == s.ledger_accounts,
        forall|fresh: Seq<char>, item: i64, input: crate::records::catalog::ProductMetaInputView|
            (#[trigger] crate::catalog::meta_saved(s, fresh, user, item, input, now)).ledger_accounts
                == s.ledger_accounts,
        forall|item: i64|
            (#[trigger] crate::catalog::meta_deleted(s, user, item)).ledger_accounts
                == s.ledger_accounts,
        crate::catalog::category_deleted(s, user).ledger_accounts == s.ledger_accounts,
        crate::schema::schema_ensured(s, now).ledger_accounts == s.ledger_accounts,
{
}

} // verus!
