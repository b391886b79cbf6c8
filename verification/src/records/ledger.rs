//! The hand-kept ledger: accounts, entries with their tags, and the record
//! of every change to an entry.

use crate::rows::{clone_all, clone_text};
use vstd::prelude::*;

verus! {

/// What was done to a ledger entry.
#[derive(Debug, PartialEq, Eq, Clone, Copy)]
pub enum HistoryAction {
    Create,
    Update,
    Delete,
}

impl HistoryAction {
    /// The word under which the action is stored.
    pub open spec fn word(self) -> Seq<char> {
        match self {
            HistoryAction::Create => "create"@,
            HistoryAction::Update => "update"@,
            HistoryAction::Delete => "delete"@,
        }
    }

    /// The word under which the action is stored.
    pub fn as_str(&self) -> (r: &'static str)
        ensures
            r@ == self.word(),
    {
        match self {
            HistoryAction::Create => "create",
            HistoryAction::Update => "update",
            HistoryAction::Delete => "delete",
        }
    }
}

impl View for HistoryAction {
    type V = HistoryAction;

    open spec fn view(&self) -> HistoryAction {
        *self
    }
}

impl DeepView for HistoryAction {
    type V = HistoryAction;

    open spec fn deep_view(&self) -> HistoryAction {
        *self
    }
}

/// A copy of an optional snapshot.
pub fn clone_entry(o: &Option<LedgerEntry>) -> (r: Option<LedgerEntry>)
    ensures
        r.deep_view() == o.deep_view(),
{
    match o {
        Some(e) => Some(e.clone()),
        None => None,
    }
}

/// A ledger with its nickname and, while one is set, its password.
#[derive(Debug, PartialEq, Eq)]
pub struct LedgerAccount {
    pub id: String,
    pub nickname: String,
    /// The digest of the password, while one is set.
    pub password_hash: Option<String>,
    /// When the password lapses.
    pub password_expires_at: Option<String>,
    pub created_at: String,
    pub updated_at: String,
}

/// What a [`LedgerAccount`] holds, as plain values.
pub struct LedgerAccountView {
    pub id: Seq<char>,
    pub nickname: Seq<char>,
    pub password_hash: Option<Seq<char>>,
    pub password_expires_at: Option<Seq<char>>,
    pub created_at: Seq<char>,
    pub updated_at: Seq<char>,
}

impl View for LedgerAccount {
    type V = LedgerAccountView;

    open spec fn view(&self) -> LedgerAccountView {
        LedgerAccountView {
            id: self.id@,
            nickname: self.nickname@,
            password_hash: self.password_hash.deep_view(),
            password_expires_at: self.password_expires_at.deep_view(),
            created_at: self.created_at@,
            updated_at: self.updated_at@,
        }
    }
}

impl DeepView for LedgerAccount {
    type V = LedgerAccountView;

    open spec fn deep_view(&self) -> LedgerAccountView {
        self@
    }
}

impl Clone for LedgerAccount {
    fn clone(&self) -> (r: Self)
        ensures
            r@ == self@,
    {
        LedgerAccount {
            id: self.id.clone(),
            nickname: self.nickname.clone(),
            password_hash: clone_text(&self.password_hash),
            password_expires_at: clone_text(&self.password_expires_at),
            created_at: self.created_at.clone(),
            updated_at: self.updated_at.clone(),
        }
    }
}

/// What a ledger entry says: the fields that an edit may change.
#[derive(Debug, PartialEq, Eq)]
pub struct EntryFields {
    /// `income` or `expense`.
    pub kind: String,
    pub amount: i64,
    pub date: String,
    pub title: String,
    pub category: String,
    /// Where the money moved, one of six known places.
    pub platform: Option<String>,
    pub url: Option<String>,
    pub merchant: Option<String>,
    pub payment_method: Option<String>,
    pub memo: Option<String>,
    pub color: Option<String>,
}

/// What a [`EntryFields`] holds, as plain values.
pub struct EntryFieldsView {
    pub kind: Seq<char>,
    pub amount: i64,
    pub date: Seq<char>,
    pub title: Seq<char>,
    pub category: Seq<char>,
    pub platform: Option<Seq<char>>,
    pub url: Option<Seq<char>>,
    pub merchant: Option<Seq<char>>,
    pub payment_method: Option<Seq<char>>,
    pub memo: Option<Seq<char>>,
    pub color: Option<Seq<char>>,
}

impl View for EntryFields {
    type V = EntryFieldsView;

    open spec fn view(&self) -> EntryFieldsView {
        EntryFieldsView {
            kind: self.kind@,
            amount: self.amount,
            date: self.date@,
            title: self.title@,
            category: self.category@,
            platform: self.platform.deep_view(),
            url: self.url.deep_view(),
            merchant: self.merchant.deep_view(),
            payment_method: self.payment_method.deep_view(),
            memo: self.memo.deep_view(),
            color: self.color.deep_view(),
        }
    }
}

impl DeepView for EntryFields {
    type V = EntryFieldsView;

    open spec fn deep_view(&self) -> EntryFieldsView {
        self@
    }
}

impl Clone for EntryFields {
    fn clone(&self) -> (r: Self)
        ensures
            r@ == self@,
    {
        EntryFields {
            kind: self.kind.clone(),
            amount: self.amount,
            date: self.date.clone(),
            title: self.title.clone(),
            category: self.category.clone(),
            platform: clone_text(&self.platform),
            url: clone_text(&self.url),
            merchant: clone_text(&self.merchant),
            payment_method: clone_text(&self.payment_method),
            memo: clone_text(&self.memo),
            color: clone_text(&self.color),
        }
    }
}

/// A ledger entry as handed in for creation or an edit.
#[derive(Debug, PartialEq, Eq)]
pub struct LedgerEntryInput {
    pub account_id: String,
    pub fields: EntryFields,
    pub tags: Vec<String>,
}

/// What a [`LedgerEntryInput`] holds, as plain values.
pub struct LedgerEntryInputView {
    pub account_id: Seq<char>,
    pub fields: EntryFieldsView,
    pub tags: Seq<Seq<char>>,
}

impl View for LedgerEntryInput {
    type V = LedgerEntryInputView;

    open spec fn view(&self) -> LedgerEntryInputView {
        LedgerEntryInputView {
            account_id: self.account_id@,
            fields: self.fields@,
            tags: self.tags.deep_view(),
        }
    }
}

impl DeepView for LedgerEntryInput {
    type V = LedgerEntryInputView;

    open spec fn deep_view(&self) -> LedgerEntryInputView {
        self@
    }
}

impl Clone for LedgerEntryInput {
    fn clone(&self) -> (r: Self)
        ensures
            r@ == self@,
    {
        LedgerEntryInput {
            account_id: self.account_id.clone(),
            fields: self.fields.clone(),
            tags: clone_all(&self.tags),
        }
    }
}

/// A stored ledger entry, without its tags.
#[derive(Debug, PartialEq, Eq)]
pub struct LedgerEntryRow {
    pub id: String,
    pub account_id: String,
    pub fields: EntryFields,
    pub created_at: String,
    pub updated_at: String,
}

/// What a [`LedgerEntryRow`] holds, as plain values.
pub struct LedgerEntryRowView {
    pub id: Seq<char>,
    pub account_id: Seq<char>,
    pub fields: EntryFieldsView,
    pub created_at: Seq<char>,
    pub updated_at: Seq<char>,
}

impl View for LedgerEntryRow {
    type V = LedgerEntryRowView;

    open spec fn view(&self) -> LedgerEntryRowView {
        LedgerEntryRowView {
            id: self.id@,
            account_id: self.account_id@,
            fields: self.fields@,
            created_at: self.created_at@,
            updated_at: self.updated_at@,
        }
    }
}

impl DeepView for LedgerEntryRow {
    type V = LedgerEntryRowView;

    open spec fn deep_view(&self) -> LedgerEntryRowView {
        self@
    }
}

impl Clone for LedgerEntryRow {
    fn clone(&self) -> (r: Self)
        ensures
            r@ == self@,
    {
        LedgerEntryRow {
            id: self.id.clone(),
            account_id: self.account_id.clone(),
            fields: self.fields.clone(),
            created_at: self.created_at.clone(),
            updated_at: self.updated_at.clone(),
        }
    }
}

/// One tag of one ledger entry.
#[derive(Debug, PartialEq, Eq)]
pub struct LedgerTag {
    pub entry_id: String,
    pub tag: String,
    pub created_at: String,
}

/// What a [`LedgerTag`] holds, as plain values.
pub struct LedgerTagView {
    pub entry_id: Seq<char>,
    pub tag: Seq<char>,
    pub created_at: Seq<char>,
}

impl View for LedgerTag {
    type V = LedgerTagView;

    open spec fn view(&self) -> LedgerTagView {
        LedgerTagView {
            entry_id: self.entry_id@,
            tag: self.tag@,
            created_at: self.created_at@,
        }
    }
}

impl DeepView for LedgerTag {
    type V = LedgerTagView;

    open spec fn deep_view(&self) -> LedgerTagView {
        self@
    }
}

impl Clone for LedgerTag {
    fn clone(&self) -> (r: Self)
        ensures
            r@ == self@,
    {
        LedgerTag {
            entry_id: self.entry_id.clone(),
            tag: self.tag.clone(),
            created_at: self.created_at.clone(),
        }
    }
}

/// A ledger entry with its tags: what reads return and what snapshots hold.
#[derive(Debug, PartialEq, Eq)]
pub struct LedgerEntry {
    pub id: String,
    pub account_id: String,
    pub fields: EntryFields,
    pub tags: Vec<String>,
    pub created_at: String,
    pub updated_at: String,
}

/// What a [`LedgerEntry`] holds, as plain values.
pub struct LedgerEntryView {
    pub id: Seq<char>,
    pub account_id: Seq<char>,
    pub fields: EntryFieldsView,
    pub tags: Seq<Seq<char>>,
    pub created_at: Seq<char>,
    pub updated_at: Seq<char>,
}

impl View for LedgerEntry {
    type V = LedgerEntryView;

    open spec fn view(&self) -> LedgerEntryView {
        LedgerEntryView {
            id: self.id@,
            account_id: self.account_id@,
            fields: self.fields@,
            tags: self.tags.deep_view(),
            created_at: self.created_at@,
            updated_at: self.updated_at@,
        }
    }
}

impl DeepView for LedgerEntry {
    type V = LedgerEntryView;

    open spec fn deep_view(&self) -> LedgerEntryView {
        self@
    }
}

impl Clone for LedgerEntry {
    fn clone(&self) -> (r: Self)
        ensures
            r@ == self@,
    {
        LedgerEntry {
            id: self.id.clone(),
            account_id: self.account_id.clone(),
            fields: self.fields.clone(),
            tags: clone_all(&self.tags),
            created_at: self.created_at.clone(),
            updated_at: self.updated_at.clone(),
        }
    }
}

/// The record of one change to a ledger entry, with the entry as it was
/// before the change and as it was after it.
#[derive(Debug, PartialEq, Eq)]
pub struct LedgerHistory {
    pub id: String,
    pub entry_id: String,
    pub action: HistoryAction,
    pub snapshot_before: Option<LedgerEntry>,
    pub snapshot_after: Option<LedgerEntry>,
    pub created_at: String,
}

/// What a [`LedgerHistory`] holds, as plain values.
pub struct LedgerHistoryView {
    pub id: Seq<char>,
    pub entry_id: Seq<char>,
    pub action: HistoryAction,
    pub snapshot_before: Option<LedgerEntryView>,
    pub snapshot_after: Option<LedgerEntryView>,
    pub created_at: Seq<char>,
}

impl View for LedgerHistory {
    type V = LedgerHistoryView;

    open spec fn view(&self) -> LedgerHistoryView {
        LedgerHistoryView {
            id: self.id@,
            entry_id: self.entry_id@,
            action: self.action,
            snapshot_before: self.snapshot_before.deep_view(),
            snapshot_after: self.snapshot_after.deep_view(),
            created_at: self.created_at@,
        }
    }
}

impl DeepView for LedgerHistory {
    type V = LedgerHistoryView;

    open spec fn deep_view(&self) -> LedgerHistoryView {
        self@
    }
}

impl Clone for LedgerHistory {
    fn clone(&self) -> (r: Self)
        ensures
            r@ == self@,
    {
        LedgerHistory {
            id: self.id.clone(),
            entry_id: self.entry_id.clone(),
            action: self.action,
            snapshot_before: clone_entry(&self.snapshot_before),
            snapshot_after: clone_entry(&self.snapshot_after),
            created_at: self.created_at.clone(),
        }
    }
}
} // verus!
