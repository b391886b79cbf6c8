//! Owners and their credentials.

use vstd::prelude::*;

verus! {

/// One login at an outside provider whose payments are kept here.
#[derive(Debug, PartialEq, Eq)]
pub struct User {
    pub id: String,
    /// Which provider the login belongs to.
    pub provider: String,
    /// The name shown for it.
    pub alias: String,
    /// The stored request that carries its authentication.
    pub curl: String,
    pub created_at: String,
    pub updated_at: String,
}

/// What a [`User`] holds, as plain values.
pub struct UserView {
    pub id: Seq<char>,
    pub provider: Seq<char>,
    pub alias: Seq<char>,
    pub curl: Seq<char>,
    pub created_at: Seq<char>,
    pub updated_at: Seq<char>,
}

impl View for User {
    type V = UserView;

    open spec fn view(&self) -> UserView {
        UserView {
            id: self.id@,
            provider: self.provider@,
            alias: self.alias@,
            curl: self.curl@,
            created_at: self.created_at@,
            updated_at: self.updated_at@,
        }
    }
}

impl DeepView for User {
    type V = UserView;

    open spec fn deep_view(&self) -> UserView {
        self@
    }
}

impl Clone for User {
    fn clone(&self) -> (r: Self)
        ensures
            r@ == self@,
    {
        User {
            id: self.id.clone(),
            provider: self.provider.clone(),
            alias: self.alias.clone(),
            curl: self.curl.clone(),
            created_at: self.created_at.clone(),
            updated_at: self.updated_at.clone(),
        }
    }
}

/// One secret of an owner, found by its key.
#[derive(Debug, PartialEq, Eq)]
pub struct Credential {
    pub user_id: String,
    pub key: String,
    pub value: String,
    pub updated_at: String,
}

/// What a [`Credential`] holds, as plain values.
pub struct CredentialView {
    pub user_id: Seq<char>,
    pub key: Seq<char>,
    pub value: Seq<char>,
    pub updated_at: Seq<char>,
}

impl View for Credential {
    type V = CredentialView;

    open spec fn view(&self) -> CredentialView {
        CredentialView {
            user_id: self.user_id@,
            key: self.key@,
            value: self.value@,
            updated_at: self.updated_at@,
        }
    }
}

impl DeepView for Credential {
    type V = CredentialView;

    open spec fn deep_view(&self) -> CredentialView {
        self@
    }
}

impl Clone for Credential {
    fn clone(&self) -> (r: Self)
        ensures
            r@ == self@,
    {
        Credential {
            user_id: self.user_id.clone(),
            key: self.key.clone(),
            value: self.value.clone(),
            updated_at: self.updated_at.clone(),
        }
    }
}

/// A key with its value, as callers hand credentials in and get them back.
#[derive(Debug, PartialEq, Eq)]
pub struct KeyValue {
    pub key: String,
    pub value: String,
}

/// What a [`KeyValue`] holds, as plain values.
pub struct KeyValueView {
    pub key: Seq<char>,
    pub value: Seq<char>,
}

impl View for KeyValue {
    type V = KeyValueView;

    open spec fn view(&self) -> KeyValueView {
        KeyValueView {
            key: self.key@,
            value: self.value@,
        }
    }
}

impl DeepView for KeyValue {
    type V = KeyValueView;

    open spec fn deep_view(&self) -> KeyValueView {
        self@
    }
}

impl Clone for KeyValue {
    fn clone(&self) -> (r: Self)
        ensures
            r@ == self@,
    {
        KeyValue {
            key: self.key.clone(),
            value: self.value.clone(),
        }
    }
}
} // verus!
