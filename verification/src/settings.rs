//! Where the store lives: the path that was settled for this run, and the
//! status that is reported of it.

use crate::error::StoreError;
use crate::rows::clone_text;
use vstd::prelude::*;

verus! {

/// The path of the storage file, once one has been settled.
pub struct AppState {
    db_path: Option<String>,
}

impl AppState {
    /// The path that is settled, if any.
    pub closed spec fn view(&self) -> Option<Seq<char>> {
        self.db_path.deep_view()
    }

    /// A state in which no path is settled.
    pub fn new() -> (r: AppState)
        ensures
            r@ is None,
    {
        AppState { db_path: None }
    }

    /// The path that is settled, if any.
    pub fn db_path(&self) -> (r: Option<String>)
        ensures
            r.deep_view() == self@,
    {
        clone_text(&self.db_path)
    }
}

/// What the storage file is reported as.
#[derive(Debug, PartialEq, Eq)]
pub struct DbStatus {
    /// Whether a path has been settled.
    pub configured: bool,
    pub path: String,
    /// Whether a file is at the path.
    pub exists: bool,
    pub size_bytes: Option<u64>,
    /// The names of the tables in the file.
    pub tables: Vec<String>,
}

/// What a [`DbStatus`] holds, as plain values.
pub struct DbStatusView {
    pub configured: bool,
    pub path: Seq<char>,
    pub exists: bool,
    pub size_bytes: Option<u64>,
    pub tables: Seq<Seq<char>>,
}

impl View for DbStatus {
    type V = DbStatusView;

    open spec fn view(&self) -> DbStatusView {
        DbStatusView {
            configured: self.configured,
            path: self.path@,
            exists: self.exists,
            size_bytes: self.size_bytes,
            tables: self.tables.deep_view(),
        }
    }
}

/// The path that a stored preference names: none where the preference is
/// absent or empty.
pub open spec fn preferred_path(stored: Option<Seq<char>>) -> Option<Seq<char>> {
    match stored {
        Some(p) => if p.len() == 0 {
            None
        } else {
            Some(p)
        },
        None => None,
    }
}

/// Settles `path` as the path of the storage file.
pub fn set_db_path(state: &mut AppState, path: String)
    ensures
        final(state)@ == Some(path@),
{
    state.db_path = Some(path);
}

/// The path of the storage file: the one that is settled, or else the one
/// that the stored preference `stored` names, which is settled from then
/// on. An absent or empty preference names none.
pub fn configured_db_path(state: &mut AppState, stored: Option<String>) -> (r: Option<String>)
    ensures
        r.deep_view() == final(state)@,
        final(state)@ == match old(state)@ {
            Some(p) => Some(p),
            None => preferred_path(stored.deep_view()),
        },
{
    match &state.db_path {
        Some(p) => Some(p.clone()),
        None => match stored {
            Some(p) => {
                if p.as_str().is_empty() {
                    None
                } else {
                    state.db_path = Some(p.clone());
                    Some(p)
                }
            },
            None => None,
        },
    }
}

/// The settled path of the storage file, or the answer that none is
/// settled.
pub fn require_db_path(state: &AppState) -> (r: Result<String, StoreError>)
    ensures
        match r {
            Ok(p) => state@ == Some(p@),
            Err(e) => state@ is None && e == StoreError::NotConfigured,
        },
{
    match &state.db_path {
        Some(p) => Ok(p.clone()),
        None => Err(StoreError::NotConfigured),
    }
}

/// Forgets the settled path. The file at the path is not touched.
pub fn logout(state: &mut AppState)
    ensures
        final(state)@ is None,
{
    state.db_path = None;
}

/// What is reported of the storage file at `path`: its size and tables
/// count only where the file exists.
pub open spec fn status_of(
    path: Seq<char>,
    configured: bool,
    exists: bool,
    size_bytes: Option<u64>,
    tables: Seq<Seq<char>>,
) -> DbStatusView {
    DbStatusView {
        configured,
        path,
        exists,
        size_bytes: if exists {
            size_bytes
        } else {
            None
        },
        tables: if exists {
            tables
        } else {
            Seq::empty()
        },
    }
}

/// What is reported of the storage file at `path`, given whether a file is
/// there, its size where that could be read, and the names of its tables.
pub fn build_status(
    path: String,
    configured: bool,
    exists: bool,
    size_bytes: Option<u64>,
    tables: Vec<String>,
) -> (r: DbStatus)
    ensures
        r@ == status_of(path@, configured, exists, size_bytes, tables.deep_view()),
{
    if exists {
        DbStatus { configured, path, exists, size_bytes, tables }
    } else {
        let r = DbStatus { configured, path, exists, size_bytes: None, tables: Vec::new() };
        proof {
            assert(r.tables.deep_view() =~= Seq::<Seq<char>>::empty());
        }
        r
    }
}

/// What is reported while no path is settled.
pub fn unconfigured_status() -> (r: DbStatus)
    ensures
        r@ == status_of(Seq::empty(), false, false, None, Seq::empty()),
{
    let r = DbStatus {
        configured: false,
        path: String::new(),
        exists: false,
        size_bytes: None,
        tables: Vec::new(),
    };
    proof {
        assert(r.tables.deep_view() =~= Seq::<Seq<char>>::empty());
    }
    r
}

/// The greeting for `name`.
pub fn greet(name: &str) -> (r: String)
    ensures
        r@ == "Hello, "@ + name@ + "! You've been greeted from Rust!"@,
{
    let mut out = "Hello, ".to_owned();
    out.append(name);
    out.append("! You've been greeted from Rust!");
    out
}

} // verus!
