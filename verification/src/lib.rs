//! A local-first store for scraped shop payments and a hand-kept ledger,
//! with every operation stated and proved over a mathematical model of the
//! tables it touches.
//!
//! The [`store`] holds every table as a sequence of rows and says what must
//! hold of them: keys that occur once, rows that point at rows that exist.
//! Each operation takes the store, changes it, and states the change as a
//! function of the store before: [`schema`] brings the tables and indexes up
//! to this version, [`naver`] and [`coupang`] merge payments of the two
//! providers, [`accounts`] keeps owners and their credentials, [`ledger`]
//! keeps the ledger with the record of its changes, [`catalog`] keeps
//! categories and notes on products, and [`search`] looks through payment
//! lines. [`snapshot`] hands the tables out to be written to a file and
//! takes them back, accepting only tables that are in order.
//!
//! What the store takes from its surroundings comes in through [`clock`]
//! (the time and fresh identifiers) and [`digest`] (the digest of a
//! password). Operations that need them exist twice: under their plain name,
//! drawing the time and identifiers themselves, and with `_at` behind the
//! name, taking them as arguments.

pub mod accounts;
pub mod catalog;
pub mod clock;
pub mod coupang;
pub mod diagnostics;
pub mod digest;
pub mod error;
pub mod growth;
pub mod layout;
pub mod ledger;
pub mod naver;
pub mod records;
pub mod relay;
pub mod rows;
pub mod schema;
pub mod search;
pub mod settings;
pub mod snapshot;
pub mod store;
pub mod text;
pub mod upsert;
