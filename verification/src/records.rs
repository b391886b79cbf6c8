//! The records that the store keeps and hands out, each with its view.

pub mod catalog;
pub mod coupang;
pub mod ledger;
pub mod naver;
pub mod owner;
