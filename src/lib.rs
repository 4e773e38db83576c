//! A marketplace ledger: vendors hold priced goods and a balance of bits,
//! register under unique names, and trade through purchases that are
//! recorded in an append-only log together with a history of average prices.

pub mod authorization;
pub mod ledger;
pub mod names;
pub mod purchase;
pub mod random;
pub mod shop;
pub mod text;
pub mod util;
