//! A plain-text double-entry ledger: scanning, parsing and balancing.

pub mod account;
pub mod amount;
pub mod balance;
pub mod commodity;
pub mod date;
pub mod error;
pub mod journal;
pub mod option;
pub mod parser;
pub mod post;
pub mod quantity;
pub mod scanner;
pub mod text;
pub mod xact;
