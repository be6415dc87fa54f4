//! Account and transfer ledger: accounts with protected identity fields,
//! credential hashing, and money transfers that keep every balance equal to
//! the flows recorded in an append-only history.

pub mod crypto;
pub mod ident;
pub mod keypad;
pub mod laws;
pub mod ledger;
pub mod model;
pub mod repository;
pub mod restore;
pub mod session;
pub mod signup;
pub mod statement;
pub mod store;
pub mod text;
pub mod transfer;
