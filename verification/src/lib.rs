//! The verified core of a small account-based payment ledger: decimal
//! amounts, account balances, transfer validation, signature checking and the
//! text protocol that nodes speak to each other.

pub mod amount;
pub mod models;
pub mod account;
pub mod crypto;
pub mod text;
pub mod errors;
pub mod wallet;
pub mod transfer;
pub mod protocol;
pub mod identity;
pub mod chain;
pub mod services;
pub mod controllers;
