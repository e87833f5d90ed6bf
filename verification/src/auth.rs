//! Accounts: offline accounts and the Microsoft sign-in decisions.
pub mod offline;
pub mod microsoft;
