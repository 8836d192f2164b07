//! A ledger for a device marketplace: users, devices, warranty contracts,
//! inspection reports, carts and orders, with role-based rules on every change.
pub mod cart;
pub mod explain;
pub mod gateway;
pub mod laws;
pub mod market;
pub mod matching;
pub mod model;
pub mod table;
pub mod text;
