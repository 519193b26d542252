//! Typed decoding of tuple-like rows sent by an EdgeDB server, with the
//! shape check that compares a server-reported object shape with the fields
//! a target type declares.

pub mod error;
pub mod context;
pub mod wire;
pub mod scalar;
pub mod catalog;
pub mod shape;
pub mod decode;
pub mod targets;

pub use targets::{Account, BankCustomer, InnerJsonQueryableAccount, IsAStruct, JsonQueryableAccount, QueryableAccount};
