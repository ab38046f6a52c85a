//! Authorization and state management for review records kept in program-owned
//! storage: address derivation from an author and a title, the stored record layout,
//! and the Create and Update operations.

pub mod address;
pub mod error;
pub mod instruction;
pub mod processor;
pub mod record;
