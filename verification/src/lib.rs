//! Instruction-construction library for an on-ledger transform: a registered
//! recipe that atomically consumes a fixed basket of input fungible-asset
//! deposits and produces a fixed basket of newly minted output assets under a
//! program-derived authority. The builders here emit the exact, position-
//! sensitive instruction sequences for creating and executing a transform;
//! their contracts pin the account ordering the on-ledger validator relies on.

pub mod address;
pub mod authority;
pub mod error;
pub mod instruction;
pub mod laws;
pub mod state;
