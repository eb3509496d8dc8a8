//! A single-node proof-of-work ledger: blocks linked by their SHA-256 hashes,
//! mined against an adaptive difficulty, and chains that are replaced only by
//! longer chains that validate block by block.

pub mod chain;
mod clock;
pub mod demo;
pub mod sha;
pub mod text;
