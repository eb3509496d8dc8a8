//! Blocks and the chain that holds them.

pub mod block;
pub mod block_chain;
