//! Target backends: the contract they meet and the registry that builds them.

pub mod triple;
pub mod unwind;
pub mod contract;
pub mod registry;
pub mod z80;
