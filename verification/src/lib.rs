//! The ledger of a chain and the state of its virtual machine.

pub mod block;
pub mod committee;
pub mod defer;
pub mod id_map;
pub mod ledger;
pub mod lru_cache;
pub mod process;
pub mod store;
pub mod vm;
