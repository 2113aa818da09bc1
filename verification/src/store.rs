//! In-progress atomic batches of the data store.

pub mod atomic_owner;
pub mod atomic_scope;
pub mod flat_batch;
pub mod nested_batch;
pub mod nested_index;
