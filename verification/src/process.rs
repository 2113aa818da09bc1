//! The programs known to the virtual machine.
//!
//! A `Process` maps program IDs to stacks. Methods that change the maps take `&mut self`, so that
//! only one caller at a time can affect the state of the stacks.

pub mod add_programs;
pub mod keys;
pub mod program;
pub mod stacks;
pub mod stacks_laws;
pub mod undo;
