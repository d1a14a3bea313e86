//! Rules for a text-expansion snippet file: how one trigger/replacement pair
//! is written down, what an append does to the file, where the file lives and
//! how its folder is shown.
//!
//! Everything here works on plain values. Reading the environment, touching
//! the disk and starting processes is left to the caller.

pub mod layout;
pub mod lines;
pub mod location;
pub mod opener;
pub mod record;
pub mod snippet;
