use vstd::prelude::*;

pub mod collections;
pub mod text;
pub mod error;
pub mod hashing;
pub mod blob;
pub mod string_map;
pub mod config;
pub mod pointers;
pub mod tree;
pub mod versioning;
pub mod commit;
pub mod stage;
pub mod diff;
pub mod status;
pub mod commands;
