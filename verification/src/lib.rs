use vstd::prelude::*;

pub mod bootstrap;
pub mod config;
pub mod keyed;
pub mod processor;
pub mod risk;
pub mod snapshot;
pub mod state;
pub mod stream;
pub mod text;
pub mod types;

verus! {
} // verus!
