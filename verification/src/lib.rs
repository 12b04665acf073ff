//! Verified core of a microVM workspace manager.

use vstd::prelude::*;

pub mod config;
pub mod host;
pub mod job;
pub mod mcp;
pub mod network;
pub mod number;
pub mod storage;
pub mod team;
pub mod text;
pub mod text_laws;

verus! {

} // verus!
