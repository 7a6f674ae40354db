//! Incremental decoder for a chat backend's streamed reply: it turns the
//! chunks of a `data: <json>` line stream into UI events and assembles the
//! reply text, its title and the lifecycle of the tool calls it asks for.
use vstd::prelude::*;

pub mod json;
pub mod registry;
pub mod extract;
pub mod session;
pub mod stream;
pub mod laws;
pub mod records;
pub mod exchange;
pub mod export;

verus! {

} // verus!
