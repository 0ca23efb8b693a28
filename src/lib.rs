//! Lifecycle manager for local blockchain development nodes: a registry of
//! chains, each with a status state machine and fan-out channels for its log
//! lines and new blocks, plus the small pieces of text handling around it.
//! Work outside the process (launching and killing nodes, sockets) is done
//! by the caller, one step at a time, as the registry asks for it.
use vstd::prelude::*;

pub mod api;
pub mod block;
pub mod chain_config;
pub mod fanout;
pub mod form;
pub mod lifecycle;
pub mod process;
pub mod registry;
pub mod text;

verus! {

} // verus!
