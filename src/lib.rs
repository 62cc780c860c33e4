//! A multi-turn orchestration engine for language-model agents.
//!
//! The engine keeps a conversation's history and context, resolves the
//! function calls a model asks for against the active agent's functions,
//! hands the conversation to another registered agent when a step or a
//! function says so, and runs step programs embedded in an agent's
//! instructions. It performs no I/O itself: a run is a state machine
//! ([`engine::Run`]) that hands its host each model request and function
//! call to perform, and takes the outcomes back.
use vstd::prelude::*;

pub mod constants;
pub mod context;
pub mod dispatch;
pub mod engine;
pub mod error;
pub mod json;
pub mod roster;
pub mod steps;
pub mod stream;
pub mod text;
pub mod types;
pub mod validation;

pub use crate::context::ContextVariables;
pub use crate::engine::{Swarm, SwarmBuilder};
pub use crate::error::{SwarmError, SwarmResult};
pub use crate::types::{Agent, Instructions, Message, Response, SwarmConfig};

verus! {

} // verus!
