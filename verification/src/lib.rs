//! API ARRAY core: provider validation, health tracking, routing, SSE
//! decoding and the other pure decisions behind the local API gateway.
use vstd::prelude::*;

pub mod adapter;
pub mod canonical;
pub mod canvas;
pub mod compile;
pub mod control_center;
pub mod desktop;
pub mod drafts;
pub mod capability;
pub mod cli;
pub mod error;
pub mod events;
pub mod graph;
pub mod host_state;
pub mod health;
pub mod inspection;
pub mod instance_start;
pub mod json;
pub mod keyed;
pub mod openai;
pub mod openai_laws;
pub mod protocol;
pub mod protocol_laws;
pub mod publisher;
pub mod provider;
pub mod routing;
pub mod routing_laws;
pub mod routing_tiers;
pub mod runtime;
pub mod secret;
pub mod simulation;
pub mod sort;
pub mod sse_chunking;
pub mod stream;
pub mod templates;
pub mod text;
pub mod topology;
pub mod translate;
pub mod wallet;
pub mod workspace;

pub use error::{CoreError, ErrorCode, ValidationIssue};

verus! {

/// The public schema version understood by the core.
pub const SCHEMA_VERSION: u32 = 1;

} // verus!
