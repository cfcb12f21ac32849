//! A pipeline execution engine: pipelines of named steps, each bound to an
//! action, routed by predicates over a JSON context, with verified routing,
//! templating, validation and bookkeeping.

use vstd::prelude::*;

pub mod bridge;
pub mod clock;
pub mod context;
pub mod definition;
pub mod environment;
pub mod error;
pub mod executor;
pub mod id;
pub mod json;
pub mod mapper;
pub mod masker;
pub mod metadata;
pub mod pipeline;
pub mod predicate;
pub mod resolver;
pub mod result;
pub mod retry;
pub mod state;
pub mod text;
pub mod variables;

verus! {

} // verus!
