//! Request-lifecycle orchestration for a natural-language agent service:
//! intent classification, cooperative cancellation, and ordered event
//! streaming, with external collaborators (inference backend, transport)
//! kept behind narrow interfaces.

pub mod agents;
pub mod cancel;
pub mod codec;
pub mod context;
pub mod error;
pub mod events;
pub mod ext;
pub mod models;
pub mod orchestrator;
pub mod task;
pub mod text;
pub mod types;

pub use cancel::CancellationToken;
