//! Launch-time logic of a WebAssembly workload loader: feature negotiation,
//! argument and environment binding, and the invocation protocol that a
//! driver follows against an execution engine.

pub mod args;
pub mod env;
pub mod error;
pub mod features;
pub mod options;
pub mod protocol;
pub mod request;
pub mod text;
pub mod workload;
