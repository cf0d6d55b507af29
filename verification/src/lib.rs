//! A verified execution engine for declarative invocation requests: a graph
//! of file, pipe, sandbox and command actions is validated, ordered by stage
//! and action class, executed, and answered with per-action outcomes plus the
//! requested byte outputs.
pub mod api;
pub mod cli_args;
pub mod config;
pub mod error;
pub mod executor;
pub mod file;
pub mod handler;
pub mod interp;
pub mod path_resolver;
pub mod print_invoke_request;
pub mod registry;
pub mod sandbox;
pub mod server;
pub mod shim;
pub mod shim_api;
pub mod sys;
pub mod text;
pub mod toolchain;
pub mod transform;
pub mod validate;
pub mod valuer;
pub mod volume;
pub mod writer;

pub use transform::{make_relative, strip_leading_slashes};
