//! A Linux process sandbox, written as a library that decides and never acts.
//!
//! Every function here is a computation on plain values: what to mount and
//! in which order, which limits a child gets, what a wait status means, which
//! sessions are live. The host program performs the steps it is handed and
//! reports back what happened.

pub mod builder;
pub mod env;
pub mod executor;
pub mod ident;
pub mod paths;
pub mod request;
pub mod sandbox;
pub mod state;
pub mod steps;
pub mod text;

pub use env::Env;
pub use sandbox::{
    create_session_sandbox, destroy_session_sandbox, read_file_in_sandbox, run_in_session,
    run_oneshot, write_file_in_sandbox, RunConfig, RunResult,
};
pub use state::{Registry, Session, SESSION_TTL_SECS};
