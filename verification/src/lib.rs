//! Runtime boundary layer for jobs running under the Magnolia host.
//!
//! The host offers a small C-style call surface. This library holds every
//! decision that surrounds those calls: how an allocation request is widened
//! and where the caller's pointer lands in the raw block, how a path is made
//! ready for the host, how a host reply becomes a `Result`, how a write is
//! repeated until a buffer is consumed, what the argument vector answers, and
//! how the host's invocation reaches the job's entry function.
//! The calls themselves are made by the embedding program, which hands the
//! host's replies back as plain values.

pub mod args;
pub mod entry;
pub mod errno;
pub mod fs;
pub mod io;
pub mod rt;
pub mod sys;

pub use args::Args;
pub use errno::{errno, Error};
