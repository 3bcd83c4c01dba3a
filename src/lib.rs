//! Positioned file I/O over caller-owned volatile buffers.
//!
//! The library holds the buffer model, the accounting of a scatter read across
//! a list of buffers, the decision taken after each vectored system call, and
//! the routing of each file operation to a backend.
pub mod backend;
pub mod buf;
pub mod vectored;
