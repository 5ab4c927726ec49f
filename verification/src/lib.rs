//! A single-threaded reactor for a completion-queue kernel I/O interface.
//!
//! Application code submits socket operations (accept, read, write) as
//! suspendable computations; the kernel performs them asynchronously and the
//! reactor resumes the issuing computation exactly once, when the kernel
//! reports completion.  The reactor is generic over the ring it drives, so
//! the routing and lifecycle logic here is verified against the ring's
//! contract; an embedder supplies the real kernel ring outside this crate.

pub mod reactor;
pub mod tcp;
