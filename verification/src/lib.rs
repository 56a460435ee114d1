//! The request-processing core of a cascading-middleware HTTP framework:
//! how handlers compose into one ordered pipeline, and how a method and a
//! path resolve to the pipeline that serves them.
//!
//! Everything here is synchronous and free of I/O. A transport layer hands in
//! plain values and drives the handlers; this crate decides what runs, in
//! which order, and what the response to a failure is.

pub mod app;
pub mod assoc;
pub mod chain;
pub mod context;
pub mod cursor;
pub mod error;
pub mod forward;
pub mod method;
pub mod request;
pub mod response;
pub mod text;
pub mod router;
