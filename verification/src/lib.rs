//! Process-supervision and diagnostics core for a desktop application host.
//!
//! The crate holds the decision logic of the host: parsing the worker's
//! port announcements from its output stream, a concurrently readable port
//! registry, the rotating log pipeline (sanitization, formatting, rotation
//! and retention decisions), the supervisor's event-classification step,
//! and the outcome rules of the main-thread clipboard bridge. All file,
//! process and clipboard I/O lives outside this crate and is driven by the
//! values these functions return.

pub mod clipboard;
pub mod clock;
pub mod pipeline;
pub mod port;
pub mod registry;
pub mod rotation;
pub mod supervisor;
pub mod text;
pub mod writer;
