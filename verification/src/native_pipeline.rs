//! Metadata-only native preparation over a retained record stream.
//!
//! Unsupported metadata stays on the synchronous rail with an explicit reason.
pub mod diagnostics;
pub mod metadata;
pub mod objects;
pub mod reason;
pub mod samplers;
pub mod scan;
pub mod tables;
