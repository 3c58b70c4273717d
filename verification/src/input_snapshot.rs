//! One private immutable native snapshot per buffer resource.
//!
//! The source is walked afresh on every lookup and on both sides of a miss's
//! capture. No guest alias, copied descriptor or native pointer decides whether
//! a snapshot is fresh. Reuse is confined to one live decoded render pass, and
//! the guest's own declaration that it wrote a buffer ends a snapshot's life.
//! A wider metadata-only plan may survive the start of write tracking, but only
//! an actual full capture of the planned range makes a candidate; a narrower
//! fresh capture never stands for it.
pub mod cache;
pub mod fill;
pub mod observe;
pub mod routes;
pub mod span;
