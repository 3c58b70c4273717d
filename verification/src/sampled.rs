//! Packed, planar, imported or leased sampled bindings.
//!
//! Packed reuse normally removes native allocation and upload only: every load
//! still stages, and exact byte and layout comparison is the only freshness
//! test. A direct, unreinterpreted surface texture may also avoid staging under
//! the shared write witness, within one live decoded render pass.
pub mod description;
pub mod import;
pub mod load;
pub mod packed;
pub mod upload;
pub mod window;
