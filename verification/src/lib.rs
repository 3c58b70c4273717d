//! Decision logic of a paravirtual GPU device: admission, snapshot reuse,
//! storage isolation and draw preparation, stated and proved over plain values.
pub mod admission;
pub mod buffer_source;
pub mod checkpoints;
pub mod coverage;
pub mod fifo_progress;
pub mod gather;
pub mod hazards;
pub mod input_snapshot;
pub mod inputs;
pub mod interlock_diagnostic;
pub mod isolation;
pub mod metal_storage;
pub mod native_pipeline;
pub mod native_seed;
pub mod output;
pub mod pixel;
pub mod planar;
pub mod primary_store;
pub mod sampled;
pub mod scope;
pub mod secondary_store;
pub mod storage;
pub mod text;
pub mod vulkan;
