//! Compiled pipeline plans, per-job packet storage and the rules that check
//! one against the other.

mod cancel;
mod error;
mod job;
pub mod laws;
mod order;
mod pipeline;
mod text;

pub use cancel::CancelFlag;
pub use error::{BraidError, BraidResult};
pub use job::{JobPacket, JobStatus, PacketBuffer};
pub use order::{law_kinds_ordered_by_raw_value, law_slots_ordered_by_raw_value};
pub use pipeline::{
    BufferAccess, BufferBinding, BufferData, BufferLayout, BufferSlot, BufferSpec, CompiledPlan,
    DispatchHint, ElementKind, JobId, KernelKind, KernelSpec, PipelineShape, PlanBuilder,
    StageSpec, StaticBuffer, StaticBufferSet, VersionId,
};
