//! Generic compiled pipeline types shared between planners and backends.
//!
//! Planners emit these shapes. Backends consume them. The types here carry no
//! planner-specific meaning.

use std::collections::HashMap;
use std::sync::Arc;
use vstd::prelude::*;

use crate::error::{is_invalid_spec, BraidError, BraidResult};
use crate::job::{JobPacket, PacketBuffer, PacketView};
use crate::text::{decimal, decimal_text};

verus! {

broadcast use vstd::std_specs::hash::group_hash_axioms;

/// Opaque stack-local job identifier.
pub type JobId = u64;

/// Monotonic identifier for frozen compiled stack versions.
pub type VersionId = u64;

/// Primitive element types supported by packet buffers.
#[derive(Clone, Copy, Debug, PartialEq, Eq, Structural)]
pub enum ElementKind {
    /// Unsigned 32-bit integers.
    U32,
    /// Unsigned 64-bit integers.
    U64,
    /// 32-bit floating-point values.
    F32,
}

/// Declared layout contract for one pipeline buffer slot.
#[derive(Clone, Copy, Debug, PartialEq, Eq, Structural)]
pub enum BufferLayout {
    /// Exactly one element per query.
    PerQueryScalar,
    /// A fixed-width vector per query.
    PerQueryVector {
        /// Element count for each query.
        width: usize,
    },
    /// Planner/backend-managed variable-length buffer.
    Dynamic,
}

/// Access mode declared for one kernel binding.
#[derive(Clone, Copy, Debug, PartialEq, Eq, Structural)]
pub enum BufferAccess {
    /// Read-only access.
    Read,
    /// Write-only access.
    Write,
    /// Read-write access.
    ReadWrite,
}

/// Scheduling hint for how one kernel prefers to run.
#[derive(Clone, Copy, Debug, PartialEq, Eq, Structural)]
pub enum DispatchHint {
    /// Run one kernel invocation across the whole batch.
    WholeBatch,
    /// Split the query batch across shards when the backend supports it.
    QuerySharded,
    /// Run strictly serially.
    Serial,
}

/// Opaque numeric slot identifier for packet and static buffers.
#[derive(Clone, Copy, Debug, PartialEq, Eq, Structural, Hash, Ord)]
pub struct BufferSlot(u16);

impl View for BufferSlot {
    type V = u16;

    closed spec fn view(&self) -> u16 {
        self.0
    }
}

impl BufferSlot {
    /// Create a slot from its raw numeric value.
    pub fn new(raw: u16) -> (slot: Self)
        ensures
            slot@ == raw,
    {
        BufferSlot(raw)
    }

    /// Return the raw numeric slot value.
    pub fn raw(self) -> (raw: u16)
        ensures
            raw == self@,
    {
        self.0
    }

    /// The decimal rendering of the slot number, as `Display` writes it.
    pub fn display_string(&self) -> (s: String)
        ensures
            s@ == decimal(self@ as nat),
    {
        decimal_text(self.0 as usize)
    }

    /// Two slots are equal exactly when their raw values are.
    pub proof fn lemma_view_eq(a: BufferSlot, b: BufferSlot)
        ensures
            (a@ == b@) <==> (a == b),
    {
    }
}

impl Default for BufferSlot {
    fn default() -> (slot: Self)
        ensures
            slot@ == 0,
    {
        BufferSlot(0)
    }
}

impl From<u16> for BufferSlot {
    fn from(value: u16) -> (slot: Self)
        ensures
            slot@ == value,
    {
        BufferSlot::new(value)
    }
}

impl vstd::std_specs::convert::FromSpecImpl<u16> for BufferSlot {
    open spec fn obeys_from_spec() -> bool {
        true
    }

    closed spec fn from_spec(v: u16) -> Self {
        BufferSlot(v)
    }
}

impl From<BufferSlot> for u16 {
    fn from(value: BufferSlot) -> (raw: Self)
        ensures
            raw == value@,
    {
        value.raw()
    }
}

impl vstd::std_specs::convert::FromSpecImpl<BufferSlot> for u16 {
    open spec fn obeys_from_spec() -> bool {
        true
    }

    open spec fn from_spec(v: BufferSlot) -> Self {
        v@
    }
}

/// Opaque numeric identifier for backend kernel implementations.
#[derive(Clone, Copy, Debug, PartialEq, Eq, Structural, Hash, Ord)]
pub struct KernelKind(u32);

impl View for KernelKind {
    type V = u32;

    closed spec fn view(&self) -> u32 {
        self.0
    }
}

impl KernelKind {
    /// Create a kernel kind from its raw numeric value.
    pub fn new(raw: u32) -> (kind: Self)
        ensures
            kind@ == raw,
    {
        KernelKind(raw)
    }

    /// Return the raw numeric kernel kind value.
    pub fn raw(self) -> (raw: u32)
        ensures
            raw == self@,
    {
        self.0
    }

    /// The decimal rendering of the kind number, as `Display` writes it.
    pub fn display_string(&self) -> (s: String)
        ensures
            s@ == decimal(self@ as nat),
    {
        decimal_text(self.0 as usize)
    }

    /// Two kinds are equal exactly when their raw values are.
    pub proof fn lemma_view_eq(a: KernelKind, b: KernelKind)
        ensures
            (a@ == b@) <==> (a == b),
    {
    }
}

impl Default for KernelKind {
    fn default() -> (kind: Self)
        ensures
            kind@ == 0,
    {
        KernelKind(0)
    }
}

impl From<u32> for KernelKind {
    fn from(value: u32) -> (kind: Self)
        ensures
            kind@ == value,
    {
        KernelKind::new(value)
    }
}

impl vstd::std_specs::convert::FromSpecImpl<u32> for KernelKind {
    open spec fn obeys_from_spec() -> bool {
        true
    }

    closed spec fn from_spec(v: u32) -> Self {
        KernelKind(v)
    }
}

impl From<KernelKind> for u32 {
    fn from(value: KernelKind) -> (raw: Self)
        ensures
            raw == value@,
    {
        value.raw()
    }
}

impl vstd::std_specs::convert::FromSpecImpl<KernelKind> for u32 {
    open spec fn obeys_from_spec() -> bool {
        true
    }

    open spec fn from_spec(v: KernelKind) -> Self {
        v@
    }
}

/// Declares one buffer slot used by a compiled pipeline.
#[derive(Clone, Debug, PartialEq, Eq, Structural)]
pub struct BufferSpec {
    /// Slot id used to address the buffer in packets and bindings.
    pub slot: BufferSlot,
    /// Element type stored in this slot.
    pub element_kind: ElementKind,
    /// Declared logical layout of the buffer.
    pub layout: BufferLayout,
}

/// The element count a layout demands for `query_count` queries; `None` for a
/// dynamic buffer, whose length is not checked.
pub open spec fn expected_len(layout: BufferLayout, query_count: nat) -> Option<int> {
    match layout {
        BufferLayout::PerQueryScalar => Some(query_count as int),
        BufferLayout::PerQueryVector { width } => Some(query_count * width),
        BufferLayout::Dynamic => None,
    }
}

/// Message for a layout whose expected length does not fit in `usize`.
pub open spec fn overflow_msg(slot: u16) -> Seq<char> {
    "buffer slot "@ + decimal(slot as nat) + " length overflow for declared layout"@
}

/// Message for a buffer whose length differs from what its layout demands.
pub open spec fn len_mismatch_msg(slot: u16, len: nat, expected: nat) -> Seq<char> {
    "buffer slot "@ + decimal(slot as nat) + " has length "@ + decimal(len)
        + " but declared layout expects "@ + decimal(expected)
}

/// What is wrong with a buffer of `len` elements declared by `spec`, for a
/// packet of `query_count` queries; `None` when nothing is.
pub open spec fn len_problem(spec: BufferSpec, query_count: nat, len: nat) -> Option<Seq<char>> {
    match expected_len(spec.layout, query_count) {
        None => None,
        Some(e) => if e > usize::MAX {
            Some(overflow_msg(spec.slot@))
        } else if len != e {
            Some(len_mismatch_msg(spec.slot@, len, e as nat))
        } else {
            None
        },
    }
}

fn overflow_message(slot: BufferSlot) -> (s: String)
    ensures
        s@ == overflow_msg(slot@),
{
    let mut s = String::from_str("buffer slot ");
    s.append(slot.display_string().as_str());
    s.append(" length overflow for declared layout");
    s
}

fn len_mismatch_message(slot: BufferSlot, len: usize, expected: usize) -> (s: String)
    ensures
        s@ == len_mismatch_msg(slot@, len as nat, expected as nat),
{
    let mut s = String::from_str("buffer slot ");
    s.append(slot.display_string().as_str());
    s.append(" has length ");
    s.append(decimal_text(len).as_str());
    s.append(" but declared layout expects ");
    s.append(decimal_text(expected).as_str());
    s
}

impl BufferSpec {
    /// Create a custom buffer declaration.
    pub fn new(slot: BufferSlot, element_kind: ElementKind, layout: BufferLayout) -> (spec: Self)
        ensures
            spec == (BufferSpec { slot, element_kind, layout }),
    {
        BufferSpec { slot, element_kind, layout }
    }

    /// Declare a scalar-per-query buffer.
    pub fn per_query_scalar(slot: BufferSlot, element_kind: ElementKind) -> (spec: Self)
        ensures
            spec == (BufferSpec { slot, element_kind, layout: BufferLayout::PerQueryScalar }),
    {
        Self::new(slot, element_kind, BufferLayout::PerQueryScalar)
    }

    /// Declare a fixed-width vector-per-query buffer.
    pub fn per_query_vector(slot: BufferSlot, element_kind: ElementKind, width: usize) -> (spec:
        Self)
        ensures
            spec == (BufferSpec {
                slot,
                element_kind,
                layout: BufferLayout::PerQueryVector { width },
            }),
    {
        Self::new(slot, element_kind, BufferLayout::PerQueryVector { width })
    }

    /// Declare a planner/backend-managed dynamic buffer.
    pub fn dynamic(slot: BufferSlot, element_kind: ElementKind) -> (spec: Self)
        ensures
            spec == (BufferSpec { slot, element_kind, layout: BufferLayout::Dynamic }),
    {
        Self::new(slot, element_kind, BufferLayout::Dynamic)
    }

    /// Check a buffer of `len` elements against the declared layout for a
    /// packet of `query_count` queries.
    fn validate_len(&self, query_count: usize, len: usize) -> (r: BraidResult<()>)
        ensures
            match r {
                Ok(_) => len_problem(*self, query_count as nat, len as nat) is None,
                Err(e) => len_problem(*self, query_count as nat, len as nat) matches Some(m)
                    && crate::error::is_invalid_spec(e, m),
            },
    {
        let expected_len = match self.layout {
            BufferLayout::PerQueryScalar => Some(query_count),
            BufferLayout::PerQueryVector { width } => query_count.checked_mul(width),
            BufferLayout::Dynamic => {
                return Ok(());
            },
        };
        let expected_len = match expected_len {
            Some(n) => n,
            None => {
                return Err(BraidError::InvalidSpec(overflow_message(self.slot)));
            },
        };
        if len != expected_len {
            return Err(BraidError::InvalidSpec(len_mismatch_message(self.slot, len, expected_len)));
        }
        Ok(())
    }
}

/// One kernel's view of one pipeline buffer slot.
#[derive(Clone, Copy, Debug, PartialEq, Eq, Structural)]
pub struct BufferBinding {
    /// Slot referenced by the kernel.
    pub slot: BufferSlot,
    /// Declared access mode.
    pub access: BufferAccess,
}

impl BufferBinding {
    /// Create a generic buffer binding.
    pub fn new(slot: BufferSlot, access: BufferAccess) -> (b: Self)
        ensures
            b == (BufferBinding { slot, access }),
    {
        BufferBinding { slot, access }
    }

    /// Read-only binding helper.
    pub fn read(slot: BufferSlot) -> (b: Self)
        ensures
            b == (BufferBinding { slot, access: BufferAccess::Read }),
    {
        Self::new(slot, BufferAccess::Read)
    }

    /// Write-only binding helper.
    pub fn write(slot: BufferSlot) -> (b: Self)
        ensures
            b == (BufferBinding { slot, access: BufferAccess::Write }),
    {
        Self::new(slot, BufferAccess::Write)
    }

    /// Read-write binding helper.
    pub fn read_write(slot: BufferSlot) -> (b: Self)
        ensures
            b == (BufferBinding { slot, access: BufferAccess::ReadWrite }),
    {
        Self::new(slot, BufferAccess::ReadWrite)
    }
}

/// One compiled kernel invocation inside a stage.
#[derive(Clone, Debug)]
pub struct KernelSpec {
    /// Backend kernel kind to instantiate.
    pub kind_id: KernelKind,
    /// Planner-defined opaque payload for backend preparation, shared on clone.
    pub payload: Arc<Vec<u8>>,
    /// Buffers this kernel reads or writes.
    pub bindings: Vec<BufferBinding>,
    /// Scheduler hint for batch execution.
    pub dispatch: DispatchHint,
}

impl KernelSpec {
    /// Create one kernel spec with payload bytes.
    pub fn new(kind_id: KernelKind, payload: Vec<u8>) -> (k: Self)
        ensures
            k.kind_id == kind_id,
            k.payload@ == payload@,
            k.bindings@ == Seq::<BufferBinding>::empty(),
            k.dispatch == DispatchHint::WholeBatch,
    {
        KernelSpec {
            kind_id,
            payload: Arc::new(payload),
            bindings: Vec::new(),
            dispatch: DispatchHint::WholeBatch,
        }
    }

    /// Create one kernel spec with no payload.
    pub fn empty(kind_id: KernelKind) -> (k: Self)
        ensures
            k.kind_id == kind_id,
            k.payload@ == Seq::<u8>::empty(),
            k.bindings@ == Seq::<BufferBinding>::empty(),
            k.dispatch == DispatchHint::WholeBatch,
    {
        Self::new(kind_id, Vec::new())
    }

    /// Attach buffer bindings to the kernel, after those it already has.
    pub fn with_bindings(self, bindings: Vec<BufferBinding>) -> (k: Self)
        ensures
            k.kind_id == self.kind_id,
            k.payload == self.payload,
            k.bindings@ == self.bindings@ + bindings@,
            k.dispatch == self.dispatch,
    {
        let mut k = self;
        let mut bindings = bindings;
        k.bindings.append(&mut bindings);
        k
    }

    /// Override the kernel dispatch hint.
    pub fn with_dispatch(self, dispatch: DispatchHint) -> (k: Self)
        ensures
            k.kind_id == self.kind_id,
            k.payload == self.payload,
            k.bindings == self.bindings,
            k.dispatch == dispatch,
    {
        let mut k = self;
        k.dispatch = dispatch;
        k
    }
}

/// Barrier-separated group of kernels.
#[derive(Clone, Debug)]
pub struct StageSpec {
    /// Kernels executed within this stage.
    pub kernels: Vec<KernelSpec>,
}

impl StageSpec {
    /// Helper for a one-kernel stage.
    pub fn single(kernel: KernelSpec) -> (stage: Self)
        ensures
            stage.kernels@ == seq![kernel],
    {
        let mut kernels = Vec::new();
        kernels.push(kernel);
        StageSpec { kernels }
    }
}

impl Default for StageSpec {
    fn default() -> (stage: Self)
        ensures
            stage.kernels@ == Seq::<KernelSpec>::empty(),
    {
        StageSpec { kernels: Vec::new() }
    }
}

/// Full buffer and stage layout for a compiled plan.
#[derive(Clone, Debug)]
pub struct PipelineShape {
    /// Declared packet/static buffer slots used by the pipeline.
    pub buffers: Vec<BufferSpec>,
    /// Ordered stage list.
    pub stages: Vec<StageSpec>,
}

impl Default for PipelineShape {
    fn default() -> (shape: Self)
        ensures
            shape.buffers@ == Seq::<BufferSpec>::empty(),
            shape.stages@ == Seq::<StageSpec>::empty(),
    {
        PipelineShape { buffers: Vec::new(), stages: Vec::new() }
    }
}

/// Type-erased storage for packet and static buffers.
///
/// An `F32` buffer holds each value as its IEEE-754 bit pattern
/// (`f32::to_bits`); the value `0.0` is the pattern `0`.
#[derive(Clone, Debug)]
pub enum BufferData {
    /// Unsigned 32-bit integers.
    U32(Vec<u32>),
    /// Unsigned 64-bit integers.
    U64(Vec<u64>),
    /// 32-bit floats, as bit patterns.
    F32(Vec<u32>),
}

impl BufferData {
    /// The element type of the buffer.
    pub open spec fn spec_kind(&self) -> ElementKind {
        match self {
            BufferData::U32(_) => ElementKind::U32,
            BufferData::U64(_) => ElementKind::U64,
            BufferData::F32(_) => ElementKind::F32,
        }
    }

    /// The logical element count of the buffer.
    pub open spec fn spec_len(&self) -> usize {
        match self {
            BufferData::U32(v) => v.len(),
            BufferData::U64(v) => v.len(),
            BufferData::F32(v) => v.len(),
        }
    }

    /// Return the element type of this buffer.
    #[verifier::when_used_as_spec(spec_kind)]
    pub fn kind(&self) -> (k: ElementKind)
        ensures
            k == self.spec_kind(),
    {
        match self {
            BufferData::U32(_) => ElementKind::U32,
            BufferData::U64(_) => ElementKind::U64,
            BufferData::F32(_) => ElementKind::F32,
        }
    }

    /// Clear logical contents while keeping the element type.
    pub fn clear(&mut self)
        ensures
            final(self).kind() == old(self).kind(),
            final(self).len() == 0,
    {
        match self {
            BufferData::U32(vals) => vals.clear(),
            BufferData::U64(vals) => vals.clear(),
            BufferData::F32(vals) => vals.clear(),
        }
    }

    /// Return the logical element count.
    #[verifier::when_used_as_spec(spec_len)]
    pub fn len(&self) -> (n: usize)
        ensures
            n == self.spec_len(),
    {
        match self {
            BufferData::U32(vals) => vals.len(),
            BufferData::U64(vals) => vals.len(),
            BufferData::F32(vals) => vals.len(),
        }
    }
}

/// Immutable static buffer loaded into packets before stage execution.
#[derive(Clone, Debug)]
pub struct StaticBuffer {
    /// Slot addressed by the static buffer.
    pub slot: BufferSlot,
    /// Static data stored in that slot.
    pub data: BufferData,
}

impl StaticBuffer {
    /// Create one static buffer.
    pub fn new(slot: BufferSlot, data: BufferData) -> (b: Self)
        ensures
            b.slot == slot,
            b.data == data,
    {
        StaticBuffer { slot, data }
    }
}

/// Collection of static buffers attached to a compiled plan.
pub type StaticBufferSet = Vec<StaticBuffer>;

/// Planner output consumed by stack creation, recompile, and backend prepare.
#[derive(Clone, Debug)]
pub struct CompiledPlan<M> {
    /// Generic pipeline layout.
    pub pipeline: PipelineShape,
    /// Planner-provided immutable static buffers.
    pub static_buffers: StaticBufferSet,
    /// Planner-specific metadata preserved for encode/decode.
    pub planner_meta: M,
}

// ----- What a valid plan is -----

/// Some declaration before position `j` uses the slot of declaration `j`.
pub open spec fn dup_at(specs: Seq<BufferSpec>, j: int) -> bool {
    &&& 0 <= j < specs.len()
    &&& exists|i: int| 0 <= i < j && #[trigger] specs[i].slot@ == specs[j].slot@
}

/// `j` is the first declaration whose slot was declared before.
pub open spec fn first_dup(specs: Seq<BufferSpec>, j: int) -> bool {
    &&& dup_at(specs, j)
    &&& forall|k: int| 0 <= k < j ==> !dup_at(specs, k)
}

/// No slot is declared twice.
pub open spec fn slots_unique(specs: Seq<BufferSpec>) -> bool {
    forall|j: int| !dup_at(specs, j)
}

/// Slot `x` is declared.
pub open spec fn declares(specs: Seq<BufferSpec>, x: u16) -> bool {
    exists|i: int| 0 <= i < specs.len() && #[trigger] specs[i].slot@ == x
}

/// A position declaring slot `x` (the only one when slots are unique).
pub open spec fn declared_index(specs: Seq<BufferSpec>, x: u16) -> int {
    choose|i: int| 0 <= i < specs.len() && #[trigger] specs[i].slot@ == x
}

/// The declaration of slot `x` (the only one when slots are unique).
pub open spec fn declared_spec(specs: Seq<BufferSpec>, x: u16) -> BufferSpec {
    specs[declared_index(specs, x)]
}

/// Message for a slot declared twice.
pub open spec fn dup_buffer_msg(x: u16) -> Seq<char> {
    "duplicate buffer slot "@ + decimal(x as nat) + " in pipeline"@
}

/// Message for a slot given two static buffers.
pub open spec fn dup_static_msg(x: u16) -> Seq<char> {
    "duplicate static buffer slot "@ + decimal(x as nat)
}

/// Message for a static buffer at an undeclared slot.
pub open spec fn undeclared_static_msg(x: u16) -> Seq<char> {
    "static buffer slot "@ + decimal(x as nat) + " is not declared in pipeline"@
}

/// Message for a static buffer whose element type differs from its declaration.
pub open spec fn wrong_kind_msg(x: u16) -> Seq<char> {
    "static buffer slot "@ + decimal(x as nat) + " has wrong element kind"@
}

/// Message for a kernel binding that names an undeclared slot.
pub open spec fn undeclared_binding_msg(stage: nat, kernel: nat, x: u16) -> Seq<char> {
    "stage "@ + decimal(stage) + " kernel "@ + decimal(kernel)
        + " references undeclared buffer slot "@ + decimal(x as nat)
}

/// Message for a non-empty packet buffer at an undeclared slot.
pub open spec fn undeclared_packet_msg(x: u16) -> Seq<char> {
    "packet contains undeclared buffer slot "@ + decimal(x as nat)
}

/// What is wrong with static buffer `j` of the plan, checked in this order:
/// its slot already had a static buffer, is not declared, or is declared
/// with another element type.
pub open spec fn static_problem<M>(plan: CompiledPlan<M>, j: int) -> Option<Seq<char>> {
    let statics = plan.static_buffers@;
    let specs = plan.pipeline.buffers@;
    let x = statics[j].slot@;
    if exists|i: int| 0 <= i < j && #[trigger] statics[i].slot@ == x {
        Some(dup_static_msg(x))
    } else if !declares(specs, x) {
        Some(undeclared_static_msg(x))
    } else if declared_spec(specs, x).element_kind != statics[j].data.kind() {
        Some(wrong_kind_msg(x))
    } else {
        None
    }
}

/// `j` is the first static buffer with a problem.
pub open spec fn first_static_problem<M>(plan: CompiledPlan<M>, j: int) -> bool {
    &&& 0 <= j < plan.static_buffers@.len()
    &&& static_problem(plan, j) is Some
    &&& forall|k: int| 0 <= k < j ==> #[trigger] static_problem(plan, k) is None
}

/// The slot of binding `bi` of kernel `ki` of stage `si`.
pub open spec fn binding_slot<M>(plan: CompiledPlan<M>, si: int, ki: int, bi: int) -> u16 {
    plan.pipeline.stages@[si].kernels@[ki].bindings@[bi].slot@
}

/// Binding `bi` of kernel `ki` of stage `si` names a declared slot.
pub open spec fn binding_ok<M>(plan: CompiledPlan<M>, si: int, ki: int, bi: int) -> bool {
    declares(plan.pipeline.buffers@, binding_slot(plan, si, ki, bi))
}

/// Every binding of kernel `ki` of stage `si` names a declared slot.
pub open spec fn kernel_ok<M>(plan: CompiledPlan<M>, si: int, ki: int) -> bool {
    forall|bi: int|
        0 <= bi < plan.pipeline.stages@[si].kernels@[ki].bindings@.len() ==> #[trigger] binding_ok(
            plan,
            si,
            ki,
            bi,
        )
}

/// Every binding of every kernel of stage `si` names a declared slot.
pub open spec fn stage_ok<M>(plan: CompiledPlan<M>, si: int) -> bool {
    forall|ki: int|
        0 <= ki < plan.pipeline.stages@[si].kernels@.len() ==> #[trigger] kernel_ok(plan, si, ki)
}

/// `(si, ki, bi)` is the first binding, in stage, kernel, binding order, that
/// names an undeclared slot.
pub open spec fn first_bad_binding<M>(plan: CompiledPlan<M>, si: int, ki: int, bi: int) -> bool {
    &&& 0 <= si < plan.pipeline.stages@.len()
    &&& 0 <= ki < plan.pipeline.stages@[si].kernels@.len()
    &&& 0 <= bi < plan.pipeline.stages@[si].kernels@[ki].bindings@.len()
    &&& !binding_ok(plan, si, ki, bi)
    &&& forall|s: int| 0 <= s < si ==> #[trigger] stage_ok(plan, s)
    &&& forall|k: int| 0 <= k < ki ==> #[trigger] kernel_ok(plan, si, k)
    &&& forall|b: int| 0 <= b < bi ==> #[trigger] binding_ok(plan, si, ki, b)
}

/// The plan declares every slot once, its static buffers use distinct
/// declared slots with the declared element types, and every kernel binding
/// names a declared slot.
pub open spec fn plan_valid<M>(plan: CompiledPlan<M>) -> bool {
    &&& slots_unique(plan.pipeline.buffers@)
    &&& forall|j: int|
        0 <= j < plan.static_buffers@.len() ==> #[trigger] static_problem(plan, j) is None
    &&& forall|si: int| 0 <= si < plan.pipeline.stages@.len() ==> #[trigger] stage_ok(plan, si)
}

/// The message of the first check that the plan fails, in the order
/// duplicate declarations, static buffers, kernel bindings.
pub open spec fn plan_problem<M>(plan: CompiledPlan<M>) -> Option<Seq<char>> {
    let specs = plan.pipeline.buffers@;
    if exists|j: int| first_dup(specs, j) {
        Some(dup_buffer_msg(specs[choose|j: int| first_dup(specs, j)].slot@))
    } else if exists|j: int| first_static_problem(plan, j) {
        static_problem(plan, choose|j: int| first_static_problem(plan, j))
    } else if exists|si: int, ki: int, bi: int| first_bad_binding(plan, si, ki, bi) {
        let (si, ki, bi) = choose|si: int, ki: int, bi: int| first_bad_binding(plan, si, ki, bi);
        Some(undeclared_binding_msg(si as nat, ki as nat, binding_slot(plan, si, ki, bi)))
    } else {
        None
    }
}

/// Why a packet buffer is refused by a plan whose declarations are `specs`.
pub ghost enum Rejection {
    /// Refused with `InvalidSpec` and this message.
    Spec(Seq<char>),
    /// Refused with `InvalidBufferType` at this slot, expecting this kind.
    WrongType(u16, ElementKind),
}

/// `e` is the error that rejection `r` is reported with.
pub open spec fn rejects(e: BraidError, r: Rejection) -> bool {
    match r {
        Rejection::Spec(m) => is_invalid_spec(e, m),
        Rejection::WrongType(x, k) => e matches BraidError::InvalidBufferType { slot, expected }
            && slot@ == x && expected == k,
    }
}

/// What is wrong with one packet buffer: an undeclared slot (unless the buffer
/// is empty), another element type than declared, or a length the declared
/// layout does not allow.
pub open spec fn buffer_problem(specs: Seq<BufferSpec>, query_count: nat, buf: PacketBuffer) -> Option<
    Rejection,
> {
    let x = buf.slot@;
    if !declares(specs, x) {
        if buf.data.len() == 0 {
            None
        } else {
            Some(Rejection::Spec(undeclared_packet_msg(x)))
        }
    } else if declared_spec(specs, x).element_kind != buf.data.kind() {
        Some(Rejection::WrongType(x, declared_spec(specs, x).element_kind))
    } else {
        match len_problem(declared_spec(specs, x), query_count, buf.data.len() as nat) {
            Some(m) => Some(Rejection::Spec(m)),
            None => None,
        }
    }
}

/// `j` is the first packet buffer with a problem.
pub open spec fn first_buffer_problem(specs: Seq<BufferSpec>, packet: PacketView, j: int) -> bool {
    &&& 0 <= j < packet.buffers.len()
    &&& buffer_problem(specs, packet.query_count as nat, packet.buffers[j]) is Some
    &&& forall|k: int|
        0 <= k < j ==> #[trigger] buffer_problem(specs, packet.query_count as nat, packet.buffers[k])
            is None
}

/// The plan declares every slot once and every packet buffer fits its
/// declaration.
pub open spec fn packet_fits<M>(plan: CompiledPlan<M>, packet: PacketView) -> bool {
    &&& slots_unique(plan.pipeline.buffers@)
    &&& forall|j: int|
        0 <= j < packet.buffers.len() ==> #[trigger] buffer_problem(
            plan.pipeline.buffers@,
            packet.query_count as nat,
            packet.buffers[j],
        ) is None
}

/// The first reason the plan refuses the packet, in the order duplicate
/// declarations, then packet buffers.
pub open spec fn packet_problem<M>(plan: CompiledPlan<M>, packet: PacketView) -> Option<Rejection> {
    let specs = plan.pipeline.buffers@;
    if exists|j: int| first_dup(specs, j) {
        Some(Rejection::Spec(dup_buffer_msg(specs[choose|j: int| first_dup(specs, j)].slot@)))
    } else if exists|j: int| first_buffer_problem(specs, packet, j) {
        buffer_problem(
            specs,
            packet.query_count as nat,
            packet.buffers[choose|j: int| first_buffer_problem(specs, packet, j)],
        )
    } else {
        None
    }
}

proof fn lemma_first_dup_unique(specs: Seq<BufferSpec>, j: int)
    requires
        first_dup(specs, j),
    ensures
        (choose|k: int| first_dup(specs, k)) == j,
{
    let k = choose|k: int| first_dup(specs, k);
    assert(first_dup(specs, k));
    if k < j {
        assert(!dup_at(specs, k));
    }
    if j < k {
        assert(!dup_at(specs, j));
    }
}

proof fn lemma_declared_spec_at(specs: Seq<BufferSpec>, i: int)
    requires
        slots_unique(specs),
        0 <= i < specs.len(),
    ensures
        declares(specs, specs[i].slot@),
        declared_spec(specs, specs[i].slot@) == specs[i],
{
    let x = specs[i].slot@;
    assert(specs[i].slot@ == x);
    let c = declared_index(specs, x);
    assert(0 <= c < specs.len() && specs[c].slot@ == x);
    if c < i {
        assert(dup_at(specs, i));
    }
    if i < c {
        assert(dup_at(specs, c));
    }
}

fn dup_buffer_message(slot: BufferSlot) -> (s: String)
    ensures
        s@ == dup_buffer_msg(slot@),
{
    let mut s = String::from_str("duplicate buffer slot ");
    s.append(slot.display_string().as_str());
    s.append(" in pipeline");
    s
}

fn dup_static_message(slot: BufferSlot) -> (s: String)
    ensures
        s@ == dup_static_msg(slot@),
{
    let mut s = String::from_str("duplicate static buffer slot ");
    s.append(slot.display_string().as_str());
    s
}

fn undeclared_static_message(slot: BufferSlot) -> (s: String)
    ensures
        s@ == undeclared_static_msg(slot@),
{
    let mut s = String::from_str("static buffer slot ");
    s.append(slot.display_string().as_str());
    s.append(" is not declared in pipeline");
    s
}

fn wrong_kind_message(slot: BufferSlot) -> (s: String)
    ensures
        s@ == wrong_kind_msg(slot@),
{
    let mut s = String::from_str("static buffer slot ");
    s.append(slot.display_string().as_str());
    s.append(" has wrong element kind");
    s
}

fn undeclared_binding_message(stage: usize, kernel: usize, slot: BufferSlot) -> (s: String)
    ensures
        s@ == undeclared_binding_msg(stage as nat, kernel as nat, slot@),
{
    let mut s = String::from_str("stage ");
    s.append(decimal_text(stage).as_str());
    s.append(" kernel ");
    s.append(decimal_text(kernel).as_str());
    s.append(" references undeclared buffer slot ");
    s.append(slot.display_string().as_str());
    s
}

fn undeclared_packet_message(slot: BufferSlot) -> (s: String)
    ensures
        s@ == undeclared_packet_msg(slot@),
{
    let mut s = String::from_str("packet contains undeclared buffer slot ");
    s.append(slot.display_string().as_str());
    s
}

impl<M> CompiledPlan<M> {
    /// Start building a compiled plan with planner metadata.
    pub fn builder(planner_meta: M) -> (b: PlanBuilder<M>)
        ensures
            b.plan().pipeline.buffers@ == Seq::<BufferSpec>::empty(),
            b.plan().pipeline.stages@ == Seq::<StageSpec>::empty(),
            b.plan().static_buffers@ == Seq::<StaticBuffer>::empty(),
            b.plan().planner_meta == planner_meta,
    {
        PlanBuilder::new(planner_meta)
    }

    /// Validate slot declarations, static buffers, and kernel bindings.
    ///
    /// Succeeds exactly when the plan is valid; otherwise the error is
    /// `InvalidSpec` with the message of the first check that fails.
    pub fn validate(&self) -> (r: BraidResult<()>)
        ensures
            r is Ok <==> plan_valid(*self),
            match r {
                Ok(_) => plan_problem(*self) is None,
                Err(e) => plan_problem(*self) matches Some(m) && is_invalid_spec(e, m),
            },
    {
        let ghost plan = *self;
        let ghost specs = self.pipeline.buffers@;
        let specs_map = match self.specs_by_slot() {
            Ok(m) => m,
            Err(e) => {
                proof {
                    let j = choose|j: int|
                        first_dup(specs, j) && is_invalid_spec(e, dup_buffer_msg(specs[j].slot@));
                    lemma_first_dup_unique(specs, j);
                    assert(!slots_unique(specs));
                }
                return Err(e);
            },
        };
        proof {
            assert(!exists|j: int| first_dup(specs, j));
        }
        let statics = &self.static_buffers;
        let n = statics.len();
        let mut static_slots: HashMap<u16, ()> = HashMap::with_capacity(n);
        let mut j: usize = 0;
        while j < n
            invariant
                0 <= j <= n,
                n == statics@.len(),
                plan == *self,
                specs == self.pipeline.buffers@,
                statics@ == self.static_buffers@,
                slots_unique(specs),
                forall|x: u16| specs_map@.contains_key(x) <==> declares(specs, x),
                forall|i: int| 0 <= i < specs.len() ==> #[trigger] specs_map@[specs[i].slot@] == i,
                forall|x: u16|
                    static_slots@.contains_key(x) <==> exists|k: int|
                        0 <= k < j && #[trigger] statics@[k].slot@ == x,
                forall|k: int| 0 <= k < j ==> #[trigger] static_problem(plan, k) is None,
            decreases n - j,
        {
            let buffer = &statics[j];
            let slot = buffer.slot;
            if static_slots.insert(slot.raw(), ()).is_some() {
                let e = BraidError::InvalidSpec(dup_static_message(slot));
                proof {
                    assert(static_problem(plan, j as int) == Some(dup_static_msg(slot@)));
                    self.lemma_static_error(j as int);
                }
                return Err(e);
            }
            let index = match specs_map.get(&slot.raw()) {
                Some(index) => *index,
                None => {
                    let e = BraidError::InvalidSpec(undeclared_static_message(slot));
                    proof {
                        assert(static_problem(plan, j as int) == Some(undeclared_static_msg(slot@)));
                        self.lemma_static_error(j as int);
                    }
                    return Err(e);
                },
            };
            proof {
                assert(specs_map@.contains_key(slot@));
                let w = choose|w: int| 0 <= w < specs.len() && #[trigger] specs[w].slot@ == slot@;
                assert(specs_map@[specs[w].slot@] == w);
                lemma_declared_spec_at(specs, w);
            }
            if self.pipeline.buffers[index].element_kind != buffer.data.kind() {
                let e = BraidError::InvalidSpec(wrong_kind_message(slot));
                proof {
                    assert(static_problem(plan, j as int) == Some(wrong_kind_msg(slot@)));
                    self.lemma_static_error(j as int);
                }
                return Err(e);
            }
            proof {
                assert(static_problem(plan, j as int) is None);
            }
            j = j + 1;
        }
        proof {
            assert(!exists|k: int| first_static_problem(plan, k));
        }
        let stages = &self.pipeline.stages;
        let stage_count = stages.len();
        let mut si: usize = 0;
        while si < stage_count
            invariant
                0 <= si <= stage_count,
                stage_count == stages@.len(),
                plan == *self,
                stages@ == self.pipeline.stages@,
                specs == self.pipeline.buffers@,
                slots_unique(specs),
                forall|x: u16| specs_map@.contains_key(x) <==> declares(specs, x),
                forall|k: int| 0 <= k < n ==> #[trigger] static_problem(plan, k) is None,
                n == self.static_buffers@.len(),
                forall|s: int| 0 <= s < si ==> #[trigger] stage_ok(plan, s),
            decreases stage_count - si,
        {
            let kernels = &stages[si].kernels;
            let kernel_count = kernels.len();
            let mut ki: usize = 0;
            while ki < kernel_count
                invariant
                    0 <= si < stage_count,
                    0 <= ki <= kernel_count,
                    kernel_count == kernels@.len(),
                    kernels@ == self.pipeline.stages@[si as int].kernels@,
                    stage_count == stages@.len(),
                    plan == *self,
                    stages@ == self.pipeline.stages@,
                    specs == self.pipeline.buffers@,
                    slots_unique(specs),
                    forall|x: u16| specs_map@.contains_key(x) <==> declares(specs, x),
                    forall|k: int| 0 <= k < n ==> #[trigger] static_problem(plan, k) is None,
                    n == self.static_buffers@.len(),
                    forall|s: int| 0 <= s < si ==> #[trigger] stage_ok(plan, s),
                    forall|k: int| 0 <= k < ki ==> #[trigger] kernel_ok(plan, si as int, k),
                decreases kernel_count - ki,
            {
                let bindings = &kernels[ki].bindings;
                let binding_count = bindings.len();
                let mut bi: usize = 0;
                while bi < binding_count
                    invariant
                        0 <= si < stage_count,
                        0 <= ki < kernel_count,
                        0 <= bi <= binding_count,
                        binding_count == bindings@.len(),
                        bindings@ == self.pipeline.stages@[si as int].kernels@[ki as int].bindings@,
                        kernel_count == kernels@.len(),
                        kernels@ == self.pipeline.stages@[si as int].kernels@,
                        stage_count == stages@.len(),
                        plan == *self,
                        stages@ == self.pipeline.stages@,
                        specs == self.pipeline.buffers@,
                        slots_unique(specs),
                        forall|x: u16| specs_map@.contains_key(x) <==> declares(specs, x),
                        forall|k: int| 0 <= k < n ==> #[trigger] static_problem(plan, k) is None,
                        n == self.static_buffers@.len(),
                        forall|s: int| 0 <= s < si ==> #[trigger] stage_ok(plan, s),
                        forall|k: int| 0 <= k < ki ==> #[trigger] kernel_ok(plan, si as int, k),
                        forall|b: int| 0 <= b < bi ==> #[trigger] binding_ok(plan, si as int, ki as int, b),
                    decreases binding_count - bi,
                {
                    let slot = bindings[bi].slot;
                    if !specs_map.contains_key(&slot.raw()) {
                        let e = BraidError::InvalidSpec(undeclared_binding_message(si, ki, slot));
                        proof {
                            assert(!binding_ok(plan, si as int, ki as int, bi as int));
                            assert(first_bad_binding(plan, si as int, ki as int, bi as int));
                            self.lemma_binding_error(si as int, ki as int, bi as int);
                        }
                        return Err(e);
                    }
                    bi = bi + 1;
                }
                ki = ki + 1;
            }
            si = si + 1;
        }
        proof {
            assert(plan_valid(plan));
            crate::laws::law_valid_plan_has_no_problem(plan);
        }
        Ok(())
    }

    /// Check a packet against the plan: every non-empty packet buffer must be
    /// declared, hold the declared element type, and have the length the
    /// declared layout demands for the packet's query count.
    ///
    /// Succeeds exactly when the packet fits the plan; otherwise the error is
    /// that of the first refusal.
    pub fn validate_packet(&self, packet: &JobPacket) -> (r: BraidResult<()>)
        ensures
            r is Ok <==> packet_fits(*self, packet@),
            match r {
                Ok(_) => packet_problem(*self, packet@) is None,
                Err(e) => packet_problem(*self, packet@) matches Some(rj) && rejects(e, rj),
            },
    {
        let ghost plan = *self;
        let ghost specs = self.pipeline.buffers@;
        let ghost view = packet@;
        let specs_map = match self.specs_by_slot() {
            Ok(m) => m,
            Err(e) => {
                proof {
                    let j = choose|j: int|
                        first_dup(specs, j) && is_invalid_spec(e, dup_buffer_msg(specs[j].slot@));
                    lemma_first_dup_unique(specs, j);
                    assert(!slots_unique(specs));
                }
                return Err(e);
            },
        };
        proof {
            assert(!exists|j: int| first_dup(specs, j));
        }
        let query_count = packet.query_count();
        let descs = packet.buffer_descriptors();
        let n = descs.len();
        let mut j: usize = 0;
        while j < n
            invariant
                0 <= j <= n,
                n == descs@.len(),
                n == view.buffers.len(),
                view == packet@,
                query_count == view.query_count,
                forall|i: int|
                    0 <= i < n ==> #[trigger] descs@[i] == (
                        view.buffers[i].slot,
                        view.buffers[i].data.kind(),
                        view.buffers[i].data.len(),
                    ),
                plan == *self,
                specs == self.pipeline.buffers@,
                slots_unique(specs),
                forall|x: u16| specs_map@.contains_key(x) <==> declares(specs, x),
                forall|i: int| 0 <= i < specs.len() ==> #[trigger] specs_map@[specs[i].slot@] == i,
                forall|k: int|
                    0 <= k < j ==> #[trigger] buffer_problem(specs, query_count as nat, view.buffers[k])
                        is None,
            decreases n - j,
        {
            let (slot, kind, len) = descs[j];
            proof {
                assert(descs@[j as int] == (
                    view.buffers[j as int].slot,
                    view.buffers[j as int].data.kind(),
                    view.buffers[j as int].data.len(),
                ));
            }
            match specs_map.get(&slot.raw()) {
                None => {
                    if len != 0 {
                        let e = BraidError::InvalidSpec(undeclared_packet_message(slot));
                        proof {
                            assert(buffer_problem(specs, query_count as nat, view.buffers[j as int])
                                == Some(Rejection::Spec(undeclared_packet_msg(slot@))));
                            self.lemma_packet_error(packet, j as int);
                        }
                        return Err(e);
                    }
                },
                Some(index) => {
                    let spec = &self.pipeline.buffers[*index];
                    proof {
                        assert(specs_map@.contains_key(slot@));
                        let w = choose|w: int| 0 <= w < specs.len() && #[trigger] specs[w].slot@ == slot@;
                        assert(specs_map@[specs[w].slot@] == w);
                        lemma_declared_spec_at(specs, w);
                    }
                    if spec.element_kind != kind {
                        let e = BraidError::InvalidBufferType { slot, expected: spec.element_kind };
                        proof {
                            assert(buffer_problem(specs, query_count as nat, view.buffers[j as int])
                                == Some(Rejection::WrongType(slot@, spec.element_kind)));
                            self.lemma_packet_error(packet, j as int);
                        }
                        return Err(e);
                    }
                    match spec.validate_len(query_count, len) {
                        Ok(_) => {},
                        Err(e) => {
                            proof {
                                self.lemma_packet_error(packet, j as int);
                            }
                            return Err(e);
                        },
                    }
                },
            }
            j = j + 1;
        }
        proof {
            assert(packet_fits(plan, view));
            assert(!exists|k: int| first_buffer_problem(specs, view, k));
        }
        Ok(())
    }

    proof fn lemma_packet_error(&self, packet: &JobPacket, j: int)
        requires
            slots_unique(self.pipeline.buffers@),
            0 <= j < packet@.buffers.len(),
            buffer_problem(self.pipeline.buffers@, packet@.query_count as nat, packet@.buffers[j])
                is Some,
            forall|k: int|
                0 <= k < j ==> #[trigger] buffer_problem(
                    self.pipeline.buffers@,
                    packet@.query_count as nat,
                    packet@.buffers[k],
                ) is None,
        ensures
            !packet_fits(*self, packet@),
            packet_problem(*self, packet@) == buffer_problem(
                self.pipeline.buffers@,
                packet@.query_count as nat,
                packet@.buffers[j],
            ),
    {
        let specs = self.pipeline.buffers@;
        let view = packet@;
        assert(!exists|k: int| first_dup(specs, k));
        assert(first_buffer_problem(specs, view, j));
        let c = choose|c: int| first_buffer_problem(specs, view, c);
        assert(first_buffer_problem(specs, view, c));
        if c < j {
            assert(buffer_problem(specs, view.query_count as nat, view.buffers[c]) is None);
        }
        if j < c {
            assert(buffer_problem(specs, view.query_count as nat, view.buffers[j]) is None);
        }
    }

    proof fn lemma_static_error(&self, j: int)
        requires
            slots_unique(self.pipeline.buffers@),
            0 <= j < self.static_buffers@.len(),
            static_problem(*self, j) is Some,
            forall|k: int| 0 <= k < j ==> #[trigger] static_problem(*self, k) is None,
        ensures
            !plan_valid(*self),
            plan_problem(*self) == static_problem(*self, j),
    {
        let specs = self.pipeline.buffers@;
        assert(!exists|k: int| first_dup(specs, k));
        assert(first_static_problem(*self, j));
        let c = choose|c: int| first_static_problem(*self, c);
        assert(first_static_problem(*self, c));
        if c < j {
            assert(static_problem(*self, c) is None);
        }
        if j < c {
            assert(static_problem(*self, j) is None);
        }
    }

    proof fn lemma_binding_error(&self, si: int, ki: int, bi: int)
        requires
            slots_unique(self.pipeline.buffers@),
            forall|k: int|
                0 <= k < self.static_buffers@.len() ==> #[trigger] static_problem(*self, k) is None,
            first_bad_binding(*self, si, ki, bi),
        ensures
            !plan_valid(*self),
            plan_problem(*self) == Some(
                undeclared_binding_msg(si as nat, ki as nat, binding_slot(*self, si, ki, bi)),
            ),
    {
        let plan = *self;
        let specs = self.pipeline.buffers@;
        assert(!exists|k: int| first_dup(specs, k));
        assert(!exists|k: int| first_static_problem(plan, k));
        assert(!kernel_ok(plan, si, ki));
        assert(!stage_ok(plan, si));
        let (s2, k2, b2) = choose|s: int, k: int, b: int| first_bad_binding(plan, s, k, b);
        assert(first_bad_binding(plan, s2, k2, b2));
        if s2 < si {
            assert(stage_ok(plan, s2));
            assert(kernel_ok(plan, s2, k2));
        }
        if si < s2 {
            assert(stage_ok(plan, si));
        }
        if s2 == si && k2 < ki {
            assert(kernel_ok(plan, si, k2));
        }
        if s2 == si && ki < k2 {
            assert(kernel_ok(plan, si, ki));
        }
        if s2 == si && k2 == ki && b2 < bi {
            assert(binding_ok(plan, si, ki, b2));
        }
        if s2 == si && k2 == ki && bi < b2 {
            assert(binding_ok(plan, si, ki, bi));
        }
    }

    /// Index the declared buffers by slot, refusing a slot declared twice.
    fn specs_by_slot(&self) -> (r: BraidResult<HashMap<u16, usize>>)
        ensures
            match r {
                Ok(m) => {
                    &&& slots_unique(self.pipeline.buffers@)
                    &&& forall|x: u16| m@.contains_key(x) <==> declares(self.pipeline.buffers@, x)
                    &&& forall|i: int|
                        0 <= i < self.pipeline.buffers@.len() ==> #[trigger] m@[self.pipeline.buffers@[i].slot@] == i
                },
                Err(e) => exists|j: int|
                    first_dup(self.pipeline.buffers@, j) && is_invalid_spec(
                        e,
                        dup_buffer_msg(self.pipeline.buffers@[j].slot@),
                    ),
            },
    {
        let ghost specs = self.pipeline.buffers@;
        let n = self.pipeline.buffers.len();
        let mut m: HashMap<u16, usize> = HashMap::with_capacity(n);
        let mut i: usize = 0;
        while i < n
            invariant
                0 <= i <= n,
                n == specs.len(),
                specs == self.pipeline.buffers@,
                forall|k: int| 0 <= k < i ==> !dup_at(specs, k),
                forall|x: u16|
                    m@.contains_key(x) <==> exists|k: int| 0 <= k < i && #[trigger] specs[k].slot@ == x,
                forall|k: int| 0 <= k < i ==> #[trigger] m@[specs[k].slot@] == k,
            decreases n - i,
        {
            let slot = self.pipeline.buffers[i].slot;
            if m.insert(slot.raw(), i).is_some() {
                proof {
                    assert(dup_at(specs, i as int));
                    assert(first_dup(specs, i as int));
                }
                return Err(BraidError::InvalidSpec(dup_buffer_message(slot)));
            }
            proof {
                assert forall|k: int| 0 <= k < i implies #[trigger] specs[k].slot@ != specs[i as int].slot@ by {
                    if specs[k].slot@ == specs[i as int].slot@ {
                        assert(m@.contains_key(specs[k].slot@));
                    }
                }
                assert(!dup_at(specs, i as int));
            }
            i = i + 1;
        }
        proof {
            assert forall|j: int| !dup_at(specs, j) by {
                if 0 <= j < n {
                }
            }
        }
        Ok(m)
    }
}

/// One call made on a [`PlanBuilder`].
pub ghost enum BuildStep {
    /// `buffer(spec)`.
    Buffer(BufferSpec),
    /// `stage(stage)`.
    Stage(StageSpec),
    /// `static_buffer(buffer)`.
    Static(StaticBuffer),
}

/// `next` is the plan a builder holds after `step`, when it held `prev` before:
/// the step's item is appended to its own list and nothing else changes.
pub open spec fn stepped<M>(prev: CompiledPlan<M>, next: CompiledPlan<M>, step: BuildStep) -> bool {
    &&& next.planner_meta == prev.planner_meta
    &&& match step {
        BuildStep::Buffer(x) => {
            &&& next.pipeline.buffers@ == prev.pipeline.buffers@.push(x)
            &&& next.pipeline.stages == prev.pipeline.stages
            &&& next.static_buffers == prev.static_buffers
        },
        BuildStep::Stage(y) => {
            &&& next.pipeline.stages@ == prev.pipeline.stages@.push(y)
            &&& next.pipeline.buffers == prev.pipeline.buffers
            &&& next.static_buffers == prev.static_buffers
        },
        BuildStep::Static(z) => {
            &&& next.static_buffers@ == prev.static_buffers@.push(z)
            &&& next.pipeline == prev.pipeline
        },
    }
}

/// The buffer declarations among `steps`, in call order.
pub open spec fn declared_by(steps: Seq<BuildStep>) -> Seq<BufferSpec>
    decreases steps.len(),
{
    if steps.len() == 0 {
        Seq::empty()
    } else {
        declared_by(steps.drop_last()) + match steps.last() {
            BuildStep::Buffer(x) => seq![x],
            _ => Seq::empty(),
        }
    }
}

/// The stages among `steps`, in call order.
pub open spec fn staged_by(steps: Seq<BuildStep>) -> Seq<StageSpec>
    decreases steps.len(),
{
    if steps.len() == 0 {
        Seq::empty()
    } else {
        staged_by(steps.drop_last()) + match steps.last() {
            BuildStep::Stage(y) => seq![y],
            _ => Seq::empty(),
        }
    }
}

/// The static buffers among `steps`, in call order.
pub open spec fn statics_by(steps: Seq<BuildStep>) -> Seq<StaticBuffer>
    decreases steps.len(),
{
    if steps.len() == 0 {
        Seq::empty()
    } else {
        statics_by(steps.drop_last()) + match steps.last() {
            BuildStep::Static(z) => seq![z],
            _ => Seq::empty(),
        }
    }
}

/// Convenience builder for [`CompiledPlan`].
#[derive(Clone, Debug)]
pub struct PlanBuilder<M> {
    pipeline: PipelineShape,
    static_buffers: StaticBufferSet,
    planner_meta: M,
}

impl<M> PlanBuilder<M> {
    /// The plan that `build` would return now.
    pub closed spec fn plan(&self) -> CompiledPlan<M> {
        CompiledPlan {
            pipeline: self.pipeline,
            static_buffers: self.static_buffers,
            planner_meta: self.planner_meta,
        }
    }

    /// Create an empty plan builder with planner metadata.
    pub fn new(planner_meta: M) -> (b: Self)
        ensures
            b.plan().pipeline.buffers@ == Seq::<BufferSpec>::empty(),
            b.plan().pipeline.stages@ == Seq::<StageSpec>::empty(),
            b.plan().static_buffers@ == Seq::<StaticBuffer>::empty(),
            b.plan().planner_meta == planner_meta,
    {
        PlanBuilder { pipeline: PipelineShape::default(), static_buffers: Vec::new(), planner_meta }
    }

    /// Append one buffer declaration.
    pub fn buffer(&mut self, spec: BufferSpec) -> (b: &mut Self)
        ensures
            b.plan().pipeline.buffers@ == old(self).plan().pipeline.buffers@.push(spec),
            b.plan().pipeline.stages == old(self).plan().pipeline.stages,
            b.plan().static_buffers == old(self).plan().static_buffers,
            b.plan().planner_meta == old(self).plan().planner_meta,
            stepped(old(self).plan(), b.plan(), BuildStep::Buffer(spec)),
            *final(self) == *final(b),
    {
        self.pipeline.buffers.push(spec);
        self
    }

    /// Append one stage.
    pub fn stage(&mut self, stage: StageSpec) -> (b: &mut Self)
        ensures
            b.plan().pipeline.stages@ == old(self).plan().pipeline.stages@.push(stage),
            b.plan().pipeline.buffers == old(self).plan().pipeline.buffers,
            b.plan().static_buffers == old(self).plan().static_buffers,
            b.plan().planner_meta == old(self).plan().planner_meta,
            stepped(old(self).plan(), b.plan(), BuildStep::Stage(stage)),
            *final(self) == *final(b),
    {
        self.pipeline.stages.push(stage);
        self
    }

    /// Append one static buffer.
    pub fn static_buffer(&mut self, buffer: StaticBuffer) -> (b: &mut Self)
        ensures
            b.plan().static_buffers@ == old(self).plan().static_buffers@.push(buffer),
            b.plan().pipeline == old(self).plan().pipeline,
            b.plan().planner_meta == old(self).plan().planner_meta,
            stepped(old(self).plan(), b.plan(), BuildStep::Static(buffer)),
            *final(self) == *final(b),
    {
        self.static_buffers.push(buffer);
        self
    }

    /// Build without validation.
    pub fn build(self) -> (plan: CompiledPlan<M>)
        ensures
            plan == self.plan(),
    {
        CompiledPlan {
            pipeline: self.pipeline,
            static_buffers: self.static_buffers,
            planner_meta: self.planner_meta,
        }
    }

    /// Build and validate the final plan: the built plan when it is valid,
    /// otherwise the error that `validate` gives.
    pub fn build_checked(self) -> (r: BraidResult<CompiledPlan<M>>)
        ensures
            r is Ok <==> plan_valid(self.plan()),
            match r {
                Ok(plan) => plan == self.plan() && plan_problem(plan) is None,
                Err(e) => plan_problem(self.plan()) matches Some(m) && is_invalid_spec(e, m),
            },
    {
        let plan = self.build();
        match plan.validate() {
            Ok(_) => Ok(plan),
            Err(e) => Err(e),
        }
    }
}

} // verus!
