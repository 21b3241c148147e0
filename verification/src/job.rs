//! Per-job packet storage and job status.

use vstd::prelude::*;

use crate::error::{BraidError, BraidResult};
use crate::pipeline::{BufferData, BufferSlot, ElementKind};

verus! {

/// Coarse lifecycle state for a stack-local job.
#[derive(Clone, Copy, Debug, PartialEq, Eq, Structural)]
pub enum JobStatus {
    /// Job is queued but has not started running.
    Queued,
    /// Job is actively encoding, staging, or decoding.
    Running,
    /// Job finished successfully and results can be collected.
    Completed,
    /// Job failed with an error.
    Failed,
    /// Job was cancelled cooperatively.
    Cancelled,
}

/// One slot payload inside a [`JobPacket`].
#[derive(Debug)]
pub struct PacketBuffer {
    /// Buffer slot id.
    pub slot: BufferSlot,
    /// Backing storage for the slot.
    pub data: BufferData,
}

/// Reusable per-job mutable buffer set shared between planner and backend.
///
/// Buffer `i` is addressed by `slots[i]` and stored in `data[i]`; the two
/// vectors always have the same length, and no slot occurs twice.
#[derive(Debug)]
pub struct JobPacket {
    query_count: usize,
    slots: Vec<BufferSlot>,
    data: Vec<BufferData>,
}

/// What a packet holds: its query count and its buffers, in the order in
/// which their slots were first ensured.
pub ghost struct PacketView {
    /// Number of queries encoded into the packet.
    pub query_count: usize,
    /// The packet's buffers.
    pub buffers: Seq<PacketBuffer>,
}

impl View for JobPacket {
    type V = PacketView;

    closed spec fn view(&self) -> PacketView {
        PacketView { query_count: self.query_count, buffers: paired(self.slots@, self.data@) }
    }
}

/// The buffers made of `slots[i]` and `data[i]`, position by position.
pub open spec fn paired(slots: Seq<BufferSlot>, data: Seq<BufferData>) -> Seq<PacketBuffer> {
    Seq::new(slots.len(), |i: int| PacketBuffer { slot: slots[i], data: data[i] })
}

/// Some buffer of `bufs` is addressed by slot `x`.
pub open spec fn has_slot(bufs: Seq<PacketBuffer>, x: u16) -> bool {
    exists|i: int| 0 <= i < bufs.len() && #[trigger] bufs[i].slot@ == x
}

/// `i` is the first position of `bufs` that holds slot `x`.
pub open spec fn is_first_with(bufs: Seq<PacketBuffer>, x: u16, i: int) -> bool {
    &&& 0 <= i < bufs.len()
    &&& bufs[i].slot@ == x
    &&& forall|k: int| 0 <= k < i ==> #[trigger] bufs[k].slot@ != x
}

/// The first position of `bufs` that holds slot `x` (meaningful when
/// `has_slot(bufs, x)`).
pub open spec fn slot_index(bufs: Seq<PacketBuffer>, x: u16) -> int {
    choose|i: int| is_first_with(bufs, x, i)
}

/// Where a buffer for slot `x` is found, or is appended when there is none.
pub open spec fn target_index(bufs: Seq<PacketBuffer>, x: u16) -> int {
    if has_slot(bufs, x) {
        slot_index(bufs, x)
    } else {
        bufs.len() as int
    }
}

/// No slot occurs twice in `bufs`.
pub open spec fn slots_distinct(bufs: Seq<PacketBuffer>) -> bool {
    forall|i: int, j: int| 0 <= i < j < bufs.len() ==> bufs[i].slot@ != bufs[j].slot@
}

/// `nb` is `ob` with the buffer for `slot` set to `data`: in place when `ob`
/// holds the slot, appended at the end otherwise; every other buffer is kept.
pub open spec fn placed(
    ob: Seq<PacketBuffer>,
    nb: Seq<PacketBuffer>,
    slot: BufferSlot,
    data: BufferData,
) -> bool {
    let p = target_index(ob, slot@);
    &&& nb.len() == (if has_slot(ob, slot@) {
        ob.len()
    } else {
        ob.len() + 1
    })
    &&& forall|k: int| 0 <= k < ob.len() && k != p ==> nb[k] == ob[k]
    &&& nb[p].slot@ == slot@
    &&& nb[p].data == data
}

/// The contents of the `U32` buffer at slot `x`, or nothing when the slot is
/// absent or holds another kind.
pub open spec fn prior_u32(bufs: Seq<PacketBuffer>, x: u16) -> Seq<u32> {
    if has_slot(bufs, x) && bufs[slot_index(bufs, x)].data is U32 {
        bufs[slot_index(bufs, x)].data->U32_0@
    } else {
        Seq::empty()
    }
}

/// The contents of the `U64` buffer at slot `x`, or nothing.
pub open spec fn prior_u64(bufs: Seq<PacketBuffer>, x: u16) -> Seq<u64> {
    if has_slot(bufs, x) && bufs[slot_index(bufs, x)].data is U64 {
        bufs[slot_index(bufs, x)].data->U64_0@
    } else {
        Seq::empty()
    }
}

/// The bit patterns of the `F32` buffer at slot `x`, or nothing.
pub open spec fn prior_f32(bufs: Seq<PacketBuffer>, x: u16) -> Seq<u32> {
    if has_slot(bufs, x) && bufs[slot_index(bufs, x)].data is F32 {
        bufs[slot_index(bufs, x)].data->F32_0@
    } else {
        Seq::empty()
    }
}

/// `after` is `before` with no queries and every buffer emptied, each keeping
/// its slot and element type.
pub open spec fn cleared(before: PacketView, after: PacketView) -> bool {
    &&& after.query_count == 0
    &&& after.buffers.len() == before.buffers.len()
    &&& forall|i: int|
        0 <= i < before.buffers.len() ==> {
            &&& (#[trigger] after.buffers[i]).slot == before.buffers[i].slot
            &&& after.buffers[i].data.kind() == before.buffers[i].data.kind()
            &&& after.buffers[i].data.len() == 0
        }
}

/// `s` cut or padded with `fill` to exactly `n` elements, as `Vec::resize` does.
pub open spec fn resized<T>(s: Seq<T>, n: nat, fill: T) -> Seq<T> {
    if n <= s.len() {
        s.take(n as int)
    } else {
        s + Seq::new((n - s.len()) as nat, |i: int| fill)
    }
}

/// Two buffers of the same kind holding the same elements.
pub open spec fn same_contents(a: BufferData, b: BufferData) -> bool {
    match (a, b) {
        (BufferData::U32(x), BufferData::U32(y)) => x@ == y@,
        (BufferData::U64(x), BufferData::U64(y)) => x@ == y@,
        (BufferData::F32(x), BufferData::F32(y)) => x@ == y@,
        _ => false,
    }
}

/// Why looking up slot `slot` for elements of kind `expected` fails, or `None`
/// when the first buffer at that slot has that kind.
pub open spec fn lookup_error(
    bufs: Seq<PacketBuffer>,
    slot: BufferSlot,
    expected: ElementKind,
) -> Option<BraidError> {
    if !has_slot(bufs, slot@) {
        Some(BraidError::MissingBuffer(slot))
    } else if bufs[slot_index(bufs, slot@)].data.kind() != expected {
        Some(BraidError::InvalidBufferType { slot, expected })
    } else {
        None
    }
}

/// `nb` is `ob` with only the data of the buffer at position `p` changed.
pub open spec fn rewritten_at(ob: Seq<PacketBuffer>, nb: Seq<PacketBuffer>, p: int) -> bool {
    &&& 0 <= p < ob.len()
    &&& nb.len() == ob.len()
    &&& forall|k: int| 0 <= k < ob.len() && k != p ==> nb[k] == ob[k]
    &&& nb[p].slot == ob[p].slot
}

/// The request for the `j`-th of `slots` as `f32` buffers cannot be granted:
/// the slot is absent, was already requested, or holds another kind.
pub open spec fn f32_request_fails(bufs: Seq<PacketBuffer>, slots: Seq<BufferSlot>, j: int) -> bool {
    ||| !has_slot(bufs, slots[j]@)
    ||| exists|k: int| 0 <= k < j && #[trigger] slots[k]@ == slots[j]@
    ||| bufs[slot_index(bufs, slots[j]@)].data.kind() != ElementKind::F32
}

/// `e` is the error that the `j`-th request is refused with.
pub open spec fn f32_request_error(
    bufs: Seq<PacketBuffer>,
    slots: Seq<BufferSlot>,
    j: int,
    e: BraidError,
) -> bool {
    if !has_slot(bufs, slots[j]@) {
        e == BraidError::MissingBuffer(slots[j])
    } else if exists|k: int| 0 <= k < j && #[trigger] slots[k]@ == slots[j]@ {
        e matches BraidError::Message(m) && m@ == "duplicate f32 buffer slot request"@
    } else {
        e == BraidError::InvalidBufferType { slot: slots[j], expected: ElementKind::F32 }
    }
}

/// The first position holding a slot is the only position that is first.
pub proof fn lemma_first_unique(bufs: Seq<PacketBuffer>, x: u16, i: int)
    requires
        is_first_with(bufs, x, i),
    ensures
        has_slot(bufs, x),
        slot_index(bufs, x) == i,
        target_index(bufs, x) == i,
{
    assert(bufs[i].slot@ == x);
    let j = slot_index(bufs, x);
    assert(is_first_with(bufs, x, j));
    if j < i {
        assert(bufs[j].slot@ != x);
    }
    if i < j {
        assert(bufs[i].slot@ != x);
    }
}

/// A slot that occurs in `bufs` has a first position.
pub proof fn lemma_first_exists(bufs: Seq<PacketBuffer>, x: u16)
    requires
        has_slot(bufs, x),
    ensures
        is_first_with(bufs, x, slot_index(bufs, x)),
{
    let i = choose|i: int| 0 <= i < bufs.len() && #[trigger] bufs[i].slot@ == x;
    lemma_first_below(bufs, x, i);
}

proof fn lemma_first_below(bufs: Seq<PacketBuffer>, x: u16, i: int)
    requires
        0 <= i < bufs.len(),
        bufs[i].slot@ == x,
    ensures
        is_first_with(bufs, x, slot_index(bufs, x)),
    decreases i,
{
    if exists|k: int| 0 <= k < i && #[trigger] bufs[k].slot@ == x {
        let k = choose|k: int| 0 <= k < i && #[trigger] bufs[k].slot@ == x;
        lemma_first_below(bufs, x, k);
    } else {
        assert(is_first_with(bufs, x, i));
        lemma_first_unique(bufs, x, i);
    }
}

fn copy_all<T: Copy>(dst: &mut Vec<T>, src: &Vec<T>)
    requires
        old(dst)@.len() == src@.len(),
    ensures
        final(dst)@ == src@,
{
    let n = src.len();
    let mut i: usize = 0;
    while i < n
        invariant
            0 <= i <= n,
            n == src@.len(),
            dst@.len() == n,
            forall|k: int| 0 <= k < i ==> dst@[k] == src@[k],
        decreases n - i,
    {
        dst.set(i, src[i]);
        i = i + 1;
    }
    assert(dst@ =~= src@);
}

fn contains_index(v: &Vec<usize>, x: usize) -> (found: bool)
    ensures
        found == v@.contains(x),
{
    let n = v.len();
    let mut i: usize = 0;
    while i < n
        invariant
            0 <= i <= n,
            n == v@.len(),
            forall|k: int| 0 <= k < i ==> v@[k] != x,
        decreases n - i,
    {
        if v[i] == x {
            return true;
        }
        i = i + 1;
    }
    false
}

fn empty_data(kind: ElementKind) -> (data: BufferData)
    ensures
        data.kind() == kind,
        data.len() == 0,
{
    match kind {
        ElementKind::U32 => BufferData::U32(Vec::new()),
        ElementKind::U64 => BufferData::U64(Vec::new()),
        ElementKind::F32 => BufferData::F32(Vec::new()),
    }
}

impl Default for JobPacket {
    fn default() -> (packet: Self)
        ensures
            packet@.query_count == 0,
            packet@.buffers == Seq::<PacketBuffer>::empty(),
    {
        let packet = JobPacket { query_count: 0, slots: Vec::new(), data: Vec::new() };
        assert(packet@.buffers =~= Seq::<PacketBuffer>::empty());
        packet
    }
}

impl JobPacket {
    /// Slots and data line up, and no slot occurs twice.
    #[verifier::type_invariant]
    closed spec fn well_formed(self) -> bool {
        &&& self.slots@.len() == self.data@.len()
        &&& forall|i: int, j: int|
            0 <= i < j < self.slots@.len() ==> self.slots@[i]@ != self.slots@[j]@
    }

    /// Clear logical contents while keeping allocations for reuse: the query
    /// count becomes zero and every buffer is emptied, keeping its slot and
    /// element type.
    pub fn clear_for_reuse(&mut self)
        ensures
            cleared(old(self)@, final(self)@),
            slots_distinct(final(self)@.buffers),
    {
        proof {
            use_type_invariant(&*self);
        }
        self.query_count = 0;
        let n = self.data.len();
        let mut i: usize = 0;
        while i < n
            invariant
                0 <= i <= n,
                n == old(self)@.buffers.len(),
                self.query_count == 0,
                self.slots@ == old(self).slots@,
                self.data@.len() == n,
                forall|k: int|
                    0 <= k < n ==> {
                        &&& (#[trigger] self.data@[k]).kind() == old(self).data@[k].kind()
                        &&& k < i ==> self.data@[k].len() == 0
                    },
            decreases n - i,
        {
            proof {
                use_type_invariant(&*self);
            }
            self.data[i].clear();
            i = i + 1;
        }
        proof {
            use_type_invariant(&*self);
        }
    }

    /// Return the number of queries encoded into this packet.
    pub fn query_count(&self) -> (n: usize)
        ensures
            n == self@.query_count,
    {
        self.query_count
    }

    /// Set the number of queries encoded into this packet.
    pub fn set_query_count(&mut self, query_count: usize)
        ensures
            final(self)@.query_count == query_count,
            final(self)@.buffers == old(self)@.buffers,
    {
        proof {
            use_type_invariant(&*self);
        }
        self.query_count = query_count;
    }

    /// Find the buffer for `slot`, or append an empty one, and make sure it
    /// holds elements of kind `expected` (a buffer of another kind is replaced
    /// by an empty one). Returns the buffer's position.
    fn ensure_slot(&mut self, slot: BufferSlot, expected: ElementKind) -> (idx: usize)
        ensures
            final(self)@.query_count == old(self)@.query_count,
            idx == target_index(old(self)@.buffers, slot@),
            idx < final(self)@.buffers.len(),
            placed(old(self)@.buffers, final(self)@.buffers, slot, final(self)@.buffers[idx as int].data),
            final(self)@.buffers[idx as int].data.kind() == expected,
            has_slot(old(self)@.buffers, slot@) && old(self)@.buffers[idx as int].data.kind()
                == expected ==> final(self)@.buffers[idx as int].data == old(self)@.buffers[idx as int].data,
            !(has_slot(old(self)@.buffers, slot@) && old(self)@.buffers[idx as int].data.kind()
                == expected) ==> final(self)@.buffers[idx as int].data.len() == 0,
            slots_distinct(final(self)@.buffers),
    {
        proof {
            use_type_invariant(&*self);
        }
        let ghost ob = self@.buffers;
        let n = self.slots.len();
        let mut i: usize = 0;
        while i < n
            invariant
                0 <= i <= n,
                n == ob.len(),
                self@ == old(self)@,
                self.slots@.len() == n,
                self.data@.len() == n,
                ob == old(self)@.buffers,
                forall|k: int| 0 <= k < i ==> #[trigger] ob[k].slot@ != slot@,
            decreases n - i,
        {
            proof {
                use_type_invariant(&*self);
            }
            if self.slots[i].raw() == slot.raw() {
                proof {
                    assert(ob[i as int].slot@ == slot@);
                    assert(is_first_with(ob, slot@, i as int));
                    lemma_first_unique(ob, slot@, i as int);
                }
                if self.data[i].kind() != expected {
                    self.data[i] = empty_data(expected);
                }
                proof {
                    use_type_invariant(&*self);
                }
                return i;
            }
            i = i + 1;
        }
        proof {
            assert(!has_slot(ob, slot@));
        }
        let mut taken = JobPacket { query_count: self.query_count, slots: Vec::new(), data: Vec::new() };
        std::mem::swap(self, &mut taken);
        proof {
            use_type_invariant(&taken);
        }
        let JobPacket { query_count, slots: mut slots, data: mut data } = taken;
        slots.push(slot);
        data.push(empty_data(expected));
        proof {
            assert forall|a: int, b: int| 0 <= a < b < slots@.len() implies slots@[a]@
                != slots@[b]@ by {
                if b == n {
                    assert(ob[a].slot@ != slot@);
                }
            }
        }
        *self = JobPacket { query_count, slots, data };
        proof {
            assert(self@.buffers.subrange(0, n as int) =~= ob);
        }
        n
    }

    /// The first position that holds `slot`, if any.
    fn position_of(&self, slot: BufferSlot) -> (pos: Option<usize>)
        ensures
            match pos {
                Some(i) => is_first_with(self@.buffers, slot@, i as int) && i == slot_index(
                    self@.buffers,
                    slot@,
                ),
                None => !has_slot(self@.buffers, slot@),
            },
    {
        proof {
            use_type_invariant(self);
        }
        let n = self.slots.len();
        let mut i: usize = 0;
        while i < n
            invariant
                0 <= i <= n,
                n == self@.buffers.len(),
                forall|k: int| 0 <= k < i ==> #[trigger] self@.buffers[k].slot@ != slot@,
            decreases n - i,
        {
            if self.slots[i].raw() == slot.raw() {
                proof {
                    assert(self@.buffers[i as int].slot@ == slot@);
                    lemma_first_unique(self@.buffers, slot@, i as int);
                }
                return Some(i);
            }
            i = i + 1;
        }
        None
    }

    /// Ensure a `u32` buffer exists at `slot` and resize it to `len`.
    pub fn ensure_u32(&mut self, slot: BufferSlot, len: usize) -> (vals: &mut Vec<u32>)
        ensures
            final(self)@.query_count == old(self)@.query_count,
            placed(old(self)@.buffers, final(self)@.buffers, slot, BufferData::U32(*final(vals))),
            vals@ == resized(prior_u32(old(self)@.buffers, slot@), len as nat, 0u32),
            slots_distinct(final(self)@.buffers),
    {
        let idx = self.ensure_slot(slot, ElementKind::U32);
        proof {
            use_type_invariant(&*self);
        }
        match &mut self.data[idx] {
            BufferData::U32(vals) => {
                vals.resize(len, 0);
                vals
            },
            _ => vstd::pervasive::unreached(),
        }
    }

    /// Ensure a `u64` buffer exists at `slot` and resize it to `len`.
    pub fn ensure_u64(&mut self, slot: BufferSlot, len: usize) -> (vals: &mut Vec<u64>)
        ensures
            final(self)@.query_count == old(self)@.query_count,
            placed(old(self)@.buffers, final(self)@.buffers, slot, BufferData::U64(*final(vals))),
            vals@ == resized(prior_u64(old(self)@.buffers, slot@), len as nat, 0u64),
            slots_distinct(final(self)@.buffers),
    {
        let idx = self.ensure_slot(slot, ElementKind::U64);
        proof {
            use_type_invariant(&*self);
        }
        match &mut self.data[idx] {
            BufferData::U64(vals) => {
                vals.resize(len, 0);
                vals
            },
            _ => vstd::pervasive::unreached(),
        }
    }

    /// Ensure an `f32` buffer exists at `slot` and resize it to `len`; new
    /// elements are `0.0`, whose bit pattern is `0`.
    pub fn ensure_f32(&mut self, slot: BufferSlot, len: usize) -> (vals: &mut Vec<u32>)
        ensures
            final(self)@.query_count == old(self)@.query_count,
            placed(old(self)@.buffers, final(self)@.buffers, slot, BufferData::F32(*final(vals))),
            vals@ == resized(prior_f32(old(self)@.buffers, slot@), len as nat, 0u32),
            slots_distinct(final(self)@.buffers),
    {
        let idx = self.ensure_slot(slot, ElementKind::F32);
        proof {
            use_type_invariant(&*self);
        }
        match &mut self.data[idx] {
            BufferData::F32(vals) => {
                vals.resize(len, 0);
                vals
            },
            _ => vstd::pervasive::unreached(),
        }
    }

    /// Copy a static buffer into the packet at `slot`, creating or retyping
    /// the packet buffer as needed.
    pub fn load_static_buffer(&mut self, slot: BufferSlot, data: &BufferData)
        ensures
            final(self)@.query_count == old(self)@.query_count,
            placed(
                old(self)@.buffers,
                final(self)@.buffers,
                slot,
                final(self)@.buffers[target_index(old(self)@.buffers, slot@)].data,
            ),
            same_contents(final(self)@.buffers[target_index(old(self)@.buffers, slot@)].data, *data),
            slots_distinct(final(self)@.buffers),
    {
        match data {
            BufferData::U32(values) => {
                let dst = self.ensure_u32(slot, values.len());
                copy_all(dst, values);
            },
            BufferData::U64(values) => {
                let dst = self.ensure_u64(slot, values.len());
                copy_all(dst, values);
            },
            BufferData::F32(values) => {
                let dst = self.ensure_f32(slot, values.len());
                copy_all(dst, values);
            },
        }
    }

    /// The slot, element kind and length of every buffer, in packet order.
    pub fn buffer_descriptors(&self) -> (descs: Vec<(BufferSlot, ElementKind, usize)>)
        ensures
            descs@.len() == self@.buffers.len(),
            forall|i: int|
                0 <= i < descs@.len() ==> #[trigger] descs@[i] == (
                    self@.buffers[i].slot,
                    self@.buffers[i].data.kind(),
                    self@.buffers[i].data.len(),
                ),
    {
        proof {
            use_type_invariant(self);
        }
        let n = self.slots.len();
        let mut descs: Vec<(BufferSlot, ElementKind, usize)> = Vec::new();
        let mut i: usize = 0;
        while i < n
            invariant
                0 <= i <= n,
                n == self@.buffers.len(),
                n == self.data@.len(),
                descs@.len() == i,
                forall|k: int|
                    0 <= k < i ==> #[trigger] descs@[k] == (
                        self@.buffers[k].slot,
                        self@.buffers[k].data.kind(),
                        self@.buffers[k].data.len(),
                    ),
            decreases n - i,
        {
            let data = &self.data[i];
            descs.push((self.slots[i], data.kind(), data.len()));
            i = i + 1;
        }
        descs
    }

    /// The data of the first buffer at `slot`, checked to be of kind `expected`.
    fn lookup(&self, slot: BufferSlot, expected: ElementKind) -> (r: BraidResult<&BufferData>)
        ensures
            match r {
                Ok(d) => lookup_error(self@.buffers, slot, expected) is None && *d
                    == self@.buffers[slot_index(self@.buffers, slot@)].data,
                Err(e) => lookup_error(self@.buffers, slot, expected) == Some(e),
            },
    {
        proof {
            use_type_invariant(self);
        }
        match self.position_of(slot) {
            None => Err(BraidError::MissingBuffer(slot)),
            Some(i) => {
                if self.data[i].kind() != expected {
                    Err(BraidError::InvalidBufferType { slot, expected })
                } else {
                    Ok(&self.data[i])
                }
            },
        }
    }

    /// Mutable access to the data of the first buffer at `slot`, checked to be
    /// of kind `expected`.
    fn lookup_mut(&mut self, slot: BufferSlot, expected: ElementKind) -> (r: BraidResult<
        &mut BufferData,
    >)
        ensures
            final(self)@.query_count == old(self)@.query_count,
            slots_distinct(final(self)@.buffers),
            match r {
                Ok(d) => {
                    let p = slot_index(old(self)@.buffers, slot@);
                    &&& lookup_error(old(self)@.buffers, slot, expected) is None
                    &&& *d == old(self)@.buffers[p].data
                    &&& rewritten_at(old(self)@.buffers, final(self)@.buffers, p)
                    &&& final(self)@.buffers[p].data == *final(d)
                },
                Err(e) => lookup_error(old(self)@.buffers, slot, expected) == Some(e)
                    && final(self)@.buffers == old(self)@.buffers,
            },
    {
        proof {
            use_type_invariant(&*self);
        }
        match self.position_of(slot) {
            None => Err(BraidError::MissingBuffer(slot)),
            Some(i) => {
                if self.data[i].kind() != expected {
                    Err(BraidError::InvalidBufferType { slot, expected })
                } else {
                    Ok(&mut self.data[i])
                }
            },
        }
    }

    /// Read-only typed `u32` view for one slot.
    pub fn u32(&self, slot: BufferSlot) -> (r: BraidResult<&[u32]>)
        ensures
            match r {
                Ok(vals) => lookup_error(self@.buffers, slot, ElementKind::U32) is None && vals@
                    == prior_u32(self@.buffers, slot@),
                Err(e) => lookup_error(self@.buffers, slot, ElementKind::U32) == Some(e),
            },
    {
        match self.lookup(slot, ElementKind::U32) {
            Ok(data) => match data {
                BufferData::U32(vals) => Ok(vals.as_slice()),
                _ => vstd::pervasive::unreached(),
            },
            Err(e) => Err(e),
        }
    }

    /// Mutable typed `u32` view for one slot.
    pub fn u32_mut(&mut self, slot: BufferSlot) -> (r: BraidResult<&mut [u32]>)
        ensures
            final(self)@.query_count == old(self)@.query_count,
            slots_distinct(final(self)@.buffers),
            match r {
                Ok(vals) => {
                    let p = slot_index(old(self)@.buffers, slot@);
                    &&& lookup_error(old(self)@.buffers, slot, ElementKind::U32) is None
                    &&& vals@ == prior_u32(old(self)@.buffers, slot@)
                    &&& rewritten_at(old(self)@.buffers, final(self)@.buffers, p)
                    &&& final(self)@.buffers[p].data matches BufferData::U32(v) && v@ == final(vals)@
                },
                Err(e) => lookup_error(old(self)@.buffers, slot, ElementKind::U32) == Some(e)
                    && final(self)@.buffers == old(self)@.buffers,
            },
    {
        proof {
            use_type_invariant(&*self);
        }
        match self.lookup_mut(slot, ElementKind::U32) {
            Ok(data) => match data {
                BufferData::U32(vals) => Ok(vals.as_mut_slice()),
                _ => vstd::pervasive::unreached(),
            },
            Err(e) => Err(e),
        }
    }

    /// Read-only typed `u64` view for one slot.
    pub fn u64(&self, slot: BufferSlot) -> (r: BraidResult<&[u64]>)
        ensures
            match r {
                Ok(vals) => lookup_error(self@.buffers, slot, ElementKind::U64) is None && vals@
                    == prior_u64(self@.buffers, slot@),
                Err(e) => lookup_error(self@.buffers, slot, ElementKind::U64) == Some(e),
            },
    {
        match self.lookup(slot, ElementKind::U64) {
            Ok(data) => match data {
                BufferData::U64(vals) => Ok(vals.as_slice()),
                _ => vstd::pervasive::unreached(),
            },
            Err(e) => Err(e),
        }
    }

    /// Read-only typed `f32` view for one slot, as bit patterns.
    pub fn f32_bits(&self, slot: BufferSlot) -> (r: BraidResult<&[u32]>)
        ensures
            match r {
                Ok(vals) => lookup_error(self@.buffers, slot, ElementKind::F32) is None && vals@
                    == prior_f32(self@.buffers, slot@),
                Err(e) => lookup_error(self@.buffers, slot, ElementKind::F32) == Some(e),
            },
    {
        match self.lookup(slot, ElementKind::F32) {
            Ok(data) => match data {
                BufferData::F32(vals) => Ok(vals.as_slice()),
                _ => vstd::pervasive::unreached(),
            },
            Err(e) => Err(e),
        }
    }

    /// Mutable typed `f32` view for one slot, as bit patterns.
    pub fn f32_mut(&mut self, slot: BufferSlot) -> (r: BraidResult<&mut [u32]>)
        ensures
            final(self)@.query_count == old(self)@.query_count,
            slots_distinct(final(self)@.buffers),
            match r {
                Ok(vals) => {
                    let p = slot_index(old(self)@.buffers, slot@);
                    &&& lookup_error(old(self)@.buffers, slot, ElementKind::F32) is None
                    &&& vals@ == prior_f32(old(self)@.buffers, slot@)
                    &&& rewritten_at(old(self)@.buffers, final(self)@.buffers, p)
                    &&& final(self)@.buffers[p].data matches BufferData::F32(v) && v@ == final(vals)@
                },
                Err(e) => lookup_error(old(self)@.buffers, slot, ElementKind::F32) == Some(e)
                    && final(self)@.buffers == old(self)@.buffers,
            },
    {
        proof {
            use_type_invariant(&*self);
        }
        match self.lookup_mut(slot, ElementKind::F32) {
            Ok(data) => match data {
                BufferData::F32(vals) => Ok(vals.as_mut_slice()),
                _ => vstd::pervasive::unreached(),
            },
            Err(e) => Err(e),
        }
    }

    /// Check a request for several distinct `f32` buffers at once and return
    /// their positions, in the order of `slots`.
    ///
    /// Each slot in turn must be present, not requested before, and hold
    /// `f32` values; the first that is not gives the error.
    pub fn f32_buffer_positions(&self, slots: &[BufferSlot]) -> (r: BraidResult<Vec<usize>>)
        ensures
            match r {
                Ok(positions) => {
                    &&& forall|j: int|
                        0 <= j < slots@.len() ==> !f32_request_fails(self@.buffers, slots@, j)
                    &&& positions@.len() == slots@.len()
                    &&& forall|j: int|
                        0 <= j < slots@.len() ==> #[trigger] positions@[j] == slot_index(
                            self@.buffers,
                            slots@[j]@,
                        )
                    &&& forall|j: int, k: int|
                        0 <= j < k < slots@.len() ==> positions@[j] != positions@[k]
                },
                Err(e) => exists|j: int|
                    {
                        &&& 0 <= j < slots@.len()
                        &&& f32_request_fails(self@.buffers, slots@, j)
                        &&& forall|k: int|
                            0 <= k < j ==> !f32_request_fails(self@.buffers, slots@, k)
                        &&& f32_request_error(self@.buffers, slots@, j, e)
                    },
            },
    {
        proof {
            use_type_invariant(self);
        }
        let ghost bufs = self@.buffers;
        let n = slots.len();
        let mut positions: Vec<usize> = Vec::new();
        let mut j: usize = 0;
        while j < n
            invariant
                0 <= j <= n,
                n == slots@.len(),
                bufs == self@.buffers,
                self.data@.len() == bufs.len(),
                positions@.len() == j,
                forall|k: int| 0 <= k < j ==> !f32_request_fails(bufs, slots@, k),
                forall|k: int|
                    0 <= k < j ==> #[trigger] positions@[k] == slot_index(bufs, slots@[k]@)
                        && is_first_with(bufs, slots@[k]@, positions@[k] as int),
            decreases n - j,
        {
            let slot = slots[j];
            let index = match self.position_of(slot) {
                Some(index) => index,
                None => {
                    let e = BraidError::MissingBuffer(slot);
                    proof {
                        assert(f32_request_fails(bufs, slots@, j as int));
                        assert(f32_request_error(bufs, slots@, j as int, e));
                    }
                    return Err(e);
                },
            };
            if contains_index(&positions, index) {
                proof {
                    let k = choose|k: int| 0 <= k < positions@.len() && positions@[k] == index;
                    assert(bufs[index as int].slot@ == slots@[k]@);
                    assert(slots@[k]@ == slots@[j as int]@);
                }
                let e = BraidError::from("duplicate f32 buffer slot request");
                proof {
                    assert(f32_request_fails(bufs, slots@, j as int));
                    assert(f32_request_error(bufs, slots@, j as int, e));
                }
                return Err(e);
            }
            if self.data[index].kind() != ElementKind::F32 {
                proof {
                    assert forall|k: int| 0 <= k < j implies #[trigger] slots@[k]@ != slots@[j as int]@ by {
                        if slots@[k]@ == slots@[j as int]@ {
                            assert(positions@[k] == index);
                            assert(positions@.contains(index));
                        }
                    }
                    assert(f32_request_fails(bufs, slots@, j as int));
                }
                let e = BraidError::InvalidBufferType { slot, expected: ElementKind::F32 };
                proof {
                    assert(f32_request_error(bufs, slots@, j as int, e));
                }
                return Err(e);
            }
            proof {
                assert forall|k: int| 0 <= k < j implies #[trigger] slots@[k]@ != slots@[j as int]@ by {
                    if slots@[k]@ == slots@[j as int]@ {
                        assert(positions@[k] == index);
                        assert(positions@.contains(index));
                    }
                }
            }
            positions.push(index);
            j = j + 1;
        }
        proof {
            assert forall|a: int, b: int| 0 <= a < b < n implies positions@[a] != positions@[b] by {
                assert(!f32_request_fails(bufs, slots@, b));
                assert(slots@[a]@ != slots@[b]@);
                assert(is_first_with(bufs, slots@[a]@, positions@[a] as int));
                assert(is_first_with(bufs, slots@[b]@, positions@[b] as int));
            }
        }
        Ok(positions)
    }

    /// Swap the bit patterns of the `f32` buffer at `slot` with `data`.
    pub fn exchange_f32(&mut self, slot: BufferSlot, data: &mut Vec<u32>) -> (r: BraidResult<()>)
        ensures
            final(self)@.query_count == old(self)@.query_count,
            slots_distinct(final(self)@.buffers),
            match r {
                Ok(_) => {
                    let p = slot_index(old(self)@.buffers, slot@);
                    &&& lookup_error(old(self)@.buffers, slot, ElementKind::F32) is None
                    &&& final(data)@ == prior_f32(old(self)@.buffers, slot@)
                    &&& rewritten_at(old(self)@.buffers, final(self)@.buffers, p)
                    &&& final(self)@.buffers[p].data matches BufferData::F32(v) && v@ == old(data)@
                },
                Err(e) => {
                    &&& lookup_error(old(self)@.buffers, slot, ElementKind::F32) == Some(e)
                    &&& final(self)@.buffers == old(self)@.buffers
                    &&& final(data)@ == old(data)@
                },
            },
    {
        proof {
            use_type_invariant(&*self);
        }
        match self.lookup_mut(slot, ElementKind::F32) {
            Ok(found) => match found {
                BufferData::F32(vals) => {
                    std::mem::swap(vals, data);
                    Ok(())
                },
                _ => vstd::pervasive::unreached(),
            },
            Err(e) => Err(e),
        }
    }
}

} // verus!
