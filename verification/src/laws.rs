//! Properties that hold across several operations of the library.

use vstd::prelude::*;

use crate::error::BraidError;
use crate::text::decimal;

use crate::job::{
    cleared, has_slot, is_first_with, lemma_first_exists, lemma_first_unique, lookup_error,
    placed, prior_f32, prior_u32, prior_u64, resized, slot_index, slots_distinct, target_index,
    PacketBuffer, PacketView,
};
use crate::pipeline::{
    binding_ok, buffer_problem, declared_by, declared_index, declared_spec, declares, dup_at,
    first_bad_binding, first_buffer_problem, first_dup, first_static_problem, kernel_ok,
    len_problem, packet_fits, packet_problem, plan_problem, plan_valid, slots_unique, stage_ok,
    staged_by, static_problem, statics_by, stepped, BufferData, BufferLayout, BufferSlot,
    BufferSpec, BuildStep, CompiledPlan, ElementKind, Rejection, StageSpec, StaticBuffer,
};

verus! {

/// What was written at a slot (by `ensure_*` or `load_static_buffer`) is what a
/// lookup of that slot finds: the slot is present at the position where it was
/// placed, holds the written data, and a typed read of the written kind
/// succeeds and returns the written elements.
pub proof fn law_written_slot_reads_back(
    ob: Seq<PacketBuffer>,
    nb: Seq<PacketBuffer>,
    slot: BufferSlot,
    data: BufferData,
)
    requires
        placed(ob, nb, slot, data),
    ensures
        has_slot(nb, slot@),
        slot_index(nb, slot@) == target_index(ob, slot@),
        nb[slot_index(nb, slot@)].data == data,
        lookup_error(nb, slot, data.kind()) is None,
        data matches BufferData::U32(v) ==> prior_u32(nb, slot@) == v@,
        data matches BufferData::U64(v) ==> prior_u64(nb, slot@) == v@,
        data matches BufferData::F32(v) ==> prior_f32(nb, slot@) == v@,
{
    let x = slot@;
    let p = target_index(ob, x);
    if has_slot(ob, x) {
        lemma_first_exists(ob, x);
    }
    assert forall|k: int| 0 <= k < p implies #[trigger] nb[k].slot@ != x by {
        assert(nb[k] == ob[k]);
        if !has_slot(ob, x) {
            assert(ob[k].slot@ != x);
        }
    }
    assert(is_first_with(nb, x, p));
    lemma_first_unique(nb, x, p);
}

/// Writing one slot leaves every other slot as it was: whether it is present,
/// where, what it holds, and what a lookup of it gives.
pub proof fn law_other_slots_untouched(
    ob: Seq<PacketBuffer>,
    nb: Seq<PacketBuffer>,
    slot: BufferSlot,
    data: BufferData,
    other: BufferSlot,
    kind: ElementKind,
)
    requires
        placed(ob, nb, slot, data),
        other@ != slot@,
    ensures
        has_slot(nb, other@) == has_slot(ob, other@),
        has_slot(ob, other@) ==> slot_index(nb, other@) == slot_index(ob, other@) && nb[slot_index(
            nb,
            other@,
        )] == ob[slot_index(ob, other@)],
        lookup_error(nb, other, kind) == lookup_error(ob, other, kind),
        prior_u32(nb, other@) == prior_u32(ob, other@),
        prior_u64(nb, other@) == prior_u64(ob, other@),
        prior_f32(nb, other@) == prior_f32(ob, other@),
{
    let x = other@;
    let p = target_index(ob, slot@);
    if has_slot(ob, slot@) {
        lemma_first_exists(ob, slot@);
    }
    if has_slot(ob, x) {
        lemma_first_exists(ob, x);
        let q = slot_index(ob, x);
        assert(q != p);
        assert forall|k: int| 0 <= k < q implies #[trigger] nb[k].slot@ != x by {
            if k != p {
                assert(nb[k] == ob[k]);
                assert(ob[k].slot@ != x);
            }
        }
        assert(nb[q] == ob[q]);
        assert(is_first_with(nb, x, q));
        lemma_first_unique(nb, x, q);
    } else {
        assert forall|k: int| 0 <= k < nb.len() implies #[trigger] nb[k].slot@ != x by {
            if k != p {
                assert(nb[k] == ob[k]);
                assert(ob[k].slot@ != x);
            }
        }
    }
}

/// Writing a slot the packet does not hold appends one buffer at the end and
/// keeps all the others in place.
pub proof fn law_missing_slot_appended(
    ob: Seq<PacketBuffer>,
    nb: Seq<PacketBuffer>,
    slot: BufferSlot,
    data: BufferData,
)
    requires
        placed(ob, nb, slot, data),
        !has_slot(ob, slot@),
    ensures
        nb.len() == ob.len() + 1,
        nb.subrange(0, ob.len() as int) == ob,
        nb.last().slot@ == slot@,
        nb.last().data == data,
{
    assert(nb.subrange(0, ob.len() as int) =~= ob);
}

/// A slot gets at most one buffer: ensuring a slot that was just ensured adds
/// no buffer and reuses the same position.
pub proof fn law_slot_ensured_once(
    ob: Seq<PacketBuffer>,
    mb: Seq<PacketBuffer>,
    nb: Seq<PacketBuffer>,
    slot: BufferSlot,
    first: BufferData,
    second: BufferData,
)
    requires
        placed(ob, mb, slot, first),
        placed(mb, nb, slot, second),
    ensures
        nb.len() == mb.len(),
        target_index(mb, slot@) == target_index(ob, slot@),
{
    law_written_slot_reads_back(ob, mb, slot, first);
}

/// Writing a slot keeps a packet free of repeated slots.
pub proof fn law_written_slots_stay_distinct(
    ob: Seq<PacketBuffer>,
    nb: Seq<PacketBuffer>,
    slot: BufferSlot,
    data: BufferData,
)
    requires
        placed(ob, nb, slot, data),
        slots_distinct(ob),
    ensures
        slots_distinct(nb),
{
    let x = slot@;
    let p = target_index(ob, x);
    if has_slot(ob, x) {
        lemma_first_exists(ob, x);
    }
    assert forall|i: int, j: int| 0 <= i < j < nb.len() implies nb[i].slot@ != nb[j].slot@ by {
        if i != p && j != p {
            assert(nb[i] == ob[i] && nb[j] == ob[j]);
        } else if i == p {
            assert(nb[j] == ob[j]);
            if has_slot(ob, x) {
                assert(ob[p].slot@ == x);
            } else {
                assert(ob[j].slot@ != x);
            }
        } else {
            assert(nb[i] == ob[i]);
            if has_slot(ob, x) {
                assert(ob[p].slot@ == x);
            } else {
                assert(ob[i].slot@ != x);
            }
        }
    }
}

/// A packet that fits a plan still fits it after `clear_for_reuse`: with no
/// queries, every declared layout demands empty buffers.
pub proof fn law_cleared_packet_still_fits<M>(
    plan: CompiledPlan<M>,
    before: PacketView,
    after: PacketView,
)
    requires
        packet_fits(plan, before),
        cleared(before, after),
    ensures
        packet_fits(plan, after),
{
    let specs = plan.pipeline.buffers@;
    assert forall|j: int| 0 <= j < after.buffers.len() implies #[trigger] buffer_problem(
        specs,
        after.query_count as nat,
        after.buffers[j],
    ) is None by {
        assert(buffer_problem(specs, before.query_count as nat, before.buffers[j]) is None);
        assert(after.buffers[j].slot == before.buffers[j].slot);
        let x = after.buffers[j].slot@;
        if declares(specs, x) {
            let spec = declared_spec(specs, x);
            match spec.layout {
                BufferLayout::PerQueryVector { width } => {
                    assert(0 * width == 0) by (nonlinear_arith);
                },
                _ => {},
            }
        }
    }
}

/// A builder collects what it is given in call order: after any sequence of
/// `buffer`, `stage` and `static_buffer` calls on a new builder, its plan (what
/// `build` returns, unvalidated) lists the declarations, the stages and the
/// static buffers each in the order of their calls, with the builder's
/// metadata.
pub proof fn law_builder_collects_in_order<M>(
    plans: Seq<CompiledPlan<M>>,
    steps: Seq<BuildStep>,
    meta: M,
)
    requires
        plans.len() == steps.len() + 1,
        plans[0].pipeline.buffers@ == Seq::<BufferSpec>::empty(),
        plans[0].pipeline.stages@ == Seq::<StageSpec>::empty(),
        plans[0].static_buffers@ == Seq::<StaticBuffer>::empty(),
        plans[0].planner_meta == meta,
        forall|i: int| 0 <= i < steps.len() ==> #[trigger] stepped(plans[i], plans[i + 1], steps[i]),
    ensures
        plans.last().pipeline.buffers@ == declared_by(steps),
        plans.last().pipeline.stages@ == staged_by(steps),
        plans.last().static_buffers@ == statics_by(steps),
        plans.last().planner_meta == meta,
    decreases steps.len(),
{
    if steps.len() > 0 {
        let n = steps.len() - 1;
        let fewer = plans.drop_last();
        assert forall|i: int| 0 <= i < steps.drop_last().len() implies #[trigger] stepped(
            fewer[i],
            fewer[i + 1],
            steps.drop_last()[i],
        ) by {
            assert(stepped(plans[i], plans[i + 1], steps[i]));
        }
        law_builder_collects_in_order(fewer, steps.drop_last(), meta);
        assert(stepped(plans[n], plans[n + 1], steps[n]));
        assert(fewer.last() == plans[n]);
        match steps.last() {
            BuildStep::Buffer(x) => {
                assert(declared_by(steps) == declared_by(steps.drop_last()) + seq![x]);
                assert(staged_by(steps) == staged_by(steps.drop_last()) + Seq::<StageSpec>::empty());
                assert(statics_by(steps) == statics_by(steps.drop_last()) + Seq::<StaticBuffer>::empty());
            },
            BuildStep::Stage(y) => {
                assert(declared_by(steps) == declared_by(steps.drop_last()) + Seq::<BufferSpec>::empty());
                assert(staged_by(steps) == staged_by(steps.drop_last()) + seq![y]);
                assert(statics_by(steps) == statics_by(steps.drop_last()) + Seq::<StaticBuffer>::empty());
            },
            BuildStep::Static(z) => {
                assert(declared_by(steps) == declared_by(steps.drop_last()) + Seq::<BufferSpec>::empty());
                assert(staged_by(steps) == staged_by(steps.drop_last()) + Seq::<StageSpec>::empty());
                assert(statics_by(steps) == statics_by(steps.drop_last()) + seq![z]);
            },
        }
    }
}

/// A valid plan has no problem to report.
pub proof fn law_valid_plan_has_no_problem<M>(plan: CompiledPlan<M>)
    requires
        plan_valid(plan),
    ensures
        plan_problem(plan) is None,
{
    assert(!exists|k: int| first_dup(plan.pipeline.buffers@, k));
    assert(!exists|k: int| first_static_problem(plan, k));
    assert forall|si: int, ki: int, bi: int| !first_bad_binding(plan, si, ki, bi) by {
        if first_bad_binding(plan, si, ki, bi) {
            assert(stage_ok(plan, si));
            assert(kernel_ok(plan, si, ki));
        }
    }
}

/// A packet that fits a plan has no refusal to report.
pub proof fn law_fitting_packet_has_no_problem<M>(plan: CompiledPlan<M>, packet: PacketView)
    requires
        packet_fits(plan, packet),
    ensures
        packet_problem(plan, packet) is None,
{
    assert(!exists|k: int| first_dup(plan.pipeline.buffers@, k));
    assert(!exists|k: int| first_buffer_problem(plan.pipeline.buffers@, packet, k));
}

// ----- What checks and buffers are for, stated on their own -----

/// The length a layout allows for `query_count` queries: one element per
/// query, `width` per query, or any length for a dynamic buffer.
pub open spec fn layout_allows(layout: BufferLayout, query_count: nat, len: nat) -> bool {
    match layout {
        BufferLayout::PerQueryScalar => len == query_count,
        BufferLayout::PerQueryVector { width } => len == query_count * width,
        BufferLayout::Dynamic => true,
    }
}

/// A packet buffer fits the declarations: at a declared slot it has the
/// declared element kind and a length its layout allows; at an undeclared slot
/// it is empty.
pub open spec fn buffer_fits(specs: Seq<BufferSpec>, query_count: nat, b: PacketBuffer) -> bool {
    if exists|i: int| 0 <= i < specs.len() && #[trigger] specs[i].slot@ == b.slot@ {
        let d = declared_spec(specs, b.slot@);
        &&& b.data.kind() == d.element_kind
        &&& layout_allows(d.layout, query_count, b.data.len() as nat)
    } else {
        b.data.len() == 0
    }
}

/// A buffer's length is accepted exactly when its layout allows it; in
/// particular the length of a dynamic buffer is never refused.
pub proof fn law_length_check_follows_layout(spec: BufferSpec, query_count: usize, len: usize)
    ensures
        (len_problem(spec, query_count as nat, len as nat) is None) == layout_allows(
            spec.layout,
            query_count as nat,
            len as nat,
        ),
        spec.layout is Dynamic ==> len_problem(spec, query_count as nat, len as nat) is None,
{
}

/// A packet fits a plan exactly when no slot is declared twice and every
/// packet buffer fits the declarations; so at every declared slot a fitting
/// packet holds exactly the declared element kind.
pub proof fn law_packet_fits_exactly<M>(plan: CompiledPlan<M>, packet: PacketView)
    ensures
        packet_fits(plan, packet) == ({
            &&& forall|i: int, j: int|
                0 <= i < j < plan.pipeline.buffers@.len() ==> plan.pipeline.buffers@[i].slot@
                    != plan.pipeline.buffers@[j].slot@
            &&& forall|j: int|
                0 <= j < packet.buffers.len() ==> buffer_fits(
                    plan.pipeline.buffers@,
                    packet.query_count as nat,
                    #[trigger] packet.buffers[j],
                )
        }),
        packet_fits(plan, packet) ==> forall|j: int|
            0 <= j < packet.buffers.len() && declares(
                plan.pipeline.buffers@,
                #[trigger] packet.buffers[j].slot@,
            ) ==> packet.buffers[j].data.kind() == declared_spec(
                plan.pipeline.buffers@,
                packet.buffers[j].slot@,
            ).element_kind,
{
    let specs = plan.pipeline.buffers@;
    let qc = packet.query_count as nat;
    lemma_unique_pairwise(specs);
    assert forall|j: int| 0 <= j < packet.buffers.len() implies (buffer_problem(
        specs,
        qc,
        #[trigger] packet.buffers[j],
    ) is None) == buffer_fits(specs, qc, packet.buffers[j]) by {
        lemma_buffer_problem_is_misfit(specs, qc, packet.buffers[j]);
    }
}

/// A packet whose first misfit is a buffer of another element kind than its
/// slot declares is refused with `InvalidBufferType` for that slot and the
/// declared kind.
pub proof fn law_wrong_kind_is_refused<M>(plan: CompiledPlan<M>, packet: PacketView, j: int)
    requires
        forall|a: int, b: int|
            0 <= a < b < plan.pipeline.buffers@.len() ==> plan.pipeline.buffers@[a].slot@
                != plan.pipeline.buffers@[b].slot@,
        0 <= j < packet.buffers.len(),
        forall|k: int|
            0 <= k < j ==> buffer_fits(
                plan.pipeline.buffers@,
                packet.query_count as nat,
                #[trigger] packet.buffers[k],
            ),
        declares(plan.pipeline.buffers@, packet.buffers[j].slot@),
        packet.buffers[j].data.kind() != declared_spec(
            plan.pipeline.buffers@,
            packet.buffers[j].slot@,
        ).element_kind,
    ensures
        packet_problem(plan, packet) == Some(
            Rejection::WrongType(
                packet.buffers[j].slot@,
                declared_spec(plan.pipeline.buffers@, packet.buffers[j].slot@).element_kind,
            ),
        ),
{
    let specs = plan.pipeline.buffers@;
    let qc = packet.query_count as nat;
    lemma_unique_pairwise(specs);
    assert forall|k: int| 0 <= k < j implies #[trigger] buffer_problem(
        specs,
        qc,
        packet.buffers[k],
    ) is None by {
        lemma_buffer_problem_is_misfit(specs, qc, packet.buffers[k]);
    }
    assert(!exists|k: int| first_dup(specs, k));
    assert(first_buffer_problem(specs, packet, j));
    let c = choose|c: int| first_buffer_problem(specs, packet, c);
    assert(first_buffer_problem(specs, packet, c));
    if c < j {
        assert(buffer_problem(specs, qc, packet.buffers[c]) is None);
    }
    if j < c {
        assert(buffer_problem(specs, qc, packet.buffers[j]) is None);
    }
}

/// A plan is valid exactly when: no slot is declared twice; no two static
/// buffers share a slot; every static buffer's slot is declared with the
/// static buffer's element kind; and every binding of every kernel, whatever
/// its access mode, names a declared slot.
pub proof fn law_plan_valid_exactly<M>(plan: CompiledPlan<M>)
    ensures
        plan_valid(plan) == ({
            let specs = plan.pipeline.buffers@;
            let statics = plan.static_buffers@;
            let stages = plan.pipeline.stages@;
            &&& forall|i: int, j: int|
                0 <= i < j < specs.len() ==> specs[i].slot@ != specs[j].slot@
            &&& forall|i: int, j: int|
                0 <= i < j < statics.len() ==> statics[i].slot@ != statics[j].slot@
            &&& forall|j: int|
                0 <= j < statics.len() ==> exists|i: int|
                    0 <= i < specs.len() && specs[i].slot@ == (#[trigger] statics[j]).slot@
                        && specs[i].element_kind == statics[j].data.kind()
            &&& forall|si: int, ki: int, bi: int|
                0 <= si < stages.len() && 0 <= ki < stages[si].kernels@.len() && 0 <= bi
                    < stages[si].kernels@[ki].bindings@.len() ==> exists|i: int|
                    0 <= i < specs.len() && specs[i].slot@
                        == (#[trigger] stages[si].kernels@[ki].bindings@[bi]).slot@
        }),
{
    let specs = plan.pipeline.buffers@;
    let statics = plan.static_buffers@;
    let stages = plan.pipeline.stages@;
    lemma_unique_pairwise(specs);
    let rule_specs = forall|i: int, j: int|
        0 <= i < j < specs.len() ==> specs[i].slot@ != specs[j].slot@;
    let rule_statics_distinct = forall|i: int, j: int|
        0 <= i < j < statics.len() ==> statics[i].slot@ != statics[j].slot@;
    let rule_statics_declared = forall|j: int|
        0 <= j < statics.len() ==> exists|i: int|
            0 <= i < specs.len() && specs[i].slot@ == (#[trigger] statics[j]).slot@
                && specs[i].element_kind == statics[j].data.kind();
    let rule_bindings = forall|si: int, ki: int, bi: int|
        0 <= si < stages.len() && 0 <= ki < stages[si].kernels@.len() && 0 <= bi
            < stages[si].kernels@[ki].bindings@.len() ==> exists|i: int|
            0 <= i < specs.len() && specs[i].slot@
                == (#[trigger] stages[si].kernels@[ki].bindings@[bi]).slot@;
    if plan_valid(plan) {
        assert forall|a: int, b: int| 0 <= a < b < statics.len() implies statics[a].slot@
            != statics[b].slot@ by {
            assert(static_problem(plan, b) is None);
            assert(statics[a].slot@ == statics[a].slot@);
        }
        assert forall|j: int| 0 <= j < statics.len() implies exists|i: int|
            0 <= i < specs.len() && specs[i].slot@ == (#[trigger] statics[j]).slot@
                && specs[i].element_kind == statics[j].data.kind() by {
            assert(static_problem(plan, j) is None);
            let x = statics[j].slot@;
            let c = declared_index(specs, x);
            assert(0 <= c < specs.len() && specs[c].slot@ == x);
        }
        assert forall|si: int, ki: int, bi: int|
            0 <= si < stages.len() && 0 <= ki < stages[si].kernels@.len() && 0 <= bi
                < stages[si].kernels@[ki].bindings@.len() implies exists|i: int|
            0 <= i < specs.len() && specs[i].slot@
                == (#[trigger] stages[si].kernels@[ki].bindings@[bi]).slot@ by {
            assert(stage_ok(plan, si));
            assert(kernel_ok(plan, si, ki));
            assert(binding_ok(plan, si, ki, bi));
        }
    }
    if rule_specs && rule_statics_distinct && rule_statics_declared && rule_bindings {
        assert forall|j: int| 0 <= j < statics.len() implies #[trigger] static_problem(plan, j)
            is None by {
            let x = statics[j].slot@;
            assert(!exists|i: int| 0 <= i < j && #[trigger] statics[i].slot@ == x);
            let w = choose|i: int|
                0 <= i < specs.len() && specs[i].slot@ == statics[j].slot@
                    && specs[i].element_kind == statics[j].data.kind();
            assert(specs[w].slot@ == x);
            let c = declared_index(specs, x);
            assert(0 <= c < specs.len() && specs[c].slot@ == x);
            assert(c == w);
        }
        assert forall|si: int| 0 <= si < stages.len() implies #[trigger] stage_ok(plan, si) by {
            assert forall|ki: int| 0 <= ki < stages[si].kernels@.len() implies #[trigger] kernel_ok(
                plan,
                si,
                ki,
            ) by {
                assert forall|bi: int|
                    0 <= bi < stages[si].kernels@[ki].bindings@.len() implies #[trigger] binding_ok(
                    plan,
                    si,
                    ki,
                    bi,
                ) by {
                    let b = stages[si].kernels@[ki].bindings@[bi];
                    let w = choose|i: int| 0 <= i < specs.len() && specs[i].slot@ == b.slot@;
                    assert(specs[w].slot@ == b.slot@);
                }
            }
        }
    }
}

/// A buffer that an `ensure_*` call sets up starts from the slot's previous
/// elements only when the slot already held that element kind; otherwise
/// (a new slot, or one holding another kind) it starts empty. The result has
/// exactly the asked length: kept elements first, then zeros.
pub proof fn law_ensured_contents(bufs: Seq<PacketBuffer>, x: u16, len: nat)
    ensures
        !(has_slot(bufs, x) && bufs[slot_index(bufs, x)].data is U32) ==> prior_u32(bufs, x)
            == Seq::<u32>::empty(),
        !(has_slot(bufs, x) && bufs[slot_index(bufs, x)].data is U64) ==> prior_u64(bufs, x)
            == Seq::<u64>::empty(),
        !(has_slot(bufs, x) && bufs[slot_index(bufs, x)].data is F32) ==> prior_f32(bufs, x)
            == Seq::<u32>::empty(),
        has_slot(bufs, x) ==> (bufs[slot_index(bufs, x)].data matches BufferData::U32(v)
            ==> prior_u32(bufs, x) == v@),
        has_slot(bufs, x) ==> (bufs[slot_index(bufs, x)].data matches BufferData::U64(v)
            ==> prior_u64(bufs, x) == v@),
        has_slot(bufs, x) ==> (bufs[slot_index(bufs, x)].data matches BufferData::F32(v)
            ==> prior_f32(bufs, x) == v@),
        resized(prior_f32(bufs, x), len, 0u32).len() == len,
        forall|i: int|
            0 <= i < len ==> #[trigger] resized(prior_f32(bufs, x), len, 0u32)[i] == (if i
                < prior_f32(bufs, x).len() {
                prior_f32(bufs, x)[i]
            } else {
                0u32
            }),
        resized(prior_u32(bufs, x), len, 0u32).len() == len,
        forall|i: int|
            0 <= i < len ==> #[trigger] resized(prior_u32(bufs, x), len, 0u32)[i] == (if i
                < prior_u32(bufs, x).len() {
                prior_u32(bufs, x)[i]
            } else {
                0u32
            }),
        resized(prior_u64(bufs, x), len, 0u64).len() == len,
        forall|i: int|
            0 <= i < len ==> #[trigger] resized(prior_u64(bufs, x), len, 0u64)[i] == (if i
                < prior_u64(bufs, x).len() {
                prior_u64(bufs, x)[i]
            } else {
                0u64
            }),
{
}

/// A lookup of `slot` for kind `kind` succeeds exactly when the first buffer
/// at that slot holds that kind; with no buffer at the slot it fails with
/// `MissingBuffer`, and with a first buffer of another kind with
/// `InvalidBufferType` naming the asked kind.
pub proof fn law_lookup_exactly(bufs: Seq<PacketBuffer>, slot: BufferSlot, kind: ElementKind, i: int)
    requires
        0 <= i < bufs.len(),
        bufs[i].slot@ == slot@,
        forall|k: int| 0 <= k < i ==> #[trigger] bufs[k].slot@ != slot@,
    ensures
        (lookup_error(bufs, slot, kind) is None) == (bufs[i].data.kind() == kind),
        bufs[i].data.kind() != kind ==> lookup_error(bufs, slot, kind) == Some(
            BraidError::InvalidBufferType { slot, expected: kind },
        ),
{
    assert(is_first_with(bufs, slot@, i));
    lemma_first_unique(bufs, slot@, i);
}

/// Looking up a slot that no buffer holds fails with `MissingBuffer`.
pub proof fn law_lookup_missing(bufs: Seq<PacketBuffer>, slot: BufferSlot, kind: ElementKind)
    requires
        forall|k: int| 0 <= k < bufs.len() ==> #[trigger] bufs[k].slot@ != slot@,
    ensures
        lookup_error(bufs, slot, kind) == Some(BraidError::MissingBuffer(slot)),
{
}

/// The number that a string of decimal digits denotes.
pub open spec fn digits_value(s: Seq<char>) -> int
    decreases s.len(),
{
    if s.len() == 0 {
        0
    } else {
        digits_value(s.drop_last()) * 10 + (s.last() as int - 48)
    }
}

/// The decimal text of `n` is made of digits only, has no leading zero
/// (unless it is the single digit of zero), and denotes `n`.
pub proof fn law_decimal_denotes(n: nat)
    ensures
        decimal(n).len() >= 1,
        (decimal(n).len() > 1) == (n >= 10),
        forall|i: int| 0 <= i < decimal(n).len() ==> '0' <= #[trigger] decimal(n)[i] <= '9',
        decimal(n).len() > 1 ==> decimal(n)[0] != '0',
        digits_value(decimal(n)) == n,
    decreases n,
{
    if n < 10 {
        let d = decimal(n);
        assert(d[0] as int == n + 48);
        assert(d.drop_last() =~= Seq::<char>::empty());
        assert(digits_value(d) == digits_value(d.drop_last()) * 10 + (d.last() as int - 48));
    } else {
        law_decimal_denotes(n / 10);
        let d = decimal(n);
        assert(d.drop_last() =~= decimal(n / 10));
        assert(d[0] == decimal(n / 10)[0]);
        assert forall|i: int| 0 <= i < d.len() implies '0' <= #[trigger] d[i] <= '9' by {
            if i < d.len() - 1 {
                assert(d[i] == decimal(n / 10)[i]);
            }
        }
        assert(n == (n / 10) * 10 + n % 10) by {
            vstd::arithmetic::div_mod::lemma_fundamental_div_mod(n as int, 10);
        }
        if n / 10 < 10 {
            assert(decimal(n / 10)[0] as int == n / 10 + 48);
            assert('0' as int == 48);
        }
        assert(d.last() as int == n % 10 + 48);
        assert(digits_value(d) == digits_value(d.drop_last()) * 10 + (d.last() as int - 48));
    }
}

proof fn lemma_unique_pairwise(specs: Seq<BufferSpec>)
    ensures
        slots_unique(specs) == (forall|i: int, j: int|
            0 <= i < j < specs.len() ==> specs[i].slot@ != specs[j].slot@),
{
    if slots_unique(specs) {
        assert forall|i: int, j: int| 0 <= i < j < specs.len() implies specs[i].slot@
            != specs[j].slot@ by {
            assert(!dup_at(specs, j));
        }
    }
}

proof fn lemma_buffer_problem_is_misfit(specs: Seq<BufferSpec>, query_count: nat, b: PacketBuffer)
    requires
        query_count <= usize::MAX,
    ensures
        (buffer_problem(specs, query_count, b) is None) == buffer_fits(specs, query_count, b),
{
    if declares(specs, b.slot@) {
        let d = declared_spec(specs, b.slot@);
        law_length_check_follows_layout(d, query_count as usize, b.data.len());
    }
}

} // verus!
