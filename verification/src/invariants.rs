//! Well-formedness is kept: whatever a vat asks of the kernel, and
//! whatever delivery the kernel processes, tables that were well formed
//! before are well formed after, and every vat's data stays filed under the
//! vat's own number.

use crate::clist::{lemma_map_inbound_wf, lemma_with_pair_wf};
use crate::kernel::process_outcome;
use crate::kernel_types::{CapSlot as KernelCapSlot, MessageView as KernelMessageView,
    PendingDeliveryView,
    PromiseID as KernelPromiseID, ResolutionView as KernelResolutionView, VatID};
use crate::map_inbound::{inbound_capdata_state, inbound_message_state, inbound_promise_state,
    inbound_resolution_state, inbound_slot_state, inbound_slots_state};
use crate::map_outbound::{OutboundState, outbound_object_allocates,
    outbound_object_state, outbound_promise_allocates, outbound_promise_state,
    outbound_resolution_state, outbound_send_state, outbound_slot_state, outbound_slots_state};
use crate::object_table::ObjectTableView;
use crate::promise::{PromiseTableView, lemma_sorted_insert};
use crate::syscall::{KernelState, resolve_outcome, send_outcome, subscribe_outcome};
use crate::vat::{CapSlot as VatCapSlot, MessageView as VatMessageView, PromiseID as VatPromiseID,
    ResolutionView as VatResolutionView};
use crate::vat_data::VatDataView;
use vstd::prelude::*;

verus! {

/// Allocating keeps the promise table well formed.
pub proof fn lemma_allocate_unresolved_wf(pt: PromiseTableView, decider: VatID, allocator: VatID)
    requires
        pt.wf(),
        !pt.is_full(),
    ensures
        pt.allocate_unresolved(decider, allocator).wf(),
{
    let t = pt.allocate_unresolved(decider, allocator);
    assert forall|id: KernelPromiseID| #[trigger] t.promises.contains_key(id) <==> id.0
        < t.next by {
        if id != pt.fresh() {
            assert(pt.promises.contains_key(id) <==> id.0 < pt.next);
        }
    }
    assert forall|id: KernelPromiseID| #[trigger]
        t.promises.contains_key(id) implies t.promises[id].state.wf() by {
        if id != pt.fresh() {
            assert(pt.promises.contains_key(id));
        }
    }
}

/// Subscribing keeps the promise table well formed.
pub proof fn lemma_subscribe_wf(pt: PromiseTableView, id: KernelPromiseID, vat: VatID)
    requires
        pt.wf(),
    ensures
        pt.subscribe_state(id, vat).wf(),
{
    let s = pt.subscribe_state(id, vat);
    if pt.subscribe_result(id).is_ok() {
        assert(pt.promises.contains_key(id));
        assert(pt.promises[id].state.wf());
        lemma_sorted_insert(pt.state(id).subscribers(), vat);
    }
    assert forall|x: KernelPromiseID| #[trigger] s.promises.contains_key(x) <==> x.0 < s.next by {
        assert(pt.promises.contains_key(x) <==> x.0 < pt.next);
    }
    assert forall|x: KernelPromiseID| #[trigger]
        s.promises.contains_key(x) implies s.promises[x].state.wf() by {
        if x != id {
            assert(pt.promises.contains_key(x));
        }
    }
}

/// Resolving keeps the promise table well formed.
pub proof fn lemma_resolve_wf(pt: PromiseTableView, id: KernelPromiseID, r: KernelResolutionView)
    requires
        pt.wf(),
    ensures
        pt.resolve_state(id, r).wf(),
{
    let t = pt.resolve_state(id, r);
    assert forall|x: KernelPromiseID| #[trigger] t.promises.contains_key(x) <==> x.0 < t.next by {
        assert(pt.promises.contains_key(x) <==> x.0 < pt.next);
    }
    assert forall|x: KernelPromiseID| #[trigger]
        t.promises.contains_key(x) implies t.promises[x].state.wf() by {
        if x != id {
            assert(pt.promises.contains_key(x));
        }
    }
}

/// Outbound mapping of one slot keeps the state well formed and the
/// vat's number.
pub proof fn lemma_outbound_slot_wf(s: OutboundState, slot: VatCapSlot, decider: VatID)
    requires
        s.wf(),
    ensures
        outbound_slot_state(s, slot).wf(),
        outbound_slot_state(s, slot).vat.id == s.vat.id,
        match slot {
            VatCapSlot::Promise(v) => outbound_promise_state(s, v, decider).wf()
                && outbound_promise_state(s, v, decider).vat.id == s.vat.id,
            VatCapSlot::Object(_) => true,
        },
{
    match slot {
        VatCapSlot::Promise(v) => {
            if outbound_promise_allocates(s.vat, s.promises, v) {
                lemma_with_pair_wf(s.vat.promises, s.promises.next, v.0);
                lemma_allocate_unresolved_wf(s.promises, decider, s.vat.id);
                lemma_allocate_unresolved_wf(s.promises, s.vat.id, s.vat.id);
            }
        },
        VatCapSlot::Object(v) => {
            if outbound_object_allocates(s.vat, s.objects, v) {
                lemma_with_pair_wf(s.vat.objects, s.objects.next, v.0);
                let t = outbound_object_state(s, v).objects;
                assert forall|id: crate::kernel_types::ObjectID| #[trigger]
                    t.owners.contains_key(id) <==> id.0 < t.next by {
                    if id != s.objects.fresh() {
                        assert(s.objects.owners.contains_key(id) <==> id.0 < s.objects.next);
                    }
                }
            }
        },
    }
}

/// Outbound mapping of a run of slots keeps the state well formed
/// and the vat's number.
pub proof fn lemma_outbound_slots_wf(s: OutboundState, slots: Seq<VatCapSlot>, n: nat)
    requires
        s.wf(),
        n <= slots.len(),
    ensures
        outbound_slots_state(s, slots, n).wf(),
        outbound_slots_state(s, slots, n).vat.id == s.vat.id,
    decreases n,
{
    if n > 0 {
        lemma_outbound_slots_wf(s, slots, (n - 1) as nat);
        lemma_outbound_slot_wf(
            outbound_slots_state(s, slots, (n - 1) as nat),
            slots[n - 1],
            s.vat.id,
        );
    }
}

/// Outbound mapping of a send keeps the state well formed and the
/// vat's number.
pub proof fn lemma_outbound_send_wf(s: OutboundState, decider: VatID, m: VatMessageView)
    requires
        s.wf(),
    ensures
        outbound_send_state(s, decider, m).wf(),
        outbound_send_state(s, decider, m).vat.id == s.vat.id,
{
    let after_result = match m.result {
        Some(rp) => {
            lemma_outbound_slot_wf(s, VatCapSlot::Promise(rp), decider);
            outbound_promise_state(s, rp, decider)
        },
        None => s,
    };
    lemma_outbound_slots_wf(after_result, m.args.slots, m.args.slots.len());
}

/// Outbound mapping of a resolution keeps the state well formed and
/// the vat's number.
pub proof fn lemma_outbound_resolution_wf(s: OutboundState, r: VatResolutionView)
    requires
        s.wf(),
    ensures
        outbound_resolution_state(s, r).wf(),
        outbound_resolution_state(s, r).vat.id == s.vat.id,
{
    match r {
        VatResolutionView::Reference(slot) => {
            lemma_outbound_slot_wf(s, slot, s.vat.id);
        },
        VatResolutionView::Data(d) => {
            lemma_outbound_slots_wf(s, d.slots, d.slots.len());
        },
        VatResolutionView::Rejection(d) => {
            lemma_outbound_slots_wf(s, d.slots, d.slots.len());
        },
    }
}

/// Inbound mapping of one slot keeps a vat's data well formed and its
/// number.
pub proof fn lemma_inbound_slot_wf(
    vd: VatDataView,
    ot: ObjectTableView,
    pt: PromiseTableView,
    slot: KernelCapSlot,
)
    requires
        vd.wf(),
    ensures
        inbound_slot_state(vd, ot, pt, slot).wf(),
        inbound_slot_state(vd, ot, pt, slot).id == vd.id,
{
    match slot {
        KernelCapSlot::Object(id) => {
            lemma_map_inbound_wf(vd.objects, id.0);
        },
        KernelCapSlot::Promise(id) => {
            lemma_map_inbound_wf(vd.promises, id.0);
        },
    }
}

/// Inbound mapping of a run of slots keeps a vat's data well formed
/// and its number.
pub proof fn lemma_inbound_slots_wf(
    vd: VatDataView,
    ot: ObjectTableView,
    pt: PromiseTableView,
    slots: Seq<KernelCapSlot>,
    n: nat,
)
    requires
        vd.wf(),
        n <= slots.len(),
    ensures
        inbound_slots_state(vd, ot, pt, slots, n).wf(),
        inbound_slots_state(vd, ot, pt, slots, n).id == vd.id,
    decreases n,
{
    if n > 0 {
        lemma_inbound_slots_wf(vd, ot, pt, slots, (n - 1) as nat);
        let before = inbound_slots_state(vd, ot, pt, slots, (n - 1) as nat);
        lemma_inbound_slot_wf(before, ot, pt, slots[n - 1]);
    }
}

/// Inbound mapping of a message keeps a vat's data well formed and
/// its number.
pub proof fn lemma_inbound_message_wf(
    vd: VatDataView,
    ot: ObjectTableView,
    pt: PromiseTableView,
    m: KernelMessageView,
)
    requires
        vd.wf(),
    ensures
        inbound_message_state(vd, ot, pt, m).wf(),
        inbound_message_state(vd, ot, pt, m).id == vd.id,
{
    lemma_inbound_slots_wf(vd, ot, pt, m.args.slots, m.args.slots.len());
    let after_args = inbound_capdata_state(vd, ot, pt, m.args);
    if m.result.is_some() {
        lemma_inbound_slot_wf(after_args, ot, pt, KernelCapSlot::Promise(m.result.unwrap()));
    }
}

/// Inbound mapping of a resolution keeps a vat's data well formed and
/// its number.
pub proof fn lemma_inbound_resolution_wf(
    vd: VatDataView,
    ot: ObjectTableView,
    pt: PromiseTableView,
    r: KernelResolutionView,
)
    requires
        vd.wf(),
    ensures
        inbound_resolution_state(vd, ot, pt, r).wf(),
        inbound_resolution_state(vd, ot, pt, r).id == vd.id,
{
    match r {
        KernelResolutionView::Reference(slot) => {
            lemma_inbound_slot_wf(vd, ot, pt, slot);
        },
        KernelResolutionView::Data(d) => {
            lemma_inbound_slots_wf(vd, ot, pt, d.slots, d.slots.len());
        },
        KernelResolutionView::Rejection(d) => {
            lemma_inbound_slots_wf(vd, ot, pt, d.slots, d.slots.len());
        },
    }
}

/// Every syscall leaves a well-formed kernel state well formed, and
/// registers and forgets no vat.
pub proof fn lemma_syscalls_keep_wf(
    k: KernelState,
    vat: VatID,
    target: VatCapSlot,
    m: VatMessageView,
    id: VatPromiseID,
    to: VatResolutionView,
)
    requires
        k.wf(),
    ensures
        send_outcome(k, vat, target, m).state.wf(),
        send_outcome(k, vat, target, m).state.vats.dom() == k.vats.dom(),
        subscribe_outcome(k, vat, id).state.wf(),
        subscribe_outcome(k, vat, id).state.vats.dom() == k.vats.dom(),
        resolve_outcome(k, vat, id, to).state.wf(),
        resolve_outcome(k, vat, id, to).state.vats.dom() == k.vats.dom(),
{
    assert forall|pt: PromiseTableView, p: KernelPromiseID, r: KernelResolutionView|
        pt.wf() implies #[trigger] pt.resolve_state(p, r).wf() by {
        lemma_resolve_wf(pt, p, r);
    }
    assert forall|pt: PromiseTableView, p: KernelPromiseID, v: VatID|
        pt.wf() implies #[trigger] pt.subscribe_state(p, v).wf() by {
        lemma_subscribe_wf(pt, p, v);
    }
    if k.vats.contains_key(vat) {
        assert(k.vats[vat].wf() && k.vats[vat].id == vat);
        assert forall|decider: VatID|
            (#[trigger] outbound_send_state(k.outbound(vat), decider, m)).wf()
                && outbound_send_state(k.outbound(vat), decider, m).vat.id == vat by {
            lemma_outbound_send_wf(k.outbound(vat), decider, m);
        }
        lemma_outbound_resolution_wf(k.outbound(vat), to);
    }
    assert(send_outcome(k, vat, target, m).state.vats.dom() =~= k.vats.dom());
    assert(subscribe_outcome(k, vat, id).state.vats.dom() =~= k.vats.dom());
    assert(resolve_outcome(k, vat, id, to).state.vats.dom() =~= k.vats.dom());
}

/// The processing of every delivery leaves a well-formed kernel state well
/// formed, and registers and forgets no vat.
pub proof fn lemma_processing_keeps_wf(k: KernelState, pd: PendingDeliveryView)
    requires
        k.wf(),
    ensures
        process_outcome(k, pd).state.wf(),
        process_outcome(k, pd).state.vats.dom() == k.vats.dom(),
{
    assert forall|pt: PromiseTableView, p: KernelPromiseID, r: KernelResolutionView|
        pt.wf() implies #[trigger] pt.resolve_state(p, r).wf() by {
        lemma_resolve_wf(pt, p, r);
    }
    match pd {
        PendingDeliveryView::Deliver { target, message } => {
            assert forall|v: VatID| #[trigger] k.vats.contains_key(v) implies ({
                let vd1 = inbound_slot_state(k.vats[v], k.objects, k.promises, target);
                let vd2 = inbound_message_state(vd1, k.objects, k.promises, message);
                vd1.wf() && vd1.id == v && vd2.wf() && vd2.id == v
            }) by {
                assert(k.vats[v].wf() && k.vats[v].id == v);
                lemma_inbound_slot_wf(k.vats[v], k.objects, k.promises, target);
                let vd1 = inbound_slot_state(k.vats[v], k.objects, k.promises, target);
                lemma_inbound_message_wf(vd1, k.objects, k.promises, message);
            }
        },
        PendingDeliveryView::Notify { vat_id, promise, resolution } => {
            if k.vats.contains_key(vat_id) {
                assert(k.vats[vat_id].wf() && k.vats[vat_id].id == vat_id);
                lemma_inbound_slot_wf(
                    k.vats[vat_id],
                    k.objects,
                    k.promises,
                    KernelCapSlot::Promise(promise),
                );
                let vd1 = inbound_promise_state(k.vats[vat_id], k.promises, promise);
                lemma_inbound_resolution_wf(vd1, k.objects, k.promises, resolution);
            }
        },
    }
    assert(process_outcome(k, pd).state.vats.dom() =~= k.vats.dom());
}

} // verus!
