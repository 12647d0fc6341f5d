//! What holds of the kernel whatever the vats do, stated over the
//! mathematical content of its parts.

use crate::clist::{CListView, lemma_first_free, lemma_with_pair_wf};
use crate::delivery::{notifications, resolution_queue};
use crate::error::KernelError;
use crate::kernel::{KernelView, process_outcome};
use crate::kernel_types::{CapDataView, CapSlot as KernelCapSlot, ObjectID as KernelObjectID,
    PendingDeliveryView, PromiseID as KernelPromiseID, ResolutionView as KernelResolutionView,
    VatID};
use crate::map_inbound::{inbound_object_result, inbound_object_state, inbound_slot_result,
    inbound_slot_state};
use crate::map_outbound::{known_promise, known_slot, outbound_object_allocates,
    outbound_object_result, outbound_object_table, outbound_object_vat};
use crate::object_table::ObjectTableView;
use crate::promise::{PromiseStateView, PromiseTableView};
use crate::syscall::{KernelState, resolve_outcome, send_outcome, subscribe_outcome};
use crate::vat::{CapSlot as VatCapSlot, MessageView as VatMessageView, ObjectID as VatObjectID,
    PromiseID as VatPromiseID, ResolutionView as VatResolutionView};
use crate::vat_data::VatDataView;
use vstd::prelude::*;

verus! {

/// The two directions of a c-list agree: for every pair `(k, v)` the
/// inbound lookup of `k` gives `v` and the outbound lookup of `v` gives `k`,
/// and each lookup that succeeds names a pair.
pub proof fn lemma_clist_directions_agree(c: CListView, k: usize, v: isize)
    requires
        c.wf(),
    ensures
        c.has_pair(k, v) ==> c.get_inbound(k) == Some(v) && c.get_outbound(v) == Some(k),
        c.get_inbound(k) == Some(v) <==> c.has_pair(k, v),
        c.get_outbound(v) == Some(k) <==> c.has_pair(k, v),
{
    if c.has_pair(k, v) {
        assert(c.inbound.contains_key(k));
    }
    if c.get_outbound(v) == Some(k) {
        assert(c.outbound.contains_key(v));
    }
}

/// A promise has a decider exactly while it is unresolved, and then it has
/// this one and no other.
pub proof fn lemma_decider_iff_unresolved(s: PromiseStateView)
    ensures
        s.decider().is_none() <==> !s.is_unresolved(),
        s.resolution().is_some() <==> !s.is_unresolved(),
        forall|d: VatID, subscribers: Seq<VatID>|
            s == (PromiseStateView::Unresolved { decider: d, subscribers }) ==> s.decider()
                == Some(d),
{
}

/// A promise that is not unresolved has no subscribers, and resolving a
/// promise leaves it without any.
pub proof fn lemma_resolved_has_no_subscribers(
    pt: PromiseTableView,
    id: KernelPromiseID,
    r: KernelResolutionView,
)
    ensures
        pt.contains(id) && !pt.state(id).is_unresolved() ==> pt.state(id).subscribers().len() == 0,
        pt.resolve_result(id, r).is_ok() ==> !pt.resolve_state(id, r).state(id).is_unresolved()
            && pt.resolve_state(id, r).state(id).subscribers().len() == 0,
        pt.resolve_result(id, r).is_ok() ==> pt.resolve_state(id, r).state(id).resolution()
            == Some(r),
{
}

/// A resolved promise stays as it is: it can be neither resolved again
/// nor subscribed to.
pub proof fn lemma_resolved_is_terminal(
    pt: PromiseTableView,
    id: KernelPromiseID,
    r: KernelResolutionView,
    vat: VatID,
)
    requires
        pt.contains(id),
        !pt.state(id).is_unresolved(),
    ensures
        pt.resolve_result(id, r).is_err(),
        pt.resolve_state(id, r) == pt,
        pt.subscribe_result(id).is_err(),
        pt.subscribe_state(id, vat) == pt,
{
}

/// Every object that a vat passes outbound is live in the object table
/// afterwards: a fresh export with the sender as its owner, anything else
/// under the kernel object it was already paired with.
pub proof fn lemma_outbound_object_is_registered(
    vd: VatDataView,
    ot: ObjectTableView,
    v: VatObjectID,
    k: KernelObjectID,
)
    requires
        vd.wf(),
        ot.wf(),
        outbound_object_result(vd, ot, v) == Ok::<KernelObjectID, KernelError>(k),
    ensures
        outbound_object_vat(vd, ot, v).objects.has_pair(k.0, v.0),
        vd.objects.has_pair(k.0, v.0) && outbound_object_table(vd, ot, v) == ot || {
            &&& v.0 >= 0
            &&& !ot.contains(k)
            &&& outbound_object_table(vd, ot, v).contains(k)
            &&& outbound_object_table(vd, ot, v).owners[k] == vd.id
        },
        outbound_object_vat(vd, ot, v).wf(),
        outbound_object_table(vd, ot, v).wf(),
{
    if outbound_object_allocates(vd, ot, v) {
        lemma_with_pair_wf(vd.objects, ot.next, v.0);
        let t = outbound_object_table(vd, ot, v);
        assert forall|id: KernelObjectID| #[trigger] t.owners.contains_key(id) <==> id.0
            < t.next by {
            if id != k {
                assert(ot.owners.contains_key(id) <==> id.0 < ot.next);
            }
        }
        assert(!ot.owners.contains_key(k));
    } else {
        assert(vd.objects.outbound.contains_key(v.0));
    }
}

/// What `send_resolution` queues, it queues at the back.
proof fn lemma_resolution_queues_at_the_back(
    pt: PromiseTableView,
    q: Seq<PendingDeliveryView>,
    p: KernelPromiseID,
    r: KernelResolutionView,
)
    ensures
        q.is_prefix_of(resolution_queue(pt, q, p, r)),
{
    assert(resolution_queue(pt, q, p, r).subrange(0, q.len() as int) =~= q);
}

/// Whatever a syscall does to the run queue, it does at the back: the
/// deliveries that were waiting stay, in their order, ahead of everything
/// that is queued after them.
pub proof fn lemma_syscalls_queue_at_the_back(
    k: KernelState,
    vat: VatID,
    target: VatCapSlot,
    m: VatMessageView,
    id: VatPromiseID,
    to: VatResolutionView,
)
    ensures
        k.queue.is_prefix_of(send_outcome(k, vat, target, m).state.queue),
        k.queue.is_prefix_of(subscribe_outcome(k, vat, id).state.queue),
        k.queue.is_prefix_of(resolve_outcome(k, vat, id, to).state.queue),
{
    assert forall|pt: PromiseTableView, p: KernelPromiseID, r: KernelResolutionView|
        k.queue.is_prefix_of(#[trigger] resolution_queue(pt, k.queue, p, r)) by {
        lemma_resolution_queues_at_the_back(pt, k.queue, p, r);
    }
    let sent = send_outcome(k, vat, target, m).state.queue;
    assert(sent.len() >= k.queue.len() && sent.subrange(0, k.queue.len() as int) =~= k.queue);
    let subscribed = subscribe_outcome(k, vat, id).state.queue;
    assert(subscribed.len() >= k.queue.len() && subscribed.subrange(0, k.queue.len() as int)
        =~= k.queue);
}

/// Whatever the processing of a delivery queues, it queues at the back.
pub proof fn lemma_processing_queues_at_the_back(k: KernelState, pd: PendingDeliveryView)
    ensures
        k.queue.is_prefix_of(process_outcome(k, pd).state.queue),
{
    assert forall|pt: PromiseTableView, p: KernelPromiseID, r: KernelResolutionView|
        k.queue.is_prefix_of(#[trigger] resolution_queue(pt, k.queue, p, r)) by {
        lemma_resolution_queues_at_the_back(pt, k.queue, p, r);
    }
}

/// Deliveries leave the queue in the order in which they entered it: a
/// step takes the delivery that was queued first, and leaves the others, in
/// their order, ahead of whatever the step queues.
pub proof fn lemma_step_takes_the_oldest(k: KernelView)
    requires
        k.state.queue.len() > 0,
    ensures
        k.step_state().state == process_outcome(k.after_pop(), k.state.queue[0]).state,
        k.after_pop().queue == k.state.queue.drop_first(),
        k.state.queue.drop_first().is_prefix_of(k.step_state().state.queue),
{
    lemma_processing_queues_at_the_back(k.after_pop(), k.state.queue[0]);
    assert(k.after_pop().queue =~= k.state.queue.drop_first());
}

/// Export, then import: the kernel object that an export gets on its first
/// way out is the one that every later way out answers, without another
/// allocation, and delivering that object back to the vat gives the export's
/// own identifier, without an allocation either.
pub proof fn lemma_export_then_import(vd: VatDataView, ot: ObjectTableView, e: VatObjectID)
    requires
        vd.wf(),
        ot.wf(),
        outbound_object_allocates(vd, ot, e),
    ensures
        ({
            let k = outbound_object_result(vd, ot, e).unwrap();
            let vd1 = outbound_object_vat(vd, ot, e);
            let ot1 = outbound_object_table(vd, ot, e);
            &&& outbound_object_result(vd1, ot1, e) == Ok::<KernelObjectID, KernelError>(k)
            &&& outbound_object_vat(vd1, ot1, e) == vd1
            &&& outbound_object_table(vd1, ot1, e) == ot1
            &&& inbound_object_result(vd1, ot1, k) == Ok::<VatObjectID, KernelError>(e)
            &&& inbound_object_state(vd1, ot1, k) == vd1
        }),
{
    let k = outbound_object_result(vd, ot, e).unwrap();
    lemma_outbound_object_is_registered(vd, ot, e, k);
    let vd1 = outbound_object_vat(vd, ot, e);
    assert(vd1.objects.outbound.contains_key(e.0));
    assert(vd1.objects.inbound.contains_key(k.0));
}

/// Returning home: where a vat's own export comes back to it, as a target,
/// an argument or a resolution, the vat sees the identifier under which it
/// exported the object, and its c-list stays as it is. Going out again, that
/// identifier names the same kernel object.
pub proof fn lemma_returning_home(
    vd: VatDataView,
    ot: ObjectTableView,
    pt: PromiseTableView,
    k: KernelObjectID,
    e: VatObjectID,
)
    requires
        vd.wf(),
        ot.contains(k),
        ot.owners[k] == vd.id,
        vd.objects.has_pair(k.0, e.0),
    ensures
        inbound_slot_result(vd, ot, pt, KernelCapSlot::Object(k)) == Ok::<
            VatCapSlot,
            KernelError,
        >(VatCapSlot::Object(e)),
        inbound_slot_state(vd, ot, pt, KernelCapSlot::Object(k)) == vd,
        known_slot(vd, VatCapSlot::Object(e)) == Ok::<KernelCapSlot, KernelError>(
            KernelCapSlot::Object(k),
        ),
{
    lemma_clist_directions_agree(vd.objects, k.0, e.0);
}

/// A new c-list hands out -1 first. As long as the vat's own registrations
/// leave the negative identifiers alone, each unfamiliar kernel identifier
/// gets the next one, one below the one before, and a familiar one changes
/// nothing.
pub proof fn lemma_negative_ids_count_down(c: CListView, k: usize)
    requires
        c.wf(),
        c.untouched(),
    ensures
        CListView::empty().next == -1 && CListView::empty().untouched() && CListView::empty().wf(),
        !c.inbound.contains_key(k) && c.next > isize::MIN ==> {
            &&& c.map_inbound_result(k) == Ok::<isize, crate::clist::CListError>(c.next as isize)
            &&& c.map_inbound_state(k).next == c.next - 1
        },
        c.inbound.contains_key(k) ==> c.map_inbound_state(k) == c,
        c.map_inbound_state(k).untouched(),
        c.map_inbound_state(k).wf(),
{
    lemma_first_free(c, c.next);
    crate::clist::lemma_map_inbound_wf(c, k);
    if !c.outbound.contains_key(c.next as isize) {
    } else {
        assert((c.next as isize) < 0);
    }
    let d = c.map_inbound_state(k);
    assert forall|v: isize| #[trigger] d.outbound.contains_key(v) && v < 0 implies v > d.next by {
        if d != c {
            if v != c.fresh() as isize {
                assert(c.outbound.contains_key(v));
            }
        }
    }
}

/// A message sent to a rejected promise is not delivered. Its result
/// promise is rejected with the very data that the target was rejected
/// with, and each of its subscribers is notified of that.
pub proof fn lemma_send_to_rejected(
    k: KernelState,
    vat: VatID,
    target: VatCapSlot,
    m: VatMessageView,
    tp: KernelPromiseID,
    krp: KernelPromiseID,
    error: CapDataView,
)
    requires
        k.wf(),
        k.vats.contains_key(vat),
        known_slot(k.vats[vat], target) == Ok::<KernelCapSlot, KernelError>(
            KernelCapSlot::Promise(tp),
        ),
        k.promises.contains(tp),
        k.promises.state(tp) == PromiseStateView::Rejected(error),
        m.result.is_some(),
        known_promise(k.vats[vat], m.result.unwrap()) == Ok::<KernelPromiseID, KernelError>(krp),
        k.promises.is_unresolved(krp),
    ensures
        ({
            let after = send_outcome(k, vat, target, m);
            &&& after.result == Ok::<(), KernelError>(())
            &&& after.state.promises.state(krp) == PromiseStateView::Rejected(error)
            &&& after.state.promises.state(krp) == k.promises.state(tp)
            &&& after.state.queue == k.queue + notifications(
                k.promises.state(krp).subscribers(),
                krp,
                KernelResolutionView::Rejection(error),
            )
            &&& after.state.vats == k.vats
            &&& after.state.objects == k.objects
        }),
{
}

/// A message sent to a promise that was fulfilled to data or rejected
/// queues no delivery, whether or not it names a result.
pub proof fn lemma_dead_letter_is_not_delivered(
    k: KernelState,
    vat: VatID,
    target: VatCapSlot,
    m: VatMessageView,
    tp: KernelPromiseID,
    i: int,
)
    requires
        k.vats.contains_key(vat),
        known_slot(k.vats[vat], target) == Ok::<KernelCapSlot, KernelError>(
            KernelCapSlot::Promise(tp),
        ),
        k.promises.contains(tp),
        k.promises.state(tp) is Rejected || k.promises.state(tp) is FulfilledToData,
        k.queue.len() <= i < send_outcome(k, vat, target, m).state.queue.len(),
    ensures
        send_outcome(k, vat, target, m).state.queue[i] is Notify,
        m.result.is_none() ==> send_outcome(k, vat, target, m).state == k,
{
}

/// Subscribing to a promise that is already resolved queues exactly one
/// notification, for the subscriber, with the resolution, directly behind
/// what was queued before; nothing else changes.
pub proof fn lemma_subscribe_after_resolution(
    k: KernelState,
    vat: VatID,
    id: VatPromiseID,
    kpid: KernelPromiseID,
)
    requires
        k.vats.contains_key(vat),
        known_promise(k.vats[vat], id) == Ok::<KernelPromiseID, KernelError>(kpid),
        k.promises.contains(kpid),
        !k.promises.state(kpid).is_unresolved(),
    ensures
        ({
            let after = subscribe_outcome(k, vat, id);
            &&& after.result == Ok::<(), KernelError>(())
            &&& after.state.queue == k.queue.push(
                PendingDeliveryView::Notify {
                    vat_id: vat,
                    promise: kpid,
                    resolution: k.promises.state(kpid).resolution().unwrap(),
                },
            )
            &&& after.state.queue.len() == k.queue.len() + 1
            &&& after.state.promises == k.promises
            &&& after.state.vats == k.vats
            &&& after.state.objects == k.objects
        }),
{
}

} // verus!
