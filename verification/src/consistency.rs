//! Consistency of the kernel's tables with the c-lists: every kernel
//! identifier that a c-list holds, and every object that a promise was
//! fulfilled to, is live. Vats cannot break this, and while it holds the
//! kernel never meets a pair that is already taken or an identifier that
//! names nothing.

use crate::delivery::{DeliveryTypeView, can_classify, classify};
use crate::error::KernelError;
use crate::kernel::{KernelView, export_result, export_state, import_state, process_outcome};
use crate::kernel_types::{CapSlot as KernelCapSlot, ObjectID as KernelObjectID,
    PendingDeliveryView, PromiseID as KernelPromiseID, ResolutionView as KernelResolutionView,
    VatID};
use crate::map_inbound::{inbound_message_state, inbound_promise_state, inbound_resolution_state,
    inbound_slot_state, inbound_slots_state};
use crate::map_outbound::{OutboundState, known_slot, outbound_promise_result,
    outbound_promise_state, outbound_resolution_result, outbound_resolution_state,
    outbound_send_result, outbound_send_state, outbound_slot_result, outbound_slot_state,
    outbound_slots_result, outbound_slots_state};
use crate::object_table::ObjectTableView;
use crate::promise::{PromiseStateView, PromiseTableView};
use crate::syscall::{KernelState, resolve_outcome, send_outcome, subscribe_outcome};
use crate::vat::{CapSlot as VatCapSlot, MessageView as VatMessageView, PromiseID as VatPromiseID,
    ResolutionView as VatResolutionView};
use crate::vat_data::VatDataView;
use vstd::prelude::*;

verus! {

/// Every object of `a` is an object of `b`, with the same owner.
pub open spec fn objects_extend(a: ObjectTableView, b: ObjectTableView) -> bool {
    forall|id: KernelObjectID| #[trigger]
        a.contains(id) ==> b.contains(id) && b.owners[id] == a.owners[id]
}

/// Every promise of `a` is a promise of `b`, with the same allocator and
/// state.
pub open spec fn promises_extend(a: PromiseTableView, b: PromiseTableView) -> bool {
    forall|id: KernelPromiseID| #[trigger]
        a.contains(id) ==> b.contains(id) && b.promises[id] == a.promises[id]
}

/// Every kernel identifier that the vat's c-lists hold is live.
pub open spec fn vat_consistent(vd: VatDataView, ot: ObjectTableView, pt: PromiseTableView)
    -> bool {
    &&& forall|o: usize| #[trigger]
        vd.objects.inbound.contains_key(o) ==> ot.contains(KernelObjectID(o))
    &&& forall|p: usize| #[trigger]
        vd.promises.inbound.contains_key(p) ==> pt.contains(KernelPromiseID(p))
}

/// Every object that a promise was fulfilled to is live.
pub open spec fn targets_live(ot: ObjectTableView, pt: PromiseTableView) -> bool {
    forall|p: KernelPromiseID| #[trigger]
        pt.contains(p) ==> match pt.state(p) {
            PromiseStateView::FulfilledToTarget(o) => ot.contains(o),
            _ => true,
        }
}

/// What the slot names is live.
pub open spec fn slot_live(ot: ObjectTableView, pt: PromiseTableView, slot: KernelCapSlot)
    -> bool {
    match slot {
        KernelCapSlot::Object(o) => ot.contains(o),
        KernelCapSlot::Promise(p) => pt.contains(p),
    }
}

impl OutboundState {
    /// The sending vat's c-lists and the fulfilled promises hold live
    /// identifiers only.
    pub open spec fn consistent(self) -> bool {
        vat_consistent(self.vat, self.objects, self.promises) && targets_live(
            self.objects,
            self.promises,
        )
    }

    /// `other` holds everything that `self` holds in its tables.
    pub open spec fn grows_to(self, other: OutboundState) -> bool {
        objects_extend(self.objects, other.objects) && promises_extend(
            self.promises,
            other.promises,
        )
    }
}

impl KernelState {
    /// Every c-list and every fulfilled promise holds live identifiers
    /// only.
    pub open spec fn consistent(self) -> bool {
        &&& forall|v: VatID| #[trigger]
            self.vats.contains_key(v) ==> vat_consistent(self.vats[v], self.objects, self.promises)
        &&& targets_live(self.objects, self.promises)
    }
}

/// A vat that was consistent with the tables stays so when the tables
/// grow.
pub proof fn lemma_growth_keeps_vat_consistent(
    vd: VatDataView,
    ot: ObjectTableView,
    pt: PromiseTableView,
    ot2: ObjectTableView,
    pt2: PromiseTableView,
)
    requires
        vat_consistent(vd, ot, pt),
        objects_extend(ot, ot2),
        promises_extend(pt, pt2),
    ensures
        vat_consistent(vd, ot2, pt2),
{
    assert forall|o: usize| #[trigger] vd.objects.inbound.contains_key(o) implies ot2.contains(
        KernelObjectID(o),
    ) by {
        assert(ot.contains(KernelObjectID(o)));
    }
    assert forall|p: usize| #[trigger] vd.promises.inbound.contains_key(p) implies pt2.contains(
        KernelPromiseID(p),
    ) by {
        assert(pt.contains(KernelPromiseID(p)));
    }
}

/// Outbound mapping of one slot, in a consistent state: the tables
/// only grow, the state stays consistent, what comes out is live, and no
/// pair is found taken.
pub proof fn lemma_outbound_slot_consistent(s: OutboundState, slot: VatCapSlot, decider: VatID)
    requires
        s.wf(),
        s.consistent(),
    ensures
        ({
            let t = match slot {
                VatCapSlot::Promise(v) => outbound_promise_state(s, v, decider),
                VatCapSlot::Object(_) => outbound_slot_state(s, slot),
            };
            &&& s.grows_to(t)
            &&& t.consistent()
            &&& outbound_slot_result(s, slot) != Err::<KernelCapSlot, KernelError>(
                KernelError::Duplicate,
            )
            &&& outbound_slot_result(s, slot).is_ok() ==> slot_live(
                t.objects,
                t.promises,
                outbound_slot_result(s, slot).unwrap(),
            )
        }),
{
    match slot {
        VatCapSlot::Promise(v) => {
            let t = outbound_promise_state(s, v, decider);
            if s.vat.promises.inbound.contains_key(s.promises.next) {
                assert(s.promises.contains(KernelPromiseID(s.promises.next)));
                assert(s.promises.promises.contains_key(KernelPromiseID(s.promises.next)));
            }
            if s.vat.promises.outbound.contains_key(v.0) {
                assert(s.vat.promises.inbound.contains_key(s.vat.promises.outbound[v.0]));
            }
            assert forall|p: KernelPromiseID| #[trigger] s.promises.contains(p) implies t.promises.contains(
                p,
            ) && t.promises.promises[p] == s.promises.promises[p] by {
                assert(s.promises.promises.contains_key(p));
                assert(p.0 < s.promises.next);
            }
            assert forall|p: usize| #[trigger]
                t.vat.promises.inbound.contains_key(p) implies t.promises.contains(
                KernelPromiseID(p),
            ) by {
                if s.vat.promises.inbound.contains_key(p) {
                    assert(s.promises.contains(KernelPromiseID(p)));
                }
            }
            assert forall|p: KernelPromiseID| #[trigger] t.promises.contains(p) implies match t.promises.state(
                p,
            ) {
                PromiseStateView::FulfilledToTarget(o) => t.objects.contains(o),
                _ => true,
            } by {
                if s.promises.contains(p) {
                    assert(t.promises.promises[p] == s.promises.promises[p]);
                }
            }
        },
        VatCapSlot::Object(v) => {
            let t = outbound_slot_state(s, slot);
            if s.vat.objects.inbound.contains_key(s.objects.next) {
                assert(s.objects.contains(KernelObjectID(s.objects.next)));
                assert(s.objects.owners.contains_key(KernelObjectID(s.objects.next)));
            }
            if s.vat.objects.outbound.contains_key(v.0) {
                assert(s.vat.objects.inbound.contains_key(s.vat.objects.outbound[v.0]));
            }
            assert forall|o: KernelObjectID| #[trigger] s.objects.contains(o) implies t.objects.contains(
                o,
            ) && t.objects.owners[o] == s.objects.owners[o] by {
                assert(s.objects.owners.contains_key(o));
                assert(o.0 < s.objects.next);
            }
            assert forall|o: usize| #[trigger]
                t.vat.objects.inbound.contains_key(o) implies t.objects.contains(
                KernelObjectID(o),
            ) by {
                if s.vat.objects.inbound.contains_key(o) {
                    assert(s.objects.contains(KernelObjectID(o)));
                }
            }
            assert forall|p: KernelPromiseID| #[trigger] t.promises.contains(p) implies match t.promises.state(
                p,
            ) {
                PromiseStateView::FulfilledToTarget(o) => t.objects.contains(o),
                _ => true,
            } by {
                match s.promises.state(p) {
                    PromiseStateView::FulfilledToTarget(o) => {
                        assert(s.objects.contains(o));
                    },
                    _ => {},
                }
            }
        },
    }
}

/// Outbound mapping of a run of slots, in a consistent state: the
/// tables only grow, the state stays consistent, and no pair is found
/// taken.
pub proof fn lemma_outbound_slots_consistent(s: OutboundState, slots: Seq<VatCapSlot>, n: nat)
    requires
        s.wf(),
        s.consistent(),
        n <= slots.len(),
    ensures
        s.grows_to(outbound_slots_state(s, slots, n)),
        outbound_slots_state(s, slots, n).consistent(),
        outbound_slots_state(s, slots, n).wf(),
        outbound_slots_state(s, slots, n).vat.id == s.vat.id,
        outbound_slots_result(s, slots, n) != Err::<Seq<KernelCapSlot>, KernelError>(
            KernelError::Duplicate,
        ),
    decreases n,
{
    if n > 0 {
        lemma_outbound_slots_consistent(s, slots, (n - 1) as nat);
        let before = outbound_slots_state(s, slots, (n - 1) as nat);
        crate::invariants::lemma_outbound_slot_wf(before, slots[n - 1], before.vat.id);
        lemma_outbound_slot_consistent(before, slots[n - 1], before.vat.id);
        let after = outbound_slots_state(s, slots, n);
        lemma_grows_transitive(s, before, after);
    }
}

/// Growth goes on.
pub proof fn lemma_grows_transitive(a: OutboundState, b: OutboundState, c: OutboundState)
    requires
        a.grows_to(b),
        b.grows_to(c) || b == c,
    ensures
        a.grows_to(c),
{
    assert forall|id: KernelObjectID| #[trigger] a.objects.contains(id) implies c.objects.contains(
        id,
    ) && c.objects.owners[id] == a.objects.owners[id] by {
        assert(b.objects.contains(id));
    }
    assert forall|id: KernelPromiseID| #[trigger]
        a.promises.contains(id) implies c.promises.contains(id) && c.promises.promises[id]
        == a.promises.promises[id] by {
        assert(b.promises.contains(id));
    }
}

/// Outbound mapping of a send, in a consistent state.
pub proof fn lemma_outbound_send_consistent(
    s: OutboundState,
    target: KernelCapSlot,
    decider: VatID,
    m: VatMessageView,
)
    requires
        s.wf(),
        s.consistent(),
    ensures
        s.grows_to(outbound_send_state(s, decider, m)),
        outbound_send_state(s, decider, m).consistent(),
        outbound_send_result(s, target, decider, m) != Err::<PendingDeliveryView, KernelError>(
            KernelError::Duplicate,
        ),
{
    match m.result {
        Some(rp) => {
            lemma_outbound_slot_consistent(s, VatCapSlot::Promise(rp), decider);
            crate::invariants::lemma_outbound_slot_wf(s, VatCapSlot::Promise(rp), decider);
            let after_result = outbound_promise_state(s, rp, decider);
            if outbound_promise_result(s.vat, s.promises, rp).is_ok() {
                lemma_outbound_slots_consistent(after_result, m.args.slots, m.args.slots.len());
                lemma_grows_transitive(s, after_result, outbound_send_state(s, decider, m));
            }
        },
        None => {
            lemma_outbound_slots_consistent(s, m.args.slots, m.args.slots.len());
        },
    }
}

/// Outbound mapping of a resolution, in a consistent state: a
/// reference that comes out is live.
pub proof fn lemma_outbound_resolution_consistent(s: OutboundState, r: VatResolutionView)
    requires
        s.wf(),
        s.consistent(),
    ensures
        s.grows_to(outbound_resolution_state(s, r)),
        outbound_resolution_state(s, r).consistent(),
        outbound_resolution_result(s, r) != Err::<KernelResolutionView, KernelError>(
            KernelError::Duplicate,
        ),
        match outbound_resolution_result(s, r) {
            Ok(KernelResolutionView::Reference(slot)) => slot_live(
                outbound_resolution_state(s, r).objects,
                outbound_resolution_state(s, r).promises,
                slot,
            ),
            _ => true,
        },
{
    match r {
        VatResolutionView::Reference(slot) => {
            lemma_outbound_slot_consistent(s, slot, s.vat.id);
        },
        VatResolutionView::Data(d) => {
            lemma_outbound_slots_consistent(s, d.slots, d.slots.len());
        },
        VatResolutionView::Rejection(d) => {
            lemma_outbound_slots_consistent(s, d.slots, d.slots.len());
        },
    }
}

/// Inbound mapping of one slot keeps a vat consistent with the
/// tables.
pub proof fn lemma_inbound_slot_consistent(
    vd: VatDataView,
    ot: ObjectTableView,
    pt: PromiseTableView,
    slot: KernelCapSlot,
)
    requires
        vat_consistent(vd, ot, pt),
    ensures
        vat_consistent(inbound_slot_state(vd, ot, pt, slot), ot, pt),
{
    let t = inbound_slot_state(vd, ot, pt, slot);
    assert forall|o: usize| #[trigger] t.objects.inbound.contains_key(o) implies ot.contains(
        KernelObjectID(o),
    ) by {
        if vd.objects.inbound.contains_key(o) {
        }
    }
    assert forall|p: usize| #[trigger] t.promises.inbound.contains_key(p) implies pt.contains(
        KernelPromiseID(p),
    ) by {
        if vd.promises.inbound.contains_key(p) {
        }
    }
}

/// Inbound mapping of a run of slots keeps a vat consistent with the
/// tables.
pub proof fn lemma_inbound_slots_consistent(
    vd: VatDataView,
    ot: ObjectTableView,
    pt: PromiseTableView,
    slots: Seq<KernelCapSlot>,
    n: nat,
)
    requires
        vat_consistent(vd, ot, pt),
        n <= slots.len(),
    ensures
        vat_consistent(inbound_slots_state(vd, ot, pt, slots, n), ot, pt),
    decreases n,
{
    if n > 0 {
        lemma_inbound_slots_consistent(vd, ot, pt, slots, (n - 1) as nat);
        lemma_inbound_slot_consistent(
            inbound_slots_state(vd, ot, pt, slots, (n - 1) as nat),
            ot,
            pt,
            slots[n - 1],
        );
    }
}

/// Resolving a promise to something live keeps the fulfilled promises'
/// targets live, and forgets no promise.
pub proof fn lemma_resolve_consistent(
    ot: ObjectTableView,
    pt: PromiseTableView,
    id: KernelPromiseID,
    r: KernelResolutionView,
)
    requires
        targets_live(ot, pt),
        match r {
            KernelResolutionView::Reference(slot) => slot_live(ot, pt, slot),
            _ => true,
        },
    ensures
        targets_live(ot, pt.resolve_state(id, r)),
        forall|p: KernelPromiseID| pt.contains(p) <==> #[trigger] pt.resolve_state(id, r).contains(p),
{
    let t = pt.resolve_state(id, r);
    assert forall|p: KernelPromiseID| #[trigger] t.contains(p) implies match t.state(p) {
        PromiseStateView::FulfilledToTarget(o) => ot.contains(o),
        _ => true,
    } by {
        if p != id || t == pt {
            assert(pt.contains(p));
        }
    }
}

/// Subscribing keeps the fulfilled promises' targets live, and forgets
/// no promise.
pub proof fn lemma_subscribe_consistent(
    ot: ObjectTableView,
    pt: PromiseTableView,
    id: KernelPromiseID,
    vat: VatID,
)
    requires
        targets_live(ot, pt),
    ensures
        targets_live(ot, pt.subscribe_state(id, vat)),
        forall|p: KernelPromiseID|
            pt.contains(p) <==> #[trigger] pt.subscribe_state(id, vat).contains(p),
{
    let t = pt.subscribe_state(id, vat);
    assert forall|p: KernelPromiseID| #[trigger] t.contains(p) implies match t.state(p) {
        PromiseStateView::FulfilledToTarget(o) => ot.contains(o),
        _ => true,
    } by {
        if p != id || t == pt {
            assert(pt.contains(p));
        }
    }
}

/// A vat stays consistent with a promise table that forgets no promise.
proof fn lemma_vats_survive(k: KernelState, pt2: PromiseTableView)
    requires
        k.consistent(),
        forall|p: KernelPromiseID| k.promises.contains(p) <==> #[trigger] pt2.contains(p),
    ensures
        forall|v: VatID| #[trigger]
            k.vats.contains_key(v) ==> vat_consistent(k.vats[v], k.objects, pt2),
{
    assert forall|v: VatID| #[trigger] k.vats.contains_key(v) implies vat_consistent(
        k.vats[v],
        k.objects,
        pt2,
    ) by {
        assert(vat_consistent(k.vats[v], k.objects, k.promises));
        assert forall|p: usize| #[trigger]
            k.vats[v].promises.inbound.contains_key(p) implies pt2.contains(KernelPromiseID(p)) by {
            assert(k.promises.contains(KernelPromiseID(p)));
        }
    }
}

/// The state with what outbound mapping for `vat` left behind is
/// consistent.
proof fn lemma_with_outbound_consistent(k: KernelState, vat: VatID, t: OutboundState)
    requires
        k.wf(),
        k.consistent(),
        k.vats.contains_key(vat),
        k.outbound(vat).grows_to(t),
        t.consistent(),
        t.vat.id == vat,
    ensures
        k.with_outbound(t).consistent(),
{
    let after = k.with_outbound(t);
    assert forall|v: VatID| #[trigger] after.vats.contains_key(v) implies vat_consistent(
        after.vats[v],
        after.objects,
        after.promises,
    ) by {
        if v != vat {
            assert(k.vats.contains_key(v));
            lemma_growth_keeps_vat_consistent(
                k.vats[v],
                k.objects,
                k.promises,
                t.objects,
                t.promises,
            );
        }
    }
}

/// Vats cannot break consistency: whatever a vat asks of a consistent
/// kernel leaves it consistent.
pub proof fn lemma_syscalls_keep_consistency(
    k: KernelState,
    vat: VatID,
    target: VatCapSlot,
    m: VatMessageView,
    id: VatPromiseID,
    to: VatResolutionView,
)
    requires
        k.wf(),
        k.consistent(),
    ensures
        send_outcome(k, vat, target, m).state.consistent(),
        subscribe_outcome(k, vat, id).state.consistent(),
        resolve_outcome(k, vat, id, to).state.consistent(),
{
    if k.vats.contains_key(vat) {
        assert(k.vats[vat].wf() && k.vats[vat].id == vat);
        assert(vat_consistent(k.vats[vat], k.objects, k.promises));
        let s = k.outbound(vat);
        // send
        match known_slot(k.vats[vat], target) {
            Ok(ktarget) => {
                if can_classify(k.objects, k.promises, ktarget) {
                    match classify(k.objects, k.promises, ktarget) {
                        DeliveryTypeView::Send(decider) => {
                            lemma_outbound_send_consistent(s, ktarget, decider, m);
                            crate::invariants::lemma_outbound_send_wf(s, decider, m);
                            lemma_with_outbound_consistent(
                                k,
                                vat,
                                outbound_send_state(s, decider, m),
                            );
                        },
                        DeliveryTypeView::Error(error) => {
                            if m.result.is_some() {
                                let kr = KernelResolutionView::Rejection(error);
                                assert forall|p: KernelPromiseID|
                                    targets_live(k.objects, #[trigger] k.promises.resolve_state(p, kr))
                                        && forall|v: VatID| #[trigger]
                                        k.vats.contains_key(v) ==> vat_consistent(
                                            k.vats[v],
                                            k.objects,
                                            k.promises.resolve_state(p, kr),
                                        ) by {
                                    lemma_resolve_consistent(k.objects, k.promises, p, kr);
                                    lemma_vats_survive(k, k.promises.resolve_state(p, kr));
                                }
                            }
                        },
                    }
                }
            },
            Err(_) => {},
        }
        // subscribe
        assert forall|p: KernelPromiseID|
            targets_live(k.objects, #[trigger] k.promises.subscribe_state(p, vat)) && forall|
                v: VatID,
            | #[trigger]
                k.vats.contains_key(v) ==> vat_consistent(
                    k.vats[v],
                    k.objects,
                    k.promises.subscribe_state(p, vat),
                ) by {
            lemma_subscribe_consistent(k.objects, k.promises, p, vat);
            lemma_vats_survive(k, k.promises.subscribe_state(p, vat));
        }
        // resolve
        lemma_outbound_resolution_consistent(s, to);
        crate::invariants::lemma_outbound_resolution_wf(s, to);
        let t = outbound_resolution_state(s, to);
        lemma_with_outbound_consistent(k, vat, t);
        let after = k.with_outbound(t);
        match outbound_resolution_result(s, to) {
            Ok(kr) => {
                assert forall|p: KernelPromiseID|
                    targets_live(after.objects, #[trigger] after.promises.resolve_state(p, kr))
                        && forall|v: VatID| #[trigger]
                        after.vats.contains_key(v) ==> vat_consistent(
                            after.vats[v],
                            after.objects,
                            after.promises.resolve_state(p, kr),
                        ) by {
                    lemma_resolve_consistent(after.objects, after.promises, p, kr);
                    lemma_vats_survive(after, after.promises.resolve_state(p, kr));
                }
            },
            Err(_) => {},
        }
    }
}

/// The processing of a delivery leaves a consistent kernel consistent.
pub proof fn lemma_processing_keeps_consistency(k: KernelState, pd: PendingDeliveryView)
    requires
        k.wf(),
        k.consistent(),
    ensures
        process_outcome(k, pd).state.consistent(),
{
    match pd {
        PendingDeliveryView::Deliver { target, message } => {
            if can_classify(k.objects, k.promises, target) {
                match classify(k.objects, k.promises, target) {
                    DeliveryTypeView::Error(error) => {
                        if message.result.is_some() {
                            let kr = KernelResolutionView::Rejection(error);
                            let p = message.result.unwrap();
                            lemma_resolve_consistent(k.objects, k.promises, p, kr);
                            lemma_vats_survive(k, k.promises.resolve_state(p, kr));
                        }
                    },
                    DeliveryTypeView::Send(vat_id) => {
                        if k.vats.contains_key(vat_id) {
                            let vd = k.vats[vat_id];
                            assert(vat_consistent(vd, k.objects, k.promises));
                            lemma_inbound_slot_consistent(vd, k.objects, k.promises, target);
                            let vd1 = inbound_slot_state(vd, k.objects, k.promises, target);
                            lemma_inbound_slots_consistent(
                                vd1,
                                k.objects,
                                k.promises,
                                message.args.slots,
                                message.args.slots.len(),
                            );
                            if message.result.is_some() {
                                lemma_inbound_slot_consistent(
                                    inbound_slots_state(
                                        vd1,
                                        k.objects,
                                        k.promises,
                                        message.args.slots,
                                        message.args.slots.len(),
                                    ),
                                    k.objects,
                                    k.promises,
                                    KernelCapSlot::Promise(message.result.unwrap()),
                                );
                            }
                            let vd2 = inbound_message_state(vd1, k.objects, k.promises, message);
                            assert(vat_consistent(vd2, k.objects, k.promises));
                        }
                    },
                }
            }
        },
        PendingDeliveryView::Notify { vat_id, promise, resolution } => {
            if k.vats.contains_key(vat_id) {
                let vd = k.vats[vat_id];
                assert(vat_consistent(vd, k.objects, k.promises));
                lemma_inbound_slot_consistent(
                    vd,
                    k.objects,
                    k.promises,
                    KernelCapSlot::Promise(promise),
                );
                let vd1 = inbound_promise_state(vd, k.promises, promise);
                match resolution {
                    KernelResolutionView::Reference(slot) => {
                        lemma_inbound_slot_consistent(vd1, k.objects, k.promises, slot);
                    },
                    KernelResolutionView::Data(d) => {
                        lemma_inbound_slots_consistent(
                            vd1,
                            k.objects,
                            k.promises,
                            d.slots,
                            d.slots.len(),
                        );
                    },
                    KernelResolutionView::Rejection(d) => {
                        lemma_inbound_slots_consistent(
                            vd1,
                            k.objects,
                            k.promises,
                            d.slots,
                            d.slots.len(),
                        );
                    },
                }
                let vd2 = inbound_resolution_state(vd1, k.objects, k.promises, resolution);
                assert(vat_consistent(vd2, k.objects, k.promises));
            }
        },
    }
}

/// In a consistent kernel a send fails only for what the vat did: for a
/// target or an argument that it was never granted, or for a result promise
/// that is known and already resolved where the message is a dead letter.
/// An identifier space that is used up is the one other cause.
pub proof fn lemma_send_fails_for_cause(
    k: KernelState,
    vat: VatID,
    target: VatCapSlot,
    m: VatMessageView,
)
    requires
        k.wf(),
        k.consistent(),
        k.vats.contains_key(vat),
    ensures
        match send_outcome(k, vat, target, m).result {
            Ok(_) => true,
            Err(e) => e == KernelError::Confinement || e == KernelError::Exhausted || e
                == KernelError::Unauthorized,
        },
{
    assert(k.vats[vat].wf() && k.vats[vat].id == vat);
    assert(vat_consistent(k.vats[vat], k.objects, k.promises));
    let vd = k.vats[vat];
    match known_slot(vd, target) {
        Ok(ktarget) => {
            match target {
                VatCapSlot::Promise(v) => {
                    assert(vd.promises.outbound.contains_key(v.0));
                    assert(vd.promises.inbound.contains_key(vd.promises.outbound[v.0]));
                },
                VatCapSlot::Object(v) => {
                    assert(vd.objects.outbound.contains_key(v.0));
                    assert(vd.objects.inbound.contains_key(vd.objects.outbound[v.0]));
                },
            }
            assert(slot_live(k.objects, k.promises, ktarget));
            assert(can_classify(k.objects, k.promises, ktarget));
            match classify(k.objects, k.promises, ktarget) {
                DeliveryTypeView::Send(decider) => {
                    lemma_send_mapping_fails_for_cause(k.outbound(vat), ktarget, decider, m);
                },
                DeliveryTypeView::Error(_) => {
                    if m.result.is_some() {
                        let rp = m.result.unwrap();
                        if vd.promises.outbound.contains_key(rp.0) {
                            assert(vd.promises.inbound.contains_key(vd.promises.outbound[rp.0]));
                        }
                    }
                },
            }
        },
        Err(_) => {},
    }
}

/// In a consistent state the mapping of a send fails only for an
/// import that was never granted or for an identifier space that is used
/// up.
pub proof fn lemma_send_mapping_fails_for_cause(
    s: OutboundState,
    target: KernelCapSlot,
    decider: VatID,
    m: VatMessageView,
)
    requires
        s.wf(),
        s.consistent(),
    ensures
        match outbound_send_result(s, target, decider, m) {
            Ok(_) => true,
            Err(e) => e == KernelError::Confinement || e == KernelError::Exhausted,
        },
{
    let after_result = match m.result {
        Some(rp) => {
            lemma_outbound_slot_consistent(s, VatCapSlot::Promise(rp), decider);
            crate::invariants::lemma_outbound_slot_wf(s, VatCapSlot::Promise(rp), decider);
            outbound_promise_state(s, rp, decider)
        },
        None => s,
    };
    lemma_slots_fail_for_cause(after_result, m.args.slots, m.args.slots.len());
}

/// In a consistent state the mapping of a run of slots fails only
/// for an import that was never granted or for an identifier space that is
/// used up.
pub proof fn lemma_slots_fail_for_cause(s: OutboundState, slots: Seq<VatCapSlot>, n: nat)
    requires
        s.wf(),
        s.consistent(),
        n <= slots.len(),
    ensures
        match outbound_slots_result(s, slots, n) {
            Ok(_) => true,
            Err(e) => e == KernelError::Confinement || e == KernelError::Exhausted,
        },
    decreases n,
{
    if n > 0 {
        lemma_slots_fail_for_cause(s, slots, (n - 1) as nat);
        lemma_outbound_slots_consistent(s, slots, (n - 1) as nat);
        let before = outbound_slots_state(s, slots, (n - 1) as nat);
        lemma_outbound_slot_consistent(before, slots[n - 1], before.vat.id);
    }
}

/// A kernel without vats is consistent, and registering a vat keeps the
/// kernel consistent.
pub proof fn lemma_add_vat_keeps_consistency(k: KernelView, name: Seq<u8>)
    requires
        k.wf(),
        k.state.consistent(),
    ensures
        KernelView::empty().state.consistent(),
        k.add_vat_state(name).state.consistent(),
{
    let after = k.add_vat_state(name).state;
    if k.add_vat_result().is_ok() {
        let vid = VatID(k.names.next);
        let root = k.state.objects.fresh();
        assert forall|o: KernelObjectID| #[trigger] k.state.objects.contains(o) implies after.objects.contains(
            o,
        ) && after.objects.owners[o] == k.state.objects.owners[o] by {
            assert(k.state.objects.owners.contains_key(o));
            assert(o.0 < k.state.objects.next);
        }
        assert forall|v: VatID| #[trigger] after.vats.contains_key(v) implies vat_consistent(
            after.vats[v],
            after.objects,
            after.promises,
        ) by {
            if v != vid {
                assert(k.state.vats.contains_key(v));
                lemma_growth_keeps_vat_consistent(
                    k.state.vats[v],
                    k.state.objects,
                    k.state.promises,
                    after.objects,
                    after.promises,
                );
            }
        }
        assert forall|p: KernelPromiseID| #[trigger] after.promises.contains(p) implies match after.promises.state(
            p,
        ) {
            PromiseStateView::FulfilledToTarget(o) => after.objects.contains(o),
            _ => true,
        } by {
            match k.state.promises.state(p) {
                PromiseStateView::FulfilledToTarget(o) => {
                    assert(k.state.objects.contains(o));
                },
                _ => {},
            }
        }
    }
}

/// Registering an export keeps the kernel well formed and consistent,
/// and the object it answers is live.
pub proof fn lemma_export_keeps_consistency(k: KernelState, to_vat: VatID, export_id: isize)
    requires
        k.wf(),
        k.consistent(),
    ensures
        export_state(k, to_vat, export_id).consistent(),
        export_state(k, to_vat, export_id).wf(),
        export_result(k, to_vat, export_id).is_ok() ==> export_state(
            k,
            to_vat,
            export_id,
        ).objects.contains(export_result(k, to_vat, export_id).unwrap()),
{
    if k.vats.contains_key(to_vat) {
        assert(k.vats[to_vat].wf() && k.vats[to_vat].id == to_vat);
        assert(vat_consistent(k.vats[to_vat], k.objects, k.promises));
        let s = k.outbound(to_vat);
        let slot = VatCapSlot::Object(crate::vat::ObjectID(export_id));
        lemma_outbound_slot_consistent(s, slot, to_vat);
        crate::invariants::lemma_outbound_slot_wf(s, slot, to_vat);
        lemma_with_outbound_consistent(k, to_vat, outbound_slot_state(s, slot));
        assert(export_state(k, to_vat, export_id) == k.with_outbound(outbound_slot_state(s, slot)));
        let after = export_state(k, to_vat, export_id);
        assert forall|v: VatID| #[trigger] after.vats.contains_key(v) implies after.vats[v].wf()
            && after.vats[v].id == v by {
            if v != to_vat {
                assert(k.vats.contains_key(v));
            }
        }
    }
}

/// Recording an import for an object that is live keeps the kernel
/// consistent.
pub proof fn lemma_import_keeps_consistency(
    k: KernelState,
    id: KernelObjectID,
    from_vat: VatID,
    import_id: isize,
)
    requires
        k.consistent(),
        k.objects.contains(id),
    ensures
        import_state(k, id, from_vat, import_id).consistent(),
{
    if k.vats.contains_key(from_vat) {
        let after = import_state(k, id, from_vat, import_id);
        assert forall|v: VatID| #[trigger] after.vats.contains_key(v) implies vat_consistent(
            after.vats[v],
            after.objects,
            after.promises,
        ) by {
            assert(k.vats.contains_key(v));
            assert(vat_consistent(k.vats[v], k.objects, k.promises));
        }
    }
}

/// The system starts consistent: wiring pairs of vats and queueing the
/// bootstrap delivery keep the kernel consistent.
pub proof fn lemma_start_keeps_consistency(
    k: KernelView,
    from_vat: VatID,
    import_id: isize,
    to_vat: VatID,
    export_id: isize,
)
    requires
        k.wf(),
        k.state.consistent(),
    ensures
        k.pair_state(from_vat, import_id, to_vat, export_id).state.consistent(),
        k.push_bootstrap_state(to_vat).state.consistent(),
{
    lemma_export_keeps_consistency(k.state, to_vat, export_id);
    lemma_export_keeps_consistency(k.state, to_vat, 0);
    match export_result(k.state, to_vat, export_id) {
        Ok(koid) => {
            lemma_import_keeps_consistency(
                export_state(k.state, to_vat, export_id),
                koid,
                from_vat,
                import_id,
            );
        },
        Err(_) => {},
    }
}

} // verus!
