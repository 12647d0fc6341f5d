//! Mapping of what a vat emits into the kernel's terms. The first
//! outbound use of an export, or of a promise the vat introduces, is what
//! creates its kernel identifier.

use crate::error::{KernelError, clist_error, result_view};
use crate::kernel_types::{CapData as KernelCapData, CapDataView as KernelCapDataView,
    CapSlot as KernelCapSlot, Message as KernelMessage, MessageView as KernelMessageView,
    ObjectID as KernelObjectID, PendingDelivery, PendingDeliveryView,
    PromiseID as KernelPromiseID, Resolution as KernelResolution,
    ResolutionView as KernelResolutionView, VatID};
use crate::object_table::{ObjectTable, ObjectTableView};
use crate::promise::{PromiseTable, PromiseTableView};
use crate::vat::{CapData as VatCapData, CapDataView as VatCapDataView, CapSlot as VatCapSlot,
    Message as VatMessage, MessageView as VatMessageView, ObjectID as VatObjectID,
    PromiseID as VatPromiseID, Resolution as VatResolution, ResolutionView as VatResolutionView};
use crate::vat_data::{VatData, VatDataView};
use vstd::prelude::*;

verus! {

/// What outbound mapping reads and may change: the sending vat's
/// data and the kernel's two tables.
pub struct OutboundState {
    pub vat: VatDataView,
    pub objects: ObjectTableView,
    pub promises: PromiseTableView,
}

impl OutboundState {
    pub open spec fn wf(self) -> bool {
        self.vat.wf() && self.objects.wf() && self.promises.wf()
    }
}

/// What outbound mapping of an object answers. A known identifier keeps
/// its kernel object. An unknown export gets a fresh kernel object owned by
/// the sender. An unknown import is a forgery.
pub open spec fn outbound_object_result(vd: VatDataView, ot: ObjectTableView, v: VatObjectID)
    -> Result<KernelObjectID, KernelError> {
    match vd.objects.get_outbound(v.0) {
        Some(k) => Ok(KernelObjectID(k)),
        None => if v.0 < 0 {
            Err(KernelError::Confinement)
        } else if ot.is_full() {
            Err(KernelError::Exhausted)
        } else if vd.objects.inbound.contains_key(ot.next) {
            Err(KernelError::Duplicate)
        } else {
            Ok(ot.fresh())
        },
    }
}

/// Whether outbound mapping of an object allocates.
pub open spec fn outbound_object_allocates(vd: VatDataView, ot: ObjectTableView, v: VatObjectID)
    -> bool {
    vd.objects.get_outbound(v.0).is_none() && outbound_object_result(vd, ot, v).is_ok()
}

/// The vat's data after outbound mapping of an object.
pub open spec fn outbound_object_vat(vd: VatDataView, ot: ObjectTableView, v: VatObjectID)
    -> VatDataView {
    if outbound_object_allocates(vd, ot, v) {
        VatDataView { objects: vd.objects.with_pair(ot.next, v.0), ..vd }
    } else {
        vd
    }
}

/// The object table after outbound mapping of an object.
pub open spec fn outbound_object_table(vd: VatDataView, ot: ObjectTableView, v: VatObjectID)
    -> ObjectTableView {
    if outbound_object_allocates(vd, ot, v) {
        ot.allocate(vd.id)
    } else {
        ot
    }
}

/// What outbound mapping of a promise answers: the kernel promise it
/// is paired with, else a fresh one.
pub open spec fn outbound_promise_result(vd: VatDataView, pt: PromiseTableView, v: VatPromiseID)
    -> Result<KernelPromiseID, KernelError> {
    match vd.promises.get_outbound(v.0) {
        Some(k) => Ok(KernelPromiseID(k)),
        None => if pt.is_full() {
            Err(KernelError::Exhausted)
        } else if vd.promises.inbound.contains_key(pt.next) {
            Err(KernelError::Duplicate)
        } else {
            Ok(pt.fresh())
        },
    }
}

/// Whether outbound mapping of a promise allocates.
pub open spec fn outbound_promise_allocates(
    vd: VatDataView,
    pt: PromiseTableView,
    v: VatPromiseID,
) -> bool {
    vd.promises.get_outbound(v.0).is_none() && outbound_promise_result(vd, pt, v).is_ok()
}

/// The vat's data after outbound mapping of a promise.
pub open spec fn outbound_promise_vat(vd: VatDataView, pt: PromiseTableView, v: VatPromiseID)
    -> VatDataView {
    if outbound_promise_allocates(vd, pt, v) {
        VatDataView { promises: vd.promises.with_pair(pt.next, v.0), ..vd }
    } else {
        vd
    }
}

/// The promise table after outbound mapping of a promise, where a
/// promise that is new to the kernel is to be decided by `decider`. The
/// sender is its allocator.
pub open spec fn outbound_promise_table(
    vd: VatDataView,
    pt: PromiseTableView,
    v: VatPromiseID,
    decider: VatID,
) -> PromiseTableView {
    if outbound_promise_allocates(vd, pt, v) {
        pt.allocate_unresolved(decider, vd.id)
    } else {
        pt
    }
}

/// The state after outbound mapping of a promise.
pub open spec fn outbound_promise_state(s: OutboundState, v: VatPromiseID, decider: VatID)
    -> OutboundState {
    OutboundState {
        vat: outbound_promise_vat(s.vat, s.promises, v),
        objects: s.objects,
        promises: outbound_promise_table(s.vat, s.promises, v, decider),
    }
}

/// The state after outbound mapping of an object.
pub open spec fn outbound_object_state(s: OutboundState, v: VatObjectID) -> OutboundState {
    OutboundState {
        vat: outbound_object_vat(s.vat, s.objects, v),
        objects: outbound_object_table(s.vat, s.objects, v),
        promises: s.promises,
    }
}

pub open spec fn outbound_slot_result(s: OutboundState, slot: VatCapSlot) -> Result<
    KernelCapSlot,
    KernelError,
> {
    match slot {
        VatCapSlot::Promise(v) => match outbound_promise_result(s.vat, s.promises, v) {
            Ok(k) => Ok(KernelCapSlot::Promise(k)),
            Err(e) => Err(e),
        },
        VatCapSlot::Object(v) => match outbound_object_result(s.vat, s.objects, v) {
            Ok(k) => Ok(KernelCapSlot::Object(k)),
            Err(e) => Err(e),
        },
    }
}

/// A promise that a slot introduces is decided by the sender.
pub open spec fn outbound_slot_state(s: OutboundState, slot: VatCapSlot) -> OutboundState {
    match slot {
        VatCapSlot::Promise(v) => outbound_promise_state(s, v, s.vat.id),
        VatCapSlot::Object(v) => outbound_object_state(s, v),
    }
}

/// The state after the first `n` slots were mapped, one after the
/// other, stopping at the first failure.
pub open spec fn outbound_slots_state(s: OutboundState, slots: Seq<VatCapSlot>, n: nat)
    -> OutboundState
    decreases n,
{
    if n == 0 {
        s
    } else {
        let before = outbound_slots_state(s, slots, (n - 1) as nat);
        if outbound_slots_result(s, slots, (n - 1) as nat).is_ok() {
            outbound_slot_state(before, slots[n - 1])
        } else {
            before
        }
    }
}

/// The mappings of the first `n` slots, or the first failure.
pub open spec fn outbound_slots_result(s: OutboundState, slots: Seq<VatCapSlot>, n: nat)
    -> Result<Seq<KernelCapSlot>, KernelError>
    decreases n,
{
    if n == 0 {
        Ok(Seq::empty())
    } else {
        match outbound_slots_result(s, slots, (n - 1) as nat) {
            Err(e) => Err(e),
            Ok(done) => match outbound_slot_result(
                outbound_slots_state(s, slots, (n - 1) as nat),
                slots[n - 1],
            ) {
                Ok(k) => Ok(done.push(k)),
                Err(e) => Err(e),
            },
        }
    }
}

pub open spec fn outbound_capdata_result(s: OutboundState, data: VatCapDataView) -> Result<
    KernelCapDataView,
    KernelError,
> {
    match outbound_slots_result(s, data.slots, data.slots.len()) {
        Ok(slots) => Ok(KernelCapDataView { body: data.body, slots }),
        Err(e) => Err(e),
    }
}

pub open spec fn outbound_capdata_state(s: OutboundState, data: VatCapDataView) -> OutboundState {
    outbound_slots_state(s, data.slots, data.slots.len())
}

/// The state after the result promise of a send was mapped: a new one
/// is decided by the vat that will receive the message.
pub open spec fn outbound_send_result_state(
    s: OutboundState,
    decider: VatID,
    result: Option<VatPromiseID>,
) -> OutboundState {
    match result {
        Some(rp) => outbound_promise_state(s, rp, decider),
        None => s,
    }
}

/// What mapping a send answers: the result promise first, then the
/// arguments.
pub open spec fn outbound_send_result(
    s: OutboundState,
    target: KernelCapSlot,
    decider: VatID,
    m: VatMessageView,
) -> Result<PendingDeliveryView, KernelError> {
    let after_result = outbound_send_result_state(s, decider, m.result);
    match m.result {
        Some(rp) => match outbound_promise_result(s.vat, s.promises, rp) {
            Err(e) => Err(e),
            Ok(krp) => match outbound_capdata_result(after_result, m.args) {
                Err(e) => Err(e),
                Ok(args) => Ok(
                    PendingDeliveryView::Deliver {
                        target,
                        message: KernelMessageView { method: m.method, args, result: Some(krp) },
                    },
                ),
            },
        },
        None => match outbound_capdata_result(s, m.args) {
            Err(e) => Err(e),
            Ok(args) => Ok(
                PendingDeliveryView::Deliver {
                    target,
                    message: KernelMessageView { method: m.method, args, result: None },
                },
            ),
        },
    }
}

pub open spec fn outbound_send_state(s: OutboundState, decider: VatID, m: VatMessageView)
    -> OutboundState {
    let after_result = outbound_send_result_state(s, decider, m.result);
    if m.result.is_some() && outbound_promise_result(
        s.vat,
        s.promises,
        m.result.unwrap(),
    ).is_err() {
        s
    } else {
        outbound_capdata_state(after_result, m.args)
    }
}

pub open spec fn outbound_resolution_result(s: OutboundState, r: VatResolutionView) -> Result<
    KernelResolutionView,
    KernelError,
> {
    match r {
        VatResolutionView::Reference(slot) => match outbound_slot_result(s, slot) {
            Ok(k) => Ok(KernelResolutionView::Reference(k)),
            Err(e) => Err(e),
        },
        VatResolutionView::Data(d) => match outbound_capdata_result(s, d) {
            Ok(k) => Ok(KernelResolutionView::Data(k)),
            Err(e) => Err(e),
        },
        VatResolutionView::Rejection(d) => match outbound_capdata_result(s, d) {
            Ok(k) => Ok(KernelResolutionView::Rejection(k)),
            Err(e) => Err(e),
        },
    }
}

pub open spec fn outbound_resolution_state(s: OutboundState, r: VatResolutionView)
    -> OutboundState {
    match r {
        VatResolutionView::Reference(slot) => outbound_slot_state(s, slot),
        VatResolutionView::Data(d) => outbound_capdata_state(s, d),
        VatResolutionView::Rejection(d) => outbound_capdata_state(s, d),
    }
}

/// What looking a slot up answers: it must already be known.
pub open spec fn known_slot(vd: VatDataView, slot: VatCapSlot) -> Result<
    KernelCapSlot,
    KernelError,
> {
    match slot {
        VatCapSlot::Promise(v) => match vd.promises.get_outbound(v.0) {
            Some(k) => Ok(KernelCapSlot::Promise(KernelPromiseID(k))),
            None => Err(KernelError::Confinement),
        },
        VatCapSlot::Object(v) => match vd.objects.get_outbound(v.0) {
            Some(k) => Ok(KernelCapSlot::Object(KernelObjectID(k))),
            None => Err(KernelError::Confinement),
        },
    }
}

/// What looking a promise up answers: it must already be known.
pub open spec fn known_promise(vd: VatDataView, v: VatPromiseID) -> Result<
    KernelPromiseID,
    KernelError,
> {
    match vd.promises.get_outbound(v.0) {
        Some(k) => Ok(KernelPromiseID(k)),
        None => Err(KernelError::Confinement),
    }
}

/// The state that the three values stand for.
pub open spec fn state_of(vd: &VatData, ot: &ObjectTable, pt: &PromiseTable) -> OutboundState {
    OutboundState { vat: vd@, objects: ot@, promises: pt@ }
}

/// Maps an object on its way out of `vd`'s vat. Every object that
/// leaves a vat is live in the object table afterwards: a fresh export
/// with the sender as its owner, anything else under the kernel object it
/// was already paired with.
pub fn map_outbound_object(vd: &mut VatData, ot: &mut ObjectTable, vid: VatObjectID) -> (r: Result<
    KernelObjectID,
    KernelError,
>)
    requires
        old(vd).wf(),
        old(ot).wf(),
    ensures
        final(vd).wf(),
        final(vd)@.id == old(vd)@.id,
        final(ot).wf(),
        r == outbound_object_result(old(vd)@, old(ot)@, vid),
        final(vd)@ == outbound_object_vat(old(vd)@, old(ot)@, vid),
        final(ot)@ == outbound_object_table(old(vd)@, old(ot)@, vid),
        match r {
            Ok(k) => final(vd)@.objects.has_pair(k.0, vid.0) && (old(vd)@.objects.has_pair(
                k.0,
                vid.0,
            ) || (!old(ot)@.contains(k) && final(ot)@.contains(k) && final(ot)@.owners[k] == old(
                vd,
            )@.id)),
            Err(_) => true,
        },
{
    match vd.object_clist.get_outbound(vid.0) {
        Some(k) => Ok(KernelObjectID(k)),
        None => {
            if vid.0 < 0 {
                return Err(KernelError::Confinement);
            }
            if ot.is_full() {
                return Err(KernelError::Exhausted);
            }
            let fresh = ot.next_id();
            if vd.object_clist.get_inbound(fresh.0).is_some() {
                return Err(KernelError::Duplicate);
            }
            proof {
                assert(!old(ot)@.contains(fresh));
            }
            let k = ot.allocate(vd.id);
            match vd.object_clist.add(k.0, vid.0) {
                Ok(_) => Ok(k),
                Err(e) => Err(clist_error(e)),
            }
        },
    }
}

/// Maps a promise on its way out of `vd`'s vat. One that is new to
/// the kernel is allocated with the sender as its allocator and `decider`
/// as its decider.
fn map_outbound_promise_for(
    vd: &mut VatData,
    pt: &mut PromiseTable,
    decider: VatID,
    id: VatPromiseID,
) -> (r: Result<KernelPromiseID, KernelError>)
    requires
        old(vd).wf(),
        old(pt).wf(),
    ensures
        final(vd).wf(),
        final(vd)@.id == old(vd)@.id,
        final(pt).wf(),
        r == outbound_promise_result(old(vd)@, old(pt)@, id),
        final(vd)@ == outbound_promise_vat(old(vd)@, old(pt)@, id),
        final(pt)@ == outbound_promise_table(old(vd)@, old(pt)@, id, decider),
{
    match vd.promise_clist.get_outbound(id.0) {
        Some(k) => Ok(KernelPromiseID(k)),
        None => {
            if pt.is_full() {
                return Err(KernelError::Exhausted);
            }
            let fresh = pt.next_id();
            if vd.promise_clist.get_inbound(fresh.0).is_some() {
                return Err(KernelError::Duplicate);
            }
            let k = pt.allocate_unresolved(decider, vd.id);
            match vd.promise_clist.add(k.0, id.0) {
                Ok(_) => Ok(k),
                Err(e) => Err(clist_error(e)),
            }
        },
    }
}

/// Maps a promise that is no result of a send: the sender alone
/// decides a promise that it introduces.
pub fn map_outbound_promise(vd: &mut VatData, pt: &mut PromiseTable, id: VatPromiseID) -> (r:
    Result<KernelPromiseID, KernelError>)
    requires
        old(vd).wf(),
        old(pt).wf(),
    ensures
        final(vd).wf(),
        final(vd)@.id == old(vd)@.id,
        final(pt).wf(),
        r == outbound_promise_result(old(vd)@, old(pt)@, id),
        final(vd)@ == outbound_promise_vat(old(vd)@, old(pt)@, id),
        final(pt)@ == outbound_promise_table(old(vd)@, old(pt)@, id, old(vd)@.id),
{
    let decider = vd.id;
    map_outbound_promise_for(vd, pt, decider, id)
}

/// Maps the result promise of a send: the vat that receives the
/// message decides it, the sender is its allocator.
pub fn map_outbound_result(
    vd: &mut VatData,
    pt: &mut PromiseTable,
    target_vatid: VatID,
    id: VatPromiseID,
) -> (r: Result<KernelPromiseID, KernelError>)
    requires
        old(vd).wf(),
        old(pt).wf(),
    ensures
        final(vd).wf(),
        final(vd)@.id == old(vd)@.id,
        final(pt).wf(),
        r == outbound_promise_result(old(vd)@, old(pt)@, id),
        final(vd)@ == outbound_promise_vat(old(vd)@, old(pt)@, id),
        final(pt)@ == outbound_promise_table(old(vd)@, old(pt)@, id, target_vatid),
{
    map_outbound_promise_for(vd, pt, target_vatid, id)
}

pub fn map_outbound_slot(
    vd: &mut VatData,
    pt: &mut PromiseTable,
    ot: &mut ObjectTable,
    slot: VatCapSlot,
) -> (r: Result<KernelCapSlot, KernelError>)
    requires
        old(vd).wf(),
        old(pt).wf(),
        old(ot).wf(),
    ensures
        final(vd).wf(),
        final(vd)@.id == old(vd)@.id,
        final(pt).wf(),
        final(ot).wf(),
        r == outbound_slot_result(state_of(old(vd), old(ot), old(pt)), slot),
        state_of(final(vd), final(ot), final(pt)) == outbound_slot_state(
            state_of(old(vd), old(ot), old(pt)),
            slot,
        ),
{
    match slot {
        VatCapSlot::Promise(vid) => match map_outbound_promise(vd, pt, vid) {
            Ok(k) => Ok(KernelCapSlot::Promise(k)),
            Err(e) => Err(e),
        },
        VatCapSlot::Object(vid) => match map_outbound_object(vd, ot, vid) {
            Ok(k) => Ok(KernelCapSlot::Object(k)),
            Err(e) => Err(e),
        },
    }
}

/// Looks up a slot that must already be known to the kernel.
pub fn get_outbound_slot(vd: &VatData, slot: VatCapSlot) -> (r: Result<KernelCapSlot, KernelError>)
    ensures
        r == known_slot(vd@, slot),
{
    match slot {
        VatCapSlot::Promise(id) => match vd.promise_clist.get_outbound(id.0) {
            Some(k) => Ok(KernelCapSlot::Promise(KernelPromiseID(k))),
            None => Err(KernelError::Confinement),
        },
        VatCapSlot::Object(id) => match vd.object_clist.get_outbound(id.0) {
            Some(k) => Ok(KernelCapSlot::Object(KernelObjectID(k))),
            None => Err(KernelError::Confinement),
        },
    }
}

/// Looks up a promise that must already be known to the kernel.
pub fn get_outbound_promise(vd: &VatData, id: VatPromiseID) -> (r: Result<
    KernelPromiseID,
    KernelError,
>)
    ensures
        r == known_promise(vd@, id),
{
    match vd.promise_clist.get_outbound(id.0) {
        Some(k) => Ok(KernelPromiseID(k)),
        None => Err(KernelError::Confinement),
    }
}

/// Once a slot has failed, the slots after it change nothing.
pub proof fn lemma_outbound_failure_sticks(
    s: OutboundState,
    slots: Seq<VatCapSlot>,
    n: nat,
    m: nat,
)
    requires
        n <= m,
        outbound_slots_result(s, slots, n).is_err(),
    ensures
        outbound_slots_result(s, slots, m) == outbound_slots_result(s, slots, n),
        outbound_slots_state(s, slots, m) == outbound_slots_state(s, slots, n),
    decreases m,
{
    if n < m {
        lemma_outbound_failure_sticks(s, slots, n, (m - 1) as nat);
    }
}

pub fn map_outbound_capdata(
    vd: &mut VatData,
    pt: &mut PromiseTable,
    ot: &mut ObjectTable,
    data: VatCapData,
) -> (r: Result<KernelCapData, KernelError>)
    requires
        old(vd).wf(),
        old(pt).wf(),
        old(ot).wf(),
    ensures
        final(vd).wf(),
        final(vd)@.id == old(vd)@.id,
        final(pt).wf(),
        final(ot).wf(),
        result_view(r) == outbound_capdata_result(state_of(old(vd), old(ot), old(pt)), data@),
        state_of(final(vd), final(ot), final(pt)) == outbound_capdata_state(
            state_of(old(vd), old(ot), old(pt)),
            data@,
        ),
{
    let ghost start = state_of(vd, ot, pt);
    let mut slots: Vec<KernelCapSlot> = Vec::new();
    let mut i: usize = 0;
    while i < data.slots.len()
        invariant
            i <= data.slots.len(),
            vd.wf(),
            vd@.id == old(vd)@.id,
            pt.wf(),
            ot.wf(),
            start == state_of(old(vd), old(ot), old(pt)),
            outbound_slots_result(start, data.slots@, i as nat) == Ok::<
                Seq<KernelCapSlot>,
                KernelError,
            >(slots@),
            state_of(vd, ot, pt) == outbound_slots_state(start, data.slots@, i as nat),
        decreases data.slots.len() - i,
    {
        match map_outbound_slot(vd, pt, ot, data.slots[i]) {
            Ok(k) => {
                slots.push(k);
            },
            Err(e) => {
                proof {
                    lemma_outbound_failure_sticks(
                        start,
                        data.slots@,
                        (i + 1) as nat,
                        data.slots@.len(),
                    );
                }
                return Err(e);
            },
        }
        i += 1;
    }
    Ok(KernelCapData { body: data.body, slots })
}

/// Maps a send whose target is already in the kernel's terms, and
/// whose receiving vat `decider_vatid` is known: the result promise first,
/// decided by the receiver, then the arguments.
pub fn map_outbound_send(
    vd: &mut VatData,
    pt: &mut PromiseTable,
    ot: &mut ObjectTable,
    target: KernelCapSlot,
    decider_vatid: VatID,
    message: VatMessage,
) -> (r: Result<PendingDelivery, KernelError>)
    requires
        old(vd).wf(),
        old(pt).wf(),
        old(ot).wf(),
    ensures
        final(vd).wf(),
        final(vd)@.id == old(vd)@.id,
        final(pt).wf(),
        final(ot).wf(),
        result_view(r) == outbound_send_result(
            state_of(old(vd), old(ot), old(pt)),
            target,
            decider_vatid,
            message@,
        ),
        state_of(final(vd), final(ot), final(pt)) == outbound_send_state(
            state_of(old(vd), old(ot), old(pt)),
            decider_vatid,
            message@,
        ),
{
    let result = match message.result {
        None => None,
        Some(rp) => match map_outbound_result(vd, pt, decider_vatid, rp) {
            Ok(k) => Some(k),
            Err(e) => {
                return Err(e);
            },
        },
    };
    let args = match map_outbound_capdata(vd, pt, ot, message.args) {
        Ok(a) => a,
        Err(e) => {
            return Err(e);
        },
    };
    let km = KernelMessage { method: message.method, args, result };
    Ok(PendingDelivery::Deliver { target, message: km })
}

pub fn map_outbound_resolution(
    vd: &mut VatData,
    pt: &mut PromiseTable,
    ot: &mut ObjectTable,
    resolution: VatResolution,
) -> (r: Result<KernelResolution, KernelError>)
    requires
        old(vd).wf(),
        old(pt).wf(),
        old(ot).wf(),
    ensures
        final(vd).wf(),
        final(vd)@.id == old(vd)@.id,
        final(pt).wf(),
        final(ot).wf(),
        result_view(r) == outbound_resolution_result(
            state_of(old(vd), old(ot), old(pt)),
            resolution@,
        ),
        state_of(final(vd), final(ot), final(pt)) == outbound_resolution_state(
            state_of(old(vd), old(ot), old(pt)),
            resolution@,
        ),
{
    match resolution {
        VatResolution::Reference(vslot) => match map_outbound_slot(vd, pt, ot, vslot) {
            Ok(k) => Ok(KernelResolution::Reference(k)),
            Err(e) => Err(e),
        },
        VatResolution::Data(vdata) => match map_outbound_capdata(vd, pt, ot, vdata) {
            Ok(k) => Ok(KernelResolution::Data(k)),
            Err(e) => Err(e),
        },
        VatResolution::Rejection(vdata) => match map_outbound_capdata(vd, pt, ot, vdata) {
            Ok(k) => Ok(KernelResolution::Rejection(k)),
            Err(e) => Err(e),
        },
    }
}

} // verus!
