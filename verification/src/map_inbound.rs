//! Mapping of the arguments of kernel-to-vat calls into the receiving
//! vat's terms. This may allocate in the receiving vat's c-lists, never in
//! the kernel's tables.
//!
//! A reference that comes home, to the vat that owns the object or that
//! introduced the promise, must already have its name there: the kernel
//! never hands a vat a second name for something the vat named itself.

use crate::error::{KernelError, clist_error, from_clist_error, result_view};
use crate::kernel_types::{CapData as KernelCapData, CapDataView as KernelCapDataView,
    CapSlot as KernelCapSlot, Message as KernelMessage, MessageView as KernelMessageView,
    ObjectID as KernelObjectID, PromiseID as KernelPromiseID, Resolution as KernelResolution,
    ResolutionView as KernelResolutionView};
use crate::object_table::{ObjectTable, ObjectTableView};
use crate::promise::{PromiseTable, PromiseTableView};
use crate::vat::{CapData as VatCapData, CapDataView as VatCapDataView, CapSlot as VatCapSlot,
    InboundTarget, Message as VatMessage, MessageView as VatMessageView, ObjectID as VatObjectID,
    PromiseID as VatPromiseID, Resolution as VatResolution, ResolutionView as VatResolutionView};
use crate::vat_data::{VatData, VatDataView};
use vstd::prelude::*;

verus! {

/// What inbound mapping of an object answers.
pub open spec fn inbound_object_result(vd: VatDataView, ot: ObjectTableView, id: KernelObjectID)
    -> Result<VatObjectID, KernelError> {
    if !ot.contains(id) {
        Err(KernelError::Dangling)
    } else if ot.owners[id] == vd.id {
        match vd.objects.get_inbound(id.0) {
            Some(v) => Ok(VatObjectID(v)),
            None => Err(KernelError::Dangling),
        }
    } else {
        match vd.objects.map_inbound_result(id.0) {
            Ok(v) => Ok(VatObjectID(v)),
            Err(e) => Err(from_clist_error(e)),
        }
    }
}

/// The vat's data after inbound mapping of an object.
pub open spec fn inbound_object_state(vd: VatDataView, ot: ObjectTableView, id: KernelObjectID)
    -> VatDataView {
    if ot.contains(id) && ot.owners[id] != vd.id {
        VatDataView { objects: vd.objects.map_inbound_state(id.0), ..vd }
    } else {
        vd
    }
}

/// What inbound mapping of a promise answers.
pub open spec fn inbound_promise_result(
    vd: VatDataView,
    pt: PromiseTableView,
    id: KernelPromiseID,
) -> Result<VatPromiseID, KernelError> {
    if !pt.contains(id) {
        Err(KernelError::Dangling)
    } else if pt.promises[id].allocator == vd.id {
        match vd.promises.get_inbound(id.0) {
            Some(v) => Ok(VatPromiseID(v)),
            None => Err(KernelError::Dangling),
        }
    } else {
        match vd.promises.map_inbound_result(id.0) {
            Ok(v) => Ok(VatPromiseID(v)),
            Err(e) => Err(from_clist_error(e)),
        }
    }
}

/// The vat's data after inbound mapping of a promise.
pub open spec fn inbound_promise_state(
    vd: VatDataView,
    pt: PromiseTableView,
    id: KernelPromiseID,
) -> VatDataView {
    if pt.contains(id) && pt.promises[id].allocator != vd.id {
        VatDataView { promises: vd.promises.map_inbound_state(id.0), ..vd }
    } else {
        vd
    }
}

pub open spec fn inbound_slot_result(
    vd: VatDataView,
    ot: ObjectTableView,
    pt: PromiseTableView,
    slot: KernelCapSlot,
) -> Result<VatCapSlot, KernelError> {
    match slot {
        KernelCapSlot::Object(id) => match inbound_object_result(vd, ot, id) {
            Ok(v) => Ok(VatCapSlot::Object(v)),
            Err(e) => Err(e),
        },
        KernelCapSlot::Promise(id) => match inbound_promise_result(vd, pt, id) {
            Ok(v) => Ok(VatCapSlot::Promise(v)),
            Err(e) => Err(e),
        },
    }
}

pub open spec fn inbound_slot_state(
    vd: VatDataView,
    ot: ObjectTableView,
    pt: PromiseTableView,
    slot: KernelCapSlot,
) -> VatDataView {
    match slot {
        KernelCapSlot::Object(id) => inbound_object_state(vd, ot, id),
        KernelCapSlot::Promise(id) => inbound_promise_state(vd, pt, id),
    }
}

/// The vat's data after the first `n` slots were mapped, one after
/// the other, stopping at the first failure.
pub open spec fn inbound_slots_state(
    vd: VatDataView,
    ot: ObjectTableView,
    pt: PromiseTableView,
    slots: Seq<KernelCapSlot>,
    n: nat,
) -> VatDataView
    decreases n,
{
    if n == 0 {
        vd
    } else {
        let before = inbound_slots_state(vd, ot, pt, slots, (n - 1) as nat);
        if inbound_slots_result(vd, ot, pt, slots, (n - 1) as nat).is_ok() {
            inbound_slot_state(before, ot, pt, slots[n - 1])
        } else {
            before
        }
    }
}

/// The mappings of the first `n` slots, or the first failure.
pub open spec fn inbound_slots_result(
    vd: VatDataView,
    ot: ObjectTableView,
    pt: PromiseTableView,
    slots: Seq<KernelCapSlot>,
    n: nat,
) -> Result<Seq<VatCapSlot>, KernelError>
    decreases n,
{
    if n == 0 {
        Ok(Seq::empty())
    } else {
        match inbound_slots_result(vd, ot, pt, slots, (n - 1) as nat) {
            Err(e) => Err(e),
            Ok(done) => match inbound_slot_result(
                inbound_slots_state(vd, ot, pt, slots, (n - 1) as nat),
                ot,
                pt,
                slots[n - 1],
            ) {
                Ok(s) => Ok(done.push(s)),
                Err(e) => Err(e),
            },
        }
    }
}

pub open spec fn inbound_capdata_result(
    vd: VatDataView,
    ot: ObjectTableView,
    pt: PromiseTableView,
    data: KernelCapDataView,
) -> Result<VatCapDataView, KernelError> {
    match inbound_slots_result(vd, ot, pt, data.slots, data.slots.len()) {
        Ok(slots) => Ok(VatCapDataView { body: data.body, slots }),
        Err(e) => Err(e),
    }
}

pub open spec fn inbound_capdata_state(
    vd: VatDataView,
    ot: ObjectTableView,
    pt: PromiseTableView,
    data: KernelCapDataView,
) -> VatDataView {
    inbound_slots_state(vd, ot, pt, data.slots, data.slots.len())
}

/// What inbound mapping of a message answers: the arguments first,
/// then the result promise.
pub open spec fn inbound_message_result(
    vd: VatDataView,
    ot: ObjectTableView,
    pt: PromiseTableView,
    m: KernelMessageView,
) -> Result<VatMessageView, KernelError> {
    match inbound_capdata_result(vd, ot, pt, m.args) {
        Err(e) => Err(e),
        Ok(args) => match m.result {
            None => Ok(VatMessageView { method: m.method, args, result: None }),
            Some(rp) => match inbound_promise_result(
                inbound_capdata_state(vd, ot, pt, m.args),
                pt,
                rp,
            ) {
                Ok(v) => Ok(VatMessageView { method: m.method, args, result: Some(v) }),
                Err(e) => Err(e),
            },
        },
    }
}

pub open spec fn inbound_message_state(
    vd: VatDataView,
    ot: ObjectTableView,
    pt: PromiseTableView,
    m: KernelMessageView,
) -> VatDataView {
    let after_args = inbound_capdata_state(vd, ot, pt, m.args);
    if inbound_capdata_result(vd, ot, pt, m.args).is_ok() && m.result.is_some() {
        inbound_promise_state(after_args, pt, m.result.unwrap())
    } else {
        after_args
    }
}

pub open spec fn inbound_resolution_result(
    vd: VatDataView,
    ot: ObjectTableView,
    pt: PromiseTableView,
    r: KernelResolutionView,
) -> Result<VatResolutionView, KernelError> {
    match r {
        KernelResolutionView::Reference(s) => match inbound_slot_result(vd, ot, pt, s) {
            Ok(v) => Ok(VatResolutionView::Reference(v)),
            Err(e) => Err(e),
        },
        KernelResolutionView::Data(d) => match inbound_capdata_result(vd, ot, pt, d) {
            Ok(v) => Ok(VatResolutionView::Data(v)),
            Err(e) => Err(e),
        },
        KernelResolutionView::Rejection(d) => match inbound_capdata_result(vd, ot, pt, d) {
            Ok(v) => Ok(VatResolutionView::Rejection(v)),
            Err(e) => Err(e),
        },
    }
}

pub open spec fn inbound_resolution_state(
    vd: VatDataView,
    ot: ObjectTableView,
    pt: PromiseTableView,
    r: KernelResolutionView,
) -> VatDataView {
    match r {
        KernelResolutionView::Reference(s) => inbound_slot_state(vd, ot, pt, s),
        KernelResolutionView::Data(d) => inbound_capdata_state(vd, ot, pt, d),
        KernelResolutionView::Rejection(d) => inbound_capdata_state(vd, ot, pt, d),
    }
}

/// The delivery target that stands for a mapped slot.
pub open spec fn target_of(slot: VatCapSlot) -> InboundTarget {
    match slot {
        VatCapSlot::Object(id) => InboundTarget::Object(id),
        VatCapSlot::Promise(id) => InboundTarget::Promise(id),
    }
}

pub fn map_inbound_object(vd: &mut VatData, ot: &ObjectTable, id: KernelObjectID) -> (r: Result<
    VatObjectID,
    KernelError,
>)
    requires
        old(vd).wf(),
    ensures
        final(vd).wf(),
        final(vd)@.id == old(vd)@.id,
        r == inbound_object_result(old(vd)@, ot@, id),
        final(vd)@ == inbound_object_state(old(vd)@, ot@, id),
{
    if !ot.contains(id) {
        return Err(KernelError::Dangling);
    }
    if ot.owner_of(id) == vd.id {
        match vd.object_clist.get_inbound(id.0) {
            Some(v) => Ok(VatObjectID(v)),
            None => Err(KernelError::Dangling),
        }
    } else {
        match vd.object_clist.map_inbound(id.0) {
            Ok(v) => Ok(VatObjectID(v)),
            Err(e) => Err(clist_error(e)),
        }
    }
}

pub fn map_inbound_promise(vd: &mut VatData, pt: &PromiseTable, id: KernelPromiseID) -> (r:
    Result<VatPromiseID, KernelError>)
    requires
        old(vd).wf(),
    ensures
        final(vd).wf(),
        final(vd)@.id == old(vd)@.id,
        r == inbound_promise_result(old(vd)@, pt@, id),
        final(vd)@ == inbound_promise_state(old(vd)@, pt@, id),
{
    if !pt.contains(id) {
        return Err(KernelError::Dangling);
    }
    if pt.allocator_of(id) == vd.id {
        match vd.promise_clist.get_inbound(id.0) {
            Some(v) => Ok(VatPromiseID(v)),
            None => Err(KernelError::Dangling),
        }
    } else {
        match vd.promise_clist.map_inbound(id.0) {
            Ok(v) => Ok(VatPromiseID(v)),
            Err(e) => Err(clist_error(e)),
        }
    }
}

pub fn map_inbound_slot(
    vd: &mut VatData,
    ot: &ObjectTable,
    pt: &PromiseTable,
    slot: KernelCapSlot,
) -> (r: Result<VatCapSlot, KernelError>)
    requires
        old(vd).wf(),
    ensures
        final(vd).wf(),
        final(vd)@.id == old(vd)@.id,
        r == inbound_slot_result(old(vd)@, ot@, pt@, slot),
        final(vd)@ == inbound_slot_state(old(vd)@, ot@, pt@, slot),
{
    match slot {
        KernelCapSlot::Object(id) => match map_inbound_object(vd, ot, id) {
            Ok(v) => Ok(VatCapSlot::Object(v)),
            Err(e) => Err(e),
        },
        KernelCapSlot::Promise(id) => match map_inbound_promise(vd, pt, id) {
            Ok(v) => Ok(VatCapSlot::Promise(v)),
            Err(e) => Err(e),
        },
    }
}

pub fn map_inbound_target(
    vd: &mut VatData,
    ot: &ObjectTable,
    pt: &PromiseTable,
    target: KernelCapSlot,
) -> (r: Result<InboundTarget, KernelError>)
    requires
        old(vd).wf(),
    ensures
        final(vd).wf(),
        final(vd)@.id == old(vd)@.id,
        r == match inbound_slot_result(old(vd)@, ot@, pt@, target) {
            Ok(s) => Ok::<InboundTarget, KernelError>(target_of(s)),
            Err(e) => Err(e),
        },
        final(vd)@ == inbound_slot_state(old(vd)@, ot@, pt@, target),
{
    match map_inbound_slot(vd, ot, pt, target) {
        Ok(VatCapSlot::Object(id)) => Ok(InboundTarget::Object(id)),
        Ok(VatCapSlot::Promise(id)) => Ok(InboundTarget::Promise(id)),
        Err(e) => Err(e),
    }
}

pub fn map_inbound_capdata(
    vd: &mut VatData,
    ot: &ObjectTable,
    pt: &PromiseTable,
    data: KernelCapData,
) -> (r: Result<VatCapData, KernelError>)
    requires
        old(vd).wf(),
    ensures
        final(vd).wf(),
        final(vd)@.id == old(vd)@.id,
        result_view(r) == inbound_capdata_result(old(vd)@, ot@, pt@, data@),
        final(vd)@ == inbound_capdata_state(old(vd)@, ot@, pt@, data@),
{
    let mut slots: Vec<VatCapSlot> = Vec::new();
    let mut i: usize = 0;
    while i < data.slots.len()
        invariant
            i <= data.slots.len(),
            vd.wf(),
            vd@.id == old(vd)@.id,
            inbound_slots_result(old(vd)@, ot@, pt@, data.slots@, i as nat) == Ok::<
                Seq<VatCapSlot>,
                KernelError,
            >(slots@),
            vd@ == inbound_slots_state(old(vd)@, ot@, pt@, data.slots@, i as nat),
        decreases data.slots.len() - i,
    {
        match map_inbound_slot(vd, ot, pt, data.slots[i]) {
            Ok(s) => {
                slots.push(s);
            },
            Err(e) => {
                proof {
                    lemma_inbound_failure_sticks(
                        old(vd)@,
                        ot@,
                        pt@,
                        data.slots@,
                        (i + 1) as nat,
                        data.slots@.len(),
                    );
                }
                return Err(e);
            },
        }
        i += 1;
    }
    Ok(VatCapData { body: data.body, slots })
}

/// Once a slot has failed, the slots after it change nothing.
pub proof fn lemma_inbound_failure_sticks(
    vd: VatDataView,
    ot: ObjectTableView,
    pt: PromiseTableView,
    slots: Seq<KernelCapSlot>,
    n: nat,
    m: nat,
)
    requires
        n <= m,
        inbound_slots_result(vd, ot, pt, slots, n).is_err(),
    ensures
        inbound_slots_result(vd, ot, pt, slots, m) == inbound_slots_result(vd, ot, pt, slots, n),
        inbound_slots_state(vd, ot, pt, slots, m) == inbound_slots_state(vd, ot, pt, slots, n),
    decreases m,
{
    if n < m {
        lemma_inbound_failure_sticks(vd, ot, pt, slots, n, (m - 1) as nat);
    }
}

pub fn map_inbound_message(
    vd: &mut VatData,
    ot: &ObjectTable,
    pt: &PromiseTable,
    message: KernelMessage,
) -> (r: Result<VatMessage, KernelError>)
    requires
        old(vd).wf(),
    ensures
        final(vd).wf(),
        final(vd)@.id == old(vd)@.id,
        result_view(r) == inbound_message_result(old(vd)@, ot@, pt@, message@),
        final(vd)@ == inbound_message_state(old(vd)@, ot@, pt@, message@),
{
    let args = match map_inbound_capdata(vd, ot, pt, message.args) {
        Ok(a) => a,
        Err(e) => {
            return Err(e);
        },
    };
    let result = match message.result {
        None => None,
        Some(rp) => match map_inbound_promise(vd, pt, rp) {
            Ok(v) => Some(v),
            Err(e) => {
                return Err(e);
            },
        },
    };
    Ok(VatMessage { method: message.method, args, result })
}

pub fn map_inbound_resolution(
    vd: &mut VatData,
    ot: &ObjectTable,
    pt: &PromiseTable,
    resolution: KernelResolution,
) -> (r: Result<VatResolution, KernelError>)
    requires
        old(vd).wf(),
    ensures
        final(vd).wf(),
        final(vd)@.id == old(vd)@.id,
        result_view(r) == inbound_resolution_result(old(vd)@, ot@, pt@, resolution@),
        final(vd)@ == inbound_resolution_state(old(vd)@, ot@, pt@, resolution@),
{
    match resolution {
        KernelResolution::Reference(s) => match map_inbound_slot(vd, ot, pt, s) {
            Ok(v) => Ok(VatResolution::Reference(v)),
            Err(e) => Err(e),
        },
        KernelResolution::Data(d) => match map_inbound_capdata(vd, ot, pt, d) {
            Ok(v) => Ok(VatResolution::Data(v)),
            Err(e) => Err(e),
        },
        KernelResolution::Rejection(d) => match map_inbound_capdata(vd, ot, pt, d) {
            Ok(v) => Ok(VatResolution::Rejection(v)),
            Err(e) => Err(e),
        },
    }
}

} // verus!
