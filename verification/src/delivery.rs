//! Where a message goes, and how a resolution reaches those who wait for
//! it.

use crate::error::{KernelError, from_promise_error, promise_error};
use crate::kernel_types::{CapData, CapDataView, CapSlot, PendingDelivery, PendingDeliveryView,
    PromiseID, Resolution, ResolutionView, RunQueue, VatID, copy_slice};
use crate::object_table::{ObjectTable, ObjectTableView};
use crate::promise::{PromiseState, PromiseStateView, PromiseTable, PromiseTableView};
use vstd::prelude::*;

verus! {

/// What is to be done with a message, given its target.
#[derive(Debug, PartialEq, Eq)]
pub enum DeliveryType {
    /// Deliver it to this vat.
    Send(VatID),
    /// Do not deliver it: its result, if any, is rejected with this.
    Error(CapData),
}

pub enum DeliveryTypeView {
    Send(VatID),
    Error(CapDataView),
}

impl View for DeliveryType {
    type V = DeliveryTypeView;

    open spec fn view(&self) -> DeliveryTypeView {
        match self {
            DeliveryType::Send(v) => DeliveryTypeView::Send(*v),
            DeliveryType::Error(d) => DeliveryTypeView::Error(d@),
        }
    }
}

/// The bytes of a string of ASCII characters.
pub open spec fn ascii_bytes(s: Seq<char>) -> Seq<u8> {
    Seq::new(s.len(), |i: int| s[i] as u8)
}

/// The body of the rejection that answers a message sent to data.
pub open spec fn dead_letter_body(data_body: Seq<u8>) -> Seq<u8> {
    ascii_bytes("cannot send message to data ("@) + data_body + ascii_bytes(")"@)
}

/// The rejection that answers a message sent to data: it carries no
/// capabilities.
pub open spec fn dead_letter(data_body: Seq<u8>) -> CapDataView {
    CapDataView { body: dead_letter_body(data_body), slots: Seq::empty() }
}

/// The target is live, and so is the object that it was fulfilled to, if
/// it is a promise that was.
pub open spec fn can_classify(ot: ObjectTableView, pt: PromiseTableView, target: CapSlot) -> bool {
    match target {
        CapSlot::Object(oid) => ot.contains(oid),
        CapSlot::Promise(pid) => pt.contains(pid) && match pt.state(pid) {
            PromiseStateView::FulfilledToTarget(oid) => ot.contains(oid),
            _ => true,
        },
    }
}

/// Where a message to `target` goes: to the owner of an object; to the
/// decider of an unresolved promise; on to the owner of the object that a
/// promise was fulfilled to; nowhere, where the promise was fulfilled to
/// data or rejected.
pub open spec fn classify(ot: ObjectTableView, pt: PromiseTableView, target: CapSlot)
    -> DeliveryTypeView {
    match target {
        CapSlot::Object(oid) => DeliveryTypeView::Send(ot.owners[oid]),
        CapSlot::Promise(pid) => match pt.state(pid) {
            PromiseStateView::Unresolved { decider, .. } => DeliveryTypeView::Send(decider),
            PromiseStateView::FulfilledToTarget(oid) => DeliveryTypeView::Send(ot.owners[oid]),
            PromiseStateView::FulfilledToData(data) => DeliveryTypeView::Error(
                dead_letter(data.body),
            ),
            PromiseStateView::Rejected(error) => DeliveryTypeView::Error(error),
        },
    }
}

/// Whether `delivery_type` can be asked about `target`.
pub fn can_deliver(target: CapSlot, ot: &ObjectTable, pt: &PromiseTable) -> (r: bool)
    ensures
        r == can_classify(ot@, pt@, target),
{
    match target {
        CapSlot::Object(oid) => ot.contains(oid),
        CapSlot::Promise(pid) => {
            if !pt.contains(pid) {
                return false;
            }
            match pt.state_of(pid) {
                PromiseState::FulfilledToTarget(oid) => ot.contains(*oid),
                _ => true,
            }
        },
    }
}

fn dead_letter_data(data_body: &Vec<u8>) -> (r: CapData)
    ensures
        r@ == dead_letter(data_body@),
{
    let prefix = "cannot send message to data (";
    let suffix = ")";
    proof {
        reveal_strlit("cannot send message to data (");
        reveal_strlit(")");
        vstd::string::is_ascii_spec_bytes(prefix);
        vstd::string::is_ascii_spec_bytes(suffix);
    }
    let mut msg = copy_slice(prefix.as_bytes());
    let mut i: usize = 0;
    while i < data_body.len()
        invariant
            i <= data_body.len(),
            msg@ == ascii_bytes(prefix@) + data_body@.subrange(0, i as int),
        decreases data_body.len() - i,
    {
        msg.push(data_body[i]);
        i += 1;
        assert(msg@ =~= ascii_bytes(prefix@) + data_body@.subrange(0, i as int));
    }
    assert(data_body@.subrange(0, i as int) =~= data_body@);
    let tail = suffix.as_bytes();
    assert(tail@.len() == 1);
    msg.push(tail[0]);
    assert(msg@ =~= dead_letter_body(data_body@));
    CapData { body: msg, slots: Vec::new() }
}

pub fn delivery_type(target: CapSlot, ot: &ObjectTable, pt: &PromiseTable) -> (r: DeliveryType)
    requires
        can_classify(ot@, pt@, target),
    ensures
        r@ == classify(ot@, pt@, target),
{
    match target {
        CapSlot::Object(oid) => DeliveryType::Send(ot.owner_of(oid)),
        CapSlot::Promise(pid) => match pt.state_of(pid) {
            PromiseState::Unresolved { decider, .. } => DeliveryType::Send(*decider),
            PromiseState::FulfilledToTarget(oid) => DeliveryType::Send(ot.owner_of(*oid)),
            PromiseState::FulfilledToData(data) => DeliveryType::Error(
                dead_letter_data(&data.body),
            ),
            PromiseState::Rejected(error) => DeliveryType::Error(error.duplicate()),
        },
    }
}

/// One notification of the resolution `r` of `id` for each subscriber, in
/// the subscribers' order.
pub open spec fn notifications(subscribers: Seq<VatID>, id: PromiseID, r: ResolutionView) -> Seq<
    PendingDeliveryView,
> {
    Seq::new(
        subscribers.len(),
        |i: int| PendingDeliveryView::Notify { vat_id: subscribers[i], promise: id, resolution: r },
    )
}

/// What `send_resolution` answers.
pub open spec fn resolution_result(pt: PromiseTableView, id: PromiseID, r: ResolutionView)
    -> Result<(), KernelError> {
    match pt.resolve_result(id, r) {
        Ok(_) => Ok(()),
        Err(e) => Err(from_promise_error(e)),
    }
}

/// The queue after `send_resolution`.
pub open spec fn resolution_queue(
    pt: PromiseTableView,
    queue: Seq<PendingDeliveryView>,
    id: PromiseID,
    r: ResolutionView,
) -> Seq<PendingDeliveryView> {
    match pt.resolve_result(id, r) {
        Ok(subscribers) => queue + notifications(subscribers, id, r),
        Err(_) => queue,
    }
}

/// Resolves the promise `id` to `r` and queues one notification for each
/// vat that subscribed, in increasing order of vat number.
pub fn send_resolution(pt: &mut PromiseTable, rq: &mut RunQueue, id: PromiseID, r: Resolution) -> (res:
    Result<(), KernelError>)
    requires
        old(pt).wf(),
    ensures
        final(pt).wf(),
        res == resolution_result(old(pt)@, id, r@),
        final(pt)@ == old(pt)@.resolve_state(id, r@),
        final(rq)@ == resolution_queue(old(pt)@, old(rq)@, id, r@),
{
    let subscribers = match pt.resolve(id, r.duplicate()) {
        Ok(s) => s,
        Err(e) => {
            return Err(promise_error(e));
        },
    };
    let mut i: usize = 0;
    while i < subscribers.len()
        invariant
            i <= subscribers.len(),
            rq@ == old(rq)@ + notifications(subscribers@, id, r@).subrange(0, i as int),
        decreases subscribers.len() - i,
    {
        let n = PendingDelivery::Notify {
            vat_id: subscribers[i],
            promise: id,
            resolution: r.duplicate(),
        };
        rq.add(n);
        i += 1;
        assert(rq@ =~= old(rq)@ + notifications(subscribers@, id, r@).subrange(0, i as int));
    }
    assert(notifications(subscribers@, id, r@).subrange(0, i as int) =~= notifications(
        subscribers@,
        id,
        r@,
    ));
    Ok(())
}

} // verus!
