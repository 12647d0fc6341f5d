//! The operations a vat may ask of the kernel during its turn.
//!
//! The handler borrows the kernel's tables and run queue for one dispatch
//! call. Each operation changes kernel state and may queue further work; it
//! never dispatches.

use crate::delivery::{DeliveryType, DeliveryTypeView, can_classify, can_deliver, classify,
    delivery_type, resolution_queue, resolution_result, send_resolution};
use crate::error::{KernelError, promise_error};
use crate::kernel_types::{PendingDelivery, PendingDeliveryView, Resolution as KernelResolution,
    ResolutionView as KernelResolutionView, RunQueue, VatID};
use crate::map_outbound::{OutboundState, get_outbound_promise, get_outbound_slot, known_promise,
    known_slot, map_outbound_resolution, map_outbound_send, outbound_resolution_result,
    outbound_resolution_state, outbound_send_result, outbound_send_state};
use crate::object_table::{ObjectTable, ObjectTableView};
use crate::promise::{PromiseTable, PromiseTableView};
use crate::vat::{CapSlot as VatCapSlot, Message as VatMessage, MessageView as VatMessageView,
    PromiseID as VatPromiseID, Resolution as VatResolution, ResolutionView as VatResolutionView};
use crate::vat_data::{VatDataView, VatTable, vats_wf};
use vstd::prelude::*;

verus! {

/// The kernel state that a vat's turn can touch.
pub struct KernelState {
    pub vats: Map<VatID, VatDataView>,
    pub objects: ObjectTableView,
    pub promises: PromiseTableView,
    pub queue: Seq<PendingDeliveryView>,
}

impl KernelState {
    pub open spec fn wf(self) -> bool {
        vats_wf(self.vats) && self.objects.wf() && self.promises.wf()
    }

    /// What outbound mapping for `vat` works on.
    pub open spec fn outbound(self, vat: VatID) -> OutboundState {
        OutboundState { vat: self.vats[vat], objects: self.objects, promises: self.promises }
    }

    /// The state with what outbound mapping left behind.
    pub open spec fn with_outbound(self, s: OutboundState) -> KernelState {
        KernelState {
            vats: self.vats.insert(s.vat.id, s.vat),
            objects: s.objects,
            promises: s.promises,
            queue: self.queue,
        }
    }
}

/// A state with the answer that led to it.
pub struct Outcome {
    pub state: KernelState,
    pub result: Result<(), KernelError>,
}

/// What `send` by `vat` does. The target must be known to the vat and
/// live. A message that can be delivered is mapped and queued. A dead
/// letter queues no delivery: its result promise, if it has one, is
/// rejected with the reason, and those who wait for it are notified.
pub open spec fn send_outcome(k: KernelState, vat: VatID, target: VatCapSlot, m: VatMessageView)
    -> Outcome {
    if !k.vats.contains_key(vat) {
        Outcome { state: k, result: Err(KernelError::MissingVat) }
    } else {
        match known_slot(k.vats[vat], target) {
            Err(e) => Outcome { state: k, result: Err(e) },
            Ok(ktarget) => if !can_classify(k.objects, k.promises, ktarget) {
                Outcome { state: k, result: Err(KernelError::Dangling) }
            } else {
                match classify(k.objects, k.promises, ktarget) {
                    DeliveryTypeView::Send(decider) => {
                        let after = k.with_outbound(outbound_send_state(k.outbound(vat), decider, m));
                        match outbound_send_result(k.outbound(vat), ktarget, decider, m) {
                            Ok(pd) => Outcome {
                                state: KernelState { queue: k.queue.push(pd), ..after },
                                result: Ok(()),
                            },
                            Err(e) => Outcome { state: after, result: Err(e) },
                        }
                    },
                    DeliveryTypeView::Error(error) => match m.result {
                        None => Outcome { state: k, result: Ok(()) },
                        Some(rp) => match known_promise(k.vats[vat], rp) {
                            Err(e) => Outcome { state: k, result: Err(e) },
                            Ok(kpid) => {
                                let kr = KernelResolutionView::Rejection(error);
                                Outcome {
                                    state: KernelState {
                                        promises: k.promises.resolve_state(kpid, kr),
                                        queue: resolution_queue(k.promises, k.queue, kpid, kr),
                                        ..k
                                    },
                                    result: resolution_result(k.promises, kpid, kr),
                                }
                            },
                        },
                    },
                }
            },
        }
    }
}

/// What `subscribe` by `vat` does. While the promise is unresolved the vat
/// joins its subscribers. Once it is resolved, exactly one notification
/// that carries the resolution is queued for the vat, behind what is queued
/// already.
pub open spec fn subscribe_outcome(k: KernelState, vat: VatID, id: VatPromiseID) -> Outcome {
    if !k.vats.contains_key(vat) {
        Outcome { state: k, result: Err(KernelError::MissingVat) }
    } else {
        match known_promise(k.vats[vat], id) {
            Err(e) => Outcome { state: k, result: Err(e) },
            Ok(kpid) => if !k.promises.contains(kpid) {
                Outcome { state: k, result: Err(KernelError::Dangling) }
            } else {
                match k.promises.state(kpid).resolution() {
                    None => Outcome {
                        state: KernelState { promises: k.promises.subscribe_state(kpid, vat), ..k },
                        result: Ok(()),
                    },
                    Some(r) => Outcome {
                        state: KernelState {
                            queue: k.queue.push(
                                PendingDeliveryView::Notify {
                                    vat_id: vat,
                                    promise: kpid,
                                    resolution: r,
                                },
                            ),
                            ..k
                        },
                        result: Ok(()),
                    },
                }
            },
        }
    }
}

/// What `resolve` by `vat` does. Only the decider of an unresolved promise
/// may resolve it. The resolution is mapped, the promise takes its
/// resolved state, and every subscriber is notified.
pub open spec fn resolve_outcome(
    k: KernelState,
    vat: VatID,
    id: VatPromiseID,
    to: VatResolutionView,
) -> Outcome {
    if !k.vats.contains_key(vat) {
        Outcome { state: k, result: Err(KernelError::MissingVat) }
    } else {
        match known_promise(k.vats[vat], id) {
            Err(e) => Outcome { state: k, result: Err(e) },
            Ok(kpid) => if !k.promises.contains(kpid) {
                Outcome { state: k, result: Err(KernelError::Dangling) }
            } else if k.promises.state(kpid).decider() != Some(vat) {
                Outcome { state: k, result: Err(KernelError::Unauthorized) }
            } else {
                let after = k.with_outbound(outbound_resolution_state(k.outbound(vat), to));
                match outbound_resolution_result(k.outbound(vat), to) {
                    Err(e) => Outcome { state: after, result: Err(e) },
                    Ok(kr) => Outcome {
                        state: KernelState {
                            promises: after.promises.resolve_state(kpid, kr),
                            queue: resolution_queue(after.promises, after.queue, kpid, kr),
                            ..after
                        },
                        result: resolution_result(after.promises, kpid, kr),
                    },
                }
            },
        }
    }
}

pub struct SyscallHandler<'a> {
    pub for_vat: VatID,
    pub vat_data: &'a mut VatTable,
    pub objects: &'a mut ObjectTable,
    pub promises: &'a mut PromiseTable,
    pub run_queue: &'a mut RunQueue,
}

impl<'a> View for SyscallHandler<'a> {
    type V = KernelState;

    open spec fn view(&self) -> KernelState {
        KernelState {
            vats: self.vat_data@,
            objects: self.objects@,
            promises: self.promises@,
            queue: self.run_queue@,
        }
    }
}

impl<'a> SyscallHandler<'a> {
    pub open spec fn wf(&self) -> bool {
        self@.wf()
    }

    /// The vat on whose behalf the handler acts.
    pub open spec fn vat(&self) -> VatID {
        self.for_vat
    }

    pub fn new(
        for_vat: VatID,
        vat_data: &'a mut VatTable,
        objects: &'a mut ObjectTable,
        promises: &'a mut PromiseTable,
        run_queue: &'a mut RunQueue,
    ) -> (s: Self)
        ensures
            s.vat() == for_vat,
            s@ == (KernelState {
                vats: old(vat_data)@,
                objects: old(objects)@,
                promises: old(promises)@,
                queue: old(run_queue)@,
            }),
            *final(s.vat_data) == *final(vat_data),
            *final(s.objects) == *final(objects),
            *final(s.promises) == *final(promises),
            *final(s.run_queue) == *final(run_queue),
    {
        SyscallHandler { for_vat, vat_data, objects, promises, run_queue }
    }

    pub fn send(&mut self, target: VatCapSlot, msg: VatMessage) -> (r: Result<(), KernelError>)
        requires
            old(self).wf(),
        ensures
            final(self).wf(),
            final(self).vat() == old(self).vat(),
            *final(final(self).vat_data) == *final(old(self).vat_data),
            *final(final(self).objects) == *final(old(self).objects),
            *final(final(self).promises) == *final(old(self).promises),
            *final(final(self).run_queue) == *final(old(self).run_queue),
            r == send_outcome(old(self)@, old(self).vat(), target, msg@).result,
            final(self)@ == send_outcome(old(self)@, old(self).vat(), target, msg@).state,
    {
        let for_vat = self.for_vat;
        if !self.vat_data.contains(for_vat) {
            return Err(KernelError::MissingVat);
        }
        let ktarget = match get_outbound_slot(self.vat_data.get(for_vat), target) {
            Ok(k) => k,
            Err(e) => {
                return Err(e);
            },
        };
        if !can_deliver(ktarget, &*self.objects, &*self.promises) {
            return Err(KernelError::Dangling);
        }
        match delivery_type(ktarget, &*self.objects, &*self.promises) {
            DeliveryType::Send(decider_vatid) => {
                let mut vd = self.vat_data.take(for_vat).unwrap();
                let mapped = map_outbound_send(
                    &mut vd,
                    &mut *self.promises,
                    &mut *self.objects,
                    ktarget,
                    decider_vatid,
                    msg,
                );
                self.vat_data.put(vd);
                assert(self.vat_data@ =~= old(self).vat_data@.insert(for_vat, vd@));
                match mapped {
                    Ok(pd) => {
                        self.run_queue.add(pd);
                        Ok(())
                    },
                    Err(e) => Err(e),
                }
            },
            DeliveryType::Error(error) => {
                match msg.result {
                    None => Ok(()),
                    Some(rp) => {
                        let kpid = match get_outbound_promise(self.vat_data.get(for_vat), rp) {
                            Ok(k) => k,
                            Err(e) => {
                                return Err(e);
                            },
                        };
                        let kr = KernelResolution::Rejection(error);
                        send_resolution(&mut *self.promises, &mut *self.run_queue, kpid, kr)
                    },
                }
            },
        }
    }

    pub fn subscribe(&mut self, id: VatPromiseID) -> (r: Result<(), KernelError>)
        requires
            old(self).wf(),
        ensures
            final(self).wf(),
            final(self).vat() == old(self).vat(),
            *final(final(self).vat_data) == *final(old(self).vat_data),
            *final(final(self).objects) == *final(old(self).objects),
            *final(final(self).promises) == *final(old(self).promises),
            *final(final(self).run_queue) == *final(old(self).run_queue),
            r == subscribe_outcome(old(self)@, old(self).vat(), id).result,
            final(self)@ == subscribe_outcome(old(self)@, old(self).vat(), id).state,
    {
        let for_vat = self.for_vat;
        if !self.vat_data.contains(for_vat) {
            return Err(KernelError::MissingVat);
        }
        let kpid = match get_outbound_promise(self.vat_data.get(for_vat), id) {
            Ok(k) => k,
            Err(e) => {
                return Err(e);
            },
        };
        if !self.promises.contains(kpid) {
            return Err(KernelError::Dangling);
        }
        match self.promises.state_of(kpid).resolution() {
            None => {
                match self.promises.subscribe(kpid, for_vat) {
                    Ok(_) => Ok(()),
                    Err(e) => Err(promise_error(e)),
                }
            },
            Some(resolution) => {
                self.run_queue.add(
                    PendingDelivery::Notify { vat_id: for_vat, promise: kpid, resolution },
                );
                Ok(())
            },
        }
    }

    pub fn resolve(&mut self, id: VatPromiseID, to: VatResolution) -> (r: Result<(), KernelError>)
        requires
            old(self).wf(),
        ensures
            final(self).wf(),
            final(self).vat() == old(self).vat(),
            *final(final(self).vat_data) == *final(old(self).vat_data),
            *final(final(self).objects) == *final(old(self).objects),
            *final(final(self).promises) == *final(old(self).promises),
            *final(final(self).run_queue) == *final(old(self).run_queue),
            r == resolve_outcome(old(self)@, old(self).vat(), id, to@).result,
            final(self)@ == resolve_outcome(old(self)@, old(self).vat(), id, to@).state,
    {
        let for_vat = self.for_vat;
        if !self.vat_data.contains(for_vat) {
            return Err(KernelError::MissingVat);
        }
        let kpid = match get_outbound_promise(self.vat_data.get(for_vat), id) {
            Ok(k) => k,
            Err(e) => {
                return Err(e);
            },
        };
        if !self.promises.contains(kpid) {
            return Err(KernelError::Dangling);
        }
        match self.promises.decider_of(kpid) {
            Some(did) => {
                if did != for_vat {
                    return Err(KernelError::Unauthorized);
                }
            },
            None => {
                return Err(KernelError::Unauthorized);
            },
        }
        let mut vd = self.vat_data.take(for_vat).unwrap();
        let mapped = map_outbound_resolution(
            &mut vd,
            &mut *self.promises,
            &mut *self.objects,
            to,
        );
        self.vat_data.put(vd);
        assert(self.vat_data@ =~= old(self).vat_data@.insert(for_vat, vd@));
        match mapped {
            Ok(kr) => send_resolution(&mut *self.promises, &mut *self.run_queue, kpid, kr),
            Err(e) => Err(e),
        }
    }
}

} // verus!
