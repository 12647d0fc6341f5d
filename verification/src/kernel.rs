//! The kernel: registration of vats, injection of deliveries, and the
//! scheduler's single step.
//!
//! The kernel never runs vat code. A step takes the oldest queued delivery,
//! decides where it goes, maps it into the receiving vat's terms and
//! hands it back as a [`Turn`] for the host to dispatch. While the vat runs
//! its turn, it reaches the kernel through the handler that
//! [`Kernel::syscall`] lends out.

use crate::clist::CListView;
use crate::delivery::{DeliveryType, DeliveryTypeView, ascii_bytes, can_classify, can_deliver,
    classify, delivery_type, resolution_queue, resolution_result, send_resolution};
use crate::error::{KernelError, clist_error, from_clist_error};
use crate::kernel_types::{CapData, CapDataView, CapSlot, Message, MessageView, ObjectID,
    PendingDelivery, PendingDeliveryView, Resolution, ResolutionView, RunQueue, VatID,
    copy_slice};
use crate::map_inbound::{inbound_message_result, inbound_message_state, inbound_promise_result,
    inbound_promise_state, inbound_resolution_result, inbound_resolution_state,
    inbound_slot_result, inbound_slot_state, map_inbound_message, map_inbound_promise,
    map_inbound_resolution, map_inbound_target, target_of};
use crate::map_outbound::{map_outbound_object, outbound_object_result, outbound_object_table,
    outbound_object_vat};
use crate::object_table::ObjectTable;
use crate::promise::PromiseTable;
use crate::syscall::{KernelState, SyscallHandler};
use crate::vat::{InboundTarget, Message as VatMessage, MessageView as VatMessageView,
    ObjectID as VatObjectID, PromiseID as VatPromiseID, Resolution as VatResolution,
    ResolutionView as VatResolutionView};
use crate::vat_data::{VatData, VatDataView, VatTable};
use crate::vat_names::{VatNames, VatNamesView};
use std::collections::HashMap;
use vstd::prelude::*;
use vstd::string::StringSliceAdditionalSpecFns;

verus! {

broadcast use vstd::std_specs::hash::group_hash_axioms;

/// A delivery in the receiving vat's terms, ready to be dispatched.
#[derive(Debug, PartialEq, Eq)]
pub enum Turn {
    Deliver { vat_id: VatID, target: InboundTarget, message: VatMessage },
    Notify { vat_id: VatID, promise: VatPromiseID, resolution: VatResolution },
}

pub enum TurnView {
    Deliver { vat_id: VatID, target: InboundTarget, message: VatMessageView },
    Notify { vat_id: VatID, promise: VatPromiseID, resolution: VatResolutionView },
}

impl View for Turn {
    type V = TurnView;

    open spec fn view(&self) -> TurnView {
        match self {
            Turn::Deliver { vat_id, target, message } => TurnView::Deliver {
                vat_id: *vat_id,
                target: *target,
                message: message@,
            },
            Turn::Notify { vat_id, promise, resolution } => TurnView::Notify {
                vat_id: *vat_id,
                promise: *promise,
                resolution: resolution@,
            },
        }
    }
}

/// What one step of the scheduler came to.
#[derive(Debug, PartialEq, Eq)]
pub enum Step {
    /// The queue was empty: no work was done.
    Idle,
    /// A dead letter was taken off the queue; nothing is to be dispatched.
    DeadLetter,
    /// This turn is to be dispatched.
    Dispatch(Turn),
}

pub enum StepView {
    Idle,
    DeadLetter,
    Dispatch(TurnView),
}

impl View for Step {
    type V = StepView;

    open spec fn view(&self) -> StepView {
        match self {
            Step::Idle => StepView::Idle,
            Step::DeadLetter => StepView::DeadLetter,
            Step::Dispatch(t) => StepView::Dispatch(t@),
        }
    }
}

/// A state with what processing one delivery answered.
pub struct Processed {
    pub state: KernelState,
    pub result: Result<Option<TurnView>, KernelError>,
}

/// What processing the delivery `pd` does. A message whose target takes no
/// messages is not delivered: its result promise, if it has one, is rejected.
/// Anything else is mapped into the terms of the vat it goes to.
pub open spec fn process_outcome(k: KernelState, pd: PendingDeliveryView) -> Processed {
    match pd {
        PendingDeliveryView::Deliver { target, message } => {
            if !can_classify(k.objects, k.promises, target) {
                Processed { state: k, result: Err(KernelError::Dangling) }
            } else {
                match classify(k.objects, k.promises, target) {
                    DeliveryTypeView::Error(error) => match message.result {
                        None => Processed { state: k, result: Ok(None) },
                        Some(kpid) => {
                            let kr = ResolutionView::Rejection(error);
                            Processed {
                                state: KernelState {
                                    promises: k.promises.resolve_state(kpid, kr),
                                    queue: resolution_queue(k.promises, k.queue, kpid, kr),
                                    ..k
                                },
                                result: match resolution_result(k.promises, kpid, kr) {
                                    Ok(_) => Ok(None),
                                    Err(e) => Err(e),
                                },
                            }
                        },
                    },
                    DeliveryTypeView::Send(vat_id) => if !k.vats.contains_key(vat_id) {
                        Processed { state: k, result: Err(KernelError::MissingVat) }
                    } else {
                        let vd = k.vats[vat_id];
                        let vd1 = inbound_slot_state(vd, k.objects, k.promises, target);
                        match inbound_slot_result(vd, k.objects, k.promises, target) {
                            Err(e) => Processed {
                                state: KernelState { vats: k.vats.insert(vat_id, vd1), ..k },
                                result: Err(e),
                            },
                            Ok(vt) => {
                                let vd2 = inbound_message_state(
                                    vd1,
                                    k.objects,
                                    k.promises,
                                    message,
                                );
                                Processed {
                                    state: KernelState { vats: k.vats.insert(vat_id, vd2), ..k },
                                    result: match inbound_message_result(
                                        vd1,
                                        k.objects,
                                        k.promises,
                                        message,
                                    ) {
                                        Ok(vm) => Ok(
                                            Some(
                                                TurnView::Deliver {
                                                    vat_id,
                                                    target: target_of(vt),
                                                    message: vm,
                                                },
                                            ),
                                        ),
                                        Err(e) => Err(e),
                                    },
                                }
                            },
                        }
                    },
                }
            }
        },
        PendingDeliveryView::Notify { vat_id, promise, resolution } => {
            if !k.vats.contains_key(vat_id) {
                Processed { state: k, result: Err(KernelError::MissingVat) }
            } else {
                let vd = k.vats[vat_id];
                let vd1 = inbound_promise_state(vd, k.promises, promise);
                match inbound_promise_result(vd, k.promises, promise) {
                    Err(e) => Processed {
                        state: KernelState { vats: k.vats.insert(vat_id, vd1), ..k },
                        result: Err(e),
                    },
                    Ok(vpid) => {
                        let vd2 = inbound_resolution_state(vd1, k.objects, k.promises, resolution);
                        Processed {
                            state: KernelState { vats: k.vats.insert(vat_id, vd2), ..k },
                            result: match inbound_resolution_result(
                                vd1,
                                k.objects,
                                k.promises,
                                resolution,
                            ) {
                                Ok(vres) => Ok(
                                    Some(
                                        TurnView::Notify {
                                            vat_id,
                                            promise: vpid,
                                            resolution: vres,
                                        },
                                    ),
                                ),
                                Err(e) => Err(e),
                            },
                        }
                    },
                }
            }
        },
    }
}

/// What registering an export of `vat` answers.
pub open spec fn export_result(k: KernelState, vat: VatID, export_id: isize) -> Result<
    ObjectID,
    KernelError,
> {
    if !k.vats.contains_key(vat) {
        Err(KernelError::MissingVat)
    } else {
        outbound_object_result(k.vats[vat], k.objects, VatObjectID(export_id))
    }
}

/// The state after registering an export of `vat`.
pub open spec fn export_state(k: KernelState, vat: VatID, export_id: isize) -> KernelState {
    if !k.vats.contains_key(vat) {
        k
    } else {
        KernelState {
            vats: k.vats.insert(
                vat,
                outbound_object_vat(k.vats[vat], k.objects, VatObjectID(export_id)),
            ),
            objects: outbound_object_table(k.vats[vat], k.objects, VatObjectID(export_id)),
            ..k
        }
    }
}

/// What recording the import `import_id` of `vat` for the object `id`
/// answers.
pub open spec fn import_result(k: KernelState, id: ObjectID, vat: VatID, import_id: isize)
    -> Result<(), KernelError> {
    if !k.vats.contains_key(vat) {
        Err(KernelError::MissingVat)
    } else {
        match k.vats[vat].objects.add_result(id.0, import_id) {
            Ok(_) => Ok(()),
            Err(e) => Err(from_clist_error(e)),
        }
    }
}

/// The state after recording an import.
pub open spec fn import_state(k: KernelState, id: ObjectID, vat: VatID, import_id: isize)
    -> KernelState {
    if !k.vats.contains_key(vat) {
        k
    } else {
        KernelState {
            vats: k.vats.insert(
                vat,
                VatDataView {
                    objects: k.vats[vat].objects.add_state(id.0, import_id),
                    ..k.vats[vat]
                },
            ),
            ..k
        }
    }
}

/// The mathematical content of the kernel.
pub struct KernelView {
    pub names: VatNamesView,
    pub roots: Map<VatID, ObjectID>,
    pub state: KernelState,
}

impl KernelView {
    /// The tables are well formed, and every vat number that was handed out
    /// has a root object on record.
    pub open spec fn wf(self) -> bool {
        &&& self.state.wf()
        &&& self.names.wf()
        &&& forall|id: VatID| #[trigger] self.roots.contains_key(id) <==> id.0 < self.names.next
    }

    pub open spec fn empty() -> KernelView {
        KernelView {
            names: VatNamesView::empty(),
            roots: Map::empty(),
            state: KernelState {
                vats: Map::empty(),
                objects: crate::object_table::ObjectTableView::empty(),
                promises: crate::promise::PromiseTableView::empty(),
                queue: Seq::empty(),
            },
        }
    }

    /// What `add_vat` answers: the next vat number.
    pub open spec fn add_vat_result(self) -> Result<VatID, KernelError> {
        if self.names.is_full() || self.state.objects.is_full() {
            Err(KernelError::Exhausted)
        } else {
            Ok(VatID(self.names.next))
        }
    }

    /// The kernel after `add_vat`: the vat has empty c-lists but for its
    /// root object, which is new, owned by the vat, and bound to the vat's
    /// export 0.
    pub open spec fn add_vat_state(self, name: Seq<u8>) -> KernelView {
        if self.add_vat_result().is_ok() {
            let vid = VatID(self.names.next);
            let root = self.state.objects.fresh();
            KernelView {
                names: self.names.add(name),
                roots: self.roots.insert(vid, root),
                state: KernelState {
                    vats: self.state.vats.insert(
                        vid,
                        VatDataView {
                            id: vid,
                            objects: CListView::empty().with_pair(root.0, 0),
                            promises: CListView::empty(),
                        },
                    ),
                    objects: self.state.objects.allocate(vid),
                    ..self.state
                },
            }
        } else {
            self
        }
    }

    /// The root objects of all named vats, in the order of the names.
    pub open spec fn bootstrap_slots(self) -> Seq<CapSlot> {
        Seq::new(
            self.names.entries.len(),
            |i: int| CapSlot::Object(self.roots[self.names.entries[i].1]),
        )
    }

    /// The message that starts the system.
    pub open spec fn bootstrap_message(self) -> MessageView {
        MessageView {
            method: "bootstrap"@,
            args: CapDataView { body: ascii_bytes("body"@), slots: self.bootstrap_slots() },
            result: None,
        }
    }

    /// The kernel after `push_bootstrap`.
    pub open spec fn push_bootstrap_state(self, vat: VatID) -> KernelView {
        let exported = export_state(self.state, vat, 0);
        match export_result(self.state, vat, 0) {
            Ok(oid) => KernelView {
                state: KernelState {
                    queue: exported.queue.push(
                        PendingDeliveryView::Deliver {
                            target: CapSlot::Object(oid),
                            message: self.bootstrap_message(),
                        },
                    ),
                    ..exported
                },
                ..self
            },
            Err(_) => KernelView { state: exported, ..self },
        }
    }

    /// What `add_import_export_pair` answers: the kernel object of the
    /// export.
    pub open spec fn pair_result(
        self,
        from_vat: VatID,
        import_id: isize,
        to_vat: VatID,
        export_id: isize,
    ) -> Result<ObjectID, KernelError> {
        match export_result(self.state, to_vat, export_id) {
            Err(e) => Err(e),
            Ok(koid) => match import_result(
                export_state(self.state, to_vat, export_id),
                koid,
                from_vat,
                import_id,
            ) {
                Ok(_) => Ok(koid),
                Err(e) => Err(e),
            },
        }
    }

    /// The kernel after `add_import_export_pair`.
    pub open spec fn pair_state(
        self,
        from_vat: VatID,
        import_id: isize,
        to_vat: VatID,
        export_id: isize,
    ) -> KernelView {
        let exported = export_state(self.state, to_vat, export_id);
        match export_result(self.state, to_vat, export_id) {
            Err(_) => KernelView { state: exported, ..self },
            Ok(koid) => KernelView {
                state: import_state(exported, koid, from_vat, import_id),
                ..self
            },
        }
    }

    /// What `step` answers.
    pub open spec fn step_result(self) -> Result<StepView, KernelError> {
        if self.state.queue.len() == 0 {
            Ok(StepView::Idle)
        } else {
            match process_outcome(self.after_pop(), self.state.queue[0]).result {
                Ok(Some(t)) => Ok(StepView::Dispatch(t)),
                Ok(None) => Ok(StepView::DeadLetter),
                Err(e) => Err(e),
            }
        }
    }

    /// The state with the oldest delivery taken off the queue.
    pub open spec fn after_pop(self) -> KernelState {
        KernelState {
            queue: self.state.queue.subrange(1, self.state.queue.len() as int),
            ..self.state
        }
    }

    /// The kernel after `step`.
    pub open spec fn step_state(self) -> KernelView {
        if self.state.queue.len() == 0 {
            self
        } else {
            KernelView {
                state: process_outcome(self.after_pop(), self.state.queue[0]).state,
                ..self
            }
        }
    }
}

/// The answer with the turn replaced by its view.
pub open spec fn processed_view(r: Result<Option<Turn>, KernelError>) -> Result<
    Option<TurnView>,
    KernelError,
> {
    match r {
        Ok(Some(t)) => Ok(Some(t@)),
        Ok(None) => Ok(None),
        Err(e) => Err(e),
    }
}

/// The answer with the step replaced by its view.
pub open spec fn step_view(r: Result<Step, KernelError>) -> Result<StepView, KernelError> {
    match r {
        Ok(s) => Ok(s@),
        Err(e) => Err(e),
    }
}

pub struct Kernel {
    vat_names: VatNames,
    vat_data: VatTable,
    vat_roots: HashMap<usize, ObjectID>,
    objects: ObjectTable,
    promises: PromiseTable,
    run_queue: RunQueue,
}

impl View for Kernel {
    type V = KernelView;

    closed spec fn view(&self) -> KernelView {
        KernelView {
            names: self.vat_names@,
            roots: Map::new(
                |id: VatID| self.vat_roots@.contains_key(id.0),
                |id: VatID| self.vat_roots@[id.0],
            ),
            state: KernelState {
                vats: self.vat_data@,
                objects: self.objects@,
                promises: self.promises@,
                queue: self.run_queue@,
            },
        }
    }
}

impl Kernel {
    pub open spec fn wf(&self) -> bool {
        self@.wf()
    }

    pub fn new() -> (k: Kernel)
        ensures
            k.wf(),
            k@ == KernelView::empty(),
    {
        let k = Kernel {
            vat_names: VatNames::new(),
            vat_data: VatTable::new(),
            vat_roots: HashMap::new(),
            objects: ObjectTable::new(),
            promises: PromiseTable::new(),
            run_queue: RunQueue::new(),
        };
        assert(k@.roots =~= Map::empty());
        k
    }

    /// Registers a vat: it gets the next vat number, empty c-lists, and a
    /// root object of its own that is bound to its export 0.
    pub fn add_vat(&mut self, name: &str) -> (r: Result<VatID, KernelError>)
        requires
            old(self).wf(),
        ensures
            final(self).wf(),
            r == old(self)@.add_vat_result(),
            final(self)@ == old(self)@.add_vat_state(name.spec_bytes()),
    {
        if self.vat_names.is_full() || self.objects.is_full() {
            return Err(KernelError::Exhausted);
        }
        let vid = self.vat_names.add(name);
        let mut vd = VatData::new(vid);
        let koid = self.objects.allocate(vid);
        if let Err(e) = vd.object_clist.add(koid.0, 0) {
            return Err(clist_error(e));
        }
        self.vat_roots.insert(vid.0, koid);
        self.vat_data.put(vd);
        proof {
            let goal = old(self)@.add_vat_state(name.spec_bytes());
            assert(self@.roots =~= goal.roots);
            assert forall|id: VatID| #[trigger] self@.roots.contains_key(id) <==> id.0
                < self@.names.next by {
                if id != vid {
                    assert(old(self)@.roots.contains_key(id) <==> id.0 < old(self)@.names.next);
                }
            }
        }
        Ok(vid)
    }

    /// The root object of a vat, if the vat is registered.
    pub fn root_of(&self, vat: VatID) -> (r: Option<ObjectID>)
        ensures
            r == if self@.roots.contains_key(vat) {
                Some(self@.roots[vat])
            } else {
                None
            },
    {
        match self.vat_roots.get(&vat.0) {
            Some(o) => Some(*o),
            None => None,
        }
    }

    /// Makes sure that `to_vat` has a kernel object for its export
    /// `export_id`, and answers it.
    pub fn add_export(&mut self, to_vat: VatID, export_id: isize) -> (r: Result<
        ObjectID,
        KernelError,
    >)
        requires
            old(self).wf(),
            export_id >= 0,
        ensures
            final(self).wf(),
            r == export_result(old(self)@.state, to_vat, export_id),
            final(self)@ == (KernelView {
                state: export_state(old(self)@.state, to_vat, export_id),
                ..old(self)@
            }),
    {
        let mut vd = match self.vat_data.take(to_vat) {
            Some(vd) => vd,
            None => {
                return Err(KernelError::MissingVat);
            },
        };
        let r = map_outbound_object(&mut vd, &mut self.objects, VatObjectID(export_id));
        self.vat_data.put(vd);
        assert(self@.state.vats =~= export_state(old(self)@.state, to_vat, export_id).vats);
        r
    }

    /// Records `import_id` as `from_vat`'s name for the kernel object `id`.
    pub fn add_import(&mut self, id: ObjectID, from_vat: VatID, import_id: isize) -> (r: Result<
        (),
        KernelError,
    >)
        requires
            old(self).wf(),
            import_id < 0,
        ensures
            final(self).wf(),
            r == import_result(old(self)@.state, id, from_vat, import_id),
            final(self)@ == (KernelView {
                state: import_state(old(self)@.state, id, from_vat, import_id),
                ..old(self)@
            }),
    {
        let mut vd = match self.vat_data.take(from_vat) {
            Some(vd) => vd,
            None => {
                return Err(KernelError::MissingVat);
            },
        };
        let added = vd.object_clist.add(id.0, import_id);
        self.vat_data.put(vd);
        assert(self@.state.vats =~= import_state(old(self)@.state, id, from_vat, import_id).vats);
        match added {
            Ok(_) => Ok(()),
            Err(e) => Err(clist_error(e)),
        }
    }

    /// Wires two vats together: `to_vat`'s export gets its kernel object,
    /// and `from_vat` gets `import_id` as its name for that object.
    pub fn add_import_export_pair(
        &mut self,
        from_vat: VatID,
        import_id: isize,
        to_vat: VatID,
        export_id: isize,
    ) -> (r: Result<ObjectID, KernelError>)
        requires
            old(self).wf(),
            import_id < 0,
            export_id > 0,
        ensures
            final(self).wf(),
            r == old(self)@.pair_result(from_vat, import_id, to_vat, export_id),
            final(self)@ == old(self)@.pair_state(from_vat, import_id, to_vat, export_id),
    {
        let koid = match self.add_export(to_vat, export_id) {
            Ok(k) => k,
            Err(e) => {
                return Err(e);
            },
        };
        match self.add_import(koid, from_vat, import_id) {
            Ok(_) => Ok(koid),
            Err(e) => Err(e),
        }
    }

    /// Queues the delivery that starts the system: the method `bootstrap`
    /// on the root of `bootstrap_vat_id`, with the root objects of all named
    /// vats as its slots, in the order of the vats' names, and no result.
    pub fn push_bootstrap(&mut self, bootstrap_vat_id: VatID) -> (r: Result<(), KernelError>)
        requires
            old(self).wf(),
        ensures
            final(self).wf(),
            r == match export_result(old(self)@.state, bootstrap_vat_id, 0) {
                Ok(_) => Ok::<(), KernelError>(()),
                Err(e) => Err(e),
            },
            final(self)@ == old(self)@.push_bootstrap_state(bootstrap_vat_id),
    {
        let oid = match self.add_export(bootstrap_vat_id, 0) {
            Ok(k) => k,
            Err(e) => {
                return Err(e);
            },
        };
        let mut slots: Vec<CapSlot> = Vec::new();
        let mut i: usize = 0;
        while i < self.vat_names.len()
            invariant
                i <= self.vat_names@.entries.len(),
                self.wf(),
                self@.names == old(self)@.names,
                self@.roots == old(self)@.roots,
                self@.state == export_state(old(self)@.state, bootstrap_vat_id, 0),
                slots@ == old(self)@.bootstrap_slots().subrange(0, i as int),
            decreases self.vat_names@.entries.len() - i,
        {
            let vat_id = self.vat_names.vat_at(i);
            assert(self@.names.entries[i as int].1.0 < self@.names.next);
            assert(self@.roots.contains_key(vat_id));
            let root = *self.vat_roots.get(&vat_id.0).unwrap();
            slots.push(CapSlot::Object(root));
            i += 1;
            assert(slots@ =~= old(self)@.bootstrap_slots().subrange(0, i as int));
        }
        assert(slots@ =~= old(self)@.bootstrap_slots());
        let body_text = "body";
        proof {
            reveal_strlit("body");
            vstd::string::is_ascii_spec_bytes(body_text);
        }
        let pd = PendingDelivery::Deliver {
            target: CapSlot::Object(oid),
            message: Message {
                method: "bootstrap".to_owned(),
                args: CapData { body: copy_slice(body_text.as_bytes()), slots },
                result: None,
            },
        };
        self.run_queue.add(pd);
        Ok(())
    }

    /// Queues a delivery from outside: `method` on the object `id`, without
    /// a result promise.
    pub fn push_deliver(&mut self, id: ObjectID, method: &str, body: Vec<u8>, slots: &[CapSlot])
        requires
            old(self).wf(),
        ensures
            final(self).wf(),
            final(self)@ == (KernelView {
                state: KernelState {
                    queue: old(self)@.state.queue.push(
                        PendingDeliveryView::Deliver {
                            target: CapSlot::Object(id),
                            message: MessageView {
                                method: method@,
                                args: CapDataView { body: body@, slots: slots@ },
                                result: None,
                            },
                        },
                    ),
                    ..old(self)@.state
                },
                ..old(self)@
            }),
    {
        let pd = PendingDelivery::Deliver {
            target: CapSlot::Object(id),
            message: Message {
                method: method.to_owned(),
                args: CapData { body, slots: copy_slice(slots) },
                result: None,
            },
        };
        self.run_queue.add(pd);
    }

    /// Decides where the delivery `pd` goes and maps it for the vat
    /// that receives it. `None` stands for a dead letter.
    pub fn process(&mut self, pd: PendingDelivery) -> (r: Result<Option<Turn>, KernelError>)
        requires
            old(self).wf(),
        ensures
            final(self).wf(),
            processed_view(r) == process_outcome(old(self)@.state, pd@).result,
            final(self)@ == (KernelView {
                state: process_outcome(old(self)@.state, pd@).state,
                ..old(self)@
            }),
    {
        match pd {
            PendingDelivery::Deliver { target, message } => {
                if !can_deliver(target, &self.objects, &self.promises) {
                    return Err(KernelError::Dangling);
                }
                let vat_id = match delivery_type(target, &self.objects, &self.promises) {
                    DeliveryType::Send(vid) => vid,
                    DeliveryType::Error(error) => {
                        return match message.result {
                            None => Ok(None),
                            Some(kpid) => {
                                let kr = Resolution::Rejection(error);
                                match send_resolution(
                                    &mut self.promises,
                                    &mut self.run_queue,
                                    kpid,
                                    kr,
                                ) {
                                    Ok(_) => Ok(None),
                                    Err(e) => Err(e),
                                }
                            },
                        };
                    },
                };
                let mut vd = match self.vat_data.take(vat_id) {
                    Some(vd) => vd,
                    None => {
                        return Err(KernelError::MissingVat);
                    },
                };
                let vt = match map_inbound_target(&mut vd, &self.objects, &self.promises, target) {
                    Ok(vt) => vt,
                    Err(e) => {
                        self.vat_data.put(vd);
                        assert(self@.state.vats =~= process_outcome(
                            old(self)@.state,
                            pd@,
                        ).state.vats);
                        return Err(e);
                    },
                };
                let mapped = map_inbound_message(&mut vd, &self.objects, &self.promises, message);
                self.vat_data.put(vd);
                assert(self@.state.vats =~= process_outcome(old(self)@.state, pd@).state.vats);
                match mapped {
                    Ok(vmsg) => Ok(Some(Turn::Deliver { vat_id, target: vt, message: vmsg })),
                    Err(e) => Err(e),
                }
            },
            PendingDelivery::Notify { vat_id, promise, resolution } => {
                let mut vd = match self.vat_data.take(vat_id) {
                    Some(vd) => vd,
                    None => {
                        return Err(KernelError::MissingVat);
                    },
                };
                let vpid = match map_inbound_promise(&mut vd, &self.promises, promise) {
                    Ok(v) => v,
                    Err(e) => {
                        self.vat_data.put(vd);
                        assert(self@.state.vats =~= process_outcome(
                            old(self)@.state,
                            pd@,
                        ).state.vats);
                        return Err(e);
                    },
                };
                let mapped = map_inbound_resolution(
                    &mut vd,
                    &self.objects,
                    &self.promises,
                    resolution,
                );
                self.vat_data.put(vd);
                assert(self@.state.vats =~= process_outcome(old(self)@.state, pd@).state.vats);
                match mapped {
                    Ok(vres) => Ok(Some(Turn::Notify { vat_id, promise: vpid, resolution: vres })),
                    Err(e) => Err(e),
                }
            },
        }
    }

    /// Takes the oldest delivery off the queue.
    pub fn get_next(&mut self) -> (r: Option<PendingDelivery>)
        requires
            old(self).wf(),
        ensures
            final(self).wf(),
            match r {
                Some(pd) => old(self)@.state.queue.len() > 0 && pd@ == old(self)@.state.queue[0]
                    && final(self)@ == (KernelView {
                    state: old(self)@.after_pop(),
                    ..old(self)@
                }),
                None => old(self)@.state.queue.len() == 0 && final(self)@ == old(self)@,
            },
    {
        self.run_queue.pop()
    }

    /// Runs the scheduler for at most one delivery: the oldest.
    pub fn step(&mut self) -> (r: Result<Step, KernelError>)
        requires
            old(self).wf(),
        ensures
            final(self).wf(),
            step_view(r) == old(self)@.step_result(),
            final(self)@ == old(self)@.step_state(),
    {
        match self.get_next() {
            None => Ok(Step::Idle),
            Some(pd) => match self.process(pd) {
                Ok(Some(turn)) => Ok(Step::Dispatch(turn)),
                Ok(None) => Ok(Step::DeadLetter),
                Err(e) => Err(e),
            },
        }
    }

    /// Lends out the handler through which `for_vat` reaches the kernel
    /// during its turn. What the handler leaves behind is the kernel's state
    /// afterwards; the names and roots stay as they are.
    pub fn syscall(&mut self, for_vat: VatID) -> (h: SyscallHandler<'_>)
        requires
            old(self).wf(),
        ensures
            h.wf(),
            h.vat() == for_vat,
            h@ == old(self)@.state,
            final(self)@.names == old(self)@.names,
            final(self)@.roots == old(self)@.roots,
            final(self)@.state == (KernelState {
                vats: final(h.vat_data)@,
                objects: final(h.objects)@,
                promises: final(h.promises)@,
                queue: final(h.run_queue)@,
            }),
    {
        SyscallHandler::new(
            for_vat,
            &mut self.vat_data,
            &mut self.objects,
            &mut self.promises,
            &mut self.run_queue,
        )
    }

    pub fn objects(&self) -> (t: &ObjectTable)
        ensures
            t@ == self@.state.objects,
    {
        &self.objects
    }

    pub fn promises(&self) -> (t: &PromiseTable)
        ensures
            t@ == self@.state.promises,
    {
        &self.promises
    }

    pub fn vat_data(&self) -> (t: &VatTable)
        ensures
            t@ == self@.state.vats,
    {
        &self.vat_data
    }

    pub fn run_queue(&self) -> (q: &RunQueue)
        ensures
            q@ == self@.state.queue,
    {
        &self.run_queue
    }
}

} // verus!
