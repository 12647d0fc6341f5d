//! Kernel-side identifiers and the values the kernel queues.

use std::collections::VecDeque;
use vstd::prelude::*;

verus! {

/// The dense, stable number of a registered vat.
#[derive(PartialEq, Eq, Structural, PartialOrd, Ord, Debug, Hash, Copy, Clone)]
pub struct VatID(pub usize);

/// The kernel's handle for an exported object.
#[derive(PartialEq, Eq, Structural, PartialOrd, Ord, Debug, Hash, Copy, Clone)]
pub struct ObjectID(pub usize);

/// The kernel's handle for a promise.
#[derive(PartialEq, Eq, Structural, Debug, Hash, Copy, Clone)]
pub struct PromiseID(pub usize);

/// What the object table records of an object.
#[derive(PartialEq, Eq, Structural, Debug, Hash, Copy, Clone)]
pub struct Object {
    pub owner: VatID,
}

/// A capability as the kernel names it.
#[derive(PartialEq, Eq, Structural, Debug, Hash, Copy, Clone)]
pub enum CapSlot {
    Object(ObjectID),
    Promise(PromiseID),
}

/// Copies a vector of plain values.
pub fn copy_vec<T: Copy>(v: &Vec<T>) -> (r: Vec<T>)
    ensures
        r@ == v@,
{
    let mut out: Vec<T> = Vec::new();
    let mut i: usize = 0;
    while i < v.len()
        invariant
            i <= v.len(),
            out@ == v@.subrange(0, i as int),
        decreases v.len() - i,
    {
        out.push(v[i]);
        i += 1;
        assert(out@ =~= v@.subrange(0, i as int));
    }
    assert(v@.subrange(0, v.len() as int) =~= v@);
    out
}

/// Copies a slice of plain values into a vector.
pub fn copy_slice<T: Copy>(v: &[T]) -> (r: Vec<T>)
    ensures
        r@ == v@,
{
    let mut out: Vec<T> = Vec::new();
    let mut i: usize = 0;
    while i < v.len()
        invariant
            i <= v.len(),
            out@ == v@.subrange(0, i as int),
        decreases v.len() - i,
    {
        out.push(v[i]);
        i += 1;
        assert(out@ =~= v@.subrange(0, i as int));
    }
    assert(v@.subrange(0, v.len() as int) =~= v@);
    out
}

/// Capability-bearing data: message arguments, and what a promise resolves
/// or is rejected to. The body is opaque to the kernel.
#[derive(Debug, Eq, PartialEq, Clone)]
pub struct CapData {
    pub body: Vec<u8>,
    pub slots: Vec<CapSlot>,
}

pub struct CapDataView {
    pub body: Seq<u8>,
    pub slots: Seq<CapSlot>,
}

impl View for CapData {
    type V = CapDataView;

    open spec fn view(&self) -> CapDataView {
        CapDataView { body: self.body@, slots: self.slots@ }
    }
}

impl CapData {
    /// An equal value of its own.
    pub fn duplicate(&self) -> (r: CapData)
        ensures
            r@ == self@,
    {
        CapData { body: copy_vec(&self.body), slots: copy_vec(&self.slots) }
    }
}

/// A method invocation. The result promise, if any, is decided by the vat
/// that receives the message.
#[derive(Debug, PartialEq, Eq)]
pub struct Message {
    pub method: String,
    pub args: CapData,
    pub result: Option<PromiseID>,
}

pub struct MessageView {
    pub method: Seq<char>,
    pub args: CapDataView,
    pub result: Option<PromiseID>,
}

impl View for Message {
    type V = MessageView;

    open spec fn view(&self) -> MessageView {
        MessageView { method: self.method@, args: self.args@, result: self.result }
    }
}

/// What a promise was resolved to.
#[derive(Debug, PartialEq, Eq, Clone)]
pub enum Resolution {
    Reference(CapSlot),
    Data(CapData),
    Rejection(CapData),
}

pub enum ResolutionView {
    Reference(CapSlot),
    Data(CapDataView),
    Rejection(CapDataView),
}

impl View for Resolution {
    type V = ResolutionView;

    open spec fn view(&self) -> ResolutionView {
        match self {
            Resolution::Reference(s) => ResolutionView::Reference(*s),
            Resolution::Data(d) => ResolutionView::Data(d@),
            Resolution::Rejection(d) => ResolutionView::Rejection(d@),
        }
    }
}

impl Resolution {
    /// An equal value of its own.
    pub fn duplicate(&self) -> (r: Resolution)
        ensures
            r@ == self@,
    {
        match self {
            Resolution::Reference(s) => Resolution::Reference(*s),
            Resolution::Data(d) => Resolution::Data(d.duplicate()),
            Resolution::Rejection(d) => Resolution::Rejection(d.duplicate()),
        }
    }
}

/// One unit of queued work.
#[derive(Debug, PartialEq, Eq)]
pub enum PendingDelivery {
    Deliver { target: CapSlot, message: Message },
    Notify { vat_id: VatID, promise: PromiseID, resolution: Resolution },
}

pub enum PendingDeliveryView {
    Deliver { target: CapSlot, message: MessageView },
    Notify { vat_id: VatID, promise: PromiseID, resolution: ResolutionView },
}

impl View for PendingDelivery {
    type V = PendingDeliveryView;

    open spec fn view(&self) -> PendingDeliveryView {
        match self {
            PendingDelivery::Deliver { target, message } => PendingDeliveryView::Deliver {
                target: *target,
                message: message@,
            },
            PendingDelivery::Notify { vat_id, promise, resolution } => PendingDeliveryView::Notify {
                vat_id: *vat_id,
                promise: *promise,
                resolution: resolution@,
            },
        }
    }
}

/// The kernel's work queue: strictly first in, first out.
#[derive(Debug, Default)]
pub struct RunQueue(VecDeque<PendingDelivery>);

impl View for RunQueue {
    type V = Seq<PendingDeliveryView>;

    closed spec fn view(&self) -> Seq<PendingDeliveryView> {
        self.0@.map_values(|pd: PendingDelivery| pd@)
    }
}

impl RunQueue {
    pub fn new() -> (q: RunQueue)
        ensures
            q@ == Seq::<PendingDeliveryView>::empty(),
    {
        let q = RunQueue(VecDeque::new());
        assert(q@ =~= Seq::<PendingDeliveryView>::empty());
        q
    }

    /// Appends at the back.
    pub fn add(&mut self, pd: PendingDelivery)
        ensures
            final(self)@ == old(self)@.push(pd@),
    {
        self.0.push_back(pd);
        assert(self@ =~= old(self)@.push(pd@));
    }

    /// Takes the oldest entry, if there is one.
    pub fn pop(&mut self) -> (r: Option<PendingDelivery>)
        ensures
            match r {
                Some(pd) => old(self)@.len() > 0 && pd@ == old(self)@[0] && final(self)@ == old(
                    self,
                )@.subrange(1, old(self)@.len() as int),
                None => old(self)@.len() == 0 && final(self)@ == old(self)@,
            },
    {
        let r = self.0.pop_front();
        proof {
            if r.is_some() {
                assert(self@ =~= old(self)@.subrange(1, old(self)@.len() as int));
            }
        }
        r
    }

    pub fn len(&self) -> (n: usize)
        ensures
            n == self@.len(),
    {
        self.0.len()
    }
}

} // verus!
