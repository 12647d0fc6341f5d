//! Everything that comes into contact with vat code: the values that cross
//! the boundary between a vat and the kernel, as the vat names them.
//!
//! A vat-side identifier is a signed integer. A non-negative one was
//! allocated by the vat itself; a negative one was allocated by the kernel
//! when the reference first entered the vat.

use crate::kernel_types::copy_slice;
use vstd::prelude::*;

verus! {

/// A vat's name for a promise.
#[derive(PartialEq, Eq, Structural, Debug, Hash, Copy, Clone)]
pub struct PromiseID(pub isize);

/// A vat's name for an object: an export of its own, or an import.
#[derive(PartialEq, Eq, Structural, Debug, Hash, Copy, Clone)]
pub struct ObjectID(pub isize);

/// A capability as a vat names it.
#[derive(PartialEq, Eq, Structural, Debug, Hash, Copy, Clone)]
pub enum CapSlot {
    Promise(PromiseID),
    Object(ObjectID),
}

/// Capability-bearing data in a vat's terms.
#[derive(Debug, Eq, PartialEq, Clone)]
pub struct CapData {
    pub body: Vec<u8>,
    pub slots: Vec<CapSlot>,
}

pub struct CapDataView {
    pub body: Seq<u8>,
    pub slots: Seq<CapSlot>,
}

impl View for CapData {
    type V = CapDataView;

    open spec fn view(&self) -> CapDataView {
        CapDataView { body: self.body@, slots: self.slots@ }
    }
}

impl CapData {
    pub fn new(body: &[u8], slots: &[CapSlot]) -> (r: CapData)
        ensures
            r@.body == body@,
            r@.slots == slots@,
    {
        CapData { body: copy_slice(body), slots: copy_slice(slots) }
    }
}

/// A method invocation in a vat's terms.
#[derive(Debug, PartialEq, Eq)]
pub struct Message {
    pub method: String,
    pub args: CapData,
    pub result: Option<PromiseID>,
}

pub struct MessageView {
    pub method: Seq<char>,
    pub args: CapDataView,
    pub result: Option<PromiseID>,
}

impl View for Message {
    type V = MessageView;

    open spec fn view(&self) -> MessageView {
        MessageView { method: self.method@, args: self.args@, result: self.result }
    }
}

impl Message {
    pub fn new(method: &str, body: &[u8], slots: &[CapSlot], result: Option<PromiseID>) -> (m:
        Message)
        ensures
            m@.method == method@,
            m@.args.body == body@,
            m@.args.slots == slots@,
            m@.result == result,
    {
        Message { method: method.to_owned(), args: CapData::new(body, slots), result }
    }
}

/// What a promise was resolved to, in a vat's terms.
#[derive(Debug, PartialEq, Eq)]
pub enum Resolution {
    Reference(CapSlot),
    Data(CapData),
    Rejection(CapData),
}

pub enum ResolutionView {
    Reference(CapSlot),
    Data(CapDataView),
    Rejection(CapDataView),
}

impl View for Resolution {
    type V = ResolutionView;

    open spec fn view(&self) -> ResolutionView {
        match self {
            Resolution::Reference(s) => ResolutionView::Reference(*s),
            Resolution::Data(d) => ResolutionView::Data(d@),
            Resolution::Rejection(d) => ResolutionView::Rejection(d@),
        }
    }
}

/// What a delivery is addressed to, in the receiving vat's terms.
#[derive(PartialEq, Eq, Structural, Debug, Copy, Clone)]
pub enum InboundTarget {
    Promise(PromiseID),
    Object(ObjectID),
}

} // verus!
