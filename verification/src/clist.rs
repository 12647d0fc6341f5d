//! Capability lists.
//!
//! A c-list is a bijection between kernel identifiers and the identifiers one
//! vat uses for the same things. The vat-side identifier is a signed integer:
//! non-negative if the vat allocated it, negative if the kernel allocated it
//! on the vat's behalf. The kernel-side identifier is unsigned.

use std::collections::HashMap;
use vstd::prelude::*;

verus! {

broadcast use vstd::std_specs::hash::group_hash_axioms;

/// Why a c-list refused an operation.
#[derive(Debug, Clone, Copy, PartialEq, Eq, Structural)]
pub enum CListError {
    /// The kernel identifier is already paired.
    KernelPresent,
    /// The vat identifier is already paired.
    VatPresent,
    /// No negative vat identifier is left to hand out.
    Exhausted,
}

/// The mathematical content of a c-list.
pub struct CListView {
    pub inbound: Map<usize, isize>,
    pub outbound: Map<isize, usize>,
    pub next: int,
}

impl CListView {
    /// The two directions agree, and the next identifier to hand out is
    /// negative.
    pub open spec fn wf(self) -> bool {
        &&& self.next <= -1
        &&& self.next >= isize::MIN
        &&& forall|k: usize| #[trigger]
            self.inbound.contains_key(k) ==> self.outbound.contains_key(self.inbound[k])
                && self.outbound[self.inbound[k]] == k
        &&& forall|v: isize| #[trigger]
            self.outbound.contains_key(v) ==> self.inbound.contains_key(self.outbound[v])
                && self.inbound[self.outbound[v]] == v
    }

    pub open spec fn empty() -> CListView {
        CListView { inbound: Map::empty(), outbound: Map::empty(), next: -1 }
    }

    /// `(k, v)` is a pair of the list.
    pub open spec fn has_pair(self, k: usize, v: isize) -> bool {
        self.inbound.contains_key(k) && self.inbound[k] == v
    }

    pub open spec fn get_inbound(self, k: usize) -> Option<isize> {
        if self.inbound.contains_key(k) {
            Some(self.inbound[k])
        } else {
            None
        }
    }

    pub open spec fn get_outbound(self, v: isize) -> Option<usize> {
        if self.outbound.contains_key(v) {
            Some(self.outbound[v])
        } else {
            None
        }
    }

    /// The list with the pair `(k, v)` recorded.
    pub open spec fn with_pair(self, k: usize, v: isize) -> CListView {
        CListView {
            inbound: self.inbound.insert(k, v),
            outbound: self.outbound.insert(v, k),
            next: self.next,
        }
    }

    /// What `add` answers.
    pub open spec fn add_result(self, k: usize, v: isize) -> Result<(), CListError> {
        if self.inbound.contains_key(k) {
            Err(CListError::KernelPresent)
        } else if self.outbound.contains_key(v) {
            Err(CListError::VatPresent)
        } else {
            Ok(())
        }
    }

    /// The list after `add`.
    pub open spec fn add_state(self, k: usize, v: isize) -> CListView {
        if self.add_result(k, v).is_ok() {
            self.with_pair(k, v)
        } else {
            self
        }
    }

    /// The first vat identifier at or below `from` that is not paired, or
    /// the least identifier of all where there is none above it.
    pub open spec fn first_free(self, from: int) -> int
        decreases from - isize::MIN,
    {
        if from <= isize::MIN {
            isize::MIN as int
        } else if self.outbound.contains_key(from as isize) {
            self.first_free(from - 1)
        } else {
            from
        }
    }

    /// The negative identifier that the next unfamiliar kernel identifier
    /// gets: the next one in order that the vat's own registrations left
    /// free. The least identifier of all is never handed out.
    pub open spec fn fresh(self) -> int {
        self.first_free(self.next)
    }

    /// No registration has taken a negative identifier that is still to be
    /// handed out.
    pub open spec fn untouched(self) -> bool {
        forall|v: isize| #[trigger] self.outbound.contains_key(v) && v < 0 ==> v > self.next
    }

    /// What `map_inbound` answers: the known vat identifier, else a fresh
    /// negative one.
    pub open spec fn map_inbound_result(self, k: usize) -> Result<isize, CListError> {
        if self.inbound.contains_key(k) {
            Ok(self.inbound[k])
        } else if self.fresh() <= isize::MIN {
            Err(CListError::Exhausted)
        } else {
            Ok(self.fresh() as isize)
        }
    }

    /// The list after `map_inbound`.
    pub open spec fn map_inbound_state(self, k: usize) -> CListView {
        if !self.inbound.contains_key(k) && self.map_inbound_result(k).is_ok() {
            CListView {
                inbound: self.inbound.insert(k, self.fresh() as isize),
                outbound: self.outbound.insert(self.fresh() as isize, k),
                next: self.fresh() - 1,
            }
        } else {
            self
        }
    }
}

/// A bidirectional table between kernel identifiers and one vat's
/// identifiers.
#[derive(Debug)]
pub struct CList {
    inbound: HashMap<usize, isize>,
    outbound: HashMap<isize, usize>,
    next_vat_index: isize,
}

impl View for CList {
    type V = CListView;

    closed spec fn view(&self) -> CListView {
        CListView {
            inbound: self.inbound@,
            outbound: self.outbound@,
            next: self.next_vat_index as int,
        }
    }
}

impl CList {
    pub open spec fn wf(&self) -> bool {
        self@.wf()
    }

    pub fn new() -> (c: CList)
        ensures
            c.wf(),
            c@ == CListView::empty(),
    {
        CList { inbound: HashMap::new(), outbound: HashMap::new(), next_vat_index: -1 }
    }

    /// Looks a vat identifier up; never allocates.
    pub fn get_outbound(&self, vat_object: isize) -> (r: Option<usize>)
        ensures
            r == self@.get_outbound(vat_object),
    {
        match self.outbound.get(&vat_object) {
            Some(ko) => Some(*ko),
            None => None,
        }
    }

    /// Looks a kernel identifier up; never allocates.
    pub fn get_inbound(&self, kernel_object: usize) -> (r: Option<isize>)
        ensures
            r == self@.get_inbound(kernel_object),
    {
        match self.inbound.get(&kernel_object) {
            Some(vo) => Some(*vo),
            None => None,
        }
    }

    /// Records a pair. Refuses, and changes nothing, when either side is
    /// already paired.
    pub fn add(&mut self, kernel_object: usize, vat_object: isize) -> (r: Result<(), CListError>)
        requires
            old(self).wf(),
        ensures
            final(self).wf(),
            r == old(self)@.add_result(kernel_object, vat_object),
            final(self)@ == old(self)@.add_state(kernel_object, vat_object),
    {
        if self.inbound.get(&kernel_object).is_some() {
            return Err(CListError::KernelPresent);
        }
        if self.outbound.get(&vat_object).is_some() {
            return Err(CListError::VatPresent);
        }
        self.inbound.insert(kernel_object, vat_object);
        self.outbound.insert(vat_object, kernel_object);
        proof {
            lemma_with_pair_wf(old(self)@, kernel_object, vat_object);
        }
        Ok(())
    }

    /// Maps a kernel identifier on its way into the vat. A known one
    /// keeps its vat identifier. An unfamiliar one gets a fresh negative
    /// identifier: they are handed out from -1 downwards, passing over those
    /// that the vat's own registrations have taken.
    pub fn map_inbound(&mut self, kernel_object: usize) -> (r: Result<isize, CListError>)
        requires
            old(self).wf(),
        ensures
            final(self).wf(),
            r == old(self)@.map_inbound_result(kernel_object),
            final(self)@ == old(self)@.map_inbound_state(kernel_object),
    {
        match self.inbound.get(&kernel_object) {
            Some(vo) => Ok(*vo),
            None => {
                let mut vat_object: isize = self.next_vat_index;
                while vat_object > isize::MIN && self.outbound.get(&vat_object).is_some()
                    invariant
                        *self == *old(self),
                        isize::MIN <= vat_object <= self.next_vat_index,
                        self@.first_free(vat_object as int) == self@.fresh(),
                    decreases vat_object - isize::MIN,
                {
                    vat_object = vat_object - 1;
                }
                if vat_object == isize::MIN {
                    return Err(CListError::Exhausted);
                }
                self.next_vat_index = vat_object - 1;
                self.inbound.insert(kernel_object, vat_object);
                self.outbound.insert(vat_object, kernel_object);
                proof {
                    lemma_map_inbound_wf(old(self)@, kernel_object);
                }
                Ok(vat_object)
            },
        }
    }

    /// Maps a vat identifier on its way out of the vat. A known one
    /// keeps its kernel identifier and `allocate` is not called; otherwise
    /// `allocate` supplies the kernel identifier and the pair is recorded.
    pub fn map_outbound<A>(&mut self, vat_object: isize, allocate: A) -> (r: usize) where
        A: FnOnce() -> usize,

        requires
            old(self).wf(),
            !old(self)@.outbound.contains_key(vat_object) ==> call_requires(allocate, ()),
            !old(self)@.outbound.contains_key(vat_object) ==> forall|k: usize|
                call_ensures(allocate, (), k) ==> !old(self)@.inbound.contains_key(k),
        ensures
            final(self).wf(),
            match old(self)@.get_outbound(vat_object) {
                Some(k) => r == k && final(self)@ == old(self)@,
                None => call_ensures(allocate, (), r) && final(self)@ == old(self)@.with_pair(
                    r,
                    vat_object,
                ),
            },
    {
        match self.outbound.get(&vat_object) {
            Some(ko) => *ko,
            None => {
                let kernel_object: usize = allocate();
                self.inbound.insert(kernel_object, vat_object);
                self.outbound.insert(vat_object, kernel_object);
                proof {
                    lemma_with_pair_wf(old(self)@, kernel_object, vat_object);
                }
                kernel_object
            },
        }
    }
}

/// The identifier that `first_free` finds is not paired, unless it is the
/// least of all, and it is at or below where the search began.
pub proof fn lemma_first_free(c: CListView, from: int)
    requires
        isize::MIN <= from <= -1,
    ensures
        isize::MIN <= c.first_free(from) <= from,
        c.first_free(from) > isize::MIN ==> !c.outbound.contains_key(c.first_free(from) as isize),
        !c.outbound.contains_key(from as isize) && from > isize::MIN ==> c.first_free(from)
            == from,
    decreases from - isize::MIN,
{
    if from > isize::MIN && c.outbound.contains_key(from as isize) {
        lemma_first_free(c, from - 1);
    }
}

/// Inbound mapping keeps the list well formed.
pub proof fn lemma_map_inbound_wf(c: CListView, k: usize)
    requires
        c.wf(),
    ensures
        c.map_inbound_state(k).wf(),
{
    lemma_first_free(c, c.next);
    if !c.inbound.contains_key(k) && c.map_inbound_result(k).is_ok() {
        lemma_with_pair_wf(c, k, c.fresh() as isize);
    }
}

/// Recording a pair whose two sides are both new keeps the list well formed.
pub proof fn lemma_with_pair_wf(c: CListView, k: usize, v: isize)
    requires
        c.wf(),
        !c.inbound.contains_key(k),
        !c.outbound.contains_key(v),
    ensures
        c.with_pair(k, v).wf(),
{
    let d = c.with_pair(k, v);
    assert forall|k2: usize| #[trigger] d.inbound.contains_key(k2) implies d.outbound.contains_key(
        d.inbound[k2],
    ) && d.outbound[d.inbound[k2]] == k2 by {
        if k2 != k {
            assert(c.inbound.contains_key(k2));
        }
    }
    assert forall|v2: isize| #[trigger] d.outbound.contains_key(v2) implies d.inbound.contains_key(
        d.outbound[v2],
    ) && d.inbound[d.outbound[v2]] == v2 by {
        if v2 != v {
            assert(c.outbound.contains_key(v2));
        }
    }
}

} // verus!
