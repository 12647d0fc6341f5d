//! The registry of exported objects. Each object is owned by exactly one
//! vat; identifiers are handed out in increasing order and never reused.

use crate::kernel_types::{Object, ObjectID, VatID};
use std::collections::HashMap;
use vstd::prelude::*;

verus! {

broadcast use vstd::std_specs::hash::group_hash_axioms;

/// The mathematical content of the object table.
pub struct ObjectTableView {
    pub owners: Map<ObjectID, VatID>,
    pub next: usize,
}

impl ObjectTableView {
    /// The live identifiers are exactly those below the next one.
    pub open spec fn wf(self) -> bool {
        forall|id: ObjectID| #[trigger] self.owners.contains_key(id) <==> id.0 < self.next
    }

    pub open spec fn empty() -> ObjectTableView {
        ObjectTableView { owners: Map::empty(), next: 0 }
    }

    pub open spec fn contains(self, id: ObjectID) -> bool {
        self.owners.contains_key(id)
    }

    /// The identifier that the next allocation hands out.
    pub open spec fn fresh(self) -> ObjectID {
        ObjectID(self.next)
    }

    pub open spec fn is_full(self) -> bool {
        self.next == usize::MAX
    }

    /// The table after an allocation for `owner`.
    pub open spec fn allocate(self, owner: VatID) -> ObjectTableView {
        ObjectTableView {
            owners: self.owners.insert(self.fresh(), owner),
            next: (self.next + 1) as usize,
        }
    }
}

pub struct ObjectTable {
    objects: HashMap<usize, Object>,
    next_object_id: usize,
}

impl View for ObjectTable {
    type V = ObjectTableView;

    closed spec fn view(&self) -> ObjectTableView {
        ObjectTableView {
            owners: Map::new(
                |id: ObjectID| self.objects@.contains_key(id.0),
                |id: ObjectID| self.objects@[id.0].owner,
            ),
            next: self.next_object_id,
        }
    }
}

impl ObjectTable {
    pub open spec fn wf(&self) -> bool {
        self@.wf()
    }

    pub fn new() -> (t: ObjectTable)
        ensures
            t.wf(),
            t@ == ObjectTableView::empty(),
    {
        let t = ObjectTable { objects: HashMap::new(), next_object_id: 0 };
        assert(t@.owners =~= Map::empty());
        t
    }

    /// No identifier is left to hand out.
    pub fn is_full(&self) -> (r: bool)
        ensures
            r == self@.is_full(),
    {
        self.next_object_id == usize::MAX
    }

    /// The identifier that the next allocation will hand out.
    pub fn next_id(&self) -> (id: ObjectID)
        ensures
            id == self@.fresh(),
    {
        ObjectID(self.next_object_id)
    }

    /// Hands out a fresh identifier for an object owned by `owner`.
    pub fn allocate(&mut self, owner: VatID) -> (id: ObjectID)
        requires
            old(self).wf(),
            !old(self)@.is_full(),
        ensures
            final(self).wf(),
            id == old(self)@.fresh(),
            final(self)@ == old(self)@.allocate(owner),
    {
        let id = ObjectID(self.next_object_id);
        self.next_object_id += 1;
        let o = Object { owner };
        self.objects.insert(id.0, o);
        assert(self@.owners =~= old(self)@.allocate(owner).owners);
        assert forall|x: ObjectID| #[trigger] self@.owners.contains_key(x) <==> x.0
            < self@.next by {
            if x != id {
                assert(old(self)@.owners.contains_key(x) <==> x.0 < old(self)@.next);
            }
        }
        id
    }

    pub fn contains(&self, id: ObjectID) -> (r: bool)
        ensures
            r == self@.contains(id),
    {
        self.objects.contains_key(&id.0)
    }

    /// The owner of a live object.
    pub fn owner_of(&self, id: ObjectID) -> (owner: VatID)
        requires
            self@.contains(id),
        ensures
            owner == self@.owners[id],
    {
        self.objects.get(&id.0).unwrap().owner
    }
}

} // verus!
