//! What the kernel keeps for each vat: its number and its two c-lists.

use crate::clist::{CList, CListView};
use crate::kernel_types::VatID;
use std::collections::HashMap;
use vstd::prelude::*;

verus! {

broadcast use vstd::std_specs::hash::group_hash_axioms;

/// The mathematical content of a vat's kernel-side data.
pub struct VatDataView {
    pub id: VatID,
    pub objects: CListView,
    pub promises: CListView,
}

impl VatDataView {
    pub open spec fn wf(self) -> bool {
        self.objects.wf() && self.promises.wf()
    }

    pub open spec fn empty(id: VatID) -> VatDataView {
        VatDataView { id, objects: CListView::empty(), promises: CListView::empty() }
    }
}

#[derive(Debug)]
pub struct VatData {
    pub id: VatID,
    pub object_clist: CList,
    pub promise_clist: CList,
}

impl View for VatData {
    type V = VatDataView;

    open spec fn view(&self) -> VatDataView {
        VatDataView { id: self.id, objects: self.object_clist@, promises: self.promise_clist@ }
    }
}

impl VatData {
    pub open spec fn wf(&self) -> bool {
        self@.wf()
    }

    pub fn new(id: VatID) -> (vd: VatData)
        ensures
            vd.wf(),
            vd@ == VatDataView::empty(id),
    {
        VatData { id, object_clist: CList::new(), promise_clist: CList::new() }
    }
}

/// Every vat's data is well formed and filed under the vat's own number.
pub open spec fn vats_wf(vats: Map<VatID, VatDataView>) -> bool {
    forall|id: VatID| #[trigger] vats.contains_key(id) ==> vats[id].wf() && vats[id].id == id
}

/// The kernel's data for all vats, by vat number.
pub struct VatTable {
    vats: HashMap<usize, VatData>,
}

impl View for VatTable {
    type V = Map<VatID, VatDataView>;

    closed spec fn view(&self) -> Map<VatID, VatDataView> {
        Map::new(|id: VatID| self.vats@.contains_key(id.0), |id: VatID| self.vats@[id.0]@)
    }
}

impl VatTable {
    pub open spec fn wf(&self) -> bool {
        vats_wf(self@)
    }

    pub fn new() -> (t: VatTable)
        ensures
            t.wf(),
            t@ == Map::<VatID, VatDataView>::empty(),
    {
        let t = VatTable { vats: HashMap::new() };
        assert(t@ =~= Map::<VatID, VatDataView>::empty());
        t
    }

    pub fn contains(&self, id: VatID) -> (r: bool)
        ensures
            r == self@.contains_key(id),
    {
        self.vats.contains_key(&id.0)
    }

    /// The data of a registered vat.
    pub fn get(&self, id: VatID) -> (vd: &VatData)
        requires
            self@.contains_key(id),
        ensures
            vd@ == self@[id],
    {
        self.vats.get(&id.0).unwrap()
    }

    /// Takes a vat's data out of the table, to be put back after use.
    pub fn take(&mut self, id: VatID) -> (r: Option<VatData>)
        requires
            old(self).wf(),
        ensures
            final(self).wf(),
            match r {
                Some(vd) => old(self)@.contains_key(id) && vd@ == old(self)@[id] && vd.wf()
                    && vd.id == id && final(self)@ == old(self)@.remove(id),
                None => !old(self)@.contains_key(id) && final(self)@ == old(self)@,
            },
    {
        let r = self.vats.remove(&id.0);
        proof {
            if r.is_some() {
                assert(old(self)@.contains_key(id));
                assert(self@ =~= old(self)@.remove(id));
            } else {
                assert(self@ =~= old(self)@);
            }
            assert forall|x: VatID| #[trigger] self@.contains_key(x) implies self@[x].wf()
                && self@[x].id == x by {
                assert(old(self)@.contains_key(x));
            }
        }
        r
    }

    /// Files a vat's data under the vat's number.
    pub fn put(&mut self, vd: VatData)
        requires
            old(self).wf(),
            vd.wf(),
        ensures
            final(self).wf(),
            final(self)@ == old(self)@.insert(vd.id, vd@),
    {
        let ghost key = vd.id;
        let ghost value = vd@;
        self.vats.insert(vd.id.0, vd);
        proof {
            assert(self@ =~= old(self)@.insert(key, value));
            assert forall|x: VatID| #[trigger] self@.contains_key(x) implies self@[x].wf()
                && self@[x].id == x by {
                if x != key {
                    assert(old(self)@.contains_key(x));
                }
            }
        }
    }
}

} // verus!
