//! The registry of promises and the promise state machine.
//!
//! A promise starts unresolved, with one decider and a set of subscribers.
//! It is resolved at most once; the resolved states are terminal and carry
//! no subscribers.

use crate::kernel_types::{CapData, CapDataView, CapSlot, ObjectID, PromiseID, Resolution,
    ResolutionView, VatID, copy_vec};
use std::collections::HashMap;
use vstd::prelude::*;

verus! {

broadcast use vstd::std_specs::hash::group_hash_axioms;

/// Why the promise table refused an operation.
#[derive(Debug, Clone, Copy, PartialEq, Eq, Structural)]
pub enum PromiseError {
    /// No promise has this identifier.
    Unknown,
    /// The promise is already resolved.
    Resolved,
    /// A promise cannot be fulfilled to another promise.
    ReferenceToPromise,
}

/// Strictly increasing by vat number.
pub open spec fn strictly_sorted(s: Seq<VatID>) -> bool {
    forall|i: int, j: int| 0 <= i < j < s.len() ==> s[i].0 < s[j].0
}

/// `s` with `v` put in its place; `s` itself where `v` is already there.
pub open spec fn sorted_insert(s: Seq<VatID>, v: VatID) -> Seq<VatID>
    decreases s.len(),
{
    if s.len() == 0 {
        seq![v]
    } else if v.0 < s[0].0 {
        seq![v] + s
    } else if v.0 == s[0].0 {
        s
    } else {
        seq![s[0]] + sorted_insert(s.drop_first(), v)
    }
}

/// Inserting keeps the order and adds exactly `v` to the members.
pub proof fn lemma_sorted_insert(s: Seq<VatID>, v: VatID)
    requires
        strictly_sorted(s),
    ensures
        strictly_sorted(sorted_insert(s, v)),
        sorted_insert(s, v).to_set() == s.to_set().insert(v),
        sorted_insert(s, v).len() == if s.contains(v) {
            s.len()
        } else {
            s.len() + 1
        },
    decreases s.len(),
{
    let r = sorted_insert(s, v);
    if s.len() == 0 {
        assert(r.to_set() =~= s.to_set().insert(v)) by {
            assert forall|x: VatID| r.to_set().contains(x) <==> s.to_set().insert(v).contains(
                x,
            ) by {
                if r.contains(x) {
                    let i = choose|i: int| 0 <= i < r.len() && r[i] == x;
                    assert(x == v);
                }
                if x == v {
                    assert(r[0] == v);
                }
                if s.contains(x) {
                    let i = choose|i: int| 0 <= i < s.len() && s[i] == x;
                }
            }
        }
        assert(!s.contains(v)) by {
            if s.contains(v) {
                let i = choose|i: int| 0 <= i < s.len() && s[i] == v;
            }
        }
    } else if v.0 < s[0].0 {
        assert forall|i: int, j: int| 0 <= i < j < r.len() implies r[i].0 < r[j].0 by {
            if i == 0 {
                assert(r[j] == s[j - 1]);
                if j - 1 > 0 {
                    assert(s[0].0 < s[j - 1].0);
                }
            } else {
                assert(r[i] == s[i - 1]);
                assert(r[j] == s[j - 1]);
            }
        }
        assert(r.to_set() =~= s.to_set().insert(v)) by {
            assert forall|x: VatID| r.to_set().contains(x) <==> s.to_set().insert(v).contains(
                x,
            ) by {
                if r.contains(x) {
                    let i = choose|i: int| 0 <= i < r.len() && r[i] == x;
                    if i > 0 {
                        assert(s[i - 1] == x);
                    }
                }
                if x == v {
                    assert(r[0] == v);
                }
                if s.contains(x) {
                    let i = choose|i: int| 0 <= i < s.len() && s[i] == x;
                    assert(r[i + 1] == x);
                }
            }
        }
        assert(!s.contains(v)) by {
            if s.contains(v) {
                let i = choose|i: int| 0 <= i < s.len() && s[i] == v;
                if i > 0 {
                    assert(s[0].0 < s[i].0);
                }
            }
        }
    } else if v.0 == s[0].0 {
        assert(s[0] == v);
        assert(s.contains(v));
        assert(r.to_set() =~= s.to_set().insert(v));
    } else {
        let t = s.drop_first();
        assert forall|i: int, j: int| 0 <= i < j < t.len() implies t[i].0 < t[j].0 by {
            assert(t[i] == s[i + 1]);
            assert(t[j] == s[j + 1]);
        }
        lemma_sorted_insert(t, v);
        let u = sorted_insert(t, v);
        assert(r == seq![s[0]] + u);
        assert forall|x: VatID| u.contains(x) implies s[0].0 < x.0 by {
            assert(u.to_set().contains(x));
            assert(t.to_set().insert(v).contains(x));
            if x != v {
                assert(t.contains(x));
                let i = choose|i: int| 0 <= i < t.len() && t[i] == x;
                assert(s[i + 1] == x);
                assert(s[0].0 < s[i + 1].0);
            }
        }
        assert forall|i: int, j: int| 0 <= i < j < r.len() implies r[i].0 < r[j].0 by {
            assert(r[j] == u[j - 1]);
            if i == 0 {
                assert(u.contains(u[j - 1]));
            } else {
                assert(r[i] == u[i - 1]);
            }
        }
        assert(r.to_set() =~= s.to_set().insert(v)) by {
            assert forall|x: VatID| r.to_set().contains(x) <==> s.to_set().insert(v).contains(
                x,
            ) by {
                if r.contains(x) {
                    let i = choose|i: int| 0 <= i < r.len() && r[i] == x;
                    if i > 0 {
                        assert(u[i - 1] == x);
                        assert(u.contains(x));
                        assert(u.to_set().contains(x));
                        if x != v {
                            assert(t.contains(x));
                            let k = choose|k: int| 0 <= k < t.len() && t[k] == x;
                            assert(s[k + 1] == x);
                        }
                    } else {
                        assert(s[0] == x);
                    }
                }
                if x == v {
                    assert(t.to_set().insert(v).contains(v));
                    assert(u.to_set().contains(v));
                    assert(u.contains(v));
                    let k = choose|k: int| 0 <= k < u.len() && u[k] == v;
                    assert(r[k + 1] == v);
                }
                if s.contains(x) {
                    let i = choose|i: int| 0 <= i < s.len() && s[i] == x;
                    if i == 0 {
                        assert(r[0] == x);
                    } else {
                        assert(t[i - 1] == x);
                        assert(t.contains(x));
                        assert(t.to_set().insert(v).contains(x));
                        assert(u.to_set().contains(x));
                        assert(u.contains(x));
                        let k = choose|k: int| 0 <= k < u.len() && u[k] == x;
                        assert(r[k + 1] == x);
                    }
                }
            }
        }
        assert(s.contains(v) <==> t.contains(v)) by {
            if s.contains(v) {
                let i = choose|i: int| 0 <= i < s.len() && s[i] == v;
                assert(i > 0);
                assert(t[i - 1] == v);
            }
            if t.contains(v) {
                let i = choose|i: int| 0 <= i < t.len() && t[i] == v;
                assert(s[i + 1] == v);
            }
        }
    }
}

/// Where the first `i` entries are all below `v` and the next one, if any,
/// is not, `sorted_insert` leaves the list alone or places `v` at `i`.
proof fn lemma_sorted_insert_at(s: Seq<VatID>, v: VatID, i: int)
    requires
        0 <= i <= s.len(),
        forall|j: int| 0 <= j < i ==> s[j].0 < v.0,
        i < s.len() ==> v.0 <= s[i].0,
    ensures
        sorted_insert(s, v) == if i < s.len() && s[i].0 == v.0 {
            s
        } else {
            s.insert(i, v)
        },
    decreases i,
{
    if i == 0 {
        if s.len() == 0 {
            assert(s.insert(0, v) =~= seq![v]);
        } else if v.0 < s[0].0 {
            assert(s.insert(0, v) =~= seq![v] + s);
        }
    } else {
        let t = s.drop_first();
        assert(s[0].0 < v.0);
        assert forall|j: int| 0 <= j < i - 1 implies t[j].0 < v.0 by {
            assert(t[j] == s[j + 1]);
        }
        if i < s.len() {
            assert(t[i - 1] == s[i]);
        }
        lemma_sorted_insert_at(t, v, i - 1);
        if i < s.len() && s[i].0 == v.0 {
            assert(seq![s[0]] + t =~= s);
        } else {
            assert(seq![s[0]] + t.insert(i - 1, v) =~= s.insert(i, v));
        }
    }
}

/// Puts `v` in its place in a sorted list of vats, unless it is there.
pub fn insert_sorted(list: &mut Vec<VatID>, v: VatID)
    requires
        strictly_sorted(old(list)@),
    ensures
        final(list)@ == sorted_insert(old(list)@, v),
        strictly_sorted(final(list)@),
{
    let mut i: usize = 0;
    while i < list.len() && list[i].0 < v.0
        invariant
            i <= list.len(),
            list@ == old(list)@,
            forall|j: int| 0 <= j < i ==> list@[j].0 < v.0,
        decreases list.len() - i,
    {
        i += 1;
    }
    proof {
        lemma_sorted_insert_at(list@, v, i as int);
        lemma_sorted_insert(list@, v);
    }
    if i < list.len() && list[i].0 == v.0 {
    } else {
        list.insert(i, v);
    }
}

/// Where a promise stands.
#[derive(Debug, Eq, PartialEq, Clone)]
pub enum PromiseState {
    Unresolved { decider: VatID, subscribers: Vec<VatID> },
    FulfilledToTarget(ObjectID),
    FulfilledToData(CapData),
    Rejected(CapData),
}

pub enum PromiseStateView {
    Unresolved { decider: VatID, subscribers: Seq<VatID> },
    FulfilledToTarget(ObjectID),
    FulfilledToData(CapDataView),
    Rejected(CapDataView),
}

impl View for PromiseState {
    type V = PromiseStateView;

    open spec fn view(&self) -> PromiseStateView {
        match self {
            PromiseState::Unresolved { decider, subscribers } => PromiseStateView::Unresolved {
                decider: *decider,
                subscribers: subscribers@,
            },
            PromiseState::FulfilledToTarget(o) => PromiseStateView::FulfilledToTarget(*o),
            PromiseState::FulfilledToData(d) => PromiseStateView::FulfilledToData(d@),
            PromiseState::Rejected(d) => PromiseStateView::Rejected(d@),
        }
    }
}

impl PromiseStateView {
    pub open spec fn is_unresolved(self) -> bool {
        self is Unresolved
    }

    /// The one vat that may resolve the promise, while there is one.
    pub open spec fn decider(self) -> Option<VatID> {
        match self {
            PromiseStateView::Unresolved { decider, .. } => Some(decider),
            _ => None,
        }
    }

    /// The vats waiting to hear of the resolution: none once it is resolved.
    pub open spec fn subscribers(self) -> Seq<VatID> {
        match self {
            PromiseStateView::Unresolved { subscribers, .. } => subscribers,
            _ => Seq::empty(),
        }
    }

    /// What the promise was resolved to; `None` while it is unresolved.
    pub open spec fn resolution(self) -> Option<ResolutionView> {
        match self {
            PromiseStateView::Unresolved { .. } => None,
            PromiseStateView::FulfilledToTarget(o) => Some(
                ResolutionView::Reference(CapSlot::Object(o)),
            ),
            PromiseStateView::FulfilledToData(d) => Some(ResolutionView::Data(d)),
            PromiseStateView::Rejected(d) => Some(ResolutionView::Rejection(d)),
        }
    }

    /// The resolved state that stands for the resolution `r`; `None` for a
    /// reference to a promise, which no state stands for.
    pub open spec fn resolved_to(r: ResolutionView) -> Option<PromiseStateView> {
        match r {
            ResolutionView::Reference(CapSlot::Object(o)) => Some(
                PromiseStateView::FulfilledToTarget(o),
            ),
            ResolutionView::Reference(CapSlot::Promise(_)) => None,
            ResolutionView::Data(d) => Some(PromiseStateView::FulfilledToData(d)),
            ResolutionView::Rejection(d) => Some(PromiseStateView::Rejected(d)),
        }
    }

    pub open spec fn wf(self) -> bool {
        strictly_sorted(self.subscribers())
    }
}

impl PromiseState {
    /// What the promise was resolved to; `None` while it is unresolved.
    pub fn resolution(&self) -> (r: Option<Resolution>)
        ensures
            r.is_some() == self@.resolution().is_some(),
            r.is_some() ==> r.unwrap()@ == self@.resolution().unwrap(),
    {
        match self {
            PromiseState::Unresolved { .. } => None,
            PromiseState::FulfilledToTarget(o) => Some(Resolution::Reference(CapSlot::Object(*o))),
            PromiseState::FulfilledToData(d) => Some(Resolution::Data(d.duplicate())),
            PromiseState::Rejected(d) => Some(Resolution::Rejection(d.duplicate())),
        }
    }
}

/// What the promise table records of a promise.
pub struct Promise {
    pub allocator: VatID,
    pub state: PromiseState,
}

pub struct PromiseView {
    pub allocator: VatID,
    pub state: PromiseStateView,
}

impl View for Promise {
    type V = PromiseView;

    open spec fn view(&self) -> PromiseView {
        PromiseView { allocator: self.allocator, state: self.state@ }
    }
}

/// The mathematical content of the promise table.
pub struct PromiseTableView {
    pub promises: Map<PromiseID, PromiseView>,
    pub next: usize,
}

impl PromiseTableView {
    /// The live identifiers are exactly those below the next one, and every
    /// subscriber list is in order.
    pub open spec fn wf(self) -> bool {
        &&& forall|id: PromiseID| #[trigger] self.promises.contains_key(id) <==> id.0 < self.next
        &&& forall|id: PromiseID| #[trigger]
            self.promises.contains_key(id) ==> self.promises[id].state.wf()
    }

    pub open spec fn empty() -> PromiseTableView {
        PromiseTableView { promises: Map::empty(), next: 0 }
    }

    pub open spec fn contains(self, id: PromiseID) -> bool {
        self.promises.contains_key(id)
    }

    pub open spec fn fresh(self) -> PromiseID {
        PromiseID(self.next)
    }

    pub open spec fn is_full(self) -> bool {
        self.next == usize::MAX
    }

    pub open spec fn state(self, id: PromiseID) -> PromiseStateView {
        self.promises[id].state
    }

    pub open spec fn is_unresolved(self, id: PromiseID) -> bool {
        self.contains(id) && self.state(id).is_unresolved()
    }

    pub open spec fn with_state(self, id: PromiseID, state: PromiseStateView) -> PromiseTableView {
        PromiseTableView {
            promises: self.promises.insert(
                id,
                PromiseView { allocator: self.promises[id].allocator, state },
            ),
            next: self.next,
        }
    }

    /// The table after a new unresolved promise is allocated.
    pub open spec fn allocate_unresolved(self, decider: VatID, allocator: VatID)
        -> PromiseTableView {
        PromiseTableView {
            promises: self.promises.insert(
                self.fresh(),
                PromiseView {
                    allocator,
                    state: PromiseStateView::Unresolved { decider, subscribers: Seq::empty() },
                },
            ),
            next: (self.next + 1) as usize,
        }
    }

    /// What `subscribe` answers.
    pub open spec fn subscribe_result(self, id: PromiseID) -> Result<(), PromiseError> {
        if !self.contains(id) {
            Err(PromiseError::Unknown)
        } else if !self.state(id).is_unresolved() {
            Err(PromiseError::Resolved)
        } else {
            Ok(())
        }
    }

    /// The table after `subscribe`.
    pub open spec fn subscribe_state(self, id: PromiseID, vat: VatID) -> PromiseTableView {
        match self.subscribe_result(id) {
            Ok(_) => self.with_state(
                id,
                PromiseStateView::Unresolved {
                    decider: self.state(id).decider().unwrap(),
                    subscribers: sorted_insert(self.state(id).subscribers(), vat),
                },
            ),
            Err(_) => self,
        }
    }

    /// What `resolve` answers: the subscribers that were waiting.
    pub open spec fn resolve_result(self, id: PromiseID, r: ResolutionView) -> Result<
        Seq<VatID>,
        PromiseError,
    > {
        if !self.contains(id) {
            Err(PromiseError::Unknown)
        } else if !self.state(id).is_unresolved() {
            Err(PromiseError::Resolved)
        } else if PromiseStateView::resolved_to(r).is_none() {
            Err(PromiseError::ReferenceToPromise)
        } else {
            Ok(self.state(id).subscribers())
        }
    }

    /// The table after `resolve`.
    pub open spec fn resolve_state(self, id: PromiseID, r: ResolutionView) -> PromiseTableView {
        match self.resolve_result(id, r) {
            Ok(_) => self.with_state(id, PromiseStateView::resolved_to(r).unwrap()),
            Err(_) => self,
        }
    }
}

pub struct PromiseTable {
    promises: HashMap<usize, Promise>,
    next_promise_id: usize,
}

impl View for PromiseTable {
    type V = PromiseTableView;

    closed spec fn view(&self) -> PromiseTableView {
        PromiseTableView {
            promises: Map::new(
                |id: PromiseID| self.promises@.contains_key(id.0),
                |id: PromiseID| self.promises@[id.0]@,
            ),
            next: self.next_promise_id,
        }
    }
}

impl PromiseTable {
    pub open spec fn wf(&self) -> bool {
        self@.wf()
    }

    pub fn new() -> (t: PromiseTable)
        ensures
            t.wf(),
            t@ == PromiseTableView::empty(),
    {
        let t = PromiseTable { promises: HashMap::new(), next_promise_id: 0 };
        assert(t@.promises =~= Map::empty());
        t
    }

    /// No identifier is left to hand out.
    pub fn is_full(&self) -> (r: bool)
        ensures
            r == self@.is_full(),
    {
        self.next_promise_id == usize::MAX
    }

    pub fn contains(&self, id: PromiseID) -> (r: bool)
        ensures
            r == self@.contains(id),
    {
        self.promises.contains_key(&id.0)
    }

    /// The identifier that the next allocation will hand out.
    pub fn next_id(&self) -> (id: PromiseID)
        ensures
            id == self@.fresh(),
    {
        PromiseID(self.next_promise_id)
    }

    /// Hands out a fresh identifier for an unresolved promise without
    /// subscribers.
    pub fn allocate_unresolved(&mut self, decider: VatID, allocator: VatID) -> (id: PromiseID)
        requires
            old(self).wf(),
            !old(self)@.is_full(),
        ensures
            final(self).wf(),
            id == old(self)@.fresh(),
            final(self)@ == old(self)@.allocate_unresolved(decider, allocator),
    {
        let id = PromiseID(self.next_promise_id);
        self.next_promise_id += 1;
        let state = PromiseState::Unresolved { decider, subscribers: Vec::new() };
        self.promises.insert(id.0, Promise { allocator, state });
        proof {
            let goal = old(self)@.allocate_unresolved(decider, allocator);
            assert(self@.promises =~= goal.promises);
            assert forall|x: PromiseID| #[trigger] self@.promises.contains_key(x) <==> x.0
                < self@.next by {
                if x != id {
                    assert(old(self)@.promises.contains_key(x) <==> x.0 < old(self)@.next);
                }
            }
            assert forall|x: PromiseID| #[trigger]
                self@.promises.contains_key(x) implies self@.promises[x].state.wf() by {
                if x != id {
                    assert(old(self)@.promises.contains_key(x));
                }
            }
        }
        id
    }

    /// The vat that introduced a live promise.
    pub fn allocator_of(&self, id: PromiseID) -> (allocator: VatID)
        requires
            self@.contains(id),
        ensures
            allocator == self@.promises[id].allocator,
    {
        self.promises.get(&id.0).unwrap().allocator
    }

    /// The state of a live promise.
    pub fn state_of(&self, id: PromiseID) -> (state: &PromiseState)
        requires
            self@.contains(id),
        ensures
            state@ == self@.state(id),
    {
        &self.promises.get(&id.0).unwrap().state
    }

    /// The decider of a live promise: `Some` exactly while it is unresolved.
    pub fn decider_of(&self, id: PromiseID) -> (decider: Option<VatID>)
        requires
            self@.contains(id),
        ensures
            decider == self@.state(id).decider(),
            decider.is_none() <==> !self@.state(id).is_unresolved(),
    {
        match &self.promises.get(&id.0).unwrap().state {
            PromiseState::Unresolved { decider, .. } => Some(*decider),
            _ => None,
        }
    }

    /// Adds `vat_id` to the subscribers of an unresolved promise.
    pub fn subscribe(&mut self, id: PromiseID, vat_id: VatID) -> (r: Result<(), PromiseError>)
        requires
            old(self).wf(),
        ensures
            final(self).wf(),
            r == old(self)@.subscribe_result(id),
            final(self)@ == old(self)@.subscribe_state(id, vat_id),
    {
        let p = match self.promises.remove(&id.0) {
            Some(p) => p,
            None => {
                assert(self.promises@ =~= old(self).promises@);
                return Err(PromiseError::Unknown);
            },
        };
        proof {
            assert(old(self)@.promises.contains_key(id));
            assert(old(self)@.promises[id].state.wf());
        }
        let allocator = p.allocator;
        match p.state {
            PromiseState::Unresolved { decider, subscribers } => {
                let mut subscribers = subscribers;
                insert_sorted(&mut subscribers, vat_id);
                let state = PromiseState::Unresolved { decider, subscribers };
                self.promises.insert(id.0, Promise { allocator, state });
                proof {
                    self.lemma_replaced(old(self), id, state@);
                }
                Ok(())
            },
            resolved => {
                self.promises.insert(id.0, Promise { allocator, state: resolved });
                proof {
                    self.lemma_replaced(old(self), id, resolved@);
                    assert(self@.promises =~= old(self)@.promises);
                }
                Err(PromiseError::Resolved)
            },
        }
    }

    /// The subscribers of a live promise, in increasing order of vat
    /// number; none once it is resolved.
    pub fn subscribers_of(&self, id: PromiseID) -> (subscribers: Vec<VatID>)
        requires
            self.wf(),
            self@.contains(id),
        ensures
            subscribers@ == self@.state(id).subscribers(),
            strictly_sorted(subscribers@),
            !self@.state(id).is_unresolved() ==> subscribers@.len() == 0,
    {
        assert(self@.promises.contains_key(id));
        assert(self@.promises[id].state.wf());
        match &self.promises.get(&id.0).unwrap().state {
            PromiseState::Unresolved { subscribers, .. } => copy_vec(subscribers),
            _ => Vec::new(),
        }
    }

    /// Resolves an unresolved promise, once and for good. The subscribers
    /// that were waiting are handed back, in increasing order of vat number,
    /// and the promise keeps none.
    pub fn resolve(&mut self, id: PromiseID, resolution: Resolution) -> (r: Result<
        Vec<VatID>,
        PromiseError,
    >)
        requires
            old(self).wf(),
        ensures
            final(self).wf(),
            match r {
                Ok(waiting) => old(self)@.resolve_result(id, resolution@) == Ok::<
                    Seq<VatID>,
                    PromiseError,
                >(waiting@) && strictly_sorted(waiting@),
                Err(e) => old(self)@.resolve_result(id, resolution@) == Err::<
                    Seq<VatID>,
                    PromiseError,
                >(e),
            },
            final(self)@ == old(self)@.resolve_state(id, resolution@),
            r.is_ok() ==> final(self)@.state(id).subscribers().len() == 0,
    {
        let p = match self.promises.remove(&id.0) {
            Some(p) => p,
            None => {
                assert(self.promises@ =~= old(self).promises@);
                return Err(PromiseError::Unknown);
            },
        };
        proof {
            assert(old(self)@.promises.contains_key(id));
            assert(old(self)@.promises[id].state.wf());
        }
        let allocator = p.allocator;
        match p.state {
            PromiseState::Unresolved { decider, subscribers } => {
                let state = match resolution {
                    Resolution::Reference(CapSlot::Object(o)) => PromiseState::FulfilledToTarget(o),
                    Resolution::Reference(CapSlot::Promise(_)) => {
                        let unchanged = PromiseState::Unresolved { decider, subscribers };
                        self.promises.insert(id.0, Promise { allocator, state: unchanged });
                        proof {
                            self.lemma_replaced(old(self), id, unchanged@);
                            assert(self@.promises =~= old(self)@.promises);
                        }
                        return Err(PromiseError::ReferenceToPromise);
                    },
                    Resolution::Data(d) => PromiseState::FulfilledToData(d),
                    Resolution::Rejection(d) => PromiseState::Rejected(d),
                };
                self.promises.insert(id.0, Promise { allocator, state });
                proof {
                    self.lemma_replaced(old(self), id, state@);
                }
                Ok(subscribers)
            },
            resolved => {
                self.promises.insert(id.0, Promise { allocator, state: resolved });
                proof {
                    self.lemma_replaced(old(self), id, resolved@);
                    assert(self@.promises =~= old(self)@.promises);
                }
                Err(PromiseError::Resolved)
            },
        }
    }

    /// Replacing the state of one live promise by a well-formed state
    /// gives the table `with_state`, still well formed.
    proof fn lemma_replaced(&self, before: &PromiseTable, id: PromiseID, state: PromiseStateView)
        requires
            before.wf(),
            before.promises@.contains_key(id.0),
            state.wf(),
            self.next_promise_id == before.next_promise_id,
            self.promises@.dom() == before.promises@.dom(),
            self.promises@[id.0]@ == (PromiseView {
                allocator: before.promises@[id.0].allocator,
                state,
            }),
            forall|k: usize| k != id.0 && before.promises@.contains_key(k) ==> self.promises@[k]
                == before.promises@[k],
        ensures
            self@ == before@.with_state(id, state),
            self.wf(),
    {
        let goal = before@.with_state(id, state);
        assert forall|x: PromiseID| self@.promises.contains_key(x) <==> goal.promises.contains_key(
            x,
        ) by {
            assert(self.promises@.dom().contains(x.0) <==> before.promises@.dom().contains(x.0));
        }
        assert forall|x: PromiseID| self@.promises.contains_key(x) implies self@.promises[x]
            == goal.promises[x] by {
            assert(self.promises@.dom().contains(x.0));
            if x != id {
                assert(x.0 != id.0);
            }
        }
        assert(self@.promises =~= goal.promises);
        assert forall|x: PromiseID| #[trigger] self@.promises.contains_key(x) <==> x.0
            < self@.next by {
            assert(before@.promises.contains_key(x) <==> x.0 < before@.next);
        }
        assert forall|x: PromiseID| #[trigger]
            self@.promises.contains_key(x) implies self@.promises[x].state.wf() by {
            if x != id {
                assert(before@.promises.contains_key(x));
                assert(before@.promises[x].state.wf());
            }
        }
    }
}

} // verus!
