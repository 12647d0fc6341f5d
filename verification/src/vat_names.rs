//! The registry of vat names. Vat numbers are handed out in increasing
//! order; the names are kept in the order of their bytes, so that every walk
//! over them is reproducible.

use crate::kernel_types::{VatID, copy_slice};
use vstd::prelude::*;
use vstd::string::StringSliceAdditionalSpecFns;

verus! {

/// The order of strings: byte by byte, a proper prefix first.
pub open spec fn lex_lt(a: Seq<u8>, b: Seq<u8>) -> bool
    decreases a.len(),
{
    if b.len() == 0 {
        false
    } else if a.len() == 0 {
        true
    } else if a[0] != b[0] {
        a[0] < b[0]
    } else {
        lex_lt(a.drop_first(), b.drop_first())
    }
}

pub proof fn lemma_lex_irreflexive(a: Seq<u8>)
    ensures
        !lex_lt(a, a),
    decreases a.len(),
{
    if a.len() > 0 {
        lemma_lex_irreflexive(a.drop_first());
    }
}

pub proof fn lemma_lex_transitive(a: Seq<u8>, b: Seq<u8>, c: Seq<u8>)
    requires
        lex_lt(a, b),
        lex_lt(b, c),
    ensures
        lex_lt(a, c),
    decreases a.len(),
{
    if a.len() > 0 && a[0] == b[0] && b[0] == c[0] {
        lemma_lex_transitive(a.drop_first(), b.drop_first(), c.drop_first());
    }
}

/// Of two different strings one comes first.
pub proof fn lemma_lex_total(a: Seq<u8>, b: Seq<u8>)
    ensures
        lex_lt(a, b) || a == b || lex_lt(b, a),
    decreases a.len(),
{
    if a.len() == 0 || b.len() == 0 {
        if a.len() == 0 && b.len() == 0 {
            assert(a =~= b);
        }
    } else if a[0] == b[0] {
        lemma_lex_total(a.drop_first(), b.drop_first());
        if a.drop_first() == b.drop_first() {
            assert(a =~= seq![a[0]] + a.drop_first());
            assert(b =~= seq![b[0]] + b.drop_first());
        }
    }
}

/// Two strings that agree on their first `i` bytes compare as their
/// remainders do.
proof fn lemma_lex_skip(a: Seq<u8>, b: Seq<u8>, i: int)
    requires
        0 <= i <= a.len(),
        i <= b.len(),
        forall|j: int| 0 <= j < i ==> a[j] == b[j],
    ensures
        lex_lt(a, b) == lex_lt(a.skip(i), b.skip(i)),
    decreases i,
{
    if i == 0 {
        assert(a.skip(0) =~= a);
        assert(b.skip(0) =~= b);
    } else {
        assert(a[0] == b[0]);
        let a1 = a.drop_first();
        let b1 = b.drop_first();
        assert forall|j: int| 0 <= j < i - 1 implies a1[j] == b1[j] by {
            assert(a1[j] == a[j + 1]);
            assert(b1[j] == b[j + 1]);
        }
        lemma_lex_skip(a1, b1, i - 1);
        assert(a1.skip(i - 1) =~= a.skip(i));
        assert(b1.skip(i - 1) =~= b.skip(i));
    }
}

/// Whether `a` comes before `b`.
pub fn bytes_lt(a: &Vec<u8>, b: &Vec<u8>) -> (r: bool)
    ensures
        r == lex_lt(a@, b@),
{
    let mut i: usize = 0;
    while i < a.len() && i < b.len()
        invariant
            i <= a.len(),
            i <= b.len(),
            forall|j: int| 0 <= j < i ==> a@[j] == b@[j],
        decreases a.len() - i,
    {
        if a[i] != b[i] {
            proof {
                lemma_lex_skip(a@, b@, i as int);
            }
            return a[i] < b[i];
        }
        i += 1;
    }
    proof {
        lemma_lex_skip(a@, b@, i as int);
    }
    i < b.len()
}

/// Whether `a` and `b` are the same string.
pub fn bytes_eq(a: &Vec<u8>, b: &Vec<u8>) -> (r: bool)
    ensures
        r == (a@ == b@),
{
    if a.len() != b.len() {
        return false;
    }
    let mut i: usize = 0;
    while i < a.len()
        invariant
            i <= a.len(),
            a.len() == b.len(),
            forall|j: int| 0 <= j < i ==> a@[j] == b@[j],
        decreases a.len() - i,
    {
        if a[i] != b[i] {
            return false;
        }
        i += 1;
    }
    assert(a@ =~= b@);
    true
}

/// A name, as its bytes, with the vat that bears it.
pub struct NameEntry {
    pub name: Vec<u8>,
    pub id: VatID,
}

impl View for NameEntry {
    type V = (Seq<u8>, VatID);

    open spec fn view(&self) -> (Seq<u8>, VatID) {
        (self.name@, self.id)
    }
}

/// Strictly increasing by name.
pub open spec fn names_sorted(s: Seq<(Seq<u8>, VatID)>) -> bool {
    forall|i: int, j: int| 0 <= i < j < s.len() ==> lex_lt(s[i].0, s[j].0)
}

/// `s` with `name` bound to `id`: in its place where the name is new, in
/// place of the old binding where it is not.
pub open spec fn names_insert(s: Seq<(Seq<u8>, VatID)>, name: Seq<u8>, id: VatID) -> Seq<
    (Seq<u8>, VatID),
>
    decreases s.len(),
{
    if s.len() == 0 {
        seq![(name, id)]
    } else if lex_lt(name, s[0].0) {
        seq![(name, id)] + s
    } else if name == s[0].0 {
        s.update(0, (name, id))
    } else {
        seq![s[0]] + names_insert(s.drop_first(), name, id)
    }
}

/// Where the first `i` names all come before `name` and the next one, if
/// any, does not, `names_insert` replaces the entry at `i` or inserts there.
proof fn lemma_names_insert_at(s: Seq<(Seq<u8>, VatID)>, name: Seq<u8>, id: VatID, i: int)
    requires
        0 <= i <= s.len(),
        forall|j: int| 0 <= j < i ==> lex_lt(s[j].0, name),
        i < s.len() ==> !lex_lt(s[i].0, name),
    ensures
        names_insert(s, name, id) == if i < s.len() && s[i].0 == name {
            s.update(i, (name, id))
        } else {
            s.insert(i, (name, id))
        },
    decreases i,
{
    if i == 0 {
        if s.len() == 0 {
            assert(s.insert(0, (name, id)) =~= seq![(name, id)]);
        } else {
            lemma_lex_total(name, s[0].0);
            lemma_lex_irreflexive(name);
            if lex_lt(name, s[0].0) {
                assert(s.insert(0, (name, id)) =~= seq![(name, id)] + s);
            }
        }
    } else {
        let t = s.drop_first();
        assert(lex_lt(s[0].0, name));
        lemma_lex_irreflexive(name);
        if lex_lt(name, s[0].0) {
            lemma_lex_transitive(name, s[0].0, name);
        }
        assert forall|j: int| 0 <= j < i - 1 implies lex_lt(t[j].0, name) by {
            assert(t[j] == s[j + 1]);
        }
        if i < s.len() {
            assert(t[i - 1] == s[i]);
        }
        lemma_names_insert_at(t, name, id, i - 1);
        if i < s.len() && s[i].0 == name {
            assert(seq![s[0]] + t.update(i - 1, (name, id)) =~= s.update(i, (name, id)));
        } else {
            assert(seq![s[0]] + t.insert(i - 1, (name, id)) =~= s.insert(i, (name, id)));
        }
    }
}

/// Binding a name keeps the names in order.
proof fn lemma_names_insert_sorted(s: Seq<(Seq<u8>, VatID)>, name: Seq<u8>, id: VatID, i: int)
    requires
        names_sorted(s),
        0 <= i <= s.len(),
        forall|j: int| 0 <= j < i ==> lex_lt(s[j].0, name),
        i < s.len() ==> !lex_lt(s[i].0, name),
    ensures
        names_sorted(names_insert(s, name, id)),
{
    lemma_names_insert_at(s, name, id, i);
    let r = names_insert(s, name, id);
    if i < s.len() && s[i].0 == name {
        assert forall|a: int, b: int| 0 <= a < b < r.len() implies lex_lt(r[a].0, r[b].0) by {
            assert(r[a].0 == s[a].0);
            assert(r[b].0 == s[b].0);
        }
    } else {
        if i < s.len() {
            lemma_lex_total(name, s[i].0);
        }
        assert forall|a: int, b: int| 0 <= a < b < r.len() implies lex_lt(r[a].0, r[b].0) by {
            if b < i {
                assert(r[a] == s[a] && r[b] == s[b]);
            } else if b == i {
                assert(r[a] == s[a]);
            } else if a < i {
                assert(r[a] == s[a] && r[b] == s[b - 1]);
            } else if a == i {
                assert(r[b] == s[b - 1]);
                if b - 1 > i {
                    lemma_lex_transitive(name, s[i].0, s[b - 1].0);
                }
            } else {
                assert(r[a] == s[a - 1] && r[b] == s[b - 1]);
            }
        }
    }
}

/// The mathematical content of the name registry.
pub struct VatNamesView {
    pub entries: Seq<(Seq<u8>, VatID)>,
    pub next: usize,
}

impl VatNamesView {
    /// The names are in order, and every vat named has a number that was
    /// handed out.
    pub open spec fn wf(self) -> bool {
        &&& names_sorted(self.entries)
        &&& forall|i: int| 0 <= i < self.entries.len() ==> (#[trigger] self.entries[i]).1.0
            < self.next
    }

    pub open spec fn empty() -> VatNamesView {
        VatNamesView { entries: Seq::empty(), next: 0 }
    }

    pub open spec fn is_full(self) -> bool {
        self.next == usize::MAX
    }

    /// The registry after `name` is registered.
    pub open spec fn add(self, name: Seq<u8>) -> VatNamesView {
        VatNamesView {
            entries: names_insert(self.entries, name, VatID(self.next)),
            next: (self.next + 1) as usize,
        }
    }
}

pub struct VatNames {
    names: Vec<NameEntry>,
    next_id: usize,
}

impl View for VatNames {
    type V = VatNamesView;

    closed spec fn view(&self) -> VatNamesView {
        VatNamesView { entries: self.names@.map_values(|e: NameEntry| e@), next: self.next_id }
    }
}

impl VatNames {
    pub open spec fn wf(&self) -> bool {
        self@.wf()
    }

    pub fn new() -> (n: VatNames)
        ensures
            n.wf(),
            n@ == VatNamesView::empty(),
    {
        let n = VatNames { names: Vec::new(), next_id: 0 };
        assert(n@.entries =~= Seq::empty());
        n
    }

    /// No vat number is left to hand out.
    pub fn is_full(&self) -> (r: bool)
        ensures
            r == self@.is_full(),
    {
        self.next_id == usize::MAX
    }

    /// How many names are bound.
    pub fn len(&self) -> (n: usize)
        ensures
            n == self@.entries.len(),
    {
        self.names.len()
    }

    /// The vat bound to the `i`-th name in order.
    pub fn vat_at(&self, i: usize) -> (id: VatID)
        requires
            i < self@.entries.len(),
        ensures
            id == self@.entries[i as int].1,
    {
        self.names[i].id
    }

    /// Registers a vat under `name` and hands out its number, the next one
    /// in order. A name that was bound before is bound to the new vat.
    pub fn add(&mut self, name: &str) -> (id: VatID)
        requires
            old(self).wf(),
            !old(self)@.is_full(),
        ensures
            final(self).wf(),
            id == VatID(old(self)@.next),
            final(self)@ == old(self)@.add(name.spec_bytes()),
    {
        let bytes = copy_slice(name.as_bytes());
        let id = VatID(self.next_id);
        self.next_id += 1;
        let mut i: usize = 0;
        while i < self.names.len() && bytes_lt(&self.names[i].name, &bytes)
            invariant
                i <= self.names.len(),
                self.names == old(self).names,
                forall|j: int| 0 <= j < i ==> lex_lt(old(self)@.entries[j].0, bytes@),
            decreases self.names.len() - i,
        {
            i += 1;
        }
        proof {
            lemma_names_insert_at(old(self)@.entries, bytes@, id, i as int);
            lemma_names_insert_sorted(old(self)@.entries, bytes@, id, i as int);
        }
        if i < self.names.len() && bytes_eq(&self.names[i].name, &bytes) {
            self.names.set(i, NameEntry { name: bytes, id });
            assert(self@.entries =~= old(self)@.entries.update(i as int, (bytes@, id)));
        } else {
            self.names.insert(i, NameEntry { name: bytes, id });
            assert(self@.entries =~= old(self)@.entries.insert(i as int, (bytes@, id)));
        }
        proof {
            let r = self@.entries;
            assert forall|k: int| 0 <= k < r.len() implies (#[trigger] r[k]).1.0
                < self@.next by {
                if r[k] != (bytes@, id) {
                    if k < i {
                        assert(r[k] == old(self)@.entries[k]);
                    } else if old(self)@.entries.len() == r.len() {
                        assert(r[k] == old(self)@.entries[k]);
                    } else {
                        assert(r[k] == old(self)@.entries[k - 1]);
                    }
                }
            }
        }
        id
    }
}

} // verus!
