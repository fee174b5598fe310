//! Opaque broadcast values and the deduplicated set that accumulates them.
//!
//! A broadcast value is an arbitrary JSON value that the node never inspects;
//! it only stores it, compares it for structural equality, and hands it back.
//! The library therefore keeps each value in its canonical encoded form, a
//! byte string, so that structural equality of values is byte equality here.
//! The code that speaks to the wire is responsible for putting values into
//! canonical form before they enter the library.

use vstd::prelude::*;
use vstd::seq_lib::lemma_seq_contains_after_push;

verus! {

/// One opaque value, held as its canonical encoding.
pub struct OpaqueValue {
    pub bytes: Vec<u8>,
}

impl View for OpaqueValue {
    type V = Seq<u8>;

    open spec fn view(&self) -> Seq<u8> {
        self.bytes@
    }
}

impl OpaqueValue {
    pub fn new(bytes: Vec<u8>) -> (r: OpaqueValue)
        ensures
            r@ == bytes@,
    {
        OpaqueValue { bytes }
    }

    /// Structural equality of the values: equality of canonical encodings.
    pub fn value_eq(&self, other: &OpaqueValue) -> (r: bool)
        ensures
            r == (self@ == other@),
    {
        if self.bytes.len() != other.bytes.len() {
            assert(self@.len() != other@.len());
            return false;
        }
        let n = self.bytes.len();
        let mut i: usize = 0;
        while i < n
            invariant
                n == self@.len(),
                n == other@.len(),
                i <= n,
                forall|j: int| 0 <= j < i ==> self@[j] == other@[j],
            decreases n - i,
        {
            if self.bytes[i] != other.bytes[i] {
                return false;
            }
            i = i + 1;
        }
        proof {
            assert(self@ =~= other@);
        }
        true
    }

    /// A copy of the value with the same encoding.
    pub fn duplicate(&self) -> (r: OpaqueValue)
        ensures
            r@ == self@,
    {
        let n = self.bytes.len();
        let mut copy: Vec<u8> = Vec::new();
        let mut i: usize = 0;
        while i < n
            invariant
                n == self@.len(),
                i <= n,
                copy@ =~= self@.subrange(0, i as int),
            decreases n - i,
        {
            copy.push(self.bytes[i]);
            i = i + 1;
        }
        proof {
            assert(copy@ =~= self@);
        }
        OpaqueValue { bytes: copy }
    }
}

/// The set of values a node has seen, kept as a sequence without duplicates.
/// The set only grows: nothing is ever removed within a process lifetime.
pub struct SeenSet {
    pub items: Vec<OpaqueValue>,
}

impl SeenSet {
    /// The sequence of canonical encodings, in insertion order.
    pub open spec fn seq_view(&self) -> Seq<Seq<u8>> {
        self.items@.map_values(|v: OpaqueValue| v@)
    }

    /// No value occurs twice.
    pub open spec fn wf(&self) -> bool {
        forall|i: int, j: int|
            0 <= i < j < self.seq_view().len() ==> self.seq_view()[i] != self.seq_view()[j]
    }
}

impl View for SeenSet {
    type V = Set<Seq<u8>>;

    open spec fn view(&self) -> Set<Seq<u8>> {
        self.seq_view().to_set()
    }
}

impl SeenSet {
    pub fn new() -> (r: SeenSet)
        ensures
            r@ =~= Set::<Seq<u8>>::empty(),
            r.wf(),
            r.seq_view() =~= Seq::<Seq<u8>>::empty(),
    {
        SeenSet { items: Vec::new() }
    }

    pub fn contains_value(&self, v: &OpaqueValue) -> (r: bool)
        ensures
            r == self@.contains(v@),
    {
        let n = self.items.len();
        let mut i: usize = 0;
        while i < n
            invariant
                n == self.items@.len(),
                i <= n,
                forall|j: int| 0 <= j < i ==> self.seq_view()[j] != v@,
            decreases n - i,
        {
            if self.items[i].value_eq(v) {
                proof {
                    assert(self.seq_view()[i as int] == v@);
                    assert(self.seq_view().contains(v@));
                }
                return true;
            }
            proof {
                assert(self.seq_view()[i as int] != v@);
            }
            i = i + 1;
        }
        proof {
            assert(!self.seq_view().contains(v@));
        }
        false
    }

    /// Insert a value; a duplicate leaves the set unchanged. Existing items
    /// stay where they are, so the set is append-only.
    pub fn insert(&mut self, v: OpaqueValue)
        requires
            old(self).wf(),
        ensures
            final(self).wf(),
            final(self)@ =~= old(self)@.insert(v@),
            final(self).seq_view() == if old(self)@.contains(v@) {
                old(self).seq_view()
            } else {
                old(self).seq_view().push(v@)
            },
    {
        broadcast use lemma_seq_contains_after_push;

        if !self.contains_value(&v) {
            let ghost pre = self.seq_view();
            let ghost pv = v@;
            self.items.push(v);
            proof {
                assert(self.seq_view() =~= pre.push(pv));
                assert forall|x: Seq<u8>| self@.contains(x) <==> old(self)@.insert(pv).contains(x) by {
                    assert(self.seq_view().contains(x) == pre.push(pv).contains(x));
                }
                assert(self@ =~= old(self)@.insert(pv));
                assert forall|i: int, j: int|
                    0 <= i < j < self.seq_view().len() implies self.seq_view()[i]
                    != self.seq_view()[j] by {
                    if j == pre.len() {
                        assert(!pre.contains(pv));
                        assert(pre[i] != pv);
                    }
                }
            }
        } else {
            proof {
                assert(self.seq_view().contains(v@));
                assert(self@ =~= old(self)@.insert(v@));
            }
        }
    }

    /// Union another set into this one; duplicates are absorbed.
    pub fn absorb(&mut self, other: &SeenSet)
        requires
            old(self).wf(),
        ensures
            final(self).wf(),
            final(self)@ =~= old(self)@.union(other@),
    {
        let n = other.items.len();
        let mut i: usize = 0;
        while i < n
            invariant
                n == other.items@.len(),
                i <= n,
                self.wf(),
                self@ =~= old(self)@.union(other.seq_view().take(i as int).to_set()),
            decreases n - i,
        {
            broadcast use lemma_seq_contains_after_push;

            let ghost pre = self@;
            let item = other.items[i].duplicate();
            proof {
                assert(item@ == other.seq_view()[i as int]);
            }
            self.insert(item);
            proof {
                let taken = other.seq_view().take(i as int);
                let taken1 = other.seq_view().take(i + 1);
                assert(taken1 =~= taken.push(other.seq_view()[i as int]));
                assert forall|x: Seq<u8>| taken1.to_set().contains(x) <==> taken.to_set().insert(
                    other.seq_view()[i as int],
                ).contains(x) by {
                    assert(taken1.contains(x) == taken.push(other.seq_view()[i as int]).contains(x));
                }
                assert(self@ =~= old(self)@.union(taken1.to_set()));
            }
            i = i + 1;
        }
        proof {
            assert(other.seq_view().take(n as int) =~= other.seq_view());
        }
    }

    /// A copy of the whole set, for replies and gossip payloads.
    pub fn snapshot(&self) -> (r: SeenSet)
        ensures
            r.seq_view() =~= self.seq_view(),
            r@ =~= self@,
            r.wf() == self.wf(),
    {
        let n = self.items.len();
        let mut copy: Vec<OpaqueValue> = Vec::new();
        let mut i: usize = 0;
        while i < n
            invariant
                n == self.items@.len(),
                i <= n,
                copy@.len() == i,
                forall|j: int| 0 <= j < i ==> copy@[j]@ == self.seq_view()[j],
            decreases n - i,
        {
            let item = self.items[i].duplicate();
            proof {
                assert(item@ == self.seq_view()[i as int]);
            }
            copy.push(item);
            i = i + 1;
        }
        let r = SeenSet { items: copy };
        proof {
            assert forall|j: int| 0 <= j < n implies r.seq_view()[j] == self.seq_view()[j] by {
                assert(r.seq_view()[j] == copy@[j]@);
            }
            assert(r.seq_view() =~= self.seq_view());
        }
        r
    }

    pub fn len(&self) -> (r: usize)
        ensures
            r == self.seq_view().len(),
    {
        self.items.len()
    }
}

} // verus!
