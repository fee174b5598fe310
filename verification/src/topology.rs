//! The gossip topology: which node sends gossip to which neighbors.
//!
//! The harness delivers the whole map in one `topology` request and the node
//! replaces its copy wholesale, so the map is immutable once built. It is kept
//! as a sequence of entries; a lookup takes the first entry with the given
//! key, so a later duplicate key is shadowed and never read.

use vstd::prelude::*;

verus! {

/// A map from node id to the ordered sequence of its gossip neighbors.
pub struct TopologyMap {
    pub entries: Vec<(String, Vec<String>)>,
}

/// The neighbors that a lookup of `key` in `entries` finds: those of the
/// first entry whose node id is `key`, if any.
pub open spec fn spec_lookup(entries: Seq<(String, Vec<String>)>, key: Seq<char>) -> Option<
    Seq<Seq<char>>,
>
    decreases entries.len(),
{
    if entries.len() == 0 {
        None
    } else if entries[0].0@ == key {
        Some(entries[0].1.deep_view())
    } else {
        spec_lookup(entries.drop_first(), key)
    }
}

impl View for TopologyMap {
    type V = Map<Seq<char>, Seq<Seq<char>>>;

    open spec fn view(&self) -> Map<Seq<char>, Seq<Seq<char>>> {
        Map::new(
            |k: Seq<char>| spec_lookup(self.entries@, k) is Some,
            |k: Seq<char>| spec_lookup(self.entries@, k).unwrap(),
        )
    }
}

impl TopologyMap {
    pub fn new(entries: Vec<(String, Vec<String>)>) -> (r: TopologyMap)
        ensures
            r.entries@ == entries@,
    {
        TopologyMap { entries }
    }

    pub fn empty() -> (r: TopologyMap)
        ensures
            r@ =~= Map::<Seq<char>, Seq<Seq<char>>>::empty(),
    {
        let r = TopologyMap { entries: Vec::new() };
        r
    }

    /// The neighbors of `key`, as a fresh vector, or `None` when the map has
    /// no entry for it.
    pub fn neighbors_of(&self, key: &String) -> (r: Option<Vec<String>>)
        ensures
            match r {
                Some(ns) => self@.dom().contains(key@) && ns.deep_view() == self@[key@],
                None => !self@.dom().contains(key@),
            },
    {
        let n = self.entries.len();
        let mut i: usize = 0;
        proof {
            assert(self.entries@.skip(0) =~= self.entries@);
        }
        while i < n
            invariant
                n == self.entries@.len(),
                i <= n,
                spec_lookup(self.entries@, key@) == spec_lookup(
                    self.entries@.skip(i as int),
                    key@,
                ),
            decreases n - i,
        {
            proof {
                assert(self.entries@.skip(i as int).drop_first() =~= self.entries@.skip(i + 1));
                assert(self.entries@.skip(i as int)[0] == self.entries@[i as int]);
            }
            if self.entries[i].0 == *key {
                let ns = clone_string_vec(&self.entries[i].1);
                return Some(ns);
            }
            i = i + 1;
        }
        proof {
            assert(self.entries@.skip(n as int) =~= Seq::<(String, Vec<String>)>::empty());
        }
        None
    }
}

/// A copy of a vector of strings, element for element.
pub fn clone_string_vec(v: &Vec<String>) -> (r: Vec<String>)
    ensures
        r.deep_view() == v.deep_view(),
        r@.len() == v@.len(),
        forall|i: int| 0 <= i < v@.len() ==> r@[i]@ == v@[i]@,
{
    let n = v.len();
    let mut copy: Vec<String> = Vec::new();
    let mut i: usize = 0;
    while i < n
        invariant
            n == v@.len(),
            i <= n,
            copy@.len() == i,
            forall|j: int| 0 <= j < i ==> copy@[j]@ == v@[j]@,
        decreases n - i,
    {
        copy.push(v[i].clone());
        i = i + 1;
    }
    proof {
        assert(copy.deep_view() =~= v.deep_view());
    }
    copy
}

} // verus!
