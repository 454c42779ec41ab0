//! The comic collection: records keyed by identifier.

use crate::record::{is_sentinel, sentinel, Comic, ComicView, SENTINEL_ID};
use std::collections::BTreeMap;
use vstd::prelude::*;

verus! {

/// What every comic collection satisfies: it is finite and holds nothing
/// under the gap identifier.
pub open spec fn valid_collection(m: Map<nat, ComicView>) -> bool {
    &&& m.dom().finite()
    &&& forall|id: nat| m.contains_key(id) ==> !is_sentinel(id)
}

/// Whether `k` is the last key of `m`: the largest identifier that `m`
/// holds, or 0 where `m` holds none.
pub open spec fn is_last_key(m: Map<nat, ComicView>, k: nat) -> bool {
    &&& k == 0 || m.contains_key(k)
    &&& forall|id: nat| m.contains_key(id) ==> id <= k
}

/// The last key of `m` (see [`is_last_key`]).
pub open spec fn last_key(m: Map<nat, ComicView>) -> nat {
    choose|k: nat| is_last_key(m, k)
}

/// A map has at most one last key.
pub proof fn lemma_last_key_unique(m: Map<nat, ComicView>, a: nat, b: nat)
    requires
        is_last_key(m, a),
        is_last_key(m, b),
    ensures
        a == b,
{
}

/// Whatever is a last key of `m` is `last_key(m)`.
pub proof fn lemma_last_key_is(m: Map<nat, ComicView>, k: nat)
    requires
        is_last_key(m, k),
    ensures
        last_key(m) == k,
{
    lemma_last_key_unique(m, k, last_key(m));
}

/// A finite map has a last key.
pub proof fn lemma_last_key_exists(m: Map<nat, ComicView>)
    requires
        m.dom().finite(),
    ensures
        is_last_key(m, last_key(m)),
    decreases m.dom().len(),
{
    if m.dom().len() == 0 {
        assert(forall|id: nat| !m.contains_key(id)) by {
            assert(m.dom() =~= Set::empty());
        }
        assert(is_last_key(m, 0));
    } else {
        let x = m.dom().choose();
        let rest = m.remove(x);
        lemma_last_key_exists(rest);
        let r = last_key(rest);
        let k = if r <= x { x } else { r };
        assert forall|id: nat| m.contains_key(id) implies id <= k by {
            if id != x {
                assert(rest.contains_key(id));
            }
        }
        assert(is_last_key(m, k));
    }
}

/// The empty map has the last key 0.
pub proof fn lemma_last_key_empty()
    ensures
        last_key(Map::<nat, ComicView>::empty()) == 0,
{
    lemma_last_key_is(Map::<nat, ComicView>::empty(), 0);
}

/// A key above the last key becomes the last key once it is inserted.
pub proof fn lemma_last_key_insert(m: Map<nat, ComicView>, id: nat, comic: ComicView)
    requires
        m.dom().finite(),
        last_key(m) < id,
    ensures
        last_key(m.insert(id, comic)) == id,
{
    lemma_last_key_exists(m);
    lemma_last_key_is(m.insert(id, comic), id);
}

/// The comic collection: an ordered mapping from identifier to record.
#[derive(Debug, PartialEq, Eq)]
pub struct Comics {
    map: BTreeMap<usize, Comic>,
    last: usize,
}

impl View for Comics {
    type V = Map<nat, ComicView>;

    closed spec fn view(&self) -> Map<nat, ComicView> {
        Map::new(
            |id: nat| id <= usize::MAX && self.map@.contains_key(id as usize),
            |id: nat| self.map@[id as usize]@,
        )
    }
}

impl Clone for Comics {
    fn clone(&self) -> (copy: Comics)
        ensures
            copy@ == self@,
    {
        proof {
            use_type_invariant(self);
        }
        Comics { map: self.map.clone(), last: self.last }
    }
}

impl Comics {
    #[verifier::type_invariant]
    spec fn well_formed(&self) -> bool {
        &&& !self.map@.contains_key(SENTINEL_ID)
        &&& self.last == 0 || self.map@.contains_key(self.last)
        &&& forall|id: usize| self.map@.contains_key(id) ==> id <= self.last
    }

    /// The collection that holds no record.
    pub fn new() -> (c: Comics)
        ensures
            c@ == Map::<nat, ComicView>::empty(),
    {
        let c = Comics { map: BTreeMap::new(), last: 0 };
        assert(c@ =~= Map::<nat, ComicView>::empty());
        c
    }

    /// Stores `comic` under `id`, in place of what was stored there. Nothing
    /// is stored under the gap identifier: the collection is then left as it
    /// was, and the answer is `false`.
    pub fn insert(&mut self, id: usize, comic: Comic) -> (stored: bool)
        ensures
            stored == !is_sentinel(id as nat),
            stored ==> final(self)@ == old(self)@.insert(id as nat, comic@),
            !stored ==> final(self)@ == old(self)@,
            valid_collection(final(self)@),
    {
        proof {
            use_type_invariant(&*self);
            self.lemma_view_valid();
        }
        if sentinel(id) {
            return false;
        }
        let mut taken = Comics::new();
        std::mem::swap(self, &mut taken);
        let Comics { mut map, last } = taken;
        map.insert(id, comic);
        let grown = Comics { map, last: if id > last { id } else { last } };
        proof {
            assert(grown@ =~= old(self)@.insert(id as nat, comic@));
            grown.lemma_view_valid();
        }
        *self = grown;
        true
    }

    /// The largest identifier in the collection, or 0 where it is empty.
    pub fn last_key(&self) -> (k: usize)
        ensures
            is_last_key(self@, k as nat),
            k as nat == last_key(self@),
            valid_collection(self@),
    {
        proof {
            use_type_invariant(self);
            self.lemma_view_valid();
            lemma_last_key_is(self@, self.last as nat);
        }
        self.last
    }

    /// Whether a record is stored under `id`.
    pub fn contains(&self, id: usize) -> (found: bool)
        ensures
            found == self@.contains_key(id as nat),
    {
        broadcast use vstd::std_specs::btree::group_btree_axioms;

        self.map.contains_key(&id)
    }

    /// The record stored under `id`, if there is one.
    pub fn get(&self, id: usize) -> (found: Option<&Comic>)
        ensures
            match found {
                Some(comic) => self@.contains_key(id as nat) && self@[id as nat] == comic@,
                None => !self@.contains_key(id as nat),
            },
    {
        broadcast use vstd::std_specs::btree::group_btree_axioms;

        self.map.get(&id)
    }

    /// The number of records.
    pub fn len(&self) -> (n: usize)
        ensures
            n as nat == self@.len(),
    {
        proof {
            self.lemma_view_len();
        }
        self.map.len()
    }

    /// Whether the collection holds no record.
    pub fn is_empty(&self) -> (empty: bool)
        ensures
            empty == (self@ == Map::<nat, ComicView>::empty()),
    {
        broadcast use vstd::std_specs::btree::group_btree_axioms;

        let empty = self.map.is_empty();
        proof {
            if empty {
                assert(self@ =~= Map::<nat, ComicView>::empty());
            } else {
                let id = choose|id: usize| self.map@.contains_key(id);
                assert(self.map@.dom().contains(id));
                assert(self@.contains_key(id as nat));
            }
        }
        empty
    }

    /// The records in ascending order of identifier, for a caller that walks
    /// or stores all of them.
    pub fn as_map(&self) -> (m: &BTreeMap<usize, Comic>)
        ensures
            forall|id: usize| m@.contains_key(id) <==> self@.contains_key(id as nat),
            forall|id: usize| m@.contains_key(id) ==> self@[id as nat] == m@[id]@,
    {
        &self.map
    }

    proof fn lemma_view_len(&self)
        ensures
            self@.dom().finite(),
            self@.len() == self.map@.len(),
            self.map@.len() == self.map.len(),
    {
        broadcast use vstd::std_specs::btree::group_btree_axioms;

        let dom = self.map@.dom();
        let widen = |id: usize| id as nat;
        assert(self@.dom() =~= dom.map(widen)) by {
            assert forall|id: nat| self@.dom().contains(id) implies dom.map(widen).contains(
                id,
            ) by {
                assert(dom.contains(id as usize) && widen(id as usize) == id);
            }
        }
        assert(vstd::relations::injective_on(widen, dom));
        vstd::set_lib::lemma_map_size(dom, self@.dom(), widen);
    }

    proof fn lemma_view_valid(&self)
        requires
            self.well_formed(),
        ensures
            valid_collection(self@),
            is_last_key(self@, self.last as nat),
    {
        self.lemma_view_len();
    }
}

} // verus!
