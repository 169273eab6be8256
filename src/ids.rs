//! The set of workout ids that the server has confirmed for one user.

use vstd::prelude::*;

verus! {

/// A hash set of workout ids, kept in a `hashbrown` set that Verus sees only
/// through the contents named by `id_set_contents`.
#[verifier::external_body]
pub struct IdSet {
    inner: hashbrown::HashSet<u128>,
}

/// The ids that an `IdSet` holds.
pub uninterp spec fn id_set_contents(s: IdSet) -> Set<u128>;

impl View for IdSet {
    type V = Set<u128>;

    open spec fn view(&self) -> Set<u128> {
        id_set_contents(*self)
    }
}

/// Relies on `hashbrown::HashSet::new`: a new set is empty.
#[verifier::external_body]
fn hb_new() -> (r: IdSet)
    ensures
        id_set_contents(r) == Set::<u128>::empty(),
{
    IdSet { inner: hashbrown::HashSet::new() }
}

/// Relies on `hashbrown::HashSet::insert`: the value is added, and the result
/// says whether it was absent before.
#[verifier::external_body]
fn hb_insert(s: &mut IdSet, v: u128) -> (r: bool)
    ensures
        id_set_contents(*final(s)) == id_set_contents(*old(s)).insert(v),
        r == !id_set_contents(*old(s)).contains(v),
{
    s.inner.insert(v)
}

/// Relies on `hashbrown::HashSet::contains`.
#[verifier::external_body]
fn hb_contains(s: &IdSet, v: u128) -> (r: bool)
    ensures
        r == id_set_contents(*s).contains(v),
{
    s.inner.contains(&v)
}

/// Relies on `hashbrown::HashSet::len`: the number of ids held.
#[verifier::external_body]
fn hb_len(s: &IdSet) -> (r: usize)
    ensures
        r == id_set_contents(*s).len(),
{
    s.inner.len()
}

/// Relies on `hashbrown::HashSet::symmetric_difference`: it visits the ids
/// held by exactly one of the two sets, so it visits none exactly when the
/// sets are equal.
#[verifier::external_body]
fn hb_symmetric_difference_count(a: &IdSet, b: &IdSet) -> (r: usize)
    ensures
        (r == 0) == (id_set_contents(*a) == id_set_contents(*b)),
{
    a.inner.symmetric_difference(&b.inner).count()
}

/// Relies on `hashbrown::HashSet::iter`: it visits every id held, once each.
#[verifier::external_body]
fn hb_to_vec(s: &IdSet) -> (r: Vec<u128>)
    ensures
        r@.no_duplicates(),
        r@.to_set() == id_set_contents(*s),
{
    s.inner.iter().copied().collect()
}

/// The ids of `ids`, as a set.
pub open spec fn id_set_of(ids: Seq<u128>) -> Set<u128> {
    ids.to_set()
}

impl IdSet {
    /// An empty set.
    pub fn new() -> (r: IdSet)
        ensures
            r@ == Set::<u128>::empty(),
    {
        hb_new()
    }

    /// A set that holds exactly the ids of `ids`.
    pub fn from_ids(ids: &Vec<u128>) -> (r: IdSet)
        ensures
            r@ == id_set_of(ids@),
    {
        let mut s = hb_new();
        let mut i: usize = 0;
        while i < ids.len()
            invariant
                i <= ids.len(),
                s@ == ids@.subrange(0, i as int).to_set(),
            decreases ids.len() - i,
        {
            hb_insert(&mut s, ids[i]);
            proof {
                lemma_to_set_push(ids@.subrange(0, i as int), ids@[i as int]);
                assert(ids@.subrange(0, i as int).push(ids@[i as int]) =~= ids@.subrange(0, i + 1));
            }
            i = i + 1;
        }
        assert(ids@.subrange(0, ids@.len() as int) =~= ids@);
        s
    }

    /// Whether the set holds `id`.
    pub fn contains(&self, id: u128) -> (r: bool)
        ensures
            r == self@.contains(id),
    {
        hb_contains(self, id)
    }

    /// The number of ids held.
    pub fn len(&self) -> (r: usize)
        ensures
            r == self@.len(),
    {
        hb_len(self)
    }

    /// Adds `id`; returns whether it was absent before.
    pub fn insert(&mut self, id: u128) -> (r: bool)
        ensures
            final(self)@ == old(self)@.insert(id),
            r == !old(self)@.contains(id),
    {
        hb_insert(self, id)
    }

    /// Adds every id of `ids` (a confirmed write); returns how many of them
    /// were not held before, each counted once.
    pub fn record_ids(&mut self, ids: &Vec<u128>) -> (r: usize)
        ensures
            final(self)@ == old(self)@.union(id_set_of(ids@)),
            r == id_set_of(ids@).difference(old(self)@).len(),
    {
        let ghost before = self@;
        let mut added: usize = 0;
        let mut i: usize = 0;
        proof {
            assert(ids@.subrange(0, 0).to_set() =~= Set::<u128>::empty());
            assert(Set::<u128>::empty().difference(before) =~= Set::<u128>::empty());
            assert(before.union(Set::<u128>::empty()) =~= before);
        }
        while i < ids.len()
            invariant
                i <= ids.len(),
                self@ == before.union(ids@.subrange(0, i as int).to_set()),
                added == ids@.subrange(0, i as int).to_set().difference(before).len(),
                added <= i,
            decreases ids.len() - i,
        {
            let ghost prefix = ids@.subrange(0, i as int);
            let id = ids[i];
            let fresh = hb_insert(self, id);
            proof {
                lemma_to_set_push(prefix, id);
                assert(prefix.push(id) =~= ids@.subrange(0, i + 1));
                let old_new = prefix.to_set().difference(before);
                let new_new = prefix.push(id).to_set().difference(before);
                vstd::seq_lib::seq_to_set_is_finite(prefix);
                assert(old_new.subset_of(prefix.to_set()));
                if fresh {
                    assert(!old_new.contains(id));
                    assert(new_new =~= old_new.insert(id));
                } else {
                    assert(new_new =~= old_new);
                }
                assert(self@ =~= before.union(prefix.push(id).to_set()));
            }
            if fresh {
                added = added + 1;
            }
            i = i + 1;
        }
        assert(ids@.subrange(0, ids@.len() as int) =~= ids@);
        added
    }

    /// Whether this set and `other` hold the same ids: their symmetric
    /// difference is empty.
    pub fn same_ids(&self, other: &IdSet) -> (r: bool)
        ensures
            r == (self@ == other@),
    {
        hb_symmetric_difference_count(self, other) == 0
    }

    /// Whether this set holds exactly the ids listed in `observed`
    /// (repetitions in `observed` do not matter).
    pub fn matches(&self, observed: &Vec<u128>) -> (r: bool)
        ensures
            r == (self@ == id_set_of(observed@)),
    {
        let other = IdSet::from_ids(observed);
        self.same_ids(&other)
    }

    /// The ids held, each once, in no particular order.
    pub fn to_vec(&self) -> (r: Vec<u128>)
        ensures
            r@.no_duplicates(),
            id_set_of(r@) == self@,
    {
        hb_to_vec(self)
    }
}

/// Adding one element at the end of a sequence adds it to the sequence's set.
pub proof fn lemma_to_set_push(s: Seq<u128>, v: u128)
    ensures
        s.push(v).to_set() == s.to_set().insert(v),
{
    assert(s.push(v).to_set() =~= s.to_set().insert(v)) by {
        assert forall|x: u128| s.push(v).to_set().contains(x) implies s.to_set().insert(v).contains(x) by {
            let k = choose|k: int| 0 <= k < s.push(v).len() && s.push(v)[k] == x;
            if k < s.len() {
                assert(s[k] == x);
            }
        }
        assert forall|x: u128| s.to_set().insert(v).contains(x) implies s.push(v).to_set().contains(x) by {
            if x == v {
                assert(s.push(v)[s.len() as int] == v);
            } else {
                let k = choose|k: int| 0 <= k < s.len() && s[k] == x;
                assert(s.push(v)[k] == x);
            }
        }
    }
}

} // verus!
