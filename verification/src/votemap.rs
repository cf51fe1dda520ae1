//! The vote mapping of one tally entry: voter id to signed vote.
//!
//! A tally is a finite map from voter id to a vote in {-1, 0, +1}. It is
//! kept as a vector of pairs with unique keys, so that records serialize
//! deterministically in insertion order; its mathematical view is the map
//! itself.
use vstd::prelude::*;

verus! {

/// The map denoted by an association list; a later entry for the same key
/// would win, and well-formed lists have no such entry.
pub open spec fn map_of(entries: Seq<(i32, i8)>) -> Map<i32, i8>
    decreases entries.len(),
{
    if entries.len() == 0 {
        Map::empty()
    } else {
        map_of(entries.drop_last()).insert(entries.last().0, entries.last().1)
    }
}

/// A key occurs in the map exactly when some entry carries it.
pub proof fn lemma_map_of_key(entries: Seq<(i32, i8)>, k: i32)
    ensures
        map_of(entries).contains_key(k) <==> exists|i: int|
            0 <= i < entries.len() && (#[trigger] entries[i]).0 == k,
    decreases entries.len(),
{
    if entries.len() > 0 {
        lemma_map_of_key(entries.drop_last(), k);
        if entries.last().0 == k {
            assert(entries[entries.len() - 1].0 == k);
        } else if map_of(entries).contains_key(k) {
            let i = choose|i: int|
                0 <= i < entries.drop_last().len() && (#[trigger] entries.drop_last()[i]).0 == k;
            assert(entries[i].0 == k);
        } else {
            assert forall|i: int|
                0 <= i < entries.len() && (#[trigger] entries[i]).0 == k implies false by {
                if i < entries.len() - 1 {
                    assert(entries.drop_last()[i].0 == k);
                }
            }
        }
    }
}

/// In a list with unique keys, the entry holding a key gives its value.
pub proof fn lemma_map_of_get(entries: Seq<(i32, i8)>, i: int)
    requires
        0 <= i < entries.len(),
        forall|p: int, q: int|
            0 <= p < q < entries.len() ==> (#[trigger] entries[p]).0 != (#[trigger] entries[q]).0,
    ensures
        map_of(entries).contains_key(entries[i].0),
        map_of(entries)[entries[i].0] == entries[i].1,
    decreases entries.len(),
{
    if i == entries.len() - 1 {
        assert(entries[i] == entries.last());
    } else {
        let t = entries.drop_last();
        assert(forall|p: int, q: int|
            0 <= p < q < t.len() ==> (#[trigger] t[p]).0 != (#[trigger] t[q]).0) by {
            assert(forall|p: int| 0 <= p < t.len() ==> t[p] == entries[p]);
        }
        lemma_map_of_get(t, i);
        assert(entries.last().0 != entries[i].0);
    }
}

/// One tally's vote mapping.
#[derive(Clone, Debug)]
pub struct VoteMap {
    entries: Vec<(i32, i8)>,
}

impl View for VoteMap {
    type V = Map<i32, i8>;

    closed spec fn view(&self) -> Map<i32, i8> {
        map_of(self.entries@)
    }
}

impl VoteMap {
    /// The entries in insertion order.
    pub closed spec fn spec_entries(self) -> Seq<(i32, i8)> {
        self.entries@
    }

    /// Well-formed: no voter occurs twice.
    pub open spec fn wf(self) -> bool {
        forall|p: int, q: int|
            0 <= p < q < self.spec_entries().len() ==> (#[trigger] self.spec_entries()[p]).0 != (
            #[trigger] self.spec_entries()[q]).0
    }

    /// An empty tally.
    pub fn new() -> (r: Self)
        ensures
            r.wf(),
            r@ == Map::<i32, i8>::empty(),
            r.spec_entries() == Seq::<(i32, i8)>::empty(),
    {
        VoteMap { entries: Vec::new() }
    }

    /// How many voters the tally holds.
    pub fn len(&self) -> (r: usize)
        ensures
            r == self.spec_entries().len(),
    {
        self.entries.len()
    }

    /// Whether the tally holds no voter at all; equivalently, whether its
    /// map is empty.
    pub fn is_empty(&self) -> (r: bool)
        ensures
            r == (self.spec_entries().len() == 0),
            r == (self@ == Map::<i32, i8>::empty()),
    {
        proof {
            if self.entries@.len() > 0 {
                assert(self@.contains_key(self.entries@.last().0));
                assert(!Map::<i32, i8>::empty().contains_key(self.entries@.last().0));
            } else {
                assert(self@ == Map::<i32, i8>::empty());
            }
        }
        self.entries.len() == 0
    }

    /// The entry list, for persistence.
    pub fn entries(&self) -> (r: &Vec<(i32, i8)>)
        ensures
            r@ == self.spec_entries(),
    {
        &self.entries
    }

    /// The vote recorded for a voter, when there is one.
    pub fn get(&self, id: i32) -> (r: Option<i8>)
        requires
            self.wf(),
        ensures
            match r {
                Some(v) => self@.contains_key(id) && self@[id] == v,
                None => !self@.contains_key(id),
            },
    {
        let mut i: usize = 0;
        while i < self.entries.len()
            invariant
                0 <= i <= self.entries@.len(),
                self.wf(),
                self.entries@ == self.spec_entries(),
                forall|j: int| 0 <= j < i ==> (#[trigger] self.entries@[j]).0 != id,
            decreases self.entries@.len() - i,
        {
            if self.entries[i].0 == id {
                proof {
                    lemma_map_of_get(self.entries@, i as int);
                }
                return Some(self.entries[i].1);
            }
            i += 1;
        }
        proof {
            lemma_map_of_key(self.entries@, id);
        }
        None
    }

    /// Records a voter's vote, replacing any earlier entry for the voter.
    pub fn insert(&mut self, id: i32, v: i8)
        requires
            old(self).wf(),
        ensures
            final(self).wf(),
            final(self)@ == old(self)@.insert(id, v),
            final(self).spec_entries().len() <= old(self).spec_entries().len() + 1,
    {
        let ghost entries0 = self.entries@;
        proof {
            assert forall|p: int, q: int|
                0 <= p < q < entries0.len() implies (#[trigger] entries0[p]).0 != (
            #[trigger] entries0[q]).0 by {
                assert(old(self).spec_entries()[p] == entries0[p]);
                assert(old(self).spec_entries()[q] == entries0[q]);
            }
        }
        let mut i: usize = 0;
        while i < self.entries.len()
            invariant
                0 <= i <= self.entries@.len(),
                self.entries@ == entries0,
                entries0 == old(self).spec_entries(),
                old(self)@ == map_of(entries0),
                forall|p: int, q: int|
                    0 <= p < q < entries0.len() ==> (#[trigger] entries0[p]).0 != (
                    #[trigger] entries0[q]).0,
                forall|j: int| 0 <= j < i ==> (#[trigger] entries0[j]).0 != id,
            decreases self.entries@.len() - i,
        {
            if self.entries[i].0 == id {
                self.entries.set(i, (id, v));
                proof {
                    lemma_map_of_update(entries0, i as int, id, v);
                }
                return ;
            }
            i += 1;
        }
        self.entries.push((id, v));
        proof {
            assert(self.entries@.drop_last() =~= entries0);
            lemma_map_of_key(entries0, id);
            assert(forall|p: int, q: int|
                0 <= p < q < self.entries@.len() ==> (#[trigger] self.entries@[p]).0 != (
                #[trigger] self.entries@[q]).0) by {
                assert(forall|p: int|
                    0 <= p < entries0.len() ==> self.entries@[p] == entries0[p]);
                assert(self.entries@[self.entries@.len() - 1].0 == id);
            }
        }
    }
}

/// Replacing the entry that holds a key updates the map at that key alone.
proof fn lemma_map_of_update(entries: Seq<(i32, i8)>, i: int, id: i32, v: i8)
    requires
        0 <= i < entries.len(),
        entries[i].0 == id,
        forall|p: int, q: int|
            0 <= p < q < entries.len() ==> (#[trigger] entries[p]).0 != (#[trigger] entries[q]).0,
    ensures
        map_of(entries.update(i, (id, v))) == map_of(entries).insert(id, v),
        forall|p: int, q: int|
            0 <= p < q < entries.update(i, (id, v)).len() ==> (#[trigger] entries.update(
                i,
                (id, v),
            )[p]).0 != (#[trigger] entries.update(i, (id, v))[q]).0,
    decreases entries.len(),
{
    let u = entries.update(i, (id, v));
    assert(forall|p: int, q: int|
        0 <= p < q < u.len() ==> (#[trigger] u[p]).0 != (#[trigger] u[q]).0) by {
        assert(forall|p: int| 0 <= p < u.len() && p != i ==> u[p] == entries[p]);
        assert(u[i].0 == entries[i].0);
    }
    if i == entries.len() - 1 {
        assert(u.drop_last() =~= entries.drop_last());
        assert(map_of(u) == map_of(entries.drop_last()).insert(id, v));
        assert(map_of(entries) == map_of(entries.drop_last()).insert(id, entries.last().1));
        assert(map_of(entries).insert(id, v) =~= map_of(entries.drop_last()).insert(id, v));
    } else {
        let t = entries.drop_last();
        assert(forall|p: int, q: int|
            0 <= p < q < t.len() ==> (#[trigger] t[p]).0 != (#[trigger] t[q]).0) by {
            assert(forall|p: int| 0 <= p < t.len() ==> t[p] == entries[p]);
        }
        lemma_map_of_update(t, i, id, v);
        assert(u.drop_last() =~= t.update(i, (id, v)));
        assert(u.last() == entries.last());
        // The final key differs from id, so the two inserts commute.
        assert(entries.last().0 != id);
        assert(map_of(u) == map_of(t).insert(id, v).insert(entries.last().0, entries.last().1));
        assert(map_of(t).insert(id, v).insert(entries.last().0, entries.last().1)
            =~= map_of(t).insert(entries.last().0, entries.last().1).insert(id, v));
    }
}

} // verus!
