//! Per-pass dedup registry.
//!
//! One pass keeps three id collections: user ids already known to the store
//! (preloaded at pass start), user ids newly discovered while resolving
//! identities, and page ids resolved during the catalog phase (the liveness
//! set). Every identity-resolving task consults and mutates one shared
//! registry; each read-check-then-insert is a single atomic operation, so a
//! previously unknown id queues exactly one creation task however many tasks
//! observe it. The registry is created at pass start and discarded at pass
//! end; nothing here is ambient global state.
use vstd::prelude::*;

verus! {

/// Whether `v` holds `id`.
fn vec_contains_i32(v: &Vec<i32>, id: i32) -> (r: bool)
    ensures
        r == v@.contains(id),
{
    let mut i: usize = 0;
    while i < v.len()
        invariant
            0 <= i <= v@.len(),
            forall|j: int| 0 <= j < i ==> v@[j] != id,
        decreases v@.len() - i,
    {
        if v[i] == id {
            return true;
        }
        i += 1;
    }
    false
}

/// The shared id sets of one pass.
pub struct DedupRegistry {
    known: Vec<i32>,
    discovered: Vec<i32>,
    pages: Vec<i32>,
}

impl DedupRegistry {
    /// The user id is already known to the store.
    pub open spec fn is_known(self, id: i32) -> bool {
        self.spec_known().contains(id)
    }

    /// The user id was discovered during this pass.
    pub open spec fn is_discovered(self, id: i32) -> bool {
        self.spec_discovered().contains(id)
    }

    /// The ids discovered during this pass, in discovery order.
    pub closed spec fn spec_discovered(self) -> Seq<i32> {
        self.discovered@
    }

    /// The page ids resolved during this pass, in resolution order.
    pub closed spec fn spec_pages(self) -> Seq<i32> {
        self.pages@
    }

    /// The preloaded known ids.
    pub closed spec fn spec_known(self) -> Seq<i32> {
        self.known@
    }

    /// A fresh registry for one pass, preloaded with the ids the store
    /// already holds.
    pub fn new(known: Vec<i32>) -> (r: Self)
        ensures
            r.spec_known() == known@,
            r.spec_discovered() == Seq::<i32>::empty(),
            r.spec_pages() == Seq::<i32>::empty(),
    {
        DedupRegistry { known, discovered: Vec::new(), pages: Vec::new() }
    }

    /// One atomic read-check-then-insert on the discovered set: marks `id`
    /// newly discovered and answers `true` exactly when it was in neither
    /// set, so at most one observation of an id ever queues a creation.
    pub fn observe_user(&mut self, id: i32) -> (queued: bool)
        ensures
            queued == (!old(self).is_known(id) && !old(self).is_discovered(id)),
            final(self).spec_known() == old(self).spec_known(),
            final(self).spec_pages() == old(self).spec_pages(),
            final(self).spec_discovered() == if (!old(self).is_known(id) && !old(
                self,
            ).is_discovered(id)) {
                old(self).spec_discovered().push(id)
            } else {
                old(self).spec_discovered()
            },
    {
        if !vec_contains_i32(&self.known, id) && !vec_contains_i32(&self.discovered, id) {
            self.discovered.push(id);
            true
        } else {
            false
        }
    }

    /// Records a page id resolved during this pass, for the end-of-pass
    /// liveness computation.
    pub fn note_page(&mut self, id: i32)
        ensures
            final(self).spec_pages() == old(self).spec_pages().push(id),
            final(self).spec_known() == old(self).spec_known(),
            final(self).spec_discovered() == old(self).spec_discovered(),
    {
        self.pages.push(id);
    }

    /// The ids newly discovered so far, for the user-creation phase.
    pub fn discovered_ids(&self) -> (r: &Vec<i32>)
        ensures
            r@ == self.spec_discovered(),
    {
        &self.discovered
    }

    /// The page ids resolved so far, for the liveness step.
    pub fn page_ids(&self) -> (r: &Vec<i32>)
        ensures
            r@ == self.spec_pages(),
    {
        &self.pages
    }
}

/// Whether one observation of `id` queues a creation, given the known set
/// and the discovered set at that moment.
pub open spec fn observe_queues(known: Seq<i32>, discovered: Seq<i32>, id: i32) -> bool {
    !known.contains(id) && !discovered.contains(id)
}

/// The discovered set after a sequence of observations has run, in order.
pub open spec fn discovered_after(known: Seq<i32>, discovered0: Seq<i32>, ids: Seq<i32>) -> Seq<
    i32,
>
    decreases ids.len(),
{
    if ids.len() == 0 {
        discovered0
    } else {
        let d = discovered_after(known, discovered0, ids.drop_last());
        if observe_queues(known, d, ids.last()) {
            d.push(ids.last())
        } else {
            d
        }
    }
}

/// How many of the observations in `ids` queue a creation for `id`.
pub open spec fn queue_count(known: Seq<i32>, discovered0: Seq<i32>, ids: Seq<i32>, id: i32) -> int
    decreases ids.len(),
{
    if ids.len() == 0 {
        0
    } else {
        let d = discovered_after(known, discovered0, ids.drop_last());
        queue_count(known, discovered0, ids.drop_last(), id) + if ids.last() == id
            && observe_queues(known, d, ids.last()) {
            1int
        } else {
            0int
        }
    }
}

/// Dedup atomicity: however many observations of the same id run during one
/// pass, and in whatever order they interleave with observations of other
/// ids, a creation task is queued for that id at most once — exactly once
/// when the id was previously unknown and is observed at all, and never
/// when the store already knew it.
pub proof fn lemma_dedup_atomic(known: Seq<i32>, discovered0: Seq<i32>, ids: Seq<i32>, id: i32)
    ensures
        0 <= queue_count(known, discovered0, ids, id) <= 1,
        discovered_after(known, discovered0, ids).contains(id) <==> (discovered0.contains(id)
            || queue_count(known, discovered0, ids, id) == 1),
        (known.contains(id) || discovered0.contains(id)) ==> queue_count(
            known,
            discovered0,
            ids,
            id,
        ) == 0,
        (!known.contains(id) && !discovered0.contains(id)) ==> (queue_count(
            known,
            discovered0,
            ids,
            id,
        ) == 1 <==> ids.contains(id)),
    decreases ids.len(),
{
    if ids.len() > 0 {
        let prefix = ids.drop_last();
        let x = ids.last();
        let d = discovered_after(known, discovered0, prefix);
        lemma_dedup_atomic(known, discovered0, prefix, id);
        assert(ids.contains(id) <==> (prefix.contains(id) || x == id)) by {
            if ids.contains(id) {
                let i = choose|i: int| 0 <= i < ids.len() && ids[i] == id;
                if i < ids.len() - 1 {
                    assert(prefix[i] == id);
                }
            }
            if prefix.contains(id) {
                let i = choose|i: int| 0 <= i < prefix.len() && prefix[i] == id;
                assert(ids[i] == id);
            }
            if x == id {
                assert(ids[ids.len() - 1] == id);
            }
        }
        if observe_queues(known, d, x) {
            assert(discovered_after(known, discovered0, ids) == d.push(x));
            assert(d.push(x).contains(id) <==> (d.contains(id) || x == id)) by {
                if d.push(x).contains(id) {
                    let i = choose|i: int| 0 <= i < d.push(x).len() && d.push(x)[i] == id;
                    if i < d.len() {
                        assert(d[i] == id);
                    }
                }
                if d.contains(id) {
                    let i = choose|i: int| 0 <= i < d.len() && d[i] == id;
                    assert(d.push(x)[i] == id);
                }
                if x == id {
                    assert(d.push(x)[d.len() as int] == id);
                }
            }
            if x == id {
                assert(!d.contains(id));
                assert(queue_count(known, discovered0, prefix, id) == 0);
                assert(queue_count(known, discovered0, ids, id) == 1);
            } else {
                assert(queue_count(known, discovered0, ids, id) == queue_count(
                    known,
                    discovered0,
                    prefix,
                    id,
                ));
            }
        } else {
            assert(discovered_after(known, discovered0, ids) == d);
            assert(queue_count(known, discovered0, ids, id) == queue_count(
                known,
                discovered0,
                prefix,
                id,
            ));
            if x == id {
                assert(known.contains(id) || d.contains(id));
            }
        }
    }
}

} // verus!
