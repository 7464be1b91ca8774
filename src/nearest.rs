//! The closest-hit scan that a scene or a mesh runs over its objects.
//!
//! Ray parameters enter as order keys: for non-negative distances the key
//! orders exactly as the distance does, so the scan compares keys only.

use vstd::prelude::*;

verus! {

broadcast use vstd::seq_lib::group_to_multiset_ensures;

/// An answer lies in the open window `(t_min, t_max)`.
pub open spec fn in_window(h: Option<u64>, t_min: u64, t_max: u64) -> bool {
    match h {
        Some(t) => t_min < t && t < t_max,
        None => false,
    }
}

/// Some answer of the list lies in the window.
pub open spec fn has_hit(hits: Seq<Option<u64>>, t_min: u64, t_max: u64) -> bool {
    exists|j: int| 0 <= j < hits.len() && #[trigger] in_window(hits[j], t_min, t_max)
}

/// `t` is the smallest answer of the list inside the window.
pub open spec fn is_nearest(hits: Seq<Option<u64>>, t_min: u64, t_max: u64, t: u64) -> bool {
    &&& hits.contains(Some(t))
    &&& in_window(Some(t), t_min, t_max)
    &&& forall|j: int|
        0 <= j < hits.len() && #[trigger] in_window(hits[j], t_min, t_max) ==> t <= hits[j]->0
}

/// State of one closest-hit scan: every object is asked for a hit inside
/// `(t_min, closest)`, and the window shrinks to each hit accepted.
pub struct NearestHit {
    pub t_min: u64,
    pub closest: u64,
    pub best: Option<usize>,
}

impl NearestHit {
    /// Starts a scan over the window `(t_min, t_max)`.
    pub fn new(t_min: u64, t_max: u64) -> (r: Self)
        ensures
            r.t_min == t_min,
            r.closest == t_max,
            r.best is None,
    {
        NearestHit { t_min, closest: t_max, best: None }
    }

    /// The window to ask the next object about.
    pub fn window(&self) -> (r: (u64, u64))
        ensures
            r == (self.t_min, self.closest),
    {
        (self.t_min, self.closest)
    }

    /// Takes the answer of object `index`; keeps it when it lies inside the
    /// current window, which then shrinks to it.
    pub fn offer(&mut self, index: usize, t: Option<u64>) -> (accepted: bool)
        ensures
            accepted == in_window(t, old(self).t_min, old(self).closest),
            accepted ==> final(self).t_min == old(self).t_min && final(self).closest == t->0
                && final(self).best == Some(index),
            !accepted ==> *final(self) == *old(self),
    {
        match t {
            Some(k) => {
                if self.t_min < k && k < self.closest {
                    self.closest = k;
                    self.best = Some(index);
                    true
                } else {
                    false
                }
            },
            None => false,
        }
    }
}

/// Runs the scan over the answers of all objects, in list order, and returns
/// the position of the nearest one; of equal nearest answers the first wins.
pub fn nearest_of(hits: &Vec<Option<u64>>, t_min: u64, t_max: u64) -> (r: Option<usize>)
    ensures
        r is None <==> !has_hit(hits@, t_min, t_max),
        r matches Some(i) ==> {
            &&& i < hits@.len()
            &&& in_window(hits@[i as int], t_min, t_max)
            &&& is_nearest(hits@, t_min, t_max, hits@[i as int]->0)
            &&& forall|j: int|
                0 <= j < i && #[trigger] in_window(hits@[j], t_min, t_max) ==> hits@[i as int]->0
                    < hits@[j]->0
        },
{
    let mut scan = NearestHit::new(t_min, t_max);
    let mut k: usize = 0;
    while k < hits.len()
        invariant
            k <= hits@.len(),
            scan.t_min == t_min,
            scan.closest <= t_max,
            scan.best is None ==> scan.closest == t_max && forall|j: int|
                0 <= j < k ==> !#[trigger] in_window(hits@[j], t_min, t_max),
            scan.best matches Some(i) ==> {
                &&& i < k
                &&& hits@[i as int] == Some(scan.closest)
                &&& in_window(hits@[i as int], t_min, t_max)
                &&& forall|j: int|
                    0 <= j < k && #[trigger] in_window(hits@[j], t_min, t_max) ==> scan.closest
                        <= hits@[j]->0
                &&& forall|j: int|
                    0 <= j < i && #[trigger] in_window(hits@[j], t_min, t_max) ==> scan.closest
                        < hits@[j]->0
            },
        decreases hits@.len() - k,
    {
        scan.offer(k, hits[k]);
        k += 1;
    }
    proof {
        if let Some(i) = scan.best {
            assert(hits@.contains(hits@[i as int]));
        } else {
            assert(!has_hit(hits@, t_min, t_max));
        }
    }
    scan.best
}

/// The nearest answer does not depend on the order in which the objects are
/// listed: two lists holding the same answers have the same nearest one, and
/// one has a hit in the window exactly when the other has.
pub proof fn lemma_nearest_order_free(
    a: Seq<Option<u64>>,
    b: Seq<Option<u64>>,
    t_min: u64,
    t_max: u64,
    t: u64,
)
    requires
        a.to_multiset() == b.to_multiset(),
    ensures
        is_nearest(a, t_min, t_max, t) <==> is_nearest(b, t_min, t_max, t),
        has_hit(a, t_min, t_max) <==> has_hit(b, t_min, t_max),
{
    assert forall|x: Option<u64>| a.contains(x) <==> b.contains(x) by {
        vstd::seq_lib::to_multiset_contains(a, x);
        vstd::seq_lib::to_multiset_contains(b, x);
    }
    lemma_same_elements(a, b, t_min, t_max, t);
    lemma_same_elements(b, a, t_min, t_max, t);
}

proof fn lemma_same_elements(a: Seq<Option<u64>>, b: Seq<Option<u64>>, t_min: u64, t_max: u64, t: u64)
    requires
        forall|x: Option<u64>| a.contains(x) <==> b.contains(x),
    ensures
        is_nearest(a, t_min, t_max, t) ==> is_nearest(b, t_min, t_max, t),
        has_hit(a, t_min, t_max) ==> has_hit(b, t_min, t_max),
{
    if is_nearest(a, t_min, t_max, t) {
        assert forall|j: int| 0 <= j < b.len() && #[trigger] in_window(b[j], t_min, t_max) implies t
            <= b[j]->0 by {
            assert(b.contains(b[j]));
            let i = choose|i: int| 0 <= i < a.len() && a[i] == b[j];
            assert(in_window(a[i], t_min, t_max));
        }
    }
    if has_hit(a, t_min, t_max) {
        let j = choose|j: int| 0 <= j < a.len() && #[trigger] in_window(a[j], t_min, t_max);
        assert(a.contains(a[j]));
        let i = choose|i: int| 0 <= i < b.len() && b[i] == a[j];
        assert(in_window(b[i], t_min, t_max));
    }
}

} // verus!
