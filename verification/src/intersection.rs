//! Intersections of a ray with the objects of a scene: an ordered collection
//! of ray distances, and the selection of the hit — the first intersection
//! at or in front of the ray's origin.
//!
//! A distance along the ray is carried as a `u64` order key supplied by the
//! host's numeric layer; the encoding is required to preserve the order of
//! the measured distances. Keys at or above [`T_ZERO`] stand for distances
//! that are zero or greater; [`T_NAN`] stands for an undefined distance and
//! sorts after every defined one. Objects are named by their index in the
//! scene's object list.

use vstd::prelude::*;

verus! {

/// Order key of the distance zero: keys at or above it lie on or in front of
/// the ray's origin.
pub const T_ZERO: u64 = 0x8000_0000_0000_0000;

/// Order key of an undefined distance; it is larger than the key of any
/// defined distance and is never a hit.
pub const T_NAN: u64 = 0xFFFF_FFFF_FFFF_FFFF;

/// One crossing of a ray with one object: the distance's order key and the
/// index of the object in the scene's object list.
#[derive(Debug, Clone, Copy, PartialEq, Eq, Structural)]
pub struct Intersection {
    /// Order key of the distance from the ray's origin to the crossing.
    pub t: u64,
    /// Index of the intersected object in the scene's object list.
    pub object: usize,
}

/// A defined, non-negative distance: the intersection lies on or in front of
/// the ray's origin and may be the visible hit.
pub open spec fn is_hit(i: Intersection) -> bool {
    T_ZERO <= i.t < T_NAN
}

/// Ascending by distance key.
pub open spec fn sorted_by_t(s: Seq<Intersection>) -> bool {
    forall|i: int, j: int| 0 <= i <= j < s.len() ==> s[i].t <= s[j].t
}

impl Intersection {
    pub fn new(t: u64, object: usize) -> (r: Intersection)
        ensures
            r == (Intersection { t, object }),
    {
        Intersection { t, object }
    }

    pub fn t(&self) -> (r: u64)
        ensures
            r == self.t,
    {
        self.t
    }

    pub fn object(&self) -> (r: usize)
        ensures
            r == self.object,
    {
        self.object
    }
}

/// The intersections of one ray with a scene, in the order they were found
/// until [`Intersections::sort`] puts them in ascending distance order.
#[derive(Debug)]
pub struct Intersections {
    intersections: Vec<Intersection>,
}

impl Intersections {
    /// The collected intersections, in collection order.
    pub closed spec fn view(&self) -> Seq<Intersection> {
        self.intersections@
    }

    pub fn new() -> (r: Intersections)
        ensures
            r@ == Seq::<Intersection>::empty(),
    {
        Intersections { intersections: Vec::new() }
    }

    /// Replaces the collection with the given list.
    pub fn with_intersections(self, intersections: Vec<Intersection>) -> (r: Intersections)
        ensures
            r@ == intersections@,
    {
        Intersections { intersections }
    }

    /// Records a crossing of `object` at distance key `t`.
    pub fn push(&mut self, object: usize, t: u64)
        ensures
            final(self)@ == old(self)@.push(Intersection { t, object }),
    {
        self.intersections.push(Intersection::new(t, object));
    }

    /// Appends another ray-object crossing list, keeping order.
    pub fn extend(&mut self, other: Intersections)
        ensures
            final(self)@ == old(self)@ + other@,
    {
        let mut other = other;
        self.intersections.append(&mut other.intersections);
    }

    pub fn count(&self) -> (r: usize)
        ensures
            r == self@.len(),
    {
        self.intersections.len()
    }

    /// The intersection at position `index` in collection order.
    pub fn get(&self, index: usize) -> (r: Intersection)
        requires
            index < self@.len(),
        ensures
            r == self@[index as int],
    {
        self.intersections[index]
    }

    /// The visible hit: the first intersection in collection order whose
    /// distance is defined and not behind the ray's origin. On a sorted
    /// collection this is the nearest such crossing.
    pub fn hit(&self) -> (r: Option<Intersection>)
        ensures
            match r {
                Some(h) => exists|j: int|
                    0 <= j < self@.len() && h == self@[j] && is_hit(self@[j])
                        && (forall|k: int| 0 <= k < j ==> !is_hit(self@[k])),
                None => forall|k: int| 0 <= k < self@.len() ==> !is_hit(self@[k]),
            },
    {
        let n = self.intersections.len();
        let mut i: usize = 0;
        while i < n
            invariant
                0 <= i <= n,
                n == self@.len(),
                forall|k: int| 0 <= k < i ==> !is_hit(self@[k]),
            decreases n - i,
        {
            let c = self.intersections[i];
            if T_ZERO <= c.t && c.t < T_NAN {
                return Some(c);
            }
            i += 1;
        }
        None
    }

    /// Reorders the collection ascending by distance key; the same crossings,
    /// as a multiset, remain.
    pub fn sort(self) -> (r: Intersections)
        ensures
            r@.len() == self@.len(),
            r@.to_multiset() == self@.to_multiset(),
            sorted_by_t(r@),
    {
        let v = self.intersections;
        let mut out: Vec<Intersection> = Vec::new();
        let mut idx: usize = 0;
        proof {
            broadcast use vstd::seq_lib::group_to_multiset_ensures;

            assert(v@.take(0) =~= Seq::<Intersection>::empty());
            assert(out@.to_multiset() =~= v@.take(0).to_multiset());
        }
        while idx < v.len()
            invariant
                0 <= idx <= v@.len(),
                out@.len() == idx,
                sorted_by_t(out@),
                out@.to_multiset() == v@.take(idx as int).to_multiset(),
            decreases v@.len() - idx,
        {
            let x = v[idx];
            let mut pos: usize = out.len();
            while pos > 0 && out[pos - 1].t > x.t
                invariant
                    0 <= pos <= out@.len(),
                    forall|k: int| pos <= k < out@.len() ==> out@[k].t > x.t,
                decreases pos,
            {
                pos -= 1;
            }
            let ghost out_before = out@;
            out.insert(pos, x);
            proof {
                broadcast use vstd::seq_lib::group_to_multiset_ensures;

                assert(out@ == out_before.insert(pos as int, x));
                assert(out@.to_multiset() == out_before.to_multiset().insert(x));
                assert(v@.take(idx + 1).drop_last() =~= v@.take(idx as int));
                assert(v@.take(idx + 1) =~= v@.take(idx as int).push(x));
                assert(v@.take(idx as int).push(x).to_multiset() =~= v@.take(
                    idx as int,
                ).to_multiset().insert(x));
                assert forall|i: int, j: int| 0 <= i <= j < out@.len() implies out@[i].t
                    <= out@[j].t by {
                    if i < pos && j >= pos {
                        if j > pos {
                            assert(out@[j] == out_before[j - 1]);
                        }
                        if pos < out_before.len() {
                            assert(out_before[pos as int].t > x.t);
                        }
                        assert(out@[i] == out_before[i]);
                        if pos > 0 {
                            assert(out_before[pos - 1].t <= x.t);
                        }
                    }
                }
            }
            idx += 1;
        }
        proof {
            assert(v@.take(idx as int) =~= v@);
        }
        Intersections { intersections: out }
    }
}

/// Law: on a collection sorted ascending by distance, the hit — the first
/// intersection in collection order on or in front of the ray's origin — is
/// also the nearest such crossing.
pub proof fn lemma_hit_on_sorted_is_nearest(s: Seq<Intersection>, j: int)
    requires
        sorted_by_t(s),
        0 <= j < s.len(),
        is_hit(s[j]),
        forall|k: int| 0 <= k < j ==> !is_hit(s[k]),
    ensures
        forall|k: int| 0 <= k < s.len() && is_hit(s[k]) ==> s[j].t <= s[k].t,
{
    assert forall|k: int| 0 <= k < s.len() && is_hit(s[k]) implies s[j].t <= s[k].t by {
        if k < j {
            assert(!is_hit(s[k]));
        }
    }
}

impl Default for Intersections {
    fn default() -> (r: Intersections)
        ensures
            r@ == Seq::<Intersection>::empty(),
    {
        Intersections::new()
    }
}

} // verus!
