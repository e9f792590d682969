//! The bounding-volume hierarchy: a flat array of nodes over an index
//! array into the (unreordered) primitive list.
//!
//! A node covers a contiguous range of the index array; an interior node's
//! children partition its range, and every covered primitive's box lies
//! inside the node's box.  Because a primitive only ever reports a hit
//! that passes its own box's slab test, and the slab test is monotone
//! under box enlargement, pruning a subtree whose box the ray misses
//! discards no hit — which is what makes the traversal provably equal to
//! the brute-force scan.

use vstd::prelude::*;
use vstd::pervasive::unreached;
use crate::math::Fixed;
use crate::ray::{Ray, ray_ok};
use crate::aabb::{AABB, box_ok, slab_hit, spec_contains, lemma_slab_monotone,
    lemma_contains_trans};
use crate::primitives::{Primitive, prim_wf, spec_prim_aabb};
use crate::tracing::{Hit, hit_ok, closer, spec_prim_int, lemma_prim_int_ok, pick_closer,
    PrimitiveTrait};

verus! {

/// The selectable split heuristics.
#[derive(Clone, Copy, PartialEq, Eq, Structural, Debug)]
pub enum SplitType {
    /// Split at the spatial midpoint of the longest axis.
    Middle,
    /// Sort by centroid and split at the median index.
    EqualCounts,
    /// Sort by centroid and pick the split minimizing the surface-area
    /// cost estimate.
    Sah,
}

/// A leaf covers its range directly; an interior node hands it to two
/// children.
#[derive(Clone, Copy, PartialEq, Eq, Structural, Debug)]
pub enum NodeKind {
    Leaf,
    Interior { left: usize, right: usize },
}

/// One node of the flat tree: a box over a contiguous range of the index
/// array.
#[derive(Clone, Copy, PartialEq, Eq, Structural, Debug)]
pub struct Node {
    pub bbox: AABB,
    pub start: usize,
    pub len: usize,
    pub kind: NodeKind,
}

/// The acceleration structure.  `primitives` keeps the caller's order;
/// the tree permutes only the `indices` array.
pub struct Bvh {
    pub nodes: Vec<Node>,
    pub indices: Vec<usize>,
    pub primitives: Vec<Primitive>,
}

/// The brute-force scan: the nearest hit over `prims[lo..hi]`, earlier
/// index winning ties.
pub open spec fn scan_prims(prims: Seq<Primitive>, r: Ray, lo: int, hi: int) -> Option<Hit>
    decreases hi - lo,
{
    if hi <= lo {
        Option::None
    } else {
        closer(scan_prims(prims, r, lo, hi - 1), spec_prim_int(prims[hi - 1], r))
    }
}

/// The scan in index-array order over positions `lo..hi`.
pub open spec fn scan_idx(
    prims: Seq<Primitive>,
    idxs: Seq<usize>,
    r: Ray,
    lo: int,
    hi: int,
) -> Option<Hit>
    decreases hi - lo,
{
    if hi <= lo {
        Option::None
    } else {
        closer(scan_idx(prims, idxs, r, lo, hi - 1), spec_prim_int(prims[idxs[hi - 1] as int], r))
    }
}

/// Well-formedness of the subtree rooted at node `i`: ranges in bounds,
/// children partitioning the parent's range at larger node indices, and
/// the node box containing every covered primitive's box.
pub open spec fn subtree_wf(nodes: Seq<Node>, prims: Seq<Primitive>, idxs: Seq<usize>, i: int) -> bool
    decreases nodes.len() - i,
{
    0 <= i < nodes.len() && {
        let n = nodes[i];
        &&& box_ok(n.bbox)
        &&& n.start + n.len <= idxs.len()
        &&& (forall|p: int|
            n.start <= p < n.start + n.len ==> (#[trigger] idxs[p]) < prims.len()
                && spec_contains(n.bbox, spec_prim_aabb(prims[idxs[p] as int])))
        &&& match n.kind {
            NodeKind::Leaf => true,
            NodeKind::Interior { left, right } => {
                &&& i < left < nodes.len()
                &&& i < right < nodes.len()
                &&& nodes[left as int].start == n.start
                &&& nodes[left as int].len + nodes[right as int].len == n.len
                &&& nodes[right as int].start == n.start + nodes[left as int].len
                &&& subtree_wf(nodes, prims, idxs, left as int)
                &&& subtree_wf(nodes, prims, idxs, right as int)
            },
        }
    }
}

/// Well-formedness of the whole structure.
pub open spec fn bvh_wf(b: Bvh) -> bool {
    &&& forall|j: int| 0 <= j < b.primitives@.len() ==> prim_wf(#[trigger] b.primitives@[j])
    &&& b.indices@.len() == b.primitives@.len()
    &&& forall|p: int| 0 <= p < b.indices@.len() ==> (#[trigger] b.indices@[p]) < b.primitives@.len()
    &&& forall|v: usize| v < b.primitives@.len() ==> #[trigger] b.indices@.contains(v)
    &&& b.primitives@.len() > 0 ==> b.nodes@.len() > 0 && subtree_wf(
        b.nodes@,
        b.primitives@,
        b.indices@,
        0,
    ) && b.nodes@[0].start == 0 && b.nodes@[0].len == b.primitives@.len()
}

/// The structure's nearest hit, as a value: the index-order scan over the
/// whole index array.
pub open spec fn spec_nearest(b: Bvh, r: Ray) -> Option<Hit> {
    scan_idx(b.primitives@, b.indices@, r, 0, b.indices@.len() as int)
}

/// What an index-order scan promises: `None` means no covered primitive
/// hits; a hit is some covered primitive's hit, and no covered primitive
/// hits nearer.
pub proof fn lemma_scan_idx_props(prims: Seq<Primitive>, idxs: Seq<usize>, r: Ray, lo: int, hi: int)
    ensures
        scan_idx(prims, idxs, r, lo, hi) is None ==> forall|p: int|
            lo <= p < hi ==> spec_prim_int(prims[(#[trigger] idxs[p]) as int], r) is None,
        scan_idx(prims, idxs, r, lo, hi) matches Option::Some(h) ==> (exists|p: int|
            lo <= p < hi && Option::Some(h) == spec_prim_int(prims[(#[trigger] idxs[p]) as int], r))
            && (forall|p: int|
            lo <= p < hi && spec_prim_int(prims[(#[trigger] idxs[p]) as int], r) is Some
                ==> h.t <= spec_prim_int(prims[idxs[p] as int], r)->Some_0.t),
    decreases hi - lo,
{
    if hi > lo {
        lemma_scan_idx_props(prims, idxs, r, lo, hi - 1);
    }
}

/// The same promises for the direct-order scan.
pub proof fn lemma_scan_prims_props(prims: Seq<Primitive>, r: Ray, lo: int, hi: int)
    ensures
        scan_prims(prims, r, lo, hi) is None ==> forall|j: int|
            lo <= j < hi ==> spec_prim_int(#[trigger] prims[j], r) is None,
        scan_prims(prims, r, lo, hi) matches Option::Some(h) ==> (exists|j: int|
            lo <= j < hi && Option::Some(h) == spec_prim_int(#[trigger] prims[j], r)) && (forall|
            j: int,
        |
            lo <= j < hi && spec_prim_int(#[trigger] prims[j], r) is Some ==> h.t
                <= spec_prim_int(prims[j], r)->Some_0.t),
    decreases hi - lo,
{
    if hi > lo {
        lemma_scan_prims_props(prims, r, lo, hi - 1);
    }
}

/// An index scan may be split anywhere.
pub proof fn lemma_scan_idx_split(
    prims: Seq<Primitive>,
    idxs: Seq<usize>,
    r: Ray,
    lo: int,
    mid: int,
    hi: int,
)
    requires
        lo <= mid <= hi,
    ensures
        scan_idx(prims, idxs, r, lo, hi) == closer(
            scan_idx(prims, idxs, r, lo, mid),
            scan_idx(prims, idxs, r, mid, hi),
        ),
    decreases hi - mid,
{
    if mid < hi {
        lemma_scan_idx_split(prims, idxs, r, lo, mid, hi - 1);
    }
}

/// If the ray misses a node's box, no primitive the node covers hits, so
/// the scan over its range is `None`.
pub proof fn lemma_pruned_range_none(
    nodes: Seq<Node>,
    prims: Seq<Primitive>,
    idxs: Seq<usize>,
    r: Ray,
    i: int,
    lo: int,
    hi: int,
)
    requires
        subtree_wf(nodes, prims, idxs, i),
        forall|j: int| 0 <= j < prims.len() ==> prim_wf(#[trigger] prims[j]),
        nodes[i].start <= lo,
        hi <= nodes[i].start + nodes[i].len,
        !slab_hit(r, nodes[i].bbox),
    ensures
        scan_idx(prims, idxs, r, lo, hi) is None,
    decreases hi - lo,
{
    if lo < hi {
        lemma_pruned_range_none(nodes, prims, idxs, r, i, lo, hi - 1);
        let j = idxs[hi - 1] as int;
        lemma_prim_int_ok(prims[j], r);
        if spec_prim_int(prims[j], r) is Some {
            lemma_slab_monotone(r, spec_prim_aabb(prims[j]), nodes[i].bbox);
        }
    }
}

/// Scanning well-formed primitives yields a well-formed hit.
pub proof fn lemma_scan_idx_ok(prims: Seq<Primitive>, idxs: Seq<usize>, r: Ray, lo: int, hi: int)
    requires
        forall|j: int| 0 <= j < prims.len() ==> prim_wf(#[trigger] prims[j]),
        forall|p: int| lo <= p < hi ==> (#[trigger] idxs[p]) < prims.len(),
        0 <= lo,
        hi <= idxs.len(),
    ensures
        scan_idx(prims, idxs, r, lo, hi) matches Option::Some(h) ==> hit_ok(h),
    decreases hi - lo,
{
    if lo < hi {
        lemma_scan_idx_ok(prims, idxs, r, lo, hi - 1);
        lemma_prim_int_ok(prims[idxs[hi - 1] as int], r);
    }
}

impl Bvh {
    /// The nearest hit along the ray, or `None` when nothing is struck:
    /// exactly the result a brute-force linear scan over the caller's
    /// primitive list would give — `None` together, and otherwise hits at
    /// the same distance — whatever split heuristic built the tree.
    pub fn nearest_hit(&self, r: &Ray) -> (res: Option<Hit>)
        requires
            bvh_wf(*self),
            ray_ok(*r),
        ensures
            res == spec_nearest(*self, *r),
            res is Some <==> scan_prims(self.primitives@, *r, 0, self.primitives@.len() as int)
                is Some,
            res matches Option::Some(h) ==> hit_ok(h) && (scan_prims(
                self.primitives@,
                *r,
                0,
                self.primitives@.len() as int,
            ) matches Option::Some(g) && h.t == g.t),
    {
        let res: Option<Hit> = if self.primitives.len() == 0 {
            proof {
                assert(self.indices@.len() == 0);
            }
            Option::None
        } else {
            self.nearest_in(0, r)
        };
        proof {
            lemma_nearest_matches_scan(*self, *r);
            lemma_scan_idx_ok(
                self.primitives@,
                self.indices@,
                *r,
                0,
                self.indices@.len() as int,
            );
        }
        res
    }

    /// Whether anything is struck at all: true exactly when `nearest_hit`
    /// returns a hit.
    pub fn any_hit(&self, r: &Ray) -> (res: bool)
        requires
            bvh_wf(*self),
            ray_ok(*r),
        ensures
            res == spec_nearest(*self, *r).is_some(),
    {
        if self.primitives.len() == 0 {
            proof {
                assert(self.indices@.len() == 0);
            }
            false
        } else {
            self.any_in(0, r)
        }
    }

    /// Diagnostic: how many nodes the tree holds.
    pub fn node_count(&self) -> (n: usize)
        ensures
            n == self.nodes@.len(),
    {
        self.nodes.len()
    }

    /// Recursive nearest-hit traversal of the subtree at node `i`.
    fn nearest_in(&self, i: usize, r: &Ray) -> (res: Option<Hit>)
        requires
            forall|j: int| 0 <= j < self.primitives@.len() ==> prim_wf(#[trigger] self.primitives@[j]),
            subtree_wf(self.nodes@, self.primitives@, self.indices@, i as int),
            ray_ok(*r),
        ensures
            res == scan_idx(
                self.primitives@,
                self.indices@,
                *r,
                self.nodes@[i as int].start as int,
                self.nodes@[i as int].start + self.nodes@[i as int].len,
            ),
        decreases self.nodes@.len() - i,
    {
        let node: Node = self.nodes[i];
        let ghost lo = node.start as int;
        let ghost hi = node.start + node.len;
        if !node.bbox.hits(r) {
            proof {
                lemma_pruned_range_none(
                    self.nodes@,
                    self.primitives@,
                    self.indices@,
                    *r,
                    i as int,
                    lo,
                    hi,
                );
            }
            return Option::None;
        }
        match node.kind {
            NodeKind::Leaf => {
                let total: usize = self.indices.len();
                proof {
                    assert(node.start + node.len <= self.indices@.len());
                }
                let end: usize = node.start + node.len;
                let mut best: Option<Hit> = Option::None;
                let mut p: usize = node.start;
                while p < end
                    invariant
                        forall|j: int|
                            0 <= j < self.primitives@.len() ==> prim_wf(
                                #[trigger] self.primitives@[j],
                            ),
                        ray_ok(*r),
                        node.start <= p <= end,
                        end == node.start + node.len,
                        end <= self.indices@.len(),
                        forall|q: int|
                            node.start <= q < end ==> (#[trigger] self.indices@[q])
                                < self.primitives@.len(),
                        best == scan_idx(
                            self.primitives@,
                            self.indices@,
                            *r,
                            node.start as int,
                            p as int,
                        ),
                    decreases end - p,
                {
                    let j: usize = self.indices[p];
                    let cur: Option<Hit> = self.primitives[j].get_int(r);
                    best = pick_closer(best, cur);
                    p = p + 1;
                }
                best
            },
            NodeKind::Interior { left, right } => {
                let a: Option<Hit> = self.nearest_in(left, r);
                let b: Option<Hit> = self.nearest_in(right, r);
                proof {
                    lemma_scan_idx_split(
                        self.primitives@,
                        self.indices@,
                        *r,
                        lo,
                        self.nodes@[right as int].start as int,
                        hi,
                    );
                }
                pick_closer(a, b)
            },
        }
    }

    /// Recursive any-hit traversal of the subtree at node `i`, stopping at
    /// the first primitive struck.
    fn any_in(&self, i: usize, r: &Ray) -> (res: bool)
        requires
            forall|j: int| 0 <= j < self.primitives@.len() ==> prim_wf(#[trigger] self.primitives@[j]),
            subtree_wf(self.nodes@, self.primitives@, self.indices@, i as int),
            ray_ok(*r),
        ensures
            res == scan_idx(
                self.primitives@,
                self.indices@,
                *r,
                self.nodes@[i as int].start as int,
                self.nodes@[i as int].start + self.nodes@[i as int].len,
            ).is_some(),
        decreases self.nodes@.len() - i,
    {
        let node: Node = self.nodes[i];
        let ghost lo = node.start as int;
        let ghost hi = node.start + node.len;
        if !node.bbox.hits(r) {
            proof {
                lemma_pruned_range_none(
                    self.nodes@,
                    self.primitives@,
                    self.indices@,
                    *r,
                    i as int,
                    lo,
                    hi,
                );
            }
            return false;
        }
        match node.kind {
            NodeKind::Leaf => {
                let total: usize = self.indices.len();
                proof {
                    assert(node.start + node.len <= self.indices@.len());
                }
                let end: usize = node.start + node.len;
                let mut p: usize = node.start;
                while p < end
                    invariant
                        forall|j: int|
                            0 <= j < self.primitives@.len() ==> prim_wf(
                                #[trigger] self.primitives@[j],
                            ),
                        ray_ok(*r),
                        node.start <= p <= end,
                        end == node.start + node.len,
                        end <= self.indices@.len(),
                        i < self.nodes@.len(),
                        node == self.nodes@[i as int],
                        lo == node.start as int,
                        hi == end as int,
                        forall|q: int|
                            node.start <= q < end ==> (#[trigger] self.indices@[q])
                                < self.primitives@.len(),
                        scan_idx(
                            self.primitives@,
                            self.indices@,
                            *r,
                            node.start as int,
                            p as int,
                        ) is None,
                    decreases end - p,
                {
                    let j: usize = self.indices[p];
                    if self.primitives[j].does_int(r) {
                        proof {
                            assert(scan_idx(
                                self.primitives@,
                                self.indices@,
                                *r,
                                p as int,
                                p as int,
                            ) is None);
                            lemma_scan_idx_split(
                                self.primitives@,
                                self.indices@,
                                *r,
                                lo,
                                p as int,
                                hi,
                            );
                            lemma_scan_idx_split(
                                self.primitives@,
                                self.indices@,
                                *r,
                                p as int,
                                p + 1,
                                hi,
                            );
                            assert(scan_idx(self.primitives@, self.indices@, *r, p as int, p + 1)
                                is Some);
                            assert(scan_idx(self.primitives@, self.indices@, *r, p as int, hi)
                                is Some);
                            assert(scan_idx(self.primitives@, self.indices@, *r, lo, hi)
                                is Some);
                        }
                        return true;
                    }
                    p = p + 1;
                }
                false
            },
            NodeKind::Interior { left, right } => {
                proof {
                    lemma_scan_idx_split(
                        self.primitives@,
                        self.indices@,
                        *r,
                        lo,
                        self.nodes@[right as int].start as int,
                        hi,
                    );
                }
                if self.any_in(left, r) {
                    true
                } else {
                    self.any_in(right, r)
                }
            },
        }
    }
}

/// The traversal's value agrees with the brute-force scan over the
/// caller's primitive order: both miss together, and hits land at the
/// same distance.
pub proof fn lemma_nearest_matches_scan(b: Bvh, r: Ray)
    requires
        bvh_wf(b),
    ensures
        spec_nearest(b, r) is Some <==> scan_prims(b.primitives@, r, 0, b.primitives@.len() as int)
            is Some,
        spec_nearest(b, r) matches Option::Some(h) ==> (scan_prims(
            b.primitives@,
            r,
            0,
            b.primitives@.len() as int,
        ) matches Option::Some(g) && h.t == g.t),
{
    let prims = b.primitives@;
    let idxs = b.indices@;
    let n = prims.len() as int;
    lemma_scan_idx_props(prims, idxs, r, 0, n);
    lemma_scan_prims_props(prims, r, 0, n);
    let si = scan_idx(prims, idxs, r, 0, n);
    let sp = scan_prims(prims, r, 0, n);
    if si is Some && sp is None {
        let p = choose|p: int| 0 <= p < n && Option::Some(si->Some_0) == spec_prim_int(
            prims[(idxs[p]) as int],
            r,
        );
        assert(spec_prim_int(prims[idxs[p] as int], r) is None);
    }
    if sp is Some && si is None {
        let j = choose|j: int| 0 <= j < n && Option::Some(sp->Some_0) == spec_prim_int(prims[j], r);
        assert(idxs.contains(j as usize));
        let p = choose|p: int| 0 <= p < idxs.len() && idxs[p] == j as usize;
        assert(spec_prim_int(prims[idxs[p] as int], r) is None);
    }
    if si is Some && sp is Some {
        let h = si->Some_0;
        let g = sp->Some_0;
        let p = choose|p: int| 0 <= p < n && Option::Some(h) == spec_prim_int(
            prims[(idxs[p]) as int],
            r,
        );
        assert(h.t >= g.t) by {
            assert(spec_prim_int(prims[idxs[p] as int], r) == Option::Some(h));
        }
        let j = choose|j: int| 0 <= j < n && Option::Some(g) == spec_prim_int(prims[j], r);
        assert(idxs.contains(j as usize));
        let q = choose|q: int| 0 <= q < idxs.len() && idxs[q] == j as usize;
        assert(g.t >= h.t) by {
            assert(spec_prim_int(prims[idxs[q] as int], r) == Option::Some(g));
        }
    }
}

} // verus!

verus! {

/// Ranges below this length become leaves.
pub const LEAF_SIZE: usize = 2;

/// Cap on the primitive count, keeping surface-area costs inside `i128`.
pub const MAX_PRIMS: usize = 262144;

/// Value `v` occurs among positions `lo..hi` of `s`.
pub open spec fn contains_in(s: Seq<usize>, lo: int, hi: int, v: usize) -> bool {
    exists|p: int| lo <= p < hi && s[p] == v
}

/// Two index arrays hold the same values over `lo..hi` (multiplicity
/// aside, which the nearest-hit scans never depend on).
pub open spec fn same_values(s1: Seq<usize>, s2: Seq<usize>, lo: int, hi: int) -> bool {
    forall|v: usize|
        #![trigger contains_in(s1, lo, hi, v)]
        #![trigger contains_in(s2, lo, hi, v)]
        contains_in(s1, lo, hi, v) == contains_in(s2, lo, hi, v)
}

/// Swapping two positions inside the range keeps its values.
pub proof fn lemma_swap_same_values(s1: Seq<usize>, s2: Seq<usize>, lo: int, hi: int, a: int, b: int)
    requires
        0 <= lo <= a < hi,
        lo <= b < hi,
        hi <= s1.len(),
        s2 == s1.update(a, s1[b]).update(b, s1[a]),
    ensures
        same_values(s1, s2, lo, hi),
        s2.len() == s1.len(),
        forall|p: int| 0 <= p < s1.len() && p != a && p != b ==> s2[p] == s1[p],
{
    assert forall|v: usize| contains_in(s1, lo, hi, v) implies contains_in(s2, lo, hi, v) by {
        let p = choose|p: int| lo <= p < hi && s1[p] == v;
        if p == a {
            assert(b == a || s2[b] == v);
            assert(contains_in(s2, lo, hi, v));
        } else if p == b {
            assert(s2[a] == v);
            assert(contains_in(s2, lo, hi, v));
        } else {
            assert(s2[p] == v);
            assert(contains_in(s2, lo, hi, v));
        }
    }
    assert forall|v: usize| contains_in(s2, lo, hi, v) implies contains_in(s1, lo, hi, v) by {
        let p = choose|p: int| lo <= p < hi && s2[p] == v;
        if p == a {
            assert(s1[b] == v || s1[a] == v);
        } else if p == b {
            assert(s1[a] == v);
        } else {
            assert(s1[p] == v);
        }
        assert(contains_in(s1, lo, hi, v));
    }
}

/// `same_values` chains.
pub proof fn lemma_same_values_trans(s1: Seq<usize>, s2: Seq<usize>, s3: Seq<usize>, lo: int, hi: int)
    requires
        same_values(s1, s2, lo, hi),
        same_values(s2, s3, lo, hi),
    ensures
        same_values(s1, s3, lo, hi),
{
}

/// `same_values` on a sub-range extends to a wider range whose remainder
/// is untouched.
pub proof fn lemma_same_values_widen(
    s1: Seq<usize>,
    s2: Seq<usize>,
    lo: int,
    hi: int,
    lo2: int,
    hi2: int,
)
    requires
        lo2 <= lo <= hi <= hi2,
        hi2 <= s1.len(),
        s1.len() == s2.len(),
        same_values(s1, s2, lo, hi),
        forall|p: int| lo2 <= p < hi2 && !(lo <= p < hi) ==> s2[p] == s1[p],
    ensures
        same_values(s1, s2, lo2, hi2),
{
    assert forall|v: usize| contains_in(s1, lo2, hi2, v) implies contains_in(s2, lo2, hi2, v) by {
        let p = choose|p: int| lo2 <= p < hi2 && s1[p] == v;
        if lo <= p < hi {
            assert(contains_in(s1, lo, hi, v));
            let q = choose|q: int| lo <= q < hi && s2[q] == v;
            assert(contains_in(s2, lo2, hi2, v));
        } else {
            assert(s2[p] == v);
            assert(contains_in(s2, lo2, hi2, v));
        }
    }
    assert forall|v: usize| contains_in(s2, lo2, hi2, v) implies contains_in(s1, lo2, hi2, v) by {
        let p = choose|p: int| lo2 <= p < hi2 && s2[p] == v;
        if lo <= p < hi {
            assert(contains_in(s2, lo, hi, v));
            let q = choose|q: int| lo <= q < hi && s1[q] == v;
            assert(contains_in(s1, lo2, hi2, v));
        } else {
            assert(s1[p] == v);
            assert(contains_in(s1, lo2, hi2, v));
        }
    }
}

/// Containment of covered boxes transfers across `same_values`.
pub proof fn lemma_contained_same_values(
    b: AABB,
    prims: Seq<Primitive>,
    s1: Seq<usize>,
    s2: Seq<usize>,
    lo: int,
    hi: int,
)
    requires
        same_values(s1, s2, lo, hi),
        0 <= lo,
        hi <= s1.len(),
        s1.len() == s2.len(),
        forall|p: int|
            lo <= p < hi ==> (#[trigger] s1[p]) < prims.len() && spec_contains(
                b,
                spec_prim_aabb(prims[s1[p] as int]),
            ),
    ensures
        forall|p: int|
            lo <= p < hi ==> (#[trigger] s2[p]) < prims.len() && spec_contains(
                b,
                spec_prim_aabb(prims[s2[p] as int]),
            ),
{
    assert forall|p: int| lo <= p < hi implies (#[trigger] s2[p]) < prims.len() && spec_contains(
        b,
        spec_prim_aabb(prims[s2[p] as int]),
    ) by {
        assert(contains_in(s2, lo, hi, s2[p]));
        assert(contains_in(s1, lo, hi, s2[p]));
        let q = choose|q: int| lo <= q < hi && s1[q] == s2[p];
    }
}

/// A subtree's well-formedness survives changes that leave its own nodes
/// and its covered index range alone (nodes may be appended, and nodes
/// before `i` — such as the parent being patched — may change).
pub proof fn lemma_subtree_frame(
    nodes1: Seq<Node>,
    nodes2: Seq<Node>,
    prims: Seq<Primitive>,
    idxs1: Seq<usize>,
    idxs2: Seq<usize>,
    i: int,
)
    requires
        subtree_wf(nodes1, prims, idxs1, i),
        nodes2.len() >= nodes1.len(),
        forall|j: int| i <= j < nodes1.len() ==> nodes2[j] == nodes1[j],
        idxs2.len() == idxs1.len(),
        forall|p: int|
            nodes1[i].start <= p < nodes1[i].start + nodes1[i].len ==> idxs2[p] == idxs1[p],
    ensures
        subtree_wf(nodes2, prims, idxs2, i),
    decreases nodes1.len() - i,
{
    let n = nodes1[i];
    match n.kind {
        NodeKind::Leaf => {},
        NodeKind::Interior { left, right } => {
            lemma_subtree_frame(nodes1, nodes2, prims, idxs1, idxs2, left as int);
            lemma_subtree_frame(nodes1, nodes2, prims, idxs1, idxs2, right as int);
        },
    }
}

/// The union box over the primitives covered by `idxs[start..start+len]`.
fn range_box(prims: &Vec<Primitive>, idxs: &Vec<usize>, start: usize, len: usize) -> (b: AABB)
    requires
        forall|j: int| 0 <= j < prims@.len() ==> prim_wf(#[trigger] prims@[j]),
        forall|p: int| 0 <= p < idxs@.len() ==> (#[trigger] idxs@[p]) < prims@.len(),
        start + len <= idxs@.len(),
        len >= 1,
    ensures
        box_ok(b),
        forall|p: int|
            start <= p < start + len ==> spec_contains(
                b,
                spec_prim_aabb(prims@[(#[trigger] idxs@[p]) as int]),
            ),
{
    let total: usize = idxs.len();
    proof {
        assert(start + len <= total);
    }
    let end: usize = start + len;
    let j0: usize = idxs[start];
    let mut b: AABB = match prims[j0].get_aabb() {
        Option::Some(x) => x,
        Option::None => unreached(),
    };
    let mut p: usize = start + 1;
    while p < end
        invariant
            forall|j: int| 0 <= j < prims@.len() ==> prim_wf(#[trigger] prims@[j]),
            forall|q: int| 0 <= q < idxs@.len() ==> (#[trigger] idxs@[q]) < prims@.len(),
            start + len <= idxs@.len(),
            end == start + len,
            start + 1 <= p <= start + len,
            box_ok(b),
            forall|q: int|
                start <= q < p ==> spec_contains(
                    b,
                    spec_prim_aabb(prims@[(#[trigger] idxs@[q]) as int]),
                ),
        decreases start + len - p,
    {
        let j: usize = idxs[p];
        let nb: AABB = match prims[j].get_aabb() {
            Option::Some(x) => x,
            Option::None => unreached(),
        };
        let ghost old_b = b;
        b = b.union(&nb);
        proof {
            assert forall|q: int| start <= q < p + 1 implies spec_contains(
                b,
                spec_prim_aabb(prims@[(#[trigger] idxs@[q]) as int]),
            ) by {
                if q < p {
                    lemma_contains_trans(b, old_b, spec_prim_aabb(prims@[idxs@[q] as int]));
                }
            }
        }
        p = p + 1;
    }
    b
}

/// Swap two entries of the index array.
fn swap_idx(idxs: &mut Vec<usize>, a: usize, b: usize)
    requires
        a < old(idxs)@.len(),
        b < old(idxs)@.len(),
    ensures
        final(idxs)@ == old(idxs)@.update(a as int, old(idxs)@[b as int]).update(
            b as int,
            old(idxs)@[a as int],
        ),
        final(idxs)@.len() == old(idxs)@.len(),
{
    let va: usize = idxs[a];
    let vb: usize = idxs[b];
    idxs[a] = vb;
    idxs[b] = va;
}

/// Twice the centroid of a covered primitive's box along `axis` — the sort
/// and split key (halving is never needed for comparisons).
fn centroid2(prims: &Vec<Primitive>, idxs: &Vec<usize>, p: usize, axis: usize) -> (k: Fixed)
    requires
        forall|j: int| 0 <= j < prims@.len() ==> prim_wf(#[trigger] prims@[j]),
        forall|q: int| 0 <= q < idxs@.len() ==> (#[trigger] idxs@[q]) < prims@.len(),
        p < idxs@.len(),
        axis < 3,
{
    let j: usize = idxs[p];
    let b: AABB = match prims[j].get_aabb() {
        Option::Some(x) => x,
        Option::None => unreached(),
    };
    crate::aabb::axv(&b.min, axis) + crate::aabb::axv(&b.max, axis)
}

} // verus!

verus! {

/// The axis along which the box extends furthest.
fn longest_axis(b: &AABB) -> (a: usize)
    requires
        box_ok(*b),
    ensures
        a < 3,
{
    let dx: i128 = b.max.x - b.min.x;
    let dy: i128 = b.max.y - b.min.y;
    let dz: i128 = b.max.z - b.min.z;
    if dx >= dy && dx >= dz {
        0
    } else if dy >= dz {
        1
    } else {
        2
    }
}

/// Partition the range by whether a primitive's doubled centroid lies
/// below `lim2` on `axis`; everything below ends up before the returned
/// split position.
fn partition_middle(
    prims: &Vec<Primitive>,
    idxs: &mut Vec<usize>,
    start: usize,
    len: usize,
    axis: usize,
    lim2: Fixed,
) -> (m: usize)
    requires
        forall|j: int| 0 <= j < prims@.len() ==> prim_wf(#[trigger] prims@[j]),
        forall|q: int| 0 <= q < old(idxs)@.len() ==> (#[trigger] old(idxs)@[q]) < prims@.len(),
        start + len <= old(idxs)@.len(),
        axis < 3,
    ensures
        start <= m <= start + len,
        final(idxs)@.len() == old(idxs)@.len(),
        forall|q: int| 0 <= q < old(idxs)@.len() ==> (#[trigger] final(idxs)@[q]) < prims@.len(),
        forall|q: int|
            0 <= q < old(idxs)@.len() && !(start <= q < start + len) ==> final(idxs)@[q] == old(
                idxs,
            )@[q],
        same_values(old(idxs)@, final(idxs)@, start as int, start + len),
{
    let total: usize = idxs.len();
    proof {
        assert(start + len <= total);
    }
    let end: usize = start + len;
    let mut m: usize = start;
    let mut p: usize = start;
    while p < end
        invariant
            forall|j: int| 0 <= j < prims@.len() ==> prim_wf(#[trigger] prims@[j]),
            forall|q: int| 0 <= q < idxs@.len() ==> (#[trigger] idxs@[q]) < prims@.len(),
            idxs@.len() == old(idxs)@.len(),
            start + len <= idxs@.len(),
            end == start + len,
            axis < 3,
            start <= m <= p <= end,
            forall|q: int|
                0 <= q < idxs@.len() && !(start <= q < start + len) ==> idxs@[q] == old(idxs)@[q],
            same_values(old(idxs)@, idxs@, start as int, start + len),
        decreases end - p,
    {
        let k: Fixed = centroid2(prims, idxs, p, axis);
        if k < lim2 {
            let ghost before = idxs@;
            swap_idx(idxs, m, p);
            proof {
                lemma_swap_same_values(before, idxs@, start as int, start + len, m as int, p as int);
                lemma_same_values_trans(old(idxs)@, before, idxs@, start as int, start + len);
            }
            m = m + 1;
        }
        p = p + 1;
    }
    m
}

/// Selection sort of the range by doubled centroid along `axis`
/// (ascending); only the reordering itself matters to correctness, so the
/// contract speaks of values kept, not of order.
fn sort_by_centroid(prims: &Vec<Primitive>, idxs: &mut Vec<usize>, start: usize, len: usize, axis: usize)
    requires
        forall|j: int| 0 <= j < prims@.len() ==> prim_wf(#[trigger] prims@[j]),
        forall|q: int| 0 <= q < old(idxs)@.len() ==> (#[trigger] old(idxs)@[q]) < prims@.len(),
        start + len <= old(idxs)@.len(),
        axis < 3,
    ensures
        final(idxs)@.len() == old(idxs)@.len(),
        forall|q: int| 0 <= q < old(idxs)@.len() ==> (#[trigger] final(idxs)@[q]) < prims@.len(),
        forall|q: int|
            0 <= q < old(idxs)@.len() && !(start <= q < start + len) ==> final(idxs)@[q] == old(
                idxs,
            )@[q],
        same_values(old(idxs)@, final(idxs)@, start as int, start + len),
{
    let total: usize = idxs.len();
    proof {
        assert(start + len <= total);
    }
    let end: usize = start + len;
    let mut i: usize = start;
    while i < end
        invariant
            forall|j: int| 0 <= j < prims@.len() ==> prim_wf(#[trigger] prims@[j]),
            forall|q: int| 0 <= q < idxs@.len() ==> (#[trigger] idxs@[q]) < prims@.len(),
            idxs@.len() == old(idxs)@.len(),
            start + len <= idxs@.len(),
            end == start + len,
            axis < 3,
            start <= i <= end,
            forall|q: int|
                0 <= q < idxs@.len() && !(start <= q < start + len) ==> idxs@[q] == old(idxs)@[q],
            same_values(old(idxs)@, idxs@, start as int, start + len),
        decreases end - i,
    {
        let mut best: usize = i;
        let mut bk: Fixed = centroid2(prims, idxs, i, axis);
        let mut p: usize = i + 1;
        while p < end
            invariant
                forall|j: int| 0 <= j < prims@.len() ==> prim_wf(#[trigger] prims@[j]),
                forall|q: int| 0 <= q < idxs@.len() ==> (#[trigger] idxs@[q]) < prims@.len(),
                start + len <= idxs@.len(),
                end == start + len,
                axis < 3,
                start <= i < end,
                i <= best < end,
                i + 1 <= p <= end,
            decreases end - p,
        {
            let k: Fixed = centroid2(prims, idxs, p, axis);
            if k < bk {
                best = p;
                bk = k;
            }
            p = p + 1;
        }
        let ghost before = idxs@;
        swap_idx(idxs, i, best);
        proof {
            lemma_swap_same_values(before, idxs@, start as int, start + len, i as int, best as int);
            lemma_same_values_trans(old(idxs)@, before, idxs@, start as int, start + len);
        }
        i = i + 1;
    }
}

/// Twice the surface area of a box, in doubled fixed-point-squared units.
fn half_area2(b: &AABB) -> (a: i128)
    requires
        box_ok(*b),
    ensures
        0 <= a,
        a <= 200000000000000000000000000000000,
{
    let dx: i128 = b.max.x - b.min.x;
    let dy: i128 = b.max.y - b.min.y;
    let dz: i128 = b.max.z - b.min.z;
    proof {
        assert(0 <= dx * dy <= 20000000000000000000000000000000 && 0 <= dy * dz
            <= 20000000000000000000000000000000 && 0 <= dz * dx
            <= 20000000000000000000000000000000) by (nonlinear_arith)
            requires
                0 <= dx <= 2251799813685248,
                0 <= dy <= 2251799813685248,
                0 <= dz <= 2251799813685248,
        ;
    }
    dx * dy + dy * dz + dz * dx
}

/// Sweep the sorted range and pick the split index minimizing the
/// surface-area cost `area_left * count_left + area_right * count_right`;
/// ties go to the lower index.
fn sah_split(prims: &Vec<Primitive>, idxs: &Vec<usize>, start: usize, len: usize) -> (m: usize)
    requires
        forall|j: int| 0 <= j < prims@.len() ==> prim_wf(#[trigger] prims@[j]),
        forall|q: int| 0 <= q < idxs@.len() ==> (#[trigger] idxs@[q]) < prims@.len(),
        start + len <= idxs@.len(),
        2 <= len <= MAX_PRIMS,
    ensures
        start < m < start + len,
{
    let total: usize = idxs.len();
    proof {
        assert(start + len <= total);
    }
    let end: usize = start + len;
    let mut best_m: usize = start + 1;
    let mut best_cost: i128 = -1;
    let mut m: usize = start + 1;
    while m < end
        invariant
            forall|j: int| 0 <= j < prims@.len() ==> prim_wf(#[trigger] prims@[j]),
            forall|q: int| 0 <= q < idxs@.len() ==> (#[trigger] idxs@[q]) < prims@.len(),
            start + len <= idxs@.len(),
            end == start + len,
            2 <= len <= MAX_PRIMS,
            start + 1 <= m <= end,
            start + 1 <= best_m < end,
        decreases end - m,
    {
        let left: AABB = range_box(prims, idxs, start, m - start);
        let right: AABB = range_box(prims, idxs, m, end - m);
        let la: i128 = half_area2(&left);
        let ra: i128 = half_area2(&right);
        let lc: i128 = (m - start) as i128;
        let rc: i128 = (end - m) as i128;
        proof {
            assert(0 <= la * lc <= 53000000000000000000000000000000000000 && 0 <= ra * rc
                <= 53000000000000000000000000000000000000) by (nonlinear_arith)
                requires
                    0 <= la <= 200000000000000000000000000000000,
                    0 <= ra <= 200000000000000000000000000000000,
                    0 <= lc <= 262144,
                    0 <= rc <= 262144,
            ;
        }
        let cost: i128 = la * lc + ra * rc;
        if best_cost < 0 || cost < best_cost {
            best_cost = cost;
            best_m = m;
        }
        m = m + 1;
    }
    best_m
}

} // verus!

verus! {

/// Build the subtree over index positions `start..start+len`, appending
/// its nodes after the existing ones (parent first, so a child's node
/// index always exceeds its parent's) and permuting only that range of
/// the index array.
fn build_node(
    nodes: &mut Vec<Node>,
    prims: &Vec<Primitive>,
    idxs: &mut Vec<usize>,
    start: usize,
    len: usize,
    st: SplitType,
) -> (idx: usize)
    requires
        forall|j: int| 0 <= j < prims@.len() ==> prim_wf(#[trigger] prims@[j]),
        forall|q: int| 0 <= q < old(idxs)@.len() ==> (#[trigger] old(idxs)@[q]) < prims@.len(),
        start + len <= old(idxs)@.len(),
        1 <= len <= MAX_PRIMS,
    ensures
        idx == old(nodes)@.len(),
        final(nodes)@.len() > idx,
        forall|j: int| 0 <= j < idx ==> final(nodes)@[j] == old(nodes)@[j],
        final(idxs)@.len() == old(idxs)@.len(),
        forall|q: int| 0 <= q < old(idxs)@.len() ==> (#[trigger] final(idxs)@[q]) < prims@.len(),
        forall|q: int|
            0 <= q < old(idxs)@.len() && !(start <= q < start + len) ==> final(idxs)@[q] == old(
                idxs,
            )@[q],
        same_values(old(idxs)@, final(idxs)@, start as int, start + len),
        subtree_wf(final(nodes)@, prims@, final(idxs)@, idx as int),
        final(nodes)@[idx as int].start == start,
        final(nodes)@[idx as int].len == len,
    decreases len,
{
    let total: usize = idxs.len();
    proof {
        assert(start + len <= total);
    }
    let end: usize = start + len;
    let idx: usize = nodes.len();
    let bbox: AABB = range_box(prims, idxs, start, len);
    nodes.push(Node { bbox, start, len, kind: NodeKind::Leaf });
    if len <= LEAF_SIZE {
        proof {
            assert(subtree_wf(nodes@, prims@, idxs@, idx as int));
        }
        return idx;
    }
    let axis: usize = longest_axis(&bbox);
    let ghost idxs0 = idxs@;
    let m: usize = match st {
        SplitType::Middle => {
            let lim2: Fixed = crate::aabb::axv(&bbox.min, axis) + crate::aabb::axv(
                &bbox.max,
                axis,
            );
            let mm: usize = partition_middle(prims, idxs, start, len, axis, lim2);
            if mm <= start || mm >= end {
                start + len / 2
            } else {
                mm
            }
        },
        SplitType::EqualCounts => {
            sort_by_centroid(prims, idxs, start, len, axis);
            start + len / 2
        },
        SplitType::Sah => {
            sort_by_centroid(prims, idxs, start, len, axis);
            sah_split(prims, idxs, start, len)
        },
    };
    let ghost idxs1 = idxs@;
    proof {
        assert(same_values(idxs0, idxs1, start as int, start + len));
    }
    let llen: usize = m - start;
    let rlen: usize = len - llen;
    let l: usize = build_node(nodes, prims, idxs, start, llen, st);
    let ghost nodes_l = nodes@;
    let ghost idxs2 = idxs@;
    let r: usize = build_node(nodes, prims, idxs, m, rlen, st);
    let ghost nodes_r = nodes@;
    let ghost idxs3 = idxs@;
    let node: Node = Node { bbox, start, len, kind: NodeKind::Interior { left: l, right: r } };
    nodes[idx] = node;
    proof {
        lemma_subtree_frame(nodes_l, nodes@, prims@, idxs2, idxs3, l as int);
        lemma_subtree_frame(nodes_r, nodes@, prims@, idxs3, idxs3, r as int);
        lemma_same_values_widen(idxs1, idxs2, start as int, m as int, start as int, start + len);
        lemma_same_values_widen(idxs2, idxs3, m as int, start + len, start as int, start + len);
        lemma_same_values_trans(idxs0, idxs1, idxs2, start as int, start + len);
        lemma_same_values_trans(idxs0, idxs2, idxs3, start as int, start + len);
        lemma_contained_same_values(bbox, prims@, idxs0, idxs3, start as int, start + len);
        assert(subtree_wf(nodes@, prims@, idxs@, idx as int));
    }
    idx
}

impl Bvh {
    /// Build the hierarchy over the given primitives with the chosen
    /// split heuristic.  The primitive list is stored unreordered, so
    /// every query contract speaks of the caller's own order.
    pub fn new(primitives: Vec<Primitive>, split_type: SplitType) -> (b: Bvh)
        requires
            forall|j: int| 0 <= j < primitives@.len() ==> prim_wf(#[trigger] primitives@[j]),
            primitives@.len() <= MAX_PRIMS,
        ensures
            bvh_wf(b),
            b.primitives == primitives,
    {
        let n: usize = primitives.len();
        let mut idxs: Vec<usize> = Vec::new();
        let mut i: usize = 0;
        while i < n
            invariant
                0 <= i <= n,
                n == primitives@.len(),
                idxs@.len() == i,
                forall|k: int| 0 <= k < i ==> (#[trigger] idxs@[k]) == k,
            decreases n - i,
        {
            idxs.push(i);
            i = i + 1;
        }
        let ghost idxs_init = idxs@;
        let mut nodes: Vec<Node> = Vec::new();
        if n > 0 {
            build_node(&mut nodes, &primitives, &mut idxs, 0, n, split_type);
            proof {
                assert forall|v: usize| v < primitives@.len() implies #[trigger] idxs@.contains(
                    v,
                ) by {
                    assert(idxs_init[v as int] == v);
                    assert(contains_in(idxs_init, 0, n as int, v));
                    assert(contains_in(idxs@, 0, n as int, v));
                    let p = choose|p: int| 0 <= p < n && idxs@[p] == v;
                }
            }
        }
        Bvh { nodes, indices: idxs, primitives }
    }
}

} // verus!
