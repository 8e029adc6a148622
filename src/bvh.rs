use vstd::prelude::*;

verus! {

/// The hit a BVH node reports from its children's: the right child's whenever it has one,
/// else the left child's.
pub open spec fn pick_child_hit<H>(left: Option<H>, right: Option<H>) -> Option<H> {
    if right is Some {
        right
    } else {
        left
    }
}

/// Upper end of the parameter range the right child is probed over: the left child's hit
/// parameter when it has one, else the node's own upper end.
pub open spec fn right_probe_max<T>(left_t: Option<T>, max: T) -> T {
    match left_t {
        Some(t) => t,
        None => max,
    }
}

/// Combines the children's hits of a BVH node as `pick_child_hit` says.
pub fn select_child_hit<H>(left: Option<H>, right: Option<H>) -> (r: Option<H>)
    ensures
        r == pick_child_hit(left, right),
{
    match right {
        Some(h) => Some(h),
        None => left,
    }
}

/// The upper end of the range to probe the right child over, as `right_probe_max` says.
pub fn right_probe_bound<T: Copy>(left_t: Option<T>, max: T) -> (r: T)
    ensures
        r == right_probe_max(left_t, max),
{
    match left_t {
        Some(t) => t,
        None => max,
    }
}

/// `r` is the least parameter of `hits` strictly between `lo` and `hi`, or `None` when
/// `hits` has no parameter there.
pub open spec fn is_closest_hit(hits: Set<int>, lo: int, hi: int, r: Option<int>) -> bool {
    match r {
        Some(t) => {
            &&& hits.contains(t)
            &&& lo < t < hi
            &&& forall|u: int| #[trigger] hits.contains(u) && lo < u < hi ==> t <= u
        },
        None => forall|u: int| #[trigger] hits.contains(u) ==> !(lo < u < hi),
    }
}

/// The hit a primitive reports: the least of the parameters at which it meets the ray
/// that lies strictly between `lo` and `hi`.
pub open spec fn primitive_hit(ts: Seq<int>, lo: int, hi: int) -> Option<int>
    decreases ts.len(),
{
    if ts.len() == 0 {
        None
    } else {
        let rest = primitive_hit(ts.drop_last(), lo, hi);
        let t = ts.last();
        if lo < t < hi && (rest is None || t < rest->0) {
            Some(t)
        } else {
            rest
        }
    }
}

/// A model of a bounding volume hierarchy seen by one ray: each leaf primitive is the
/// list of parameters at which the ray meets it.
pub enum BvhModel {
    Leaf(Seq<int>),
    Node(Box<BvhModel>, Box<BvhModel>),
}

/// What a traversal of `tree` over `(lo, hi)` reports: each node probes its left child over
/// the whole range, its right child up to `right_probe_max`, and keeps `pick_child_hit`.
pub open spec fn traverse(tree: BvhModel, lo: int, hi: int) -> Option<int>
    decreases tree,
{
    match tree {
        BvhModel::Leaf(ts) => primitive_hit(ts, lo, hi),
        BvhModel::Node(l, r) => {
            let lh = traverse(*l, lo, hi);
            let rh = traverse(*r, lo, right_probe_max(lh, hi));
            pick_child_hit(lh, rh)
        },
    }
}

/// The primitives of `tree`, left to right.
pub open spec fn leaves(tree: BvhModel) -> Seq<Seq<int>>
    decreases tree,
{
    match tree {
        BvhModel::Leaf(ts) => seq![ts],
        BvhModel::Node(l, r) => leaves(*l) + leaves(*r),
    }
}

/// What a linear scan over `objs` reports: each primitive is probed up to the closest hit
/// so far, and a hit it reports replaces the one so far.
pub open spec fn scan(objs: Seq<Seq<int>>, lo: int, hi: int) -> Option<int>
    decreases objs.len(),
{
    if objs.len() == 0 {
        None
    } else {
        let so_far = scan(objs.drop_last(), lo, hi);
        let h = primitive_hit(objs.last(), lo, right_probe_max(so_far, hi));
        pick_child_hit(so_far, h)
    }
}

/// Every parameter at which the ray meets one of `objs`.
pub open spec fn all_hits(objs: Seq<Seq<int>>) -> Set<int>
    decreases objs.len(),
{
    if objs.len() == 0 {
        Set::empty()
    } else {
        all_hits(objs.drop_last()).union(objs.last().to_set())
    }
}

proof fn lemma_primitive_hit_closest(ts: Seq<int>, lo: int, hi: int)
    ensures
        is_closest_hit(ts.to_set(), lo, hi, primitive_hit(ts, lo, hi)),
    decreases ts.len(),
{
    if ts.len() > 0 {
        let init = ts.drop_last();
        lemma_primitive_hit_closest(init, lo, hi);
        assert forall|u: int| ts.contains(u) <==> (init.contains(u) || u == ts.last()) by {
            if ts.contains(u) {
                let i = choose|i: int| 0 <= i < ts.len() && ts[i] == u;
                if i < ts.len() - 1 {
                    assert(init[i] == u);
                }
            }
            if init.contains(u) {
                let i = choose|i: int| 0 <= i < init.len() && init[i] == u;
                assert(ts[i] == u);
            }
            if u == ts.last() {
                assert(ts[ts.len() - 1] == u);
            }
        }
        assert forall|u: int| ts.to_set().contains(u) <==> (init.to_set().contains(u) || u
            == ts.last()) by {
            assert(ts.to_set().contains(u) == ts.contains(u));
            assert(init.to_set().contains(u) == init.contains(u));
        }
    }
}

proof fn lemma_pick_closest(
    left: Set<int>,
    right: Set<int>,
    lo: int,
    hi: int,
    lh: Option<int>,
    rh: Option<int>,
)
    requires
        is_closest_hit(left, lo, hi, lh),
        is_closest_hit(right, lo, right_probe_max(lh, hi), rh),
        lh matches Some(t) ==> t < hi,
    ensures
        is_closest_hit(left.union(right), lo, hi, pick_child_hit(lh, rh)),
{
    let both = left.union(right);
    match lh {
        Some(tl) => {
            match rh {
                Some(tr) => {
                    assert forall|u: int| #[trigger] both.contains(u) && lo < u < hi implies tr
                        <= u by {
                        if left.contains(u) {
                            assert(tl <= u);
                        } else if u < tl {
                            assert(right.contains(u));
                        }
                    }
                },
                None => {
                    assert forall|u: int| #[trigger] both.contains(u) && lo < u < hi implies tl
                        <= u by {
                        if left.contains(u) {
                        } else {
                            assert(right.contains(u));
                        }
                    }
                },
            }
        },
        None => {
            match rh {
                Some(tr) => {
                    assert forall|u: int| #[trigger] both.contains(u) && lo < u < hi implies tr
                        <= u by {
                        if left.contains(u) {
                        } else {
                            assert(right.contains(u));
                        }
                    }
                },
                None => {
                    assert forall|u: int| #[trigger] both.contains(u) implies !(lo < u < hi) by {
                        if left.contains(u) {
                        } else {
                            assert(right.contains(u));
                        }
                    }
                },
            }
        },
    }
}

proof fn lemma_closest_unique(hits: Set<int>, lo: int, hi: int, a: Option<int>, b: Option<int>)
    requires
        is_closest_hit(hits, lo, hi, a),
        is_closest_hit(hits, lo, hi, b),
    ensures
        a == b,
{
    match a {
        Some(ta) => {
            assert(hits.contains(ta));
            match b {
                Some(tb) => {
                    assert(hits.contains(tb));
                },
                None => {},
            }
        },
        None => {
            match b {
                Some(tb) => {
                    assert(hits.contains(tb));
                },
                None => {},
            }
        },
    }
}

proof fn lemma_all_hits_concat(a: Seq<Seq<int>>, b: Seq<Seq<int>>)
    ensures
        all_hits(a + b) == all_hits(a).union(all_hits(b)),
    decreases b.len(),
{
    if b.len() == 0 {
        assert(a + b =~= a);
        assert(all_hits(a).union(all_hits(b)) =~= all_hits(a));
    } else {
        assert((a + b).drop_last() =~= a + b.drop_last());
        assert((a + b).last() == b.last());
        lemma_all_hits_concat(a, b.drop_last());
        assert(all_hits(a + b) =~= all_hits(a).union(all_hits(b)));
    }
}

proof fn lemma_traverse_closest(tree: BvhModel, lo: int, hi: int)
    ensures
        is_closest_hit(all_hits(leaves(tree)), lo, hi, traverse(tree, lo, hi)),
    decreases tree,
{
    match tree {
        BvhModel::Leaf(ts) => {
            lemma_primitive_hit_closest(ts, lo, hi);
            let one = seq![ts];
            assert(one.drop_last() =~= Seq::<Seq<int>>::empty());
            assert(all_hits(one.drop_last()) == Set::<int>::empty());
            assert(one.last() == ts);
            assert(all_hits(one) =~= ts.to_set());
        },
        BvhModel::Node(l, r) => {
            let lh = traverse(*l, lo, hi);
            lemma_traverse_closest(*l, lo, hi);
            lemma_traverse_closest(*r, lo, right_probe_max(lh, hi));
            lemma_pick_closest(
                all_hits(leaves(*l)),
                all_hits(leaves(*r)),
                lo,
                hi,
                lh,
                traverse(*r, lo, right_probe_max(lh, hi)),
            );
            lemma_all_hits_concat(leaves(*l), leaves(*r));
        },
    }
}

proof fn lemma_scan_closest(objs: Seq<Seq<int>>, lo: int, hi: int)
    ensures
        is_closest_hit(all_hits(objs), lo, hi, scan(objs, lo, hi)),
    decreases objs.len(),
{
    if objs.len() > 0 {
        let so_far = scan(objs.drop_last(), lo, hi);
        lemma_scan_closest(objs.drop_last(), lo, hi);
        lemma_primitive_hit_closest(objs.last(), lo, right_probe_max(so_far, hi));
        lemma_pick_closest(
            all_hits(objs.drop_last()),
            objs.last().to_set(),
            lo,
            hi,
            so_far,
            primitive_hit(objs.last(), lo, right_probe_max(so_far, hi)),
        );
    }
}

/// Traversing a BVH reports the same closest hit as a linear scan over its primitives,
/// and that hit is the least parameter of any primitive strictly between `lo` and `hi`.
pub proof fn lemma_bvh_matches_linear_scan(tree: BvhModel, lo: int, hi: int)
    ensures
        traverse(tree, lo, hi) == scan(leaves(tree), lo, hi),
        is_closest_hit(all_hits(leaves(tree)), lo, hi, traverse(tree, lo, hi)),
{
    lemma_traverse_closest(tree, lo, hi);
    lemma_scan_closest(leaves(tree), lo, hi);
    lemma_closest_unique(
        all_hits(leaves(tree)),
        lo,
        hi,
        traverse(tree, lo, hi),
        scan(leaves(tree), lo, hi),
    );
}

/// How a BVH build splits the object range `start..end` into the node's two children.
#[derive(Clone, Copy, Debug, PartialEq, Eq)]
pub enum BvhSplit {
    /// One object: it becomes both children.
    Single(usize),
    /// Two objects: one child each.
    Pair(usize, usize),
    /// More: after sorting the range, `start..mid` builds the left child and `mid..end`
    /// the right one.
    Halves(usize),
}

pub open spec fn split_spec(start: usize, end: usize) -> BvhSplit {
    let span = end - start;
    if span == 1 {
        BvhSplit::Single(start)
    } else if span == 2 {
        BvhSplit::Pair(start, (start + 1) as usize)
    } else {
        BvhSplit::Halves((start + span / 2) as usize)
    }
}

/// The split of `start..end` a BVH node makes: the one object twice, the two objects one
/// each, or the range halved at its midpoint.
pub fn bvh_split(start: usize, end: usize) -> (r: BvhSplit)
    requires
        start < end,
    ensures
        r == split_spec(start, end),
        r matches BvhSplit::Halves(mid) ==> start < mid < end,
{
    let span = end - start;
    if span == 1 {
        BvhSplit::Single(start)
    } else if span == 2 {
        BvhSplit::Pair(start, start + 1)
    } else {
        BvhSplit::Halves(start + span / 2)
    }
}

/// The object slots that the leaves of a BVH built over `start..end` refer to, left to right.
pub open spec fn build_slots(start: int, end: int) -> Seq<int>
    decreases end - start,
{
    if end - start <= 0 {
        Seq::empty()
    } else if end - start == 1 {
        seq![start, start]
    } else if end - start == 2 {
        seq![start, start + 1]
    } else {
        let mid = start + (end - start) / 2;
        build_slots(start, mid) + build_slots(mid, end)
    }
}

/// A BVH built over a non-empty range refers to every object of the range, and to nothing
/// outside it: no object is lost by the midpoint splits. (A part of odd size three makes a
/// one-object child, whose object then fills both leaf slots.)
pub proof fn lemma_build_covers_range(start: int, end: int)
    requires
        end - start >= 1,
    ensures
        forall|i: int| start <= i < end ==> #[trigger] build_slots(start, end).contains(i),
        forall|k: int|
            0 <= k < build_slots(start, end).len() ==> start <= #[trigger] build_slots(
                start,
                end,
            )[k] < end,
    decreases end - start,
{
    let b = build_slots(start, end);
    if end - start == 1 {
        assert(b[0] == start);
    } else if end - start == 2 {
        assert(b[0] == start && b[1] == start + 1);
        assert forall|i: int| start <= i < end implies #[trigger] b.contains(i) by {
            if i == start {
                assert(b[0] == i);
            } else {
                assert(b[1] == i);
            }
        }
    } else {
        let mid = start + (end - start) / 2;
        let l = build_slots(start, mid);
        let r = build_slots(mid, end);
        lemma_build_covers_range(start, mid);
        lemma_build_covers_range(mid, end);
        assert(b == l + r);
        assert forall|i: int| start <= i < end implies #[trigger] b.contains(i) by {
            if i < mid {
                assert(l.contains(i));
                let k = choose|k: int| 0 <= k < l.len() && l[k] == i;
                assert(b[k] == i);
            } else {
                assert(r.contains(i));
                let k = choose|k: int| 0 <= k < r.len() && r[k] == i;
                assert(b[l.len() + k] == i);
            }
        }
        assert forall|k: int| 0 <= k < b.len() implies start <= #[trigger] b[k] < end by {
            if k < l.len() {
                assert(b[k] == l[k]);
            } else {
                assert(b[k] == r[k - l.len()]);
            }
        }
    }
}

} // verus!
