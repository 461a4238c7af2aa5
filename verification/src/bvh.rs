use vstd::prelude::*;

use crate::vector::{Vec3f, ZERO};

verus! {

/// An axis-aligned box given by its three edge lengths, centred on a
/// position held elsewhere.
#[derive(Clone, Copy, Debug, PartialEq, Eq, Structural)]
pub struct Box(pub Vec3f);

/// Shapes that can be placed in a bounding volume hierarchy.
pub trait AABB {
    /// The box that bounds the shape around its position, if any.
    fn gen_aabb(&self) -> Option<Box>;

    /// For each instance of the shape (by index), whether it reaches into
    /// the box `aabb` centred on `rel_pos`.
    fn check_in_aabb(&self, aabb: &Box, rel_pos: Vec3f) -> Vec<(usize, bool)>;
}

/// A node of a bounding volume hierarchy: a box centred on `rel_pos`; a
/// leaf holds the (object, instance) pairs that reach into it, an inner
/// node its non-empty sub-boxes.
#[derive(Debug)]
pub struct BVH {
    pub aabb: Box,
    pub rel_pos: Vec3f,
    pub content: Option<Vec<(usize, usize)>>,
    pub childs: Option<Vec<Option<BVH>>>,
}

/// `(child, child_pos)` is one of the eight sub-boxes that `split` gives for
/// the box `aabb` centred on `pos`.
pub open spec fn is_sub_box<F: Fn(&Box, Vec3f, usize) -> (Box, Vec3f)>(
    split: F,
    aabb: Box,
    pos: Vec3f,
    child: Box,
    child_pos: Vec3f,
) -> bool {
    exists|i: usize| i < 8 && #[trigger] split.ensures((&aabb, pos, i), (child, child_pos))
}

/// The shape of a hierarchy built down to depth `deep` over `n` objects,
/// for a node at depth `d`: nodes above `deep` hold no pairs and at most
/// eight non-empty sub-boxes cut from their own box by `split`; nodes at
/// `deep` hold no sub-boxes and a non-empty list of pairs, if any, whose
/// object indices are below `n` and come in increasing order.
pub open spec fn bvh_wf<F: Fn(&Box, Vec3f, usize) -> (Box, Vec3f)>(
    b: BVH,
    split: F,
    n: nat,
    d: int,
    deep: int,
) -> bool
    decreases b,
{
    if d >= deep {
        &&& b.childs is None
        &&& b.content matches Some(c) ==> {
            &&& c@.len() > 0
            &&& forall|k: int| 0 <= k < c@.len() ==> (#[trigger] c@[k]).0 < n
            &&& forall|k1: int, k2: int|
                0 <= k1 < k2 < c@.len() ==> (#[trigger] c@[k1]).0 <= (#[trigger] c@[k2]).0
        }
    } else {
        &&& b.content is None
        &&& b.childs matches Some(cs) ==> {
            &&& 0 < cs@.len() <= 8
            &&& forall|k: int|
                0 <= k < cs@.len() ==> {
                    &&& (#[trigger] cs@[k]) is Some
                    &&& cs@[k]->Some_0.content is Some || cs@[k]->Some_0.childs is Some
                    &&& is_sub_box(
                        split,
                        b.aabb,
                        b.rel_pos,
                        cs@[k]->Some_0.aabb,
                        cs@[k]->Some_0.rel_pos,
                    )
                    &&& bvh_wf(cs@[k]->Some_0, split, n, d + 1, deep)
                }
        }
    }
}

/// The pairs `(i, instance)` for the instances that `checks`, the answer of
/// object `i`'s check, reports inside, in the order the check lists them.
pub open spec fn inside_pairs(i: usize, checks: Seq<(usize, bool)>) -> Seq<(usize, usize)>
    decreases checks.len(),
{
    if checks.len() == 0 {
        Seq::empty()
    } else {
        let rest = inside_pairs(i, checks.drop_last());
        if checks.last().1 {
            rest.push((i, checks.last().0))
        } else {
            rest
        }
    }
}

/// The pairs reported inside by the checks of the objects, object `i`
/// having answered `answers[i]`, objects in order.
pub open spec fn leaf_pairs(answers: Seq<Vec<(usize, bool)>>) -> Seq<(usize, usize)>
    decreases answers.len(),
{
    if answers.len() == 0 {
        Seq::empty()
    } else {
        leaf_pairs(answers.drop_last()) + inside_pairs(
            (answers.len() - 1) as usize,
            answers.last()@,
        )
    }
}

/// The (object, instance) pairs whose check reports them inside the box,
/// objects in order and each object's instances in the order its check
/// lists them.
fn leaf_content<T: AABB>(aabb: &Box, rel_pos: Vec3f, objs: &Vec<T>) -> (r: Vec<(usize, usize)>)
    ensures
        exists|answers: Seq<Vec<(usize, bool)>>|
            {
                &&& answers.len() == objs@.len()
                &&& forall|i: int|
                    0 <= i < objs@.len() ==> call_ensures(
                        T::check_in_aabb,
                        (&objs@[i], aabb, rel_pos),
                        #[trigger] answers[i],
                    )
                &&& r@ == leaf_pairs(answers)
            },
        forall|k: int| 0 <= k < r@.len() ==> (#[trigger] r@[k]).0 < objs@.len(),
        forall|k1: int, k2: int|
            0 <= k1 < k2 < r@.len() ==> (#[trigger] r@[k1]).0 <= (#[trigger] r@[k2]).0,
{
    let mut out: Vec<(usize, usize)> = Vec::new();
    let mut idx: usize = 0;
    let ghost mut answers: Seq<Vec<(usize, bool)>> = Seq::empty();
    while idx < objs.len()
        invariant
            idx <= objs@.len(),
            answers.len() == idx,
            forall|i: int|
                0 <= i < idx ==> call_ensures(
                    T::check_in_aabb,
                    (&objs@[i], aabb, rel_pos),
                    #[trigger] answers[i],
                ),
            out@ == leaf_pairs(answers),
            forall|k: int| 0 <= k < out@.len() ==> (#[trigger] out@[k]).0 < idx,
            forall|k1: int, k2: int|
                0 <= k1 < k2 < out@.len() ==> (#[trigger] out@[k1]).0 <= (#[trigger] out@[k2]).0,
        decreases objs@.len() - idx,
    {
        let checks = objs[idx].check_in_aabb(aabb, rel_pos);
        let ghost before = out@;
        let mut j: usize = 0;
        while j < checks.len()
            invariant
                idx < objs@.len(),
                j <= checks@.len(),
                out@ == before + inside_pairs(idx, checks@.take(j as int)),
                forall|k: int| 0 <= k < out@.len() ==> (#[trigger] out@[k]).0 <= idx,
                forall|k1: int, k2: int|
                    0 <= k1 < k2 < out@.len() ==> (#[trigger] out@[k1]).0 <= (#[trigger] out@[k2]).0,
            decreases checks@.len() - j,
        {
            let (sub, inside) = checks[j];
            proof {
                let t = checks@.take(j as int + 1);
                assert(t.drop_last() =~= checks@.take(j as int));
                assert(t.last() == (sub, inside));
            }
            if inside {
                out.push((idx, sub));
            }
            j = j + 1;
        }
        proof {
            assert(checks@.take(checks@.len() as int) =~= checks@);
            let next = answers.push(checks);
            assert(next.drop_last() =~= answers);
            answers = next;
        }
        idx = idx + 1;
    }
    out
}

/// `o` is the list `s`, or `None` where `s` is empty.
pub open spec fn list_or_none<X>(o: Option<Vec<X>>, s: Seq<X>) -> bool {
    if s.len() == 0 {
        o is None
    } else {
        o matches Some(v) && v@ == s
    }
}

/// The nodes among `kids` that hold pairs or sub-boxes, in order.
pub open spec fn kept_children(kids: Seq<BVH>) -> Seq<Option<BVH>>
    decreases kids.len(),
{
    if kids.len() == 0 {
        Seq::empty()
    } else {
        let rest = kept_children(kids.drop_last());
        let c = kids.last();
        if c.content is Some || c.childs is Some {
            rest.push(Some(c))
        } else {
            rest
        }
    }
}

/// `b` is a hierarchy that building the box `aabb` centred on `rel_pos`
/// at depth `d` down to depth `deep` can give: at `deep` a node with no
/// sub-boxes whose pairs are those that the objects' checks report inside
/// it (`None` where there are none); above it a node with no pairs whose
/// sub-boxes are the trees built, one depth lower, for the boxes that
/// `split` gives for octants 0 to 7, in that order, keeping those that hold
/// something (`None` where none does).
pub open spec fn built_by<T: AABB, F: Fn(&Box, Vec3f, usize) -> (Box, Vec3f)>(
    b: BVH,
    aabb: Box,
    rel_pos: Vec3f,
    objs: Seq<T>,
    split: F,
    d: int,
    deep: int,
) -> bool
    decreases deep - d,
{
    &&& b.aabb == aabb
    &&& b.rel_pos == rel_pos
    &&& if d >= deep {
        &&& b.childs is None
        &&& exists|answers: Seq<Vec<(usize, bool)>>|
            #![trigger leaf_pairs(answers)]
            {
                &&& answers.len() == objs.len()
                &&& forall|i: int|
                    0 <= i < objs.len() ==> call_ensures(
                        T::check_in_aabb,
                        (&objs[i], &aabb, rel_pos),
                        #[trigger] answers[i],
                    )
                &&& list_or_none(b.content, leaf_pairs(answers))
            }
    } else {
        &&& b.content is None
        &&& exists|subs: Seq<(Box, Vec3f)>, kids: Seq<BVH>|
            #![trigger subs.len(), kept_children(kids)]
            {
                &&& subs.len() == 8
                &&& kids.len() == 8
                &&& forall|i: int|
                    0 <= i < 8 ==> split.ensures((&aabb, rel_pos, i as usize), #[trigger] subs[i])
                &&& forall|i: int|
                    0 <= i < 8 ==> built_by(
                        #[trigger] kids[i],
                        subs[i].0,
                        subs[i].1,
                        objs,
                        split,
                        d + 1,
                        deep,
                    )
                &&& list_or_none(b.childs, kept_children(kids))
            }
    }
}

/// Every pair that one object's answer yields names that object.
proof fn lemma_inside_pairs_object(i: usize, checks: Seq<(usize, bool)>)
    ensures
        forall|k: int|
            0 <= k < inside_pairs(i, checks).len() ==> (#[trigger] inside_pairs(i, checks)[k]).0
                == i,
    decreases checks.len(),
{
    if checks.len() > 0 {
        let rest = inside_pairs(i, checks.drop_last());
        lemma_inside_pairs_object(i, checks.drop_last());
        assert forall|k: int| 0 <= k < inside_pairs(i, checks).len() implies (
        #[trigger] inside_pairs(i, checks)[k]).0 == i by {
            if k < rest.len() {
                assert(inside_pairs(i, checks)[k] == rest[k]);
            }
        }
    }
}

/// The pairs gathered from the answers of `answers.len()` objects name
/// objects below that count, in increasing order.
proof fn lemma_leaf_pairs_ordered(answers: Seq<Vec<(usize, bool)>>)
    requires
        answers.len() <= usize::MAX,
    ensures
        forall|k: int|
            0 <= k < leaf_pairs(answers).len() ==> (#[trigger] leaf_pairs(answers)[k]).0
                < answers.len(),
        forall|k1: int, k2: int|
            0 <= k1 < k2 < leaf_pairs(answers).len() ==> (#[trigger] leaf_pairs(answers)[k1]).0
                <= (#[trigger] leaf_pairs(answers)[k2]).0,
    decreases answers.len(),
{
    if answers.len() > 0 {
        let n = (answers.len() - 1) as usize;
        assert(n == answers.len() - 1);
        lemma_leaf_pairs_ordered(answers.drop_last());
        lemma_inside_pairs_object(n, answers.last()@);
        let front = leaf_pairs(answers.drop_last());
        let back = inside_pairs(n, answers.last()@);
        assert(leaf_pairs(answers) == front + back);
        assert forall|k: int| 0 <= k < leaf_pairs(answers).len() implies (#[trigger] leaf_pairs(
            answers,
        )[k]).0 < answers.len() by {
            if k < front.len() {
                assert(leaf_pairs(answers)[k] == front[k]);
            } else {
                assert(leaf_pairs(answers)[k] == back[k - front.len()]);
            }
        }
        assert forall|k1: int, k2: int|
            0 <= k1 < k2 < leaf_pairs(answers).len() implies (#[trigger] leaf_pairs(
            answers,
        )[k1]).0 <= (#[trigger] leaf_pairs(answers)[k2]).0 by {
            if k2 < front.len() {
                assert(leaf_pairs(answers)[k1] == front[k1]);
                assert(leaf_pairs(answers)[k2] == front[k2]);
            } else if k1 < front.len() {
                assert(leaf_pairs(answers)[k1] == front[k1]);
                assert(leaf_pairs(answers)[k2] == back[k2 - front.len()]);
            } else {
                assert(leaf_pairs(answers)[k1] == back[k1 - front.len()]);
                assert(leaf_pairs(answers)[k2] == back[k2 - front.len()]);
            }
        }
    }
}

/// `x` is one of `kids`, one that holds something.
spec fn kept_from(kids: Seq<BVH>, x: Option<BVH>) -> bool {
    exists|j: int|
        0 <= j < kids.len() && x == Some(#[trigger] kids[j]) && (kids[j].content is Some
            || kids[j].childs is Some)
}

/// The kept nodes are nodes of `kids` that hold something, at most as
/// many as there are kids.
proof fn lemma_kept_children(kids: Seq<BVH>)
    ensures
        kept_children(kids).len() <= kids.len(),
        forall|k: int|
            0 <= k < kept_children(kids).len() ==> kept_from(kids, #[trigger] kept_children(kids)[k]),
    decreases kids.len(),
{
    if kids.len() > 0 {
        let front = kids.drop_last();
        lemma_kept_children(front);
        let n = kids.len() - 1;
        let c = kids.last();
        if c.content is Some || c.childs is Some {
            assert(kept_children(kids) == kept_children(front).push(Some(c)));
        } else {
            assert(kept_children(kids) == kept_children(front));
        }
        assert forall|k: int| 0 <= k < kept_children(kids).len() implies kept_from(
            kids,
            #[trigger] kept_children(kids)[k],
        ) by {
            if k < kept_children(front).len() {
                assert(kept_from(front, kept_children(front)[k]));
                let j = choose|j: int|
                    0 <= j < front.len() && kept_children(front)[k] == Some(#[trigger] front[j]) && (
                    front[j].content is Some || front[j].childs is Some);
                assert(kids[j] == front[j]);
                assert(kept_children(kids)[k] == kept_children(front)[k]);
            } else {
                assert(kids[n] == c);
                assert(kept_children(kids)[k] == Some(kids[n]));
            }
        }
    }
}

/// Law: every hierarchy that building gives is well formed (see
/// `bvh_wf`): nodes above the last depth hold no pairs and one to eight
/// non-empty sub-boxes cut from their own box by `split`; nodes at the last
/// depth hold no sub-boxes and, if any pairs, a non-empty list of them whose
/// objects exist and come in order.
pub proof fn lemma_built_is_wf<T: AABB, F: Fn(&Box, Vec3f, usize) -> (Box, Vec3f)>(
    b: BVH,
    aabb: Box,
    rel_pos: Vec3f,
    objs: Seq<T>,
    split: F,
    d: int,
    deep: int,
)
    requires
        objs.len() <= usize::MAX,
        built_by(b, aabb, rel_pos, objs, split, d, deep),
    ensures
        bvh_wf(b, split, objs.len(), d, deep),
    decreases deep - d,
{
    if d >= deep {
        let answers = choose|answers: Seq<Vec<(usize, bool)>>|
            #![trigger leaf_pairs(answers)]
            {
                &&& answers.len() == objs.len()
                &&& forall|i: int|
                    0 <= i < objs.len() ==> call_ensures(
                        T::check_in_aabb,
                        (&objs[i], &aabb, rel_pos),
                        #[trigger] answers[i],
                    )
                &&& list_or_none(b.content, leaf_pairs(answers))
            };
        lemma_leaf_pairs_ordered(answers);
    } else {
        let (subs, kids) = choose|subs: Seq<(Box, Vec3f)>, kids: Seq<BVH>|
            #![trigger subs.len(), kept_children(kids)]
            {
                &&& subs.len() == 8
                &&& kids.len() == 8
                &&& forall|i: int|
                    0 <= i < 8 ==> split.ensures((&aabb, rel_pos, i as usize), #[trigger] subs[i])
                &&& forall|i: int|
                    0 <= i < 8 ==> built_by(
                        #[trigger] kids[i],
                        subs[i].0,
                        subs[i].1,
                        objs,
                        split,
                        d + 1,
                        deep,
                    )
                &&& list_or_none(b.childs, kept_children(kids))
            };
        lemma_kept_children(kids);
        let kept = kept_children(kids);
        if b.childs is Some {
            let cs = b.childs->Some_0;
            assert forall|k: int| 0 <= k < cs@.len() implies {
                &&& (#[trigger] cs@[k]) is Some
                &&& cs@[k]->Some_0.content is Some || cs@[k]->Some_0.childs is Some
                &&& is_sub_box(
                    split,
                    aabb,
                    rel_pos,
                    cs@[k]->Some_0.aabb,
                    cs@[k]->Some_0.rel_pos,
                )
                &&& bvh_wf(cs@[k]->Some_0, split, objs.len(), d + 1, deep)
            } by {
                assert(cs@[k] == kept[k]);
                assert(kept_from(kids, kept[k]));
                let j = choose|j: int|
                    0 <= j < kids.len() && kept[k] == Some(#[trigger] kids[j]) && (
                    kids[j].content is Some || kids[j].childs is Some);
                assert(built_by(kids[j], subs[j].0, subs[j].1, objs, split, d + 1, deep));
                lemma_built_is_wf(kids[j], subs[j].0, subs[j].1, objs, split, d + 1, deep);
                let ju = j as usize;
                assert(split.ensures((&aabb, rel_pos, ju), subs[j]));
                assert(subs[j] == (subs[j].0, subs[j].1));
                assert(split.ensures((&aabb, rel_pos, ju), (kids[j].aabb, kids[j].rel_pos)));
            }
        }
    }
}

/// `pair` is reported inside the box `aabb` centred on `rel_pos`: its
/// object exists and a possible answer of that object's check lists its
/// instance as inside.
pub open spec fn reported_inside<T: AABB>(
    objs: Seq<T>,
    aabb: Box,
    rel_pos: Vec3f,
    pair: (usize, usize),
) -> bool {
    &&& pair.0 < objs.len()
    &&& exists|ans: Vec<(usize, bool)>|
        #[trigger] call_ensures(T::check_in_aabb, (&objs[pair.0 as int], &aabb, rel_pos), ans)
            && ans@.contains((pair.1, true))
}

/// `pair` is reported inside some cell at depth `deep` below the box
/// `aabb` centred on `rel_pos` (at depth `d`), the cells being cut out,
/// depth by depth, by `split`.
pub open spec fn reported_below<T: AABB, F: Fn(&Box, Vec3f, usize) -> (Box, Vec3f)>(
    objs: Seq<T>,
    split: F,
    aabb: Box,
    rel_pos: Vec3f,
    d: int,
    deep: int,
    pair: (usize, usize),
) -> bool
    decreases deep - d,
{
    if d >= deep {
        reported_inside(objs, aabb, rel_pos, pair)
    } else {
        exists|i: usize, sub: (Box, Vec3f)|
            i < 8 && #[trigger] split.ensures((&aabb, rel_pos, i), sub) && reported_below(
                objs,
                split,
                sub.0,
                sub.1,
                d + 1,
                deep,
                pair,
            )
    }
}

/// `pair` is held by some node of the tree `b`, reached through its
/// sub-boxes.
pub open spec fn tree_holds(b: BVH, pair: (usize, usize)) -> bool
    decreases b,
{
    ||| (b.content matches Some(c) && c@.contains(pair))
    ||| (b.childs matches Some(cs) && exists|k: int|
        0 <= k < cs@.len() && (#[trigger] cs@[k]) is Some && tree_holds(cs@[k]->Some_0, pair))
}

/// Each object's check gives one answer for a given box.
pub open spec fn checks_deterministic<T: AABB>(objs: Seq<T>) -> bool {
    forall|j: int, a: Box, p: Vec3f, r1: Vec<(usize, bool)>, r2: Vec<(usize, bool)>|
        0 <= j < objs.len() && #[trigger] call_ensures(T::check_in_aabb, (&objs[j], &a, p), r1)
            && #[trigger] call_ensures(T::check_in_aabb, (&objs[j], &a, p), r2) ==> r1@ == r2@
}

/// `split` gives one sub-box for a given box and octant.
pub open spec fn split_deterministic<F: Fn(&Box, Vec3f, usize) -> (Box, Vec3f)>(split: F) -> bool {
    forall|a: Box, p: Vec3f, i: usize, r1: (Box, Vec3f), r2: (Box, Vec3f)|
        #[trigger] split.ensures((&a, p, i), r1) && #[trigger] split.ensures((&a, p, i), r2) ==> r1
            == r2
}

proof fn lemma_inside_pairs_members(i: usize, checks: Seq<(usize, bool)>, q: (usize, usize))
    ensures
        inside_pairs(i, checks).contains(q) <==> (q.0 == i && checks.contains((q.1, true))),
    decreases checks.len(),
{
    if checks.len() > 0 {
        let front = checks.drop_last();
        let rest = inside_pairs(i, front);
        let last = checks.last();
        lemma_inside_pairs_members(i, front, q);
        let r = inside_pairs(i, checks);
        if r.contains(q) {
            let k = choose|k: int| 0 <= k < r.len() && r[k] == q;
            if k < rest.len() {
                assert(rest[k] == q);
                assert(rest.contains(q));
                let m = choose|m: int| 0 <= m < front.len() && front[m] == (q.1, true);
                assert(checks[m] == front[m]);
            } else {
                assert(last.1 && q == (i, last.0));
                assert(checks[checks.len() - 1] == last);
            }
        }
        if q.0 == i && checks.contains((q.1, true)) {
            let m = choose|m: int| 0 <= m < checks.len() && checks[m] == (q.1, true);
            if m < front.len() {
                assert(front[m] == checks[m]);
                assert(front.contains((q.1, true)));
                let k = choose|k: int| 0 <= k < rest.len() && rest[k] == q;
                assert(r[k] == q);
            } else {
                assert(last == (q.1, true));
                assert(r[r.len() - 1] == q);
            }
        }
    }
}

proof fn lemma_leaf_pairs_members(answers: Seq<Vec<(usize, bool)>>, q: (usize, usize))
    requires
        answers.len() <= usize::MAX,
    ensures
        leaf_pairs(answers).contains(q) <==> (q.0 < answers.len() && answers[q.0 as int]@.contains(
            (q.1, true),
        )),
    decreases answers.len(),
{
    if answers.len() > 0 {
        let n = (answers.len() - 1) as usize;
        assert(n == answers.len() - 1);
        let front = leaf_pairs(answers.drop_last());
        let back = inside_pairs(n, answers.last()@);
        lemma_leaf_pairs_members(answers.drop_last(), q);
        lemma_inside_pairs_members(n, answers.last()@, q);
        let all = leaf_pairs(answers);
        assert(all == front + back);
        if all.contains(q) {
            let k = choose|k: int| 0 <= k < all.len() && all[k] == q;
            if k < front.len() {
                assert(front[k] == q);
                assert(front.contains(q));
                assert(answers.drop_last()[q.0 as int] == answers[q.0 as int]);
            } else {
                assert(back[k - front.len()] == q);
                assert(back.contains(q));
            }
        }
        if q.0 < answers.len() && answers[q.0 as int]@.contains((q.1, true)) {
            if q.0 < n {
                assert(answers.drop_last()[q.0 as int] == answers[q.0 as int]);
                assert(front.contains(q));
                let k = choose|k: int| 0 <= k < front.len() && front[k] == q;
                assert(all[k] == q);
            } else {
                assert(back.contains(q));
                let k = choose|k: int| 0 <= k < back.len() && back[k] == q;
                assert(all[front.len() + k] == q);
            }
        }
    }
}

/// A node of `kids` that holds something is among the kept ones.
proof fn lemma_kept_children_has(kids: Seq<BVH>, j: int)
    requires
        0 <= j < kids.len(),
        kids[j].content is Some || kids[j].childs is Some,
    ensures
        kept_children(kids).contains(Some(kids[j])),
    decreases kids.len(),
{
    let front = kids.drop_last();
    let c = kids.last();
    let kept = kept_children(kids);
    if j == kids.len() - 1 {
        assert(kept == kept_children(front).push(Some(c)));
        assert(kept[kept.len() - 1] == Some(kids[j]));
    } else {
        lemma_kept_children_has(front, j);
        assert(front[j] == kids[j]);
        let k = choose|k: int|
            0 <= k < kept_children(front).len() && kept_children(front)[k] == Some(kids[j]);
        if c.content is Some || c.childs is Some {
            assert(kept == kept_children(front).push(Some(c)));
        } else {
            assert(kept == kept_children(front));
        }
        assert(kept[k] == Some(kids[j]));
    }
}

/// Law: a built tree holds only what the objects' checks report inside
/// the depth-`deep` cells under its box.
pub proof fn lemma_built_holds_only_reported<T: AABB, F: Fn(&Box, Vec3f, usize) -> (Box, Vec3f)>(
    b: BVH,
    aabb: Box,
    rel_pos: Vec3f,
    objs: Seq<T>,
    split: F,
    d: int,
    deep: int,
    pair: (usize, usize),
)
    requires
        objs.len() <= usize::MAX,
        built_by(b, aabb, rel_pos, objs, split, d, deep),
        tree_holds(b, pair),
    ensures
        reported_below(objs, split, aabb, rel_pos, d, deep, pair),
    decreases deep - d,
{
    if d >= deep {
        let answers = choose|answers: Seq<Vec<(usize, bool)>>|
            #![trigger leaf_pairs(answers)]
            {
                &&& answers.len() == objs.len()
                &&& forall|i: int|
                    0 <= i < objs.len() ==> call_ensures(
                        T::check_in_aabb,
                        (&objs[i], &aabb, rel_pos),
                        #[trigger] answers[i],
                    )
                &&& list_or_none(b.content, leaf_pairs(answers))
            };
        lemma_leaf_pairs_members(answers, pair);
        assert(call_ensures(
            T::check_in_aabb,
            (&objs[pair.0 as int], &aabb, rel_pos),
            answers[pair.0 as int],
        ));
    } else {
        let (subs, kids) = choose|subs: Seq<(Box, Vec3f)>, kids: Seq<BVH>|
            #![trigger subs.len(), kept_children(kids)]
            {
                &&& subs.len() == 8
                &&& kids.len() == 8
                &&& forall|i: int|
                    0 <= i < 8 ==> split.ensures((&aabb, rel_pos, i as usize), #[trigger] subs[i])
                &&& forall|i: int|
                    0 <= i < 8 ==> built_by(
                        #[trigger] kids[i],
                        subs[i].0,
                        subs[i].1,
                        objs,
                        split,
                        d + 1,
                        deep,
                    )
                &&& list_or_none(b.childs, kept_children(kids))
            };
        lemma_kept_children(kids);
        let kept = kept_children(kids);
        let cs = b.childs->Some_0;
        let k = choose|k: int|
            0 <= k < cs@.len() && (#[trigger] cs@[k]) is Some && tree_holds(cs@[k]->Some_0, pair);
        assert(cs@[k] == kept[k]);
        assert(kept_from(kids, kept[k]));
        let j = choose|j: int|
            0 <= j < kids.len() && kept[k] == Some(#[trigger] kids[j]) && (kids[j].content is Some
                || kids[j].childs is Some);
        assert(built_by(kids[j], subs[j].0, subs[j].1, objs, split, d + 1, deep));
        lemma_built_holds_only_reported(kids[j], subs[j].0, subs[j].1, objs, split, d + 1, deep, pair);
        let ju = j as usize;
        assert(split.ensures((&aabb, rel_pos, ju), subs[j]));
    }
}

/// Law: nothing reported is lost.  When the checks and `split` give one
/// answer each, every pair that the checks report inside some depth-`deep`
/// cell under the box is held by the built tree, however deep the cell:
/// a sub-box is kept whether it holds pairs itself or sub-boxes of its own.
pub proof fn lemma_built_keeps_reported<T: AABB, F: Fn(&Box, Vec3f, usize) -> (Box, Vec3f)>(
    b: BVH,
    aabb: Box,
    rel_pos: Vec3f,
    objs: Seq<T>,
    split: F,
    d: int,
    deep: int,
    pair: (usize, usize),
)
    requires
        objs.len() <= usize::MAX,
        checks_deterministic(objs),
        split_deterministic(split),
        built_by(b, aabb, rel_pos, objs, split, d, deep),
        reported_below(objs, split, aabb, rel_pos, d, deep, pair),
    ensures
        tree_holds(b, pair),
    decreases deep - d,
{
    if d >= deep {
        let answers = choose|answers: Seq<Vec<(usize, bool)>>|
            #![trigger leaf_pairs(answers)]
            {
                &&& answers.len() == objs.len()
                &&& forall|i: int|
                    0 <= i < objs.len() ==> call_ensures(
                        T::check_in_aabb,
                        (&objs[i], &aabb, rel_pos),
                        #[trigger] answers[i],
                    )
                &&& list_or_none(b.content, leaf_pairs(answers))
            };
        let ans = choose|ans: Vec<(usize, bool)>|
            #[trigger] call_ensures(T::check_in_aabb, (&objs[pair.0 as int], &aabb, rel_pos), ans)
                && ans@.contains((pair.1, true));
        assert(call_ensures(
            T::check_in_aabb,
            (&objs[pair.0 as int], &aabb, rel_pos),
            answers[pair.0 as int],
        ));
        assert(answers[pair.0 as int]@ == ans@);
        lemma_leaf_pairs_members(answers, pair);
    } else {
        let (subs, kids) = choose|subs: Seq<(Box, Vec3f)>, kids: Seq<BVH>|
            #![trigger subs.len(), kept_children(kids)]
            {
                &&& subs.len() == 8
                &&& kids.len() == 8
                &&& forall|i: int|
                    0 <= i < 8 ==> split.ensures((&aabb, rel_pos, i as usize), #[trigger] subs[i])
                &&& forall|i: int|
                    0 <= i < 8 ==> built_by(
                        #[trigger] kids[i],
                        subs[i].0,
                        subs[i].1,
                        objs,
                        split,
                        d + 1,
                        deep,
                    )
                &&& list_or_none(b.childs, kept_children(kids))
            };
        let (i, sub) = choose|i: usize, sub: (Box, Vec3f)|
            i < 8 && #[trigger] split.ensures((&aabb, rel_pos, i), sub) && reported_below(
                objs,
                split,
                sub.0,
                sub.1,
                d + 1,
                deep,
                pair,
            );
        let ii = i as int;
        assert(split.ensures((&aabb, rel_pos, ii as usize), subs[ii]));
        assert(subs[ii] == sub);
        assert(built_by(kids[ii], subs[ii].0, subs[ii].1, objs, split, d + 1, deep));
        lemma_built_keeps_reported(kids[ii], sub.0, sub.1, objs, split, d + 1, deep, pair);
        lemma_kept_children_has(kids, ii);
        let kept = kept_children(kids);
        let k = choose|k: int| 0 <= k < kept.len() && kept[k] == Some(kids[ii]);
        let cs = b.childs->Some_0;
        assert(cs@[k] == Some(kids[ii]));
    }
}

impl BVH {
    fn construct<T: AABB, F: Fn(&Box, Vec3f, usize) -> (Box, Vec3f)>(
        aabb: Box,
        rel_pos: Vec3f,
        objs: &Vec<T>,
        d: usize,
        deep: usize,
        split: &F,
    ) -> (r: Option<BVH>)
        requires
            forall|b: &Box, p: Vec3f, i: usize| split.requires((b, p, i)),
        ensures
            r matches Some(b) && b.aabb == aabb && b.rel_pos == rel_pos && bvh_wf(
                b,
                *split,
                objs@.len(),
                d as int,
                deep as int,
            ) && built_by(b, aabb, rel_pos, objs@, *split, d as int, deep as int),
        decreases deep - d,
    {
        if d >= deep {
            let tmp = leaf_content(&aabb, rel_pos, objs);
            let ghost answers = choose|answers: Seq<Vec<(usize, bool)>>|
                {
                    &&& answers.len() == objs@.len()
                    &&& forall|i: int|
                        0 <= i < objs@.len() ==> call_ensures(
                            T::check_in_aabb,
                            (&objs@[i], &aabb, rel_pos),
                            #[trigger] answers[i],
                        )
                    &&& tmp@ == leaf_pairs(answers)
                };
            let content = if tmp.len() != 0 {
                Some(tmp)
            } else {
                None
            };
            let leaf = BVH { aabb, rel_pos, content, childs: None };
            assert(list_or_none(leaf.content, leaf_pairs(answers)));
            return Some(leaf);
        }
        let mut tmp: Vec<Option<BVH>> = Vec::new();
        let mut i: usize = 0;
        let ghost mut subs: Seq<(Box, Vec3f)> = Seq::empty();
        let ghost mut kids: Seq<BVH> = Seq::empty();
        while i < 8
            invariant
                d < deep,
                i <= 8,
                tmp@.len() <= i,
                subs.len() == i,
                kids.len() == i,
                forall|k: int|
                    0 <= k < i ==> split.ensures((&aabb, rel_pos, k as usize), #[trigger] subs[k]),
                forall|k: int|
                    0 <= k < i ==> built_by(
                        #[trigger] kids[k],
                        subs[k].0,
                        subs[k].1,
                        objs@,
                        *split,
                        d + 1,
                        deep as int,
                    ),
                tmp@ == kept_children(kids),
                forall|b: &Box, p: Vec3f, i: usize| split.requires((b, p, i)),
                forall|k: int|
                    0 <= k < tmp@.len() ==> {
                        &&& (#[trigger] tmp@[k]) is Some
                        &&& tmp@[k]->Some_0.content is Some || tmp@[k]->Some_0.childs is Some
                        &&& is_sub_box(
                            *split,
                            aabb,
                            rel_pos,
                            tmp@[k]->Some_0.aabb,
                            tmp@[k]->Some_0.rel_pos,
                        )
                        &&& bvh_wf(tmp@[k]->Some_0, *split, objs@.len(), d + 1, deep as int)
                    },
            decreases 8 - i,
        {
            let (cb, cp) = split(&aabb, rel_pos, i);
            assert(is_sub_box(*split, aabb, rel_pos, cb, cp));
            let c = BVH::construct(cb, cp, objs, d + 1, deep, split);
            proof {
                let next = kids.push(c->Some_0);
                assert(next.drop_last() =~= kids);
                kids = next;
                subs = subs.push((cb, cp));
            }
            match c {
                Some(c) => {
                    if c.content.is_some() || c.childs.is_some() {
                        tmp.push(Some(c));
                    }
                },
                None => {},
            }
            i = i + 1;
        }
        let childs = if tmp.len() != 0 {
            Some(tmp)
        } else {
            None
        };
        Some(BVH { aabb, rel_pos, content: None, childs })
    }

    /// Builds the hierarchy of the box `aabb` centred on the origin over the
    /// objects, cutting each box into the eight sub-boxes that `split` gives
    /// (octant `i` of box `b` centred on `p`) down to depth `max_deep`, and
    /// keeping only sub-boxes that something reaches into: the tree that
    /// `built_by` describes from depth 0, which is well formed.
    pub fn gen<T: AABB, F: Fn(&Box, Vec3f, usize) -> (Box, Vec3f)>(
        aabb: Box,
        objs: &Vec<T>,
        max_deep: usize,
        split: &F,
    ) -> (r: Option<BVH>)
        requires
            forall|b: &Box, p: Vec3f, i: usize| split.requires((b, p, i)),
        ensures
            r matches Some(b) && b.aabb == aabb && b.rel_pos == (Vec3f { x: ZERO, y: ZERO, z: ZERO })
                && bvh_wf(b, *split, objs@.len(), 0, max_deep as int) && built_by(
                b,
                aabb,
                Vec3f { x: ZERO, y: ZERO, z: ZERO },
                objs@,
                *split,
                0,
                max_deep as int,
            ),
    {
        BVH::construct(aabb, Vec3f::zero(), objs, 0, max_deep, split)
    }
}

} // verus!
