use vstd::prelude::*;

use crate::expand::{
    fit_usize, is_bevel, join_point_vertices, lemma_stroke_within_budget, path_flags, paths_flagged,
    stroke_budget, stroke_path_budget, stroke_path_emitted, sum_joins, with_slices, PR_INNERBEVEL, PT_BEVEL,
};
use crate::paint::{LineCap, LineJoin};
use crate::path::{PathInfo, PathSlice};

verus! {

/// The segment counts `segs[lo..hi]` of round joins, as numbers.
pub open spec fn segs_nat(segs: Seq<usize>, lo: int, hi: int) -> Seq<nat> {
    Seq::new((hi - lo) as nat, |j: int| segs[lo + j] as nat)
}

/// Vertices that stroking writes for a path whose round joins at point `k`
/// have `segs[k]` segments. An open path of fewer than two points has no
/// segment, and so no direction for its caps: nothing is laid out for it,
/// not even its caps.
pub open spec fn stroke_part(
    p: PathInfo,
    flags: Seq<u32>,
    segs: Seq<usize>,
    line_join: LineJoin,
    line_cap: LineCap,
    ncap: nat,
) -> nat {
    if !p.closed && p.count < 2 {
        0
    } else {
        stroke_path_emitted(
            p.closed,
            path_flags(p, flags),
            segs_nat(segs, p.first as int, p.first + p.count),
            line_join,
            line_cap,
            ncap,
        )
    }
}

/// Vertices that stroking writes for the paths, in order.
pub open spec fn stroke_emitted(
    paths: Seq<PathInfo>,
    flags: Seq<u32>,
    segs: Seq<usize>,
    line_join: LineJoin,
    line_cap: LineCap,
    ncap: nat,
) -> nat
    decreases paths.len(),
{
    if paths.len() == 0 {
        0
    } else {
        stroke_emitted(paths.drop_last(), flags, segs, line_join, line_cap, ncap)
            + stroke_part(paths.last(), flags, segs, line_join, line_cap, ncap)
    }
}

/// The slices of the stroked paths, which start at vertex `base`: entry
/// `i` is the record `old_slices[i]` (or the default record past its end)
/// with no fill vertices and its stroke placed after those of the paths
/// before it.
pub open spec fn stroke_slices(
    paths: Seq<PathInfo>,
    flags: Seq<u32>,
    segs: Seq<usize>,
    line_join: LineJoin,
    line_cap: LineCap,
    ncap: nat,
    old_slices: Seq<PathSlice>,
    base: nat,
) -> Seq<PathSlice> {
    Seq::new(paths.len(), |i: int| with_slices(
        if i < old_slices.len() { old_slices[i] } else { PathInfo::spec_default() },
        (base + stroke_emitted(paths.take(i), flags, segs, line_join, line_cap, ncap)) as usize,
        0,
        stroke_part(paths[i], flags, segs, line_join, line_cap, ncap) as usize,
    ))
}

/// The points of every path lie among the `n` points.
pub open spec fn ranges_within(paths: Seq<PathInfo>, n: nat) -> bool {
    forall|i: int| 0 <= i < paths.len() ==> #[trigger] paths[i].first + paths[i].count <= n
}

proof fn lemma_sum_joins_prefix(flags: Seq<u32>, ns: Seq<nat>, line_join: LineJoin, k: int)
    requires
        flags.len() == ns.len(),
        0 <= k <= flags.len(),
    ensures
        sum_joins(flags.take(k), ns.take(k), line_join) <= sum_joins(flags, ns, line_join),
    decreases flags.len() - k,
{
    if k < flags.len() {
        lemma_sum_joins_prefix(flags, ns, line_join, k + 1);
        assert(flags.take(k + 1).drop_last() == flags.take(k));
        assert(ns.take(k + 1).drop_last() == ns.take(k));
    } else {
        assert(flags.take(k) == flags);
        assert(ns.take(k) == ns);
    }
}

/// Vertices of the join at a point with the flags `flags`, a round join
/// having `n` segments, when that number fits a `usize`.
fn join_vertices(flags: u32, line_join: LineJoin, n: usize) -> (r: Option<usize>)
    ensures
        r == fit_usize(join_point_vertices(flags, line_join, n as nat)),
{
    if flags & PT_BEVEL == PT_BEVEL || flags & PR_INNERBEVEL == PR_INNERBEVEL {
        if line_join == LineJoin::Round {
            match n.checked_mul(2) {
                Some(m) => m.checked_add(4),
                None => None,
            }
        } else if flags & PT_BEVEL == PT_BEVEL {
            Some(8)
        } else {
            Some(10)
        }
    } else {
        Some(2)
    }
}

/// Vertices of the joins at the points `lo..hi`, when that number fits a
/// `usize`.
fn sum_joins_range(point_flags: &[u32], segs: &[usize], lo: usize, hi: usize, line_join: LineJoin) -> (r: Option<usize>)
    requires
        lo <= hi <= point_flags@.len(),
        segs@.len() == point_flags@.len(),
    ensures
        r == fit_usize(sum_joins(point_flags@.subrange(lo as int, hi as int), segs_nat(segs@, lo as int, hi as int), line_join)),
{
    let ghost all_f = point_flags@.subrange(lo as int, hi as int);
    let ghost all_n = segs_nat(segs@, lo as int, hi as int);
    let mut acc: usize = 0;
    let mut k: usize = lo;
    while k < hi
        invariant
            lo <= k <= hi <= point_flags@.len(),
            segs@.len() == point_flags@.len(),
            all_f == point_flags@.subrange(lo as int, hi as int),
            all_n == segs_nat(segs@, lo as int, hi as int),
            acc == sum_joins(all_f.take(k - lo), all_n.take(k - lo), line_join),
        decreases hi - k,
    {
        let ghost j = k - lo;
        assert(all_f.take(j + 1).drop_last() == all_f.take(j));
        assert(all_n.take(j + 1).drop_last() == all_n.take(j));
        assert(all_f.take(j + 1).last() == point_flags@[k as int]);
        assert(all_n.take(j + 1).last() == segs@[k as int] as nat);
        proof {
            lemma_sum_joins_prefix(all_f, all_n, line_join, j + 1);
        }
        let step = match join_vertices(point_flags[k], line_join, segs[k]) {
            Some(s) => s,
            None => return None,
        };
        acc = match acc.checked_add(step) {
            Some(a) => a,
            None => return None,
        };
        k = k + 1;
    }
    assert(all_f.take(hi - lo) == all_f);
    assert(all_n.take(hi - lo) == all_n);
    Some(acc)
}

/// Vertices that stroking writes for the path `p`, when that number fits
/// a `usize`.
fn stroke_path_count(
    point_flags: &[u32],
    segs: &[usize],
    p: &PathInfo,
    line_join: LineJoin,
    line_cap: LineCap,
    ncap: usize,
) -> (r: Option<usize>)
    requires
        p.first + p.count <= point_flags@.len(),
        segs@.len() == point_flags@.len(),
    ensures
        r == fit_usize(stroke_part(*p, point_flags@, segs@, line_join, line_cap, ncap as nat)),
{
    let first = p.first;
    let count = p.count;
    let num_points = point_flags.len();
    assert(first + count <= num_points);
    let ghost f = point_flags@;
    let ghost pf = path_flags(*p, f);
    let ghost pn = segs_nat(segs@, first as int, first + count);
    if !p.closed && count < 2 {
        return Some(0);
    }
    if p.closed {
        let joins = match sum_joins_range(point_flags, segs, first, first + count, line_join) {
            Some(j) => j,
            None => return None,
        };
        return joins.checked_add(2);
    }
    assert(pf.subrange(1, pf.len() - 1) == f.subrange(first + 1, first + count - 1));
    assert(pn.subrange(1, pn.len() - 1) == segs_nat(segs@, first + 1, first + count - 1));
    let cap: usize = if line_cap == LineCap::Round {
        let c = match ncap.checked_mul(2) {
            Some(c) => c,
            None => return None,
        };
        match c.checked_add(2) {
            Some(c) => c,
            None => return None,
        }
    } else {
        4
    };
    let caps = match cap.checked_mul(2) {
        Some(c) => c,
        None => return None,
    };
    let joins = match sum_joins_range(point_flags, segs, first + 1, first + count - 1, line_join) {
        Some(j) => j,
        None => return None,
    };
    caps.checked_add(joins)
}

proof fn lemma_stroke_emitted_prefix(
    paths: Seq<PathInfo>,
    flags: Seq<u32>,
    segs: Seq<usize>,
    line_join: LineJoin,
    line_cap: LineCap,
    ncap: nat,
    i: int,
)
    requires
        0 <= i <= paths.len(),
    ensures
        stroke_emitted(paths.take(i), flags, segs, line_join, line_cap, ncap)
            <= stroke_emitted(paths, flags, segs, line_join, line_cap, ncap),
    decreases paths.len() - i,
{
    if i < paths.len() {
        assert(paths.take(i + 1).drop_last() == paths.take(i));
        lemma_stroke_emitted_prefix(paths, flags, segs, line_join, line_cap, ncap, i + 1);
    } else {
        assert(paths.take(i) == paths);
    }
}

/// Lays out the stroke of the paths after the `base` vertices already in
/// the vertex list, given the flags of their points and the segment count
/// `segs[k]` of a round join at point `k`: fills in the slice record of
/// each path (no fill vertices, then its stroke) and returns the end of the
/// stroke vertices. Returns `None`, changing nothing, when a path lies
/// beyond the points or the vertices cannot be counted in a `usize`.
pub fn stroke_layout(
    paths: &[PathInfo],
    point_flags: &[u32],
    segs: &[usize],
    line_join: LineJoin,
    line_cap: LineCap,
    ncap: usize,
    base: usize,
    slices: &mut Vec<PathSlice>,
) -> (r: Option<usize>)
    requires
        segs@.len() == point_flags@.len(),
    ensures
        r is Some <==> (ranges_within(paths@, point_flags@.len())
            && base + stroke_emitted(paths@, point_flags@, segs@, line_join, line_cap, ncap as nat) <= usize::MAX),
        r is Some ==> r->0 == base + stroke_emitted(paths@, point_flags@, segs@, line_join, line_cap, ncap as nat),
        r is Some ==> final(slices)@ == stroke_slices(
            paths@, point_flags@, segs@, line_join, line_cap, ncap as nat, old(slices)@, base as nat),
        r is None ==> final(slices)@ == old(slices)@,
{
    let ghost n = ncap as nat;
    let num_points = point_flags.len();
    let mut parts: Vec<usize> = Vec::new();
    let mut offset: usize = base;
    let mut i: usize = 0;
    while i < paths.len()
        invariant
            i <= paths@.len(),
            segs@.len() == point_flags@.len(),
            parts@.len() == i,
            forall|k: int| 0 <= k < i ==> #[trigger] parts@[k] == stroke_part(paths@[k], point_flags@, segs@, line_join, line_cap, n),
            forall|k: int| 0 <= k < i ==> #[trigger] paths@[k].first + paths@[k].count <= point_flags@.len(),
            offset == base + stroke_emitted(paths@.take(i as int), point_flags@, segs@, line_join, line_cap, n),
            n == ncap,
            num_points == point_flags@.len(),
        decreases paths@.len() - i,
    {
        assert(paths@.take(i + 1).drop_last() == paths@.take(i as int));
        assert(paths@.take(i + 1).last() == paths@[i as int]);
        proof {
            lemma_stroke_emitted_prefix(paths@, point_flags@, segs@, line_join, line_cap, n, i + 1);
        }
        let p = &paths[i];
        let end = match p.first.checked_add(p.count) {
            Some(e) => e,
            None => {
                assert(!ranges_within(paths@, point_flags@.len())) by {
                    assert(paths@[i as int].first + paths@[i as int].count > point_flags@.len());
                }
                return None;
            },
        };
        if end > num_points {
            assert(!ranges_within(paths@, point_flags@.len())) by {
                assert(paths@[i as int].first + paths@[i as int].count > point_flags@.len());
            }
            return None;
        }
        let part = match stroke_path_count(point_flags, segs, p, line_join, line_cap, ncap) {
            Some(c) => c,
            None => {
                return None;
            },
        };
        offset = match offset.checked_add(part) {
            Some(o) => o,
            None => return None,
        };
        parts.push(part);
        i = i + 1;
    }
    assert(paths@.take(paths@.len() as int) == paths@);

    let ghost old_slices = slices@;
    slices.resize(paths.len(), PathInfo::default());
    let ghost resized = slices@;
    assert forall|i: int| 0 <= i < paths@.len() implies
        #[trigger] resized[i] == if i < old_slices.len() { old_slices[i] } else { PathInfo::spec_default() } by {
        if paths@.len() <= old_slices.len() {
            assert(resized == old_slices.subrange(0, paths@.len() as int));
        } else if i < old_slices.len() {
            assert(resized.subrange(0, old_slices.len() as int) == old_slices);
            assert(resized[i] == resized.subrange(0, old_slices.len() as int)[i]);
        }
    }
    let mut at = base;
    let mut j: usize = 0;
    while j < paths.len()
        invariant
            j <= paths@.len(),
            parts@.len() == paths@.len(),
            slices@.len() == paths@.len(),
            forall|k: int| 0 <= k < paths@.len() ==> #[trigger] parts@[k] == stroke_part(paths@[k], point_flags@, segs@, line_join, line_cap, n),
            at == base + stroke_emitted(paths@.take(j as int), point_flags@, segs@, line_join, line_cap, n),
            offset == base + stroke_emitted(paths@, point_flags@, segs@, line_join, line_cap, n),
            offset <= usize::MAX,
            forall|k: int| 0 <= k < j ==> #[trigger] slices@[k] == stroke_slices(
                paths@, point_flags@, segs@, line_join, line_cap, n, old_slices, base as nat)[k],
            forall|k: int| j <= k < paths@.len() ==> #[trigger] slices@[k] == resized[k],
            forall|k: int| 0 <= k < paths@.len() ==>
                #[trigger] resized[k] == if k < old_slices.len() { old_slices[k] } else { PathInfo::spec_default() },
        decreases paths@.len() - j,
    {
        assert(paths@.take(j + 1).drop_last() == paths@.take(j as int));
        assert(paths@.take(j + 1).last() == paths@[j as int]);
        proof {
            lemma_stroke_emitted_prefix(paths@, point_flags@, segs@, line_join, line_cap, n, j + 1);
        }
        let mut s = slices[j];
        s.offset = at;
        s.num_fill = 0;
        s.num_stroke = parts[j];
        at = at + parts[j];
        slices.set(j, s);
        j = j + 1;
    }
    assert(slices@ =~= stroke_slices(paths@, point_flags@, segs@, line_join, line_cap, n, old_slices, base as nat));
    Some(offset)
}

/// The vertices that stroking lays out never exceed those reserved for the
/// stroke: once the bevel count of each path is that of its point flags,
/// every round join has at most `ncap` segments and, with round joins, the
/// end points of the open paths are beveled.
pub proof fn lemma_stroke_layout_within_budget(
    paths: Seq<PathInfo>,
    flags: Seq<u32>,
    segs: Seq<usize>,
    line_join: LineJoin,
    line_cap: LineCap,
    ncap: nat,
)
    requires
        paths_flagged(paths, flags),
        segs.len() == flags.len(),
        forall|k: int| 0 <= k < segs.len() ==> #[trigger] segs[k] <= ncap,
        line_join == LineJoin::Round ==> forall|i: int|
            0 <= i < paths.len() && !(#[trigger] paths[i]).closed && paths[i].count >= 2 ==> {
                &&& is_bevel(flags[paths[i].first as int])
                &&& is_bevel(flags[paths[i].first + paths[i].count - 1])
            },
    ensures
        stroke_emitted(paths, flags, segs, line_join, line_cap, ncap)
            <= stroke_budget(paths, line_join, line_cap, ncap),
    decreases paths.len(),
{
    if paths.len() > 0 {
        let rest = paths.drop_last();
        assert forall|i: int| 0 <= i < rest.len() implies {
            &&& #[trigger] rest[i].first + rest[i].count <= flags.len()
            &&& rest[i].num_bevel == crate::expand::bevel_count(path_flags(rest[i], flags))
        } by {
            assert(rest[i] == paths[i]);
        }
        if line_join == LineJoin::Round {
            assert forall|i: int| 0 <= i < rest.len() && !(#[trigger] rest[i]).closed && rest[i].count >= 2 implies {
                &&& is_bevel(flags[rest[i].first as int])
                &&& is_bevel(flags[rest[i].first + rest[i].count - 1])
            } by {
                assert(rest[i] == paths[i]);
            }
        }
        lemma_stroke_layout_within_budget(rest, flags, segs, line_join, line_cap, ncap);
        let p = paths.last();
        let last = paths.len() - 1;
        assert(p == paths[last]);
        if p.closed || p.count >= 2 {
            let pf = path_flags(p, flags);
            let pn = segs_nat(segs, p.first as int, p.first + p.count);
            assert forall|k: int| 0 <= k < pn.len() implies #[trigger] pn[k] <= ncap by {
                assert(segs[p.first + k] <= ncap);
            }
            if !p.closed && line_join == LineJoin::Round {
                assert(pf[0] == flags[p.first as int]);
                assert(pf[p.count - 1] == flags[p.first + p.count - 1]);
            }
            lemma_stroke_within_budget(p, pf, pn, line_join, line_cap, ncap);
        }
    }
}

/// The stroke slices lie back to back from `base`, one per path in path
/// order, with no fill part, and end where the stroke vertices end; a
/// closed path, or an open one of at least two points, gets at least two
/// vertices.
pub proof fn lemma_stroke_slices_back_to_back(
    paths: Seq<PathInfo>,
    flags: Seq<u32>,
    segs: Seq<usize>,
    line_join: LineJoin,
    line_cap: LineCap,
    ncap: nat,
    old_slices: Seq<PathSlice>,
    base: nat,
)
    requires
        base + stroke_emitted(paths, flags, segs, line_join, line_cap, ncap) <= usize::MAX,
    ensures
        ({
            let s = stroke_slices(paths, flags, segs, line_join, line_cap, ncap, old_slices, base);
            &&& s.len() == paths.len()
            &&& paths.len() > 0 ==> s[0].offset == base
            &&& forall|k: int| 0 <= k < s.len() ==> (#[trigger] s[k]).num_fill == 0
                && s[k].num_stroke == stroke_part(paths[k], flags, segs, line_join, line_cap, ncap)
            &&& forall|k: int| 0 <= k < s.len() - 1 ==> #[trigger] s[k + 1].offset == s[k].offset + s[k].num_stroke
            &&& forall|k: int| 0 <= k < s.len() && ((#[trigger] paths[k]).closed || paths[k].count >= 2)
                ==> s[k].num_stroke >= 2
            &&& paths.len() > 0 ==> s[s.len() - 1].offset + s[s.len() - 1].num_stroke
                == base + stroke_emitted(paths, flags, segs, line_join, line_cap, ncap)
        }),
{
    let s = stroke_slices(paths, flags, segs, line_join, line_cap, ncap, old_slices, base);
    let total = stroke_emitted(paths, flags, segs, line_join, line_cap, ncap);
    assert forall|k: int| 0 <= k < paths.len() implies {
        &&& stroke_emitted(paths.take(k + 1), flags, segs, line_join, line_cap, ncap)
            == stroke_emitted(paths.take(k), flags, segs, line_join, line_cap, ncap)
                + stroke_part(paths[k], flags, segs, line_join, line_cap, ncap)
        &&& stroke_emitted(paths.take(k + 1), flags, segs, line_join, line_cap, ncap) <= total
    } by {
        assert(paths.take(k + 1).drop_last() == paths.take(k));
        assert(paths.take(k + 1).last() == paths[k]);
        lemma_stroke_emitted_prefix(paths, flags, segs, line_join, line_cap, ncap, k + 1);
    }
    assert forall|k: int| 0 <= k < s.len() implies (#[trigger] s[k]).num_fill == 0
        && s[k].num_stroke == stroke_part(paths[k], flags, segs, line_join, line_cap, ncap) by {
        assert(stroke_emitted(paths.take(k + 1), flags, segs, line_join, line_cap, ncap) <= total);
    }
    assert forall|k: int| 0 <= k < s.len() - 1 implies #[trigger] s[k + 1].offset == s[k].offset + s[k].num_stroke by {
        assert(stroke_emitted(paths.take(k + 1), flags, segs, line_join, line_cap, ncap) <= total);
    }
    assert forall|k: int| 0 <= k < s.len() && ((#[trigger] paths[k]).closed || paths[k].count >= 2)
        implies s[k].num_stroke >= 2 by {
        assert(stroke_emitted(paths.take(k + 1), flags, segs, line_join, line_cap, ncap) <= total);
    }
    if paths.len() > 0 {
        assert(paths.take(0) =~= Seq::<PathInfo>::empty());
        let n = paths.len() - 1;
        assert(paths.take(n + 1) == paths);
    }
}

proof fn lemma_sum_joins_plain(flags: Seq<u32>, ns: Seq<nat>, line_join: LineJoin)
    requires
        flags.len() == ns.len(),
        forall|k: int| 0 <= k < flags.len() ==> !is_bevel(#[trigger] flags[k]),
    ensures
        sum_joins(flags, ns, line_join) == 2 * flags.len(),
    decreases flags.len(),
{
    if flags.len() > 0 {
        assert forall|k: int| 0 <= k < flags.drop_last().len() implies !is_bevel(#[trigger] flags.drop_last()[k]) by {
            assert(flags.drop_last()[k] == flags[k]);
        }
        lemma_sum_joins_plain(flags.drop_last(), ns.drop_last(), line_join);
        assert(!is_bevel(flags[flags.len() - 1]));
    }
}

/// The join at a point writes 2 vertices when the point is not beveled;
/// at a beveled point, a round join of `n` segments writes 4 + 2n, a bevel
/// of the outer corner 8 and an inner bevel alone 10.
pub proof fn lemma_join_counts(flags: u32, line_join: LineJoin, n: nat)
    ensures
        !is_bevel(flags) ==> join_point_vertices(flags, line_join, n) == 2,
        is_bevel(flags) && line_join == LineJoin::Round ==> join_point_vertices(flags, line_join, n) == 4 + 2 * n,
        is_bevel(flags) && line_join != LineJoin::Round && flags & PT_BEVEL == PT_BEVEL
            ==> join_point_vertices(flags, line_join, n) == 8,
        is_bevel(flags) && line_join != LineJoin::Round && flags & PT_BEVEL != PT_BEVEL
            ==> join_point_vertices(flags, line_join, n) == 10,
{
}

/// The vertices laid out for a stroked path are those of its caps and
/// joins: an open path of at least two points gets a cap at each end, 4
/// vertices for a butt or a square cap and 2 * ncap + 2 for a round one,
/// and the joins of its inner points; a closed path gets the joins of all
/// its points and 2 closing vertices; an open path of fewer points gets
/// none. Where no point of the path is beveled, each join is a pair of
/// vertices.
pub proof fn lemma_stroke_part_counts(
    p: PathInfo,
    flags: Seq<u32>,
    segs: Seq<usize>,
    line_join: LineJoin,
    line_cap: LineCap,
    ncap: nat,
)
    requires
        p.first + p.count <= flags.len(),
        segs.len() == flags.len(),
    ensures
        ({
            let caps: nat = if line_cap == LineCap::Round { 2 * (2 * ncap + 2) } else { 8 };
            let part = stroke_part(p, flags, segs, line_join, line_cap, ncap);
            &&& !p.closed && p.count >= 2 ==> part == caps + sum_joins(
                flags.subrange(p.first + 1, p.first + p.count - 1),
                segs_nat(segs, p.first + 1, p.first + p.count - 1),
                line_join,
            )
            &&& p.closed ==> part == sum_joins(
                flags.subrange(p.first as int, p.first + p.count),
                segs_nat(segs, p.first as int, p.first + p.count),
                line_join,
            ) + 2
            &&& !p.closed && p.count < 2 ==> part == 0
            &&& (forall|k: int| p.first <= k < p.first + p.count ==> !is_bevel(#[trigger] flags[k])) ==> part == if p.closed {
                2 * p.count + 2
            } else if p.count < 2 {
                0
            } else {
                caps + 2 * (p.count - 2)
            }
        }),
{
    let first = p.first as int;
    let n = p.count as int;
    let pf = path_flags(p, flags);
    let pn = segs_nat(segs, first, first + n);
    if !p.closed && p.count >= 2 {
        assert(pf.subrange(1, pf.len() - 1) == flags.subrange(first + 1, first + n - 1));
        assert(pn.subrange(1, pn.len() - 1) == segs_nat(segs, first + 1, first + n - 1));
    }
    if forall|k: int| p.first <= k < p.first + p.count ==> !is_bevel(#[trigger] flags[k]) {
        if p.closed {
            assert forall|k: int| 0 <= k < pf.len() implies !is_bevel(#[trigger] pf[k]) by {
                assert(pf[k] == flags[first + k]);
            }
            lemma_sum_joins_plain(pf, pn, line_join);
        } else if p.count >= 2 {
            let inner = flags.subrange(first + 1, first + n - 1);
            assert forall|k: int| 0 <= k < inner.len() implies !is_bevel(#[trigger] inner[k]) by {
                assert(inner[k] == flags[first + 1 + k]);
            }
            lemma_sum_joins_plain(inner, segs_nat(segs, first + 1, first + n - 1), line_join);
        }
    }
}

} // verus!
