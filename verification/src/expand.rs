use vstd::prelude::*;

use crate::paint::{LineCap, LineJoin};
use crate::path::{PathInfo, PathSlice};

verus! {

/// Point flag: the point is a corner of the path.
pub const PT_CORNER: u32 = 0x1;
/// Point flag: the path turns left at the point.
pub const PT_LEFT: u32 = 0x2;
/// Point flag: the corner is drawn beveled.
pub const PT_BEVEL: u32 = 0x4;
/// Point flag: the inner side of the corner is beveled.
pub const PR_INNERBEVEL: u32 = 0x8;

/// The flag `bit` is set in `flags`.
pub open spec fn has_flag(flags: u32, bit: u32) -> bool {
    flags & bit == bit
}

/// The point's corner is drawn with a join (bevel, round or inner bevel).
pub open spec fn is_bevel(flags: u32) -> bool {
    has_flag(flags, PT_BEVEL) || has_flag(flags, PR_INNERBEVEL)
}

/// The flags of a point after the joins of its path are computed: only its
/// corner flag is kept; it turns left when `left`, gets an inner bevel
/// when `inner_bevel`, and a corner is beveled when its miter would be too
/// long (`miter_short`) or the join is a bevel or round join.
pub open spec fn spec_join_flags(flags: u32, left: bool, inner_bevel: bool, miter_short: bool, line_join: LineJoin) -> u32 {
    let f0 = flags & PT_CORNER;
    let f1 = if left { f0 | PT_LEFT } else { f0 };
    let f2 = if inner_bevel { f1 | PR_INNERBEVEL } else { f1 };
    if has_flag(f2, PT_CORNER) && (miter_short || line_join == LineJoin::Bevel || line_join == LineJoin::Round) {
        f2 | PT_BEVEL
    } else {
        f2
    }
}

/// Computes the flags of a point from the geometric tests of its corner.
pub fn join_flags(flags: u32, left: bool, inner_bevel: bool, miter_short: bool, line_join: LineJoin) -> (r: u32)
    ensures
        r == spec_join_flags(flags, left, inner_bevel, miter_short, line_join),
        has_flag(r, PT_LEFT) == left,
        has_flag(r, PR_INNERBEVEL) == inner_bevel,
        has_flag(r, PT_CORNER) == has_flag(flags, PT_CORNER),
        has_flag(r, PT_BEVEL) == (has_flag(flags, PT_CORNER)
            && (miter_short || line_join == LineJoin::Bevel || line_join == LineJoin::Round)),
{
    let mut f = flags & PT_CORNER;
    if left {
        f = f | PT_LEFT;
    }
    if inner_bevel {
        f = f | PR_INNERBEVEL;
    }
    let corner = f & PT_CORNER == PT_CORNER;
    if corner && (miter_short || line_join == LineJoin::Bevel || line_join == LineJoin::Round) {
        f = f | PT_BEVEL;
    }
    proof {
        let fl = flags;
        assert((fl & 1) & 1 == fl & 1 && (fl & 1) & 2 == 0 && (fl & 1) & 4 == 0 && (fl & 1) & 8 == 0) by (bit_vector);
        let f0 = flags & 1;
        assert((f0 | 2) & 1 == f0 & 1 && (f0 | 2) & 2 == 2 && (f0 | 2) & 4 == f0 & 4 && (f0 | 2) & 8 == f0 & 8) by (bit_vector);
        let f1 = if left { f0 | 2 } else { f0 };
        assert((f1 | 8) & 1 == f1 & 1 && (f1 | 8) & 2 == f1 & 2 && (f1 | 8) & 4 == f1 & 4 && (f1 | 8) & 8 == 8) by (bit_vector);
        let f2 = if inner_bevel { f1 | 8 } else { f1 };
        assert((f2 | 4) & 1 == f2 & 1 && (f2 | 4) & 2 == f2 & 2 && (f2 | 4) & 4 == 4 && (f2 | 4) & 8 == f2 & 8) by (bit_vector);
    }
    f
}

/// Number of beveled points among `flags`.
pub open spec fn bevel_count(flags: Seq<u32>) -> nat
    decreases flags.len(),
{
    if flags.len() == 0 {
        0
    } else {
        bevel_count(flags.drop_last()) + if is_bevel(flags.last()) { 1nat } else { 0nat }
    }
}

/// Number of left turns among `flags`.
pub open spec fn left_count(flags: Seq<u32>) -> nat
    decreases flags.len(),
{
    if flags.len() == 0 {
        0
    } else {
        left_count(flags.drop_last()) + if has_flag(flags.last(), PT_LEFT) { 1nat } else { 0nat }
    }
}

/// Counts the beveled points and the left turns among `flags`; the path
/// is convex when it turns left at every point.
pub fn count_joins(flags: &[u32]) -> (r: (usize, usize))
    ensures
        r.0 == bevel_count(flags@),
        r.1 == left_count(flags@),
{
    let mut num_bevel: usize = 0;
    let mut nleft: usize = 0;
    let mut i: usize = 0;
    while i < flags.len()
        invariant
            i <= flags@.len(),
            num_bevel == bevel_count(flags@.take(i as int)),
            nleft == left_count(flags@.take(i as int)),
            num_bevel <= i,
            nleft <= i,
        decreases flags@.len() - i,
    {
        assert(flags@.take(i + 1).drop_last() == flags@.take(i as int));
        let f = flags[i];
        if f & PT_BEVEL == PT_BEVEL || f & PR_INNERBEVEL == PR_INNERBEVEL {
            num_bevel = num_bevel + 1;
        }
        if f & PT_LEFT == PT_LEFT {
            nleft = nleft + 1;
        }
        i = i + 1;
    }
    assert(flags@.take(flags@.len() as int) == flags@);
    (num_bevel, nleft)
}

/// Vertices reserved for a stroked path.
pub open spec fn stroke_path_budget(p: PathInfo, line_join: LineJoin, line_cap: LineCap, ncap: nat) -> nat {
    if line_join == LineJoin::Round {
        ((p.count + p.num_bevel * (ncap + 2) + 1) * 2) as nat
    } else {
        ((p.count + p.num_bevel * 5 + 1) * 2 + if p.closed {
            0
        } else if line_cap == LineCap::Round {
            (ncap * 2 + 2) * 2
        } else {
            (3 + 3) * 2
        }) as nat
    }
}

/// Vertices reserved for stroking the paths.
pub open spec fn stroke_budget(paths: Seq<PathInfo>, line_join: LineJoin, line_cap: LineCap, ncap: nat) -> nat
    decreases paths.len(),
{
    if paths.len() == 0 {
        0
    } else {
        stroke_budget(paths.drop_last(), line_join, line_cap, ncap) + stroke_path_budget(paths.last(), line_join, line_cap, ncap)
    }
}

/// Vertices reserved for a filled path, with or without an
/// antialiasing fringe.
pub open spec fn fill_path_budget(p: PathInfo, fringe: bool) -> nat {
    (p.count + p.num_bevel + 1 + if fringe { (p.count + p.num_bevel * 5 + 1) * 2 } else { 0 }) as nat
}

/// The paths are a single convex path, filled without a bounds quad.
pub open spec fn single_convex(paths: Seq<PathInfo>) -> bool {
    paths.len() == 1 && paths[0].convex
}

/// Vertices reserved for filling the paths of the list.
pub open spec fn fill_paths_budget(paths: Seq<PathInfo>, fringe: bool) -> nat
    decreases paths.len(),
{
    if paths.len() == 0 {
        0
    } else {
        fill_paths_budget(paths.drop_last(), fringe) + fill_path_budget(paths.last(), fringe)
    }
}

/// Vertices reserved for filling the paths: the paths, and the bounds quad
/// unless the paths are a single convex path.
pub open spec fn fill_budget(paths: Seq<PathInfo>, fringe: bool) -> nat {
    (if single_convex(paths) { 0nat } else { 4nat }) + fill_paths_budget(paths, fringe)
}

/// Vertices of the wire lines of a path: its points, and the first one
/// again when it is closed.
pub open spec fn lines_path_count(p: PathInfo) -> nat {
    p.count as nat + if p.closed { 1nat } else { 0nat }
}

/// Vertices of the wire lines of the paths.
pub open spec fn lines_budget(paths: Seq<PathInfo>) -> nat
    decreases paths.len(),
{
    if paths.len() == 0 {
        0
    } else {
        lines_budget(paths.drop_last()) + lines_path_count(paths.last())
    }
}

proof fn lemma_prefix_step(paths: Seq<PathInfo>, i: int)
    requires
        0 <= i < paths.len(),
    ensures
        paths.take(i + 1).drop_last() == paths.take(i),
        paths.take(i + 1).last() == paths[i],
{
    assert(paths.take(i + 1).drop_last() == paths.take(i));
}

proof fn lemma_stroke_budget_prefix(paths: Seq<PathInfo>, i: int, line_join: LineJoin, line_cap: LineCap, ncap: nat)
    requires
        0 <= i <= paths.len(),
    ensures
        stroke_budget(paths.take(i), line_join, line_cap, ncap) <= stroke_budget(paths, line_join, line_cap, ncap),
    decreases paths.len() - i,
{
    if i < paths.len() {
        lemma_prefix_step(paths, i);
        lemma_stroke_budget_prefix(paths, i + 1, line_join, line_cap, ncap);
    } else {
        assert(paths.take(i) == paths);
    }
}

proof fn lemma_fill_budget_prefix(paths: Seq<PathInfo>, i: int, fringe: bool)
    requires
        0 <= i <= paths.len(),
    ensures
        fill_paths_budget(paths.take(i), fringe) <= fill_paths_budget(paths, fringe),
    decreases paths.len() - i,
{
    if i < paths.len() {
        lemma_prefix_step(paths, i);
        lemma_fill_budget_prefix(paths, i + 1, fringe);
    } else {
        assert(paths.take(i) == paths);
    }
}

proof fn lemma_lines_budget_prefix(paths: Seq<PathInfo>, i: int)
    requires
        0 <= i <= paths.len(),
    ensures
        lines_budget(paths.take(i)) <= lines_budget(paths),
    decreases paths.len() - i,
{
    if i < paths.len() {
        lemma_prefix_step(paths, i);
        lemma_lines_budget_prefix(paths, i + 1);
    } else {
        assert(paths.take(i) == paths);
    }
}

/// Number of vertices to reserve before stroking the paths, with round
/// caps and joins divided into `ncap` segments.
pub fn stroke_vertex_budget(paths: &[PathInfo], line_join: LineJoin, line_cap: LineCap, ncap: usize) -> (r: usize)
    requires
        stroke_budget(paths@, line_join, line_cap, ncap as nat) <= usize::MAX,
        line_join == LineJoin::Round ==> ncap + 2 <= usize::MAX,
    ensures
        r == stroke_budget(paths@, line_join, line_cap, ncap as nat),
{
    let mut cverts: usize = 0;
    let mut i: usize = 0;
    while i < paths.len()
        invariant
            i <= paths@.len(),
            cverts == stroke_budget(paths@.take(i as int), line_join, line_cap, ncap as nat),
            stroke_budget(paths@, line_join, line_cap, ncap as nat) <= usize::MAX,
            line_join == LineJoin::Round ==> ncap + 2 <= usize::MAX,
        decreases paths@.len() - i,
    {
        proof {
            lemma_prefix_step(paths@, i as int);
            lemma_stroke_budget_prefix(paths@, i + 1, line_join, line_cap, ncap as nat);
        }
        let path = &paths[i];
        let loop_ = path.closed;
        assert(cverts + stroke_path_budget(paths@[i as int], line_join, line_cap, ncap as nat) <= usize::MAX);
        if line_join == LineJoin::Round {
            let c2 = ncap + 2;
            assert(0 <= path.num_bevel * c2) by (nonlinear_arith);
            cverts = cverts + (path.count + path.num_bevel * c2 + 1) * 2;
        } else {
            cverts = cverts + (path.count + path.num_bevel * 5 + 1) * 2;
            if !loop_ {
                if line_cap == LineCap::Round {
                    cverts = cverts + (ncap * 2 + 2) * 2;
                } else {
                    cverts = cverts + (3 + 3) * 2;
                }
            }
        }
        i = i + 1;
    }
    assert(paths@.take(paths@.len() as int) == paths@);
    cverts
}

/// Whether the paths are a single convex path.
pub fn is_single_convex(paths: &[PathInfo]) -> (r: bool)
    ensures
        r == single_convex(paths@),
        r == (paths@.len() == 1 && paths@[0].convex),
{
    paths.len() == 1 && paths[0].convex
}

/// Number of vertices to reserve before filling the paths, with an
/// antialiasing fringe when `fringe`.
pub fn fill_vertex_budget(paths: &[PathInfo], fringe: bool) -> (r: usize)
    requires
        fill_budget(paths@, fringe) <= usize::MAX,
    ensures
        r == fill_budget(paths@, fringe),
{
    let convex = is_single_convex(paths);
    let mut cverts: usize = if convex { 0 } else { 4 };
    let mut i: usize = 0;
    while i < paths.len()
        invariant
            i <= paths@.len(),
            convex == single_convex(paths@),
            cverts == (if convex { 0nat } else { 4nat }) + fill_paths_budget(paths@.take(i as int), fringe),
            fill_budget(paths@, fringe) <= usize::MAX,
        decreases paths@.len() - i,
    {
        proof {
            lemma_prefix_step(paths@, i as int);
            lemma_fill_budget_prefix(paths@, i + 1, fringe);
        }
        let path = &paths[i];
        cverts = cverts + path.count + path.num_bevel + 1;
        if fringe {
            cverts = cverts + (path.count + path.num_bevel * 5 + 1) * 2;
        }
        i = i + 1;
    }
    assert(paths@.take(paths@.len() as int) == paths@);
    cverts
}

/// Number of vertices of the wire lines of the paths.
pub fn lines_vertex_budget(paths: &[PathInfo]) -> (r: usize)
    requires
        lines_budget(paths@) <= usize::MAX,
    ensures
        r == lines_budget(paths@),
{
    let mut cverts: usize = 0;
    let mut i: usize = 0;
    while i < paths.len()
        invariant
            i <= paths@.len(),
            cverts == lines_budget(paths@.take(i as int)),
            lines_budget(paths@) <= usize::MAX,
        decreases paths@.len() - i,
    {
        proof {
            lemma_prefix_step(paths@, i as int);
            lemma_lines_budget_prefix(paths@, i + 1);
        }
        let path = &paths[i];
        cverts = cverts + path.count + if path.closed { 1 } else { 0 };
        i = i + 1;
    }
    assert(paths@.take(paths@.len() as int) == paths@);
    cverts
}


/// `n` as a `usize` when it fits one.
pub open spec fn fit_usize(n: nat) -> Option<usize> {
    if n <= usize::MAX { Some(n as usize) } else { None }
}

/// Vertices reserved for stroking one path, when that number fits a `usize`.
fn checked_stroke_path_budget(p: &PathInfo, line_join: LineJoin, line_cap: LineCap, ncap: usize) -> (r: Option<usize>)
    requires
        line_join == LineJoin::Round ==> ncap + 2 <= usize::MAX,
    ensures
        r == fit_usize(stroke_path_budget(*p, line_join, line_cap, ncap as nat)),
{
    let round = line_join == LineJoin::Round;
    let per_join: usize = if round { ncap + 2 } else { 5 };
    let joins = match p.num_bevel.checked_mul(per_join) {
        Some(j) => j,
        None => return None,
    };
    let body = match p.count.checked_add(joins) {
        Some(b) => b,
        None => return None,
    };
    let body = match body.checked_add(1) {
        Some(b) => b,
        None => return None,
    };
    let body = match body.checked_mul(2) {
        Some(b) => b,
        None => return None,
    };
    if round || p.closed {
        return Some(body);
    }
    let caps: usize = if line_cap == LineCap::Round {
        let c = match ncap.checked_mul(2) {
            Some(c) => c,
            None => return None,
        };
        let c = match c.checked_add(2) {
            Some(c) => c,
            None => return None,
        };
        match c.checked_mul(2) {
            Some(c) => c,
            None => return None,
        }
    } else {
        12
    };
    body.checked_add(caps)
}

/// Number of vertices to reserve before stroking the paths, or `None` when
/// it does not fit a `usize`.
pub fn checked_stroke_vertex_budget(paths: &[PathInfo], line_join: LineJoin, line_cap: LineCap, ncap: usize) -> (r: Option<usize>)
    requires
        line_join == LineJoin::Round ==> ncap + 2 <= usize::MAX,
    ensures
        r == fit_usize(stroke_budget(paths@, line_join, line_cap, ncap as nat)),
{
    let mut cverts: usize = 0;
    let mut i: usize = 0;
    while i < paths.len()
        invariant
            i <= paths@.len(),
            cverts == stroke_budget(paths@.take(i as int), line_join, line_cap, ncap as nat),
            line_join == LineJoin::Round ==> ncap + 2 <= usize::MAX,
        decreases paths@.len() - i,
    {
        proof {
            lemma_prefix_step(paths@, i as int);
            lemma_stroke_budget_prefix(paths@, i + 1, line_join, line_cap, ncap as nat);
        }
        let step = match checked_stroke_path_budget(&paths[i], line_join, line_cap, ncap) {
            Some(s) => s,
            None => return None,
        };
        cverts = match cverts.checked_add(step) {
            Some(c) => c,
            None => return None,
        };
        i = i + 1;
    }
    assert(paths@.take(paths@.len() as int) == paths@);
    Some(cverts)
}

/// Vertices reserved for filling one path, when that number fits a `usize`.
fn checked_fill_path_budget(p: &PathInfo, fringe: bool) -> (r: Option<usize>)
    ensures
        r == fit_usize(fill_path_budget(*p, fringe)),
{
    let inner = match p.count.checked_add(p.num_bevel) {
        Some(v) => v,
        None => return None,
    };
    let inner = match inner.checked_add(1) {
        Some(v) => v,
        None => return None,
    };
    if !fringe {
        return Some(inner);
    }
    let joins = match p.num_bevel.checked_mul(5) {
        Some(v) => v,
        None => return None,
    };
    let outer = match p.count.checked_add(joins) {
        Some(v) => v,
        None => return None,
    };
    let outer = match outer.checked_add(1) {
        Some(v) => v,
        None => return None,
    };
    let outer = match outer.checked_mul(2) {
        Some(v) => v,
        None => return None,
    };
    inner.checked_add(outer)
}

/// Number of vertices to reserve before filling the paths, or `None` when
/// it does not fit a `usize`.
pub fn checked_fill_vertex_budget(paths: &[PathInfo], fringe: bool) -> (r: Option<usize>)
    ensures
        r == fit_usize(fill_budget(paths@, fringe)),
{
    let convex = is_single_convex(paths);
    let mut cverts: usize = if convex { 0 } else { 4 };
    let mut i: usize = 0;
    while i < paths.len()
        invariant
            i <= paths@.len(),
            convex == single_convex(paths@),
            cverts == (if convex { 0nat } else { 4nat }) + fill_paths_budget(paths@.take(i as int), fringe),
        decreases paths@.len() - i,
    {
        proof {
            lemma_prefix_step(paths@, i as int);
            lemma_fill_budget_prefix(paths@, i + 1, fringe);
        }
        let step = match checked_fill_path_budget(&paths[i], fringe) {
            Some(s) => s,
            None => return None,
        };
        cverts = match cverts.checked_add(step) {
            Some(c) => c,
            None => return None,
        };
        i = i + 1;
    }
    assert(paths@.take(paths@.len() as int) == paths@);
    Some(cverts)
}

/// Number of vertices of the wire lines of the paths, or `None` when it
/// does not fit a `usize`.
pub fn checked_lines_vertex_budget(paths: &[PathInfo]) -> (r: Option<usize>)
    ensures
        r == fit_usize(lines_budget(paths@)),
{
    let mut cverts: usize = 0;
    let mut i: usize = 0;
    while i < paths.len()
        invariant
            i <= paths@.len(),
            cverts == lines_budget(paths@.take(i as int)),
        decreases paths@.len() - i,
    {
        proof {
            lemma_prefix_step(paths@, i as int);
            lemma_lines_budget_prefix(paths@, i + 1);
        }
        let path = &paths[i];
        let step: usize = if path.closed {
            match path.count.checked_add(1) {
                Some(s) => s,
                None => return None,
            }
        } else {
            path.count
        };
        cverts = match cverts.checked_add(step) {
            Some(c) => c,
            None => return None,
        };
        i = i + 1;
    }
    assert(paths@.take(paths@.len() as int) == paths@);
    Some(cverts)
}

/// Vertices that filling writes for a point on the inside of the path:
/// one, or two at a beveled right turn when the fill has a fringe.
pub open spec fn fill_point_vertices(flags: u32, fringe: bool) -> nat {
    if fringe && has_flag(flags, PT_BEVEL) && !has_flag(flags, PT_LEFT) {
        2
    } else {
        1
    }
}

/// Vertices that the fringe of a fill writes for a point: a bevel join
/// at a beveled point, else a pair.
pub open spec fn fringe_point_vertices(flags: u32) -> nat {
    if is_bevel(flags) {
        if has_flag(flags, PT_BEVEL) { 8 } else { 10 }
    } else {
        2
    }
}

/// Vertices that stroking writes for a point: a join at a beveled point
/// (a round join of `n` segments, or a bevel join), else a pair.
pub open spec fn join_point_vertices(flags: u32, line_join: LineJoin, n: nat) -> nat {
    if is_bevel(flags) {
        if line_join == LineJoin::Round {
            4 + 2 * n
        } else if has_flag(flags, PT_BEVEL) {
            8
        } else {
            10
        }
    } else {
        2
    }
}

/// Vertices of one end cap of a stroke.
pub open spec fn cap_vertices(line_cap: LineCap, ncap: nat) -> nat {
    if line_cap == LineCap::Round { 2 * ncap + 2 } else { 4 }
}

pub open spec fn sum_fill_points(flags: Seq<u32>, fringe: bool) -> nat
    decreases flags.len(),
{
    if flags.len() == 0 {
        0
    } else {
        sum_fill_points(flags.drop_last(), fringe) + fill_point_vertices(flags.last(), fringe)
    }
}

pub open spec fn sum_fringe_points(flags: Seq<u32>) -> nat
    decreases flags.len(),
{
    if flags.len() == 0 {
        0
    } else {
        sum_fringe_points(flags.drop_last()) + fringe_point_vertices(flags.last())
    }
}

/// Vertices of the joins at the points `flags`, the `k`-th round join
/// having `ns[k]` segments.
pub open spec fn sum_joins(flags: Seq<u32>, ns: Seq<nat>, line_join: LineJoin) -> nat
    decreases flags.len(),
{
    if flags.len() == 0 || ns.len() == 0 {
        0
    } else {
        sum_joins(flags.drop_last(), ns.drop_last(), line_join)
            + join_point_vertices(flags.last(), line_join, ns.last())
    }
}

/// Vertices that filling writes for a path whose points have the flags
/// `flags`: its fill vertices, then, with a fringe, the fringe strip and
/// the two vertices that close it.
pub open spec fn fill_path_emitted(flags: Seq<u32>, fringe: bool) -> nat {
    sum_fill_points(flags, fringe) + if fringe { sum_fringe_points(flags) + 2 } else { 0 }
}

/// Vertices that stroking writes for a path whose points have the flags
/// `flags`: a closed path gets a join at every point and two closing
/// vertices; an open one gets a cap at each end and joins at its inner
/// points.
pub open spec fn stroke_path_emitted(
    closed: bool,
    flags: Seq<u32>,
    ns: Seq<nat>,
    line_join: LineJoin,
    line_cap: LineCap,
    ncap: nat,
) -> nat {
    if closed {
        sum_joins(flags, ns, line_join) + 2
    } else {
        2 * cap_vertices(line_cap, ncap) + sum_joins(
            flags.subrange(1, flags.len() - 1),
            ns.subrange(1, ns.len() - 1),
            line_join,
        )
    }
}

/// A sequence of flags has no more beveled points than points.
pub proof fn lemma_bevel_count_le_len(flags: Seq<u32>)
    ensures
        bevel_count(flags) <= flags.len(),
    decreases flags.len(),
{
    if flags.len() > 0 {
        lemma_bevel_count_le_len(flags.drop_last());
    }
}

proof fn lemma_bevel_count_append(a: Seq<u32>, b: Seq<u32>)
    ensures
        bevel_count(a + b) == bevel_count(a) + bevel_count(b),
    decreases b.len(),
{
    if b.len() == 0 {
        assert(a + b == a);
    } else {
        lemma_bevel_count_append(a, b.drop_last());
        assert((a + b).drop_last() == a + b.drop_last());
    }
}

proof fn lemma_sum_fill_points_bound(flags: Seq<u32>, fringe: bool)
    ensures
        sum_fill_points(flags, fringe) <= flags.len() + bevel_count(flags),
    decreases flags.len(),
{
    if flags.len() > 0 {
        lemma_sum_fill_points_bound(flags.drop_last(), fringe);
    }
}

proof fn lemma_sum_fringe_points_bound(flags: Seq<u32>)
    ensures
        sum_fringe_points(flags) <= 2 * flags.len() + 8 * bevel_count(flags),
    decreases flags.len(),
{
    if flags.len() > 0 {
        lemma_sum_fringe_points_bound(flags.drop_last());
    }
}

/// Extra vertices that a join writes beyond a pair.
pub open spec fn join_extra(line_join: LineJoin, ncap: nat) -> nat {
    if line_join == LineJoin::Round { 2 * ncap + 2 } else { 8 }
}

proof fn lemma_sum_joins_bound(flags: Seq<u32>, ns: Seq<nat>, line_join: LineJoin, ncap: nat)
    requires
        flags.len() == ns.len(),
        forall|k: int| 0 <= k < ns.len() ==> #[trigger] ns[k] <= ncap,
    ensures
        sum_joins(flags, ns, line_join) <= 2 * flags.len() + bevel_count(flags) * join_extra(line_join, ncap),
    decreases flags.len(),
{
    if flags.len() > 0 {
        lemma_sum_joins_bound(flags.drop_last(), ns.drop_last(), line_join, ncap);
        let bc = bevel_count(flags.drop_last());
        let x = join_extra(line_join, ncap);
        assert((bc + 1) * x == bc * x + x) by (nonlinear_arith);
        assert(ns.last() == ns[ns.len() - 1]);
    }
}

/// The vertices that filling writes for a path never exceed those
/// reserved for it, once its bevel count is that of its point flags.
pub proof fn lemma_fill_within_budget(p: PathInfo, flags: Seq<u32>, fringe: bool)
    requires
        flags.len() == p.count,
        p.num_bevel == bevel_count(flags),
    ensures
        fill_path_emitted(flags, fringe) <= fill_path_budget(p, fringe),
{
    lemma_sum_fill_points_bound(flags, fringe);
    lemma_sum_fringe_points_bound(flags);
}

/// The vertices that stroking writes for a path never exceed those
/// reserved for it, once its bevel count is that of its point flags and
/// its round joins have at most `ncap` segments; an open path has at least
/// two points, and, with round joins, its end points are beveled (as the
/// corner flags of their end points make them).
pub proof fn lemma_stroke_within_budget(
    p: PathInfo,
    flags: Seq<u32>,
    ns: Seq<nat>,
    line_join: LineJoin,
    line_cap: LineCap,
    ncap: nat,
)
    requires
        flags.len() == p.count,
        ns.len() == p.count,
        p.num_bevel == bevel_count(flags),
        forall|k: int| 0 <= k < ns.len() ==> #[trigger] ns[k] <= ncap,
        !p.closed ==> p.count >= 2,
        !p.closed && line_join == LineJoin::Round ==> is_bevel(flags[0]) && is_bevel(flags[p.count - 1]),
    ensures
        stroke_path_emitted(p.closed, flags, ns, line_join, line_cap, ncap)
            <= stroke_path_budget(p, line_join, line_cap, ncap),
{
    let x = join_extra(line_join, ncap);
    let nb = p.num_bevel as nat;
    if p.closed {
        lemma_sum_joins_bound(flags, ns, line_join, ncap);
        if line_join == LineJoin::Round {
            assert(nb * (2 * ncap + 2) + 2 * nb == nb * (ncap + 2) * 2) by (nonlinear_arith);
        } else {
            assert(nb * 8 <= nb * 5 * 2) by (nonlinear_arith);
        }
    } else {
        let n = flags.len() as int;
        let inner = flags.subrange(1, n - 1);
        let inner_ns = ns.subrange(1, n - 1);
        assert forall|k: int| 0 <= k < inner_ns.len() implies #[trigger] inner_ns[k] <= ncap by {
            assert(inner_ns[k] == ns[k + 1]);
        }
        lemma_sum_joins_bound(inner, inner_ns, line_join, ncap);
        let first = flags.subrange(0, 1);
        let last = flags.subrange(n - 1, n);
        assert(flags == first + inner + last);
        lemma_bevel_count_append(first, inner);
        lemma_bevel_count_append(first + inner, last);
        assert(first.drop_last().len() == 0);
        assert(last.drop_last().len() == 0);
        assert(first.last() == flags[0]);
        assert(last.last() == flags[n - 1]);
        assert(bevel_count(first.drop_last()) == 0);
        assert(bevel_count(last.drop_last()) == 0);
        assert(bevel_count(first) == if is_bevel(flags[0]) { 1nat } else { 0nat });
        assert(bevel_count(last) == if is_bevel(flags[n - 1]) { 1nat } else { 0nat });
        let ni = bevel_count(inner);
        assert(ni <= nb);
        if line_join == LineJoin::Round {
            assert(nb == ni + 2);
            assert(ni * (2 * ncap + 2) + 4 * ncap + 8 <= nb * (ncap + 2) * 2) by (nonlinear_arith)
                requires nb == ni + 2;
        } else {
            assert(ni * 8 <= nb * 5 * 2) by (nonlinear_arith)
                requires ni <= nb;
        }
    }
}


/// `p` with the vertex slices `offset`, `num_fill` and `num_stroke`.
pub open spec fn with_slices(p: PathInfo, offset: usize, num_fill: usize, num_stroke: usize) -> PathInfo {
    PathInfo { offset, num_fill, num_stroke, ..p }
}

/// The points that the wire-line vertices of a path copy, in order: its
/// points, and its first point again when it is closed.
pub open spec fn lines_path_sources(p: PathInfo) -> Seq<usize> {
    Seq::new(p.count as nat, |k: int| (p.first + k) as usize) + if p.closed {
        seq![p.first]
    } else {
        Seq::<usize>::empty()
    }
}

/// The points that the wire-line vertices of the paths copy, in order.
pub open spec fn lines_sources(paths: Seq<PathInfo>) -> Seq<usize>
    decreases paths.len(),
{
    if paths.len() == 0 {
        Seq::empty()
    } else {
        lines_sources(paths.drop_last()) + lines_path_sources(paths.last())
    }
}

/// The slices of the paths' wire lines, which start at vertex `base`:
/// entry `i` is the record `old_slices[i]` (or the default record past its
/// end) with its lines placed after those of the paths before it.
pub open spec fn lines_slices(paths: Seq<PathInfo>, old_slices: Seq<PathSlice>, base: nat) -> Seq<PathSlice> {
    Seq::new(paths.len(), |i: int| with_slices(
        if i < old_slices.len() { old_slices[i] } else { PathInfo::spec_default() },
        (base + lines_budget(paths.take(i))) as usize,
        0,
        lines_path_count(paths[i]) as usize,
    ))
}

proof fn lemma_lines_sources_len(paths: Seq<PathInfo>)
    ensures
        lines_sources(paths).len() == lines_budget(paths),
    decreases paths.len(),
{
    if paths.len() > 0 {
        lemma_lines_sources_len(paths.drop_last());
    }
}

/// Lays out the wire lines of the paths after the `base` vertices already
/// in the vertex list: fills in the slice record of each path and returns,
/// for each new vertex, the point it copies. When there are no vertices at
/// all, nothing is laid out and the slice records are left as they are.
pub fn expand_lines(paths: &[PathInfo], base: usize, num_points: usize, slices: &mut Vec<PathSlice>) -> (sources: Vec<usize>)
    requires
        base + lines_budget(paths@) <= usize::MAX,
        forall|i: int| 0 <= i < paths@.len() ==> #[trigger] paths@[i].first + paths@[i].count <= num_points,
    ensures
        base + lines_budget(paths@) == 0 ==> sources@.len() == 0 && final(slices)@ == old(slices)@,
        base + lines_budget(paths@) != 0 ==> sources@ == lines_sources(paths@)
            && final(slices)@ == lines_slices(paths@, old(slices)@, base as nat),
{
    let cverts = lines_vertex_budget(paths);
    let mut sources: Vec<usize> = Vec::new();
    if base + cverts == 0 {
        return sources;
    }
    let ghost old_slices = slices@;
    slices.resize(paths.len(), PathInfo::default());
    let ghost resized = slices@;
    assert forall|i: int| 0 <= i < paths@.len() implies
        #[trigger] resized[i] == if i < old_slices.len() { old_slices[i] } else { PathInfo::spec_default() } by {
        if paths@.len() <= old_slices.len() {
            assert(resized == old_slices.subrange(0, paths@.len() as int));
        } else if i < old_slices.len() {
            assert(resized.subrange(0, old_slices.len() as int) == old_slices);
            assert(resized[i] == resized.subrange(0, old_slices.len() as int)[i]);
        }
    }
    let mut offset = base;
    let mut i: usize = 0;
    while i < paths.len()
        invariant
            i <= paths@.len(),
            slices@.len() == paths@.len(),
            base + lines_budget(paths@) <= usize::MAX,
            forall|i: int| 0 <= i < paths@.len() ==> #[trigger] paths@[i].first + paths@[i].count <= num_points,
            offset == base + lines_budget(paths@.take(i as int)),
            sources@ == lines_sources(paths@.take(i as int)),
            forall|k: int| 0 <= k < i ==> #[trigger] slices@[k] == lines_slices(paths@, old_slices, base as nat)[k],
            forall|k: int| i <= k < paths@.len() ==> #[trigger] slices@[k] == resized[k],
            forall|k: int| 0 <= k < paths@.len() ==>
                #[trigger] resized[k] == if k < old_slices.len() { old_slices[k] } else { PathInfo::spec_default() },
        decreases paths@.len() - i,
    {
        proof {
            lemma_prefix_step(paths@, i as int);
            lemma_lines_budget_prefix(paths@, i + 1);
        }
        let path = paths[i];
        let mut s = slices[i];
        s.offset = offset;
        s.num_fill = 0;
        let mut j: usize = 0;
        let ghost before = sources@;
        while j < path.count
            invariant
                j <= path.count,
                path.first + path.count <= num_points,
                sources@ == before + Seq::new(j as nat, |k: int| (path.first + k) as usize),
            decreases path.count - j,
        {
            sources.push(path.first + j);
            j = j + 1;
            assert(Seq::new(j as nat, |k: int| (path.first + k) as usize)
                =~= Seq::new((j - 1) as nat, |k: int| (path.first + k) as usize).push((path.first + j - 1) as usize));
        }
        if path.closed {
            sources.push(path.first);
        }
        assert(sources@ =~= before + lines_path_sources(path));
        s.num_stroke = path.count + if path.closed { 1 } else { 0 };
        offset = offset + s.num_stroke;
        slices.set(i, s);
        i = i + 1;
    }
    assert(paths@.take(paths@.len() as int) == paths@);
    assert(slices@ =~= lines_slices(paths@, old_slices, base as nat));
    sources
}


/// The flags of the points of a path.
pub open spec fn path_flags(p: PathInfo, flags: Seq<u32>) -> Seq<u32> {
    flags.subrange(p.first as int, p.first + p.count)
}

/// Vertices of the fill part of a path.
pub open spec fn fill_part(p: PathInfo, flags: Seq<u32>, fringe: bool) -> nat {
    sum_fill_points(path_flags(p, flags), fringe)
}

/// Vertices of the fringe part of a path.
pub open spec fn fringe_part(p: PathInfo, flags: Seq<u32>, fringe: bool) -> nat {
    if fringe { sum_fringe_points(path_flags(p, flags)) + 2 } else { 0 }
}

/// Vertices that filling writes for the paths, in order.
pub open spec fn fill_emitted(paths: Seq<PathInfo>, flags: Seq<u32>, fringe: bool) -> nat
    decreases paths.len(),
{
    if paths.len() == 0 {
        0
    } else {
        fill_emitted(paths.drop_last(), flags, fringe) + fill_part(paths.last(), flags, fringe)
            + fringe_part(paths.last(), flags, fringe)
    }
}

/// The slices of the filled paths, which start at vertex `base`.
pub open spec fn fill_slices(paths: Seq<PathInfo>, flags: Seq<u32>, fringe: bool, old_slices: Seq<PathSlice>, base: nat) -> Seq<PathSlice> {
    Seq::new(paths.len(), |i: int| with_slices(
        if i < old_slices.len() { old_slices[i] } else { PathInfo::spec_default() },
        (base + fill_emitted(paths.take(i), flags, fringe)) as usize,
        fill_part(paths[i], flags, fringe) as usize,
        fringe_part(paths[i], flags, fringe) as usize,
    ))
}

/// The flags of the points of every path are known, and its bevel count
/// is that of its flags.
pub open spec fn paths_flagged(paths: Seq<PathInfo>, flags: Seq<u32>) -> bool {
    forall|i: int| 0 <= i < paths.len() ==> {
        &&& #[trigger] paths[i].first + paths[i].count <= flags.len()
        &&& paths[i].num_bevel == bevel_count(path_flags(paths[i], flags))
    }
}

proof fn lemma_fill_emitted_within(paths: Seq<PathInfo>, flags: Seq<u32>, fringe: bool)
    requires
        paths_flagged(paths, flags),
    ensures
        fill_emitted(paths, flags, fringe) <= fill_paths_budget(paths, fringe),
    decreases paths.len(),
{
    if paths.len() > 0 {
        let p = paths.last();
        assert(paths.drop_last().len() == paths.len() - 1);
        assert forall|i: int| 0 <= i < paths.drop_last().len() implies {
            &&& #[trigger] paths.drop_last()[i].first + paths.drop_last()[i].count <= flags.len()
            &&& paths.drop_last()[i].num_bevel == bevel_count(path_flags(paths.drop_last()[i], flags))
        } by {
            assert(paths.drop_last()[i] == paths[i]);
        }
        lemma_fill_emitted_within(paths.drop_last(), flags, fringe);
        assert(p == paths[paths.len() - 1]);
        lemma_fill_within_budget(p, path_flags(p, flags), fringe);
    }
}

/// Number of fill and fringe vertices of the path whose points have the
/// flags `point_flags[first..first + count]`.
fn fill_path_counts(point_flags: &[u32], first: usize, count: usize, fringe: bool) -> (r: (usize, usize))
    requires
        first + count <= point_flags@.len(),
        sum_fill_points(point_flags@.subrange(first as int, first + count), fringe)
            + if fringe { sum_fringe_points(point_flags@.subrange(first as int, first + count)) + 2 } else { 0 }
            <= usize::MAX,
    ensures
        r.0 == sum_fill_points(point_flags@.subrange(first as int, first + count), fringe),
        r.1 == if fringe { sum_fringe_points(point_flags@.subrange(first as int, first + count)) + 2 } else { 0 },
{
    let ghost all = point_flags@.subrange(first as int, first + count);
    let mut nfill: usize = 0;
    let mut nfringe: usize = 0;
    let mut k: usize = first;
    let n = point_flags.len();
    assert(first + count <= n);
    let end = first + count;
    proof {
        lemma_sum_fill_prefix_mono(all, fringe, 0);
        lemma_sum_fringe_prefix_mono(all, 0);
    }
    while k < end
        invariant
            end == first + count,
            first <= k <= first + count,
            first + count <= point_flags@.len(),
            all == point_flags@.subrange(first as int, first + count),
            nfill == sum_fill_points(point_flags@.subrange(first as int, k as int), fringe),
            nfringe == if fringe { sum_fringe_points(point_flags@.subrange(first as int, k as int)) } else { 0 },
            sum_fill_points(all, fringe) + if fringe { sum_fringe_points(all) + 2 } else { 0 } <= usize::MAX,
        decreases first + count - k,
    {
        let ghost sub = point_flags@.subrange(first as int, k + 1);
        assert(sub.drop_last() == point_flags@.subrange(first as int, k as int));
        assert(sub == all.take(k + 1 - first));
        proof {
            lemma_sum_fill_prefix_mono(all, fringe, k + 1 - first);
            lemma_sum_fringe_prefix_mono(all, k + 1 - first);
        }
        let f = point_flags[k];
        if fringe && f & PT_BEVEL == PT_BEVEL && f & PT_LEFT != PT_LEFT {
            nfill = nfill + 2;
        } else {
            nfill = nfill + 1;
        }
        if fringe {
            if f & PT_BEVEL == PT_BEVEL || f & PR_INNERBEVEL == PR_INNERBEVEL {
                if f & PT_BEVEL == PT_BEVEL {
                    nfringe = nfringe + 8;
                } else {
                    nfringe = nfringe + 10;
                }
            } else {
                nfringe = nfringe + 2;
            }
        }
        k = k + 1;
    }
    if fringe {
        (nfill, nfringe + 2)
    } else {
        (nfill, 0)
    }
}

proof fn lemma_sum_fill_prefix_mono(s: Seq<u32>, fringe: bool, i: int)
    requires
        0 <= i <= s.len(),
    ensures
        sum_fill_points(s.take(i), fringe) <= sum_fill_points(s, fringe),
    decreases s.len() - i,
{
    if i < s.len() {
        assert(s.take(i + 1).drop_last() == s.take(i));
        lemma_sum_fill_prefix_mono(s, fringe, i + 1);
    } else {
        assert(s.take(i) == s);
    }
}

proof fn lemma_sum_fringe_prefix_mono(s: Seq<u32>, i: int)
    requires
        0 <= i <= s.len(),
    ensures
        sum_fringe_points(s.take(i)) <= sum_fringe_points(s),
    decreases s.len() - i,
{
    if i < s.len() {
        assert(s.take(i + 1).drop_last() == s.take(i));
        lemma_sum_fringe_prefix_mono(s, i + 1);
    } else {
        assert(s.take(i) == s);
    }
}

proof fn lemma_fill_emitted_prefix(paths: Seq<PathInfo>, flags: Seq<u32>, fringe: bool, i: int)
    requires
        0 <= i <= paths.len(),
    ensures
        fill_emitted(paths.take(i), flags, fringe) <= fill_emitted(paths, flags, fringe),
    decreases paths.len() - i,
{
    if i < paths.len() {
        lemma_prefix_step(paths, i);
        lemma_fill_emitted_prefix(paths, flags, fringe, i + 1);
    } else {
        assert(paths.take(i) == paths);
    }
}

/// Lays out the fill of the paths after the `base` vertices already in the
/// vertex list, given the flags of their points: fills in the slice record
/// of each path (its fill vertices, then its fringe strip when `fringe`)
/// and returns where the bounds quad goes, unless the paths are a single
/// convex path. When there are no vertices at all, nothing is laid out.
pub fn fill_layout(paths: &[PathInfo], point_flags: &[u32], fringe: bool, base: usize, slices: &mut Vec<PathSlice>) -> (bounds_offset: Option<usize>)
    requires
        base + fill_budget(paths@, fringe) <= usize::MAX,
        paths_flagged(paths@, point_flags@),
    ensures
        base + fill_budget(paths@, fringe) == 0 ==> bounds_offset is None && final(slices)@ == old(slices)@,
        base + fill_budget(paths@, fringe) != 0 ==> {
            &&& final(slices)@ == fill_slices(paths@, point_flags@, fringe, old(slices)@, base as nat)
            &&& bounds_offset == if single_convex(paths@) {
                None
            } else {
                Some((base + fill_emitted(paths@, point_flags@, fringe)) as usize)
            }
            &&& bounds_offset is None <==> (paths@.len() == 1 && paths@[0].convex)
        },
{
    let cverts = fill_vertex_budget(paths, fringe);
    let convex = is_single_convex(paths);
    if base + cverts == 0 {
        return None;
    }
    proof {
        lemma_fill_emitted_within(paths@, point_flags@, fringe);
    }
    let ghost old_slices = slices@;
    slices.resize(paths.len(), PathInfo::default());
    let ghost resized = slices@;
    assert forall|i: int| 0 <= i < paths@.len() implies
        #[trigger] resized[i] == if i < old_slices.len() { old_slices[i] } else { PathInfo::spec_default() } by {
        if paths@.len() <= old_slices.len() {
            assert(resized == old_slices.subrange(0, paths@.len() as int));
        } else if i < old_slices.len() {
            assert(resized.subrange(0, old_slices.len() as int) == old_slices);
            assert(resized[i] == resized.subrange(0, old_slices.len() as int)[i]);
        }
    }
    let mut offset = base;
    let mut i: usize = 0;
    while i < paths.len()
        invariant
            i <= paths@.len(),
            slices@.len() == paths@.len(),
            base + fill_budget(paths@, fringe) <= usize::MAX,
            fill_emitted(paths@, point_flags@, fringe) <= fill_paths_budget(paths@, fringe),
            paths_flagged(paths@, point_flags@),
            offset == base + fill_emitted(paths@.take(i as int), point_flags@, fringe),
            forall|k: int| 0 <= k < i ==> #[trigger] slices@[k] == fill_slices(paths@, point_flags@, fringe, old_slices, base as nat)[k],
            forall|k: int| i <= k < paths@.len() ==> #[trigger] slices@[k] == resized[k],
            forall|k: int| 0 <= k < paths@.len() ==>
                #[trigger] resized[k] == if k < old_slices.len() { old_slices[k] } else { PathInfo::spec_default() },
        decreases paths@.len() - i,
    {
        proof {
            lemma_prefix_step(paths@, i as int);
            lemma_fill_emitted_prefix(paths@, point_flags@, fringe, i + 1);
        }
        let path = paths[i];
        assert(path.first + path.count <= point_flags@.len());
        let (nfill, nfringe) = fill_path_counts(point_flags, path.first, path.count, fringe);
        let mut s = slices[i];
        s.offset = offset;
        s.num_fill = nfill;
        s.num_stroke = nfringe;
        offset = offset + nfill + nfringe;
        slices.set(i, s);
        i = i + 1;
    }
    assert(paths@.take(paths@.len() as int) == paths@);
    assert(slices@ =~= fill_slices(paths@, point_flags@, fringe, old_slices, base as nat));
    if convex {
        None
    } else {
        Some(offset)
    }
}


/// `<[T]>::swap`: exchanges the elements at `a` and `b`, which must be in
/// bounds.
pub assume_specification<Elem>[ <[Elem]>::swap ](s: &mut [Elem], a: usize, b: usize)
    requires
        a < old(s)@.len(),
        b < old(s)@.len(),
    ensures
        final(s)@ == old(s)@.update(a as int, old(s)@[b as int]).update(b as int, old(s)@[a as int]),
;

/// Reverses the order of the points of a path.
pub fn poly_reverse<T>(pts: &mut [T])
    requires
        old(pts)@.len() <= i32::MAX,
    ensures
        final(pts)@ == old(pts)@.reverse(),
{
    let ghost orig = pts@;
    let n = pts.len();
    let mut i: i32 = 0;
    let mut j: i32 = n as i32 - 1;
    while i < j
        invariant
            n == orig.len(),
            n <= i32::MAX,
            pts@.len() == n,
            0 <= i,
            j == n - 1 - i,
            i <= j + 1,
            forall|k: int| 0 <= k < i ==> #[trigger] pts@[k] == orig[n - 1 - k],
            forall|k: int| j < k < n ==> #[trigger] pts@[k] == orig[n - 1 - k],
            forall|k: int| i <= k <= j ==> #[trigger] pts@[k] == orig[k],
        decreases j + 1 - i,
    {
        pts.swap(i as usize, j as usize);
        i = i + 1;
        j = j - 1;
    }
    assert(pts@ =~= orig.reverse());
}


/// The vertex runs that the fill layout gives the paths lie back to back:
/// each path's fill vertices are followed by its fringe vertices, and
/// those by the next path's fill vertices.
pub proof fn lemma_fill_slices_contiguous(
    paths: Seq<PathInfo>,
    flags: Seq<u32>,
    fringe: bool,
    old_slices: Seq<PathSlice>,
    base: nat,
    i: int,
)
    requires
        0 <= i < paths.len() - 1,
        base + fill_emitted(paths, flags, fringe) <= usize::MAX,
    ensures
        ({
            let s = fill_slices(paths, flags, fringe, old_slices, base);
            s[i].offset + s[i].num_fill + s[i].num_stroke == s[i + 1].offset
        }),
{
    lemma_prefix_step(paths, i);
    lemma_prefix_step(paths, i + 1);
    lemma_fill_emitted_prefix(paths, flags, fringe, i + 1);
    lemma_fill_emitted_prefix(paths, flags, fringe, i + 2);
}

/// A fill reserves four vertices for a bounds quad, and gets a stencil
/// fill, unless its paths are a single path whose convex flag is set; the
/// rest of the reservation is that of each path.
pub proof fn lemma_bounds_quad_unless_single_convex(paths: Seq<PathInfo>, fringe: bool)
    ensures
        fill_budget(paths, fringe) == fill_paths_budget(paths, fringe)
            + if paths.len() == 1 && paths[0].convex { 0nat } else { 4nat },
        paths.len() != 1 ==> fill_budget(paths, fringe) == fill_paths_budget(paths, fringe) + 4,
        paths.len() == 1 && !paths[0].convex ==> fill_budget(paths, fringe) == fill_paths_budget(paths, fringe) + 4,
{
}

proof fn lemma_sum_fill_points_plain(flags: Seq<u32>)
    ensures
        sum_fill_points(flags, false) == flags.len(),
    decreases flags.len(),
{
    if flags.len() > 0 {
        lemma_sum_fill_points_plain(flags.drop_last());
    }
}

/// Without a fringe, the fill slice of each path holds exactly its points
/// and nothing else.
pub proof fn lemma_fill_slices_without_fringe(
    paths: Seq<PathInfo>,
    flags: Seq<u32>,
    old_slices: Seq<PathSlice>,
    base: nat,
    i: int,
)
    requires
        0 <= i < paths.len(),
        paths[i].first + paths[i].count <= flags.len(),
    ensures
        ({
            let s = fill_slices(paths, flags, false, old_slices, base);
            &&& s[i].num_fill == paths[i].count
            &&& s[i].num_stroke == 0
        }),
{
    lemma_sum_fill_points_plain(path_flags(paths[i], flags));
}

/// The wire-line runs of the paths lie back to back.
pub proof fn lemma_lines_slices_contiguous(paths: Seq<PathInfo>, old_slices: Seq<PathSlice>, base: nat, i: int)
    requires
        0 <= i < paths.len() - 1,
        base + lines_budget(paths) <= usize::MAX,
    ensures
        ({
            let s = lines_slices(paths, old_slices, base);
            s[i].offset + s[i].num_stroke == s[i + 1].offset && s[i].num_fill == 0
        }),
{
    lemma_prefix_step(paths, i);
    lemma_prefix_step(paths, i + 1);
    lemma_lines_budget_prefix(paths, i + 1);
    lemma_lines_budget_prefix(paths, i + 2);
}

/// Reversing the points of a path twice restores them.
pub proof fn lemma_reverse_twice<T>(s: Seq<T>)
    ensures
        s.reverse().reverse() == s,
{
    assert(s.reverse().reverse() =~= s);
}

} // verus!
