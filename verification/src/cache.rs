use vstd::prelude::*;

use crate::expand::{
    bevel_count, count_joins, has_flag, is_bevel, join_flags, left_count, path_flags, paths_flagged, spec_join_flags,
    PT_BEVEL, PT_CORNER, PT_LEFT,
};
use crate::paint::{LineJoin, PathDir};
use crate::path::PathInfo;

verus! {

/// The sub-paths of a flattened path and the flags of its points; the
/// point coordinates are kept beside, in the same order.
pub struct PathCache {
    pub paths: Vec<PathInfo>,
    pub point_flags: Vec<u32>,
}

/// The points of the paths lie in the point list, path after path.
pub open spec fn ranges_ordered(paths: Seq<PathInfo>, num_points: nat) -> bool {
    &&& forall|i: int| 0 <= i < paths.len() ==> #[trigger] paths[i].first + paths[i].count <= num_points
    &&& forall|i: int, j: int| 0 <= i < j < paths.len() ==>
        #[trigger] paths[i].first + paths[i].count <= #[trigger] paths[j].first
}

/// Point `k` belongs to path `i`.
pub open spec fn in_path(p: PathInfo, k: int) -> bool {
    p.first <= k < p.first + p.count
}

impl PathCache {
    pub open spec fn wf(&self) -> bool {
        ranges_ordered(self.paths@, self.point_flags@.len())
    }

    /// Points are being added: the last path ends at the end of the point
    /// list.
    pub open spec fn building(&self) -> bool {
        self.paths@.len() > 0 ==> self.paths@.last().first + self.paths@.last().count == self.point_flags@.len()
    }

    /// No paths, no points.
    pub fn new() -> (r: Self)
        ensures
            r.wf(),
            r.building(),
            r.paths@.len() == 0,
            r.point_flags@.len() == 0,
    {
        PathCache { paths: Vec::new(), point_flags: Vec::new() }
    }

    /// Forgets the paths and their points.
    pub fn clear(&mut self)
        ensures
            final(self).wf(),
            final(self).building(),
            final(self).paths@.len() == 0,
            final(self).point_flags@.len() == 0,
    {
        self.paths.clear();
        self.point_flags.clear();
    }

    /// Starts a path at the end of the point list: open, counter-clockwise
    /// and empty.
    pub fn add_path(&mut self)
        requires
            old(self).wf(),
        ensures
            final(self).wf(),
            final(self).building(),
            final(self).point_flags == old(self).point_flags,
            final(self).paths@ == old(self).paths@.push(PathInfo {
                first: old(self).point_flags@.len() as usize,
                count: 0,
                closed: false,
                num_bevel: 0,
                windding: PathDir::CCW,
                convex: false,
                ..PathInfo::spec_default()
            }),
    {
        let mut p = PathInfo::default();
        p.first = self.point_flags.len();
        self.paths.push(p);
        assert(self.paths@ =~= old(self).paths@.push(PathInfo {
            first: old(self).point_flags@.len() as usize,
            count: 0,
            closed: false,
            num_bevel: 0,
            windding: PathDir::CCW,
            convex: false,
            ..PathInfo::spec_default()
        }));
    }

    /// Adds a point with the flags `flags` to the last path, unless there
    /// is no path. A point at the place of the path's last point (`same_as_last`)
    /// is merged into it: its flags are added to that point's. Returns whether
    /// a point was appended (so that its coordinates are appended too).
    pub fn add_point(&mut self, flags: u32, same_as_last: bool) -> (pushed: bool)
        requires
            old(self).wf(),
            old(self).building(),
        ensures
            final(self).wf(),
            final(self).building(),
            old(self).paths@.len() == 0 ==> !pushed && *final(self) == *old(self),
            old(self).paths@.len() > 0 ==> {
                let n = old(self).paths@.len() - 1;
                let p = old(self).paths@[n];
                if p.count > 0 && same_as_last {
                    &&& !pushed
                    &&& final(self).paths@ == old(self).paths@
                    &&& final(self).point_flags@ == old(self).point_flags@.update(
                        old(self).point_flags@.len() - 1,
                        old(self).point_flags@.last() | flags,
                    )
                } else {
                    &&& pushed
                    &&& final(self).paths@ == old(self).paths@.update(n, PathInfo { count: (p.count + 1) as usize, ..p })
                    &&& final(self).point_flags@ == old(self).point_flags@.push(flags)
                }
            },
    {
        let np = self.paths.len();
        if np == 0 {
            return false;
        }
        let mut p = self.paths[np - 1];
        if p.count > 0 && same_as_last {
            let n = self.point_flags.len();
            let f = self.point_flags[n - 1] | flags;
            self.point_flags.set(n - 1, f);
            return false;
        }
        let n = self.point_flags.len();
        assert(p.first + p.count == n);
        self.point_flags.push(flags);
        let n2 = self.point_flags.len();
        assert(p.count + 1 <= n2);
        p.count = p.count + 1;
        self.paths.set(np - 1, p);
        proof {
            assert forall|i: int, j: int| 0 <= i < j < self.paths@.len() implies
                #[trigger] self.paths@[i].first + self.paths@[i].count <= #[trigger] self.paths@[j].first by {
                assert(old(self).paths@[i].first + old(self).paths@[i].count <= old(self).paths@[j].first);
            }
        }
        true
    }

    /// Marks the last path closed.
    pub fn close_path(&mut self)
        requires
            old(self).wf(),
        ensures
            final(self).wf(),
            final(self).building() == old(self).building(),
            final(self).point_flags == old(self).point_flags,
            final(self).paths@ == if old(self).paths@.len() == 0 {
                old(self).paths@
            } else {
                old(self).paths@.update(
                    old(self).paths@.len() - 1,
                    PathInfo { closed: true, ..old(self).paths@.last() },
                )
            },
    {
        let np = self.paths.len();
        if np > 0 {
            let mut p = self.paths[np - 1];
            p.closed = true;
            self.paths.set(np - 1, p);
        }
    }

    /// Sets the winding of the last path.
    pub fn path_solidity(&mut self, windding: PathDir)
        requires
            old(self).wf(),
        ensures
            final(self).wf(),
            final(self).building() == old(self).building(),
            final(self).point_flags == old(self).point_flags,
            final(self).paths@ == if old(self).paths@.len() == 0 {
                old(self).paths@
            } else {
                old(self).paths@.update(
                    old(self).paths@.len() - 1,
                    PathInfo { windding, ..old(self).paths@.last() },
                )
            },
    {
        let np = self.paths.len();
        if np > 0 {
            let mut p = self.paths[np - 1];
            p.windding = windding;
            self.paths.set(np - 1, p);
        }
    }

    /// A path whose last point repeats its first is closed, and the
    /// repeated point dropped.
    pub fn close_repeated(&mut self, i: usize, repeated: bool)
        requires
            old(self).wf(),
            i < old(self).paths@.len(),
        ensures
            final(self).wf(),
            final(self).point_flags == old(self).point_flags,
            final(self).paths@ == if repeated {
                old(self).paths@.update(i as int, PathInfo {
                    count: if old(self).paths@[i as int].count > 0 {
                        (old(self).paths@[i as int].count - 1) as usize
                    } else {
                        0
                    },
                    closed: true,
                    ..old(self).paths@[i as int]
                })
            } else {
                old(self).paths@
            },
    {
        if repeated {
            let mut p = self.paths[i];
            if p.count > 0 {
                p.count = p.count - 1;
            }
            p.closed = true;
            self.paths.set(i, p);
            proof {
                assert forall|a: int, b: int| 0 <= a < b < self.paths@.len() implies
                    #[trigger] self.paths@[a].first + self.paths@[a].count <= #[trigger] self.paths@[b].first by {
                    assert(old(self).paths@[a].first + old(self).paths@[a].count <= old(self).paths@[b].first);
                }
            }
        }
    }

    /// Whether a path of more than two points runs against its winding:
    /// clockwise area on a counter-clockwise path or the reverse.
    pub fn needs_reverse(&self, i: usize, area_negative: bool, area_positive: bool) -> (r: bool)
        requires
            i < self.paths@.len(),
        ensures
            r == (self.paths@[i as int].count > 2 && (
                (self.paths@[i as int].windding == PathDir::CCW && area_negative)
                || (self.paths@[i as int].windding == PathDir::CW && area_positive))),
    {
        let p = &self.paths[i];
        p.count > 2 && ((p.windding == PathDir::CCW && area_negative) || (p.windding == PathDir::CW && area_positive))
    }

    /// Reverses the order of the flags of the points of path `i`.
    pub fn reverse_path(&mut self, i: usize)
        requires
            old(self).wf(),
            i < old(self).paths@.len(),
        ensures
            final(self).wf(),
            final(self).paths == old(self).paths,
            ({
                let p = old(self).paths@[i as int];
                let f = old(self).point_flags@;
                final(self).point_flags@ == f.subrange(0, p.first as int)
                    + f.subrange(p.first as int, p.first + p.count).reverse()
                    + f.subrange(p.first + p.count, f.len() as int)
            }),
    {
        let p = self.paths[i];
        let len = self.point_flags.len();
        let ghost f = self.point_flags@;
        let ghost first = p.first as int;
        let ghost n = p.count as int;
        assert(p.first + p.count <= f.len());
        if p.count == 0 {
            assert(f =~= f.subrange(0, first) + f.subrange(first, first + n).reverse() + f.subrange(first + n, f.len() as int));
            return;
        }
        let mut a: usize = p.first;
        assert(p.first + p.count <= len);
        let mut b: usize = p.first + p.count - 1;
        while a < b
            invariant
                self.paths == old(self).paths,
                self.point_flags@.len() == f.len(),
                0 <= first,
                0 <= n,
                first <= a <= b + 1,
                b < first + n,
                a - first == first + n - 1 - b,
                first + n <= f.len(),
                forall|k: int| 0 <= k < first ==> #[trigger] self.point_flags@[k] == f[k],
                forall|k: int| first + n <= k < f.len() ==> #[trigger] self.point_flags@[k] == f[k],
                forall|k: int| first <= k < a ==> #[trigger] self.point_flags@[k] == f[2 * first + n - 1 - k],
                forall|k: int| b < k < first + n ==> #[trigger] self.point_flags@[k] == f[2 * first + n - 1 - k],
                forall|k: int| a <= k <= b ==> #[trigger] self.point_flags@[k] == f[k],
            decreases b + 1 - a,
        {
            let ghost old_pf = self.point_flags@;
            let ghost olda = a as int;
            let ghost oldb = b as int;
            let x = self.point_flags[a];
            let y = self.point_flags[b];
            self.point_flags.set(a, y);
            self.point_flags.set(b, x);
            assert(self.point_flags@[a as int] == f[2 * first + n - 1 - a]);
            assert(self.point_flags@[b as int] == f[2 * first + n - 1 - b]);
            let ghost pf = self.point_flags@;
            a = a + 1;
            b = b - 1;
            assert forall|k: int| first <= k < a implies #[trigger] pf[k] == f[2 * first + n - 1 - k] by {
                if k < olda {
                    assert(pf[k] == old_pf[k]);
                }
            }
        }
        assert(self.point_flags@ =~= f.subrange(0, first) + f.subrange(first, first + n).reverse()
            + f.subrange(first + n, f.len() as int));
    }
}


/// Point `k` belongs to one of the paths `0..i`.
pub open spec fn covered_before(paths: Seq<PathInfo>, i: int, k: int) -> bool {
    exists|j: int| 0 <= j < i && #[trigger] in_path(paths[j], k)
}

/// The flags of the points after the joins are computed: those of points
/// of a path are recomputed from the geometric tests, the others kept.
pub open spec fn joined_flags(
    flags: Seq<u32>,
    paths: Seq<PathInfo>,
    left: Seq<bool>,
    inner_bevel: Seq<bool>,
    miter_short: Seq<bool>,
    line_join: LineJoin,
) -> Seq<u32> {
    Seq::new(flags.len(), |k: int| if covered_before(paths, paths.len() as int, k) {
        spec_join_flags(flags[k], left[k], inner_bevel[k], miter_short[k], line_join)
    } else {
        flags[k]
    })
}

proof fn lemma_subrange_agree(a: Seq<u32>, b: Seq<u32>, lo: int, hi: int)
    requires
        0 <= lo <= hi <= a.len(),
        a.len() == b.len(),
        forall|k: int| lo <= k < hi ==> #[trigger] a[k] == b[k],
    ensures
        a.subrange(lo, hi) == b.subrange(lo, hi),
{
    assert(a.subrange(lo, hi) =~= b.subrange(lo, hi));
}

impl PathCache {
    /// Computes the joins of every path from the geometric tests of each
    /// point (`left`: the path turns left there; `inner_bevel`: the inner
    /// side needs a bevel; `miter_short`: a miter would exceed the limit):
    /// the flags of the points, the bevel count of each path, and whether
    /// it is convex (turns left at every point).
    pub fn calculate_joins(&mut self, left: &[bool], inner_bevel: &[bool], miter_short: &[bool], line_join: LineJoin)
        requires
            old(self).wf(),
            left@.len() == old(self).point_flags@.len(),
            inner_bevel@.len() == old(self).point_flags@.len(),
            miter_short@.len() == old(self).point_flags@.len(),
        ensures
            final(self).wf(),
            final(self).point_flags@ == joined_flags(
                old(self).point_flags@,
                old(self).paths@,
                left@,
                inner_bevel@,
                miter_short@,
                line_join,
            ),
            final(self).paths@.len() == old(self).paths@.len(),
            forall|i: int| 0 <= i < final(self).paths@.len() ==> #[trigger] final(self).paths@[i] == (PathInfo {
                num_bevel: bevel_count(path_flags(old(self).paths@[i], final(self).point_flags@)) as usize,
                convex: left_count(path_flags(old(self).paths@[i], final(self).point_flags@)) == old(self).paths@[i].count,
                ..old(self).paths@[i]
            }),
            paths_flagged(final(self).paths@, final(self).point_flags@),
            forall|i: int| 0 <= i < final(self).paths@.len() ==> ((#[trigger] final(self).paths@[i]).convex
                <==> forall|k: int| old(self).paths@[i].first <= k < old(self).paths@[i].first + old(self).paths@[i].count
                    ==> #[trigger] left@[k]),
            line_join == LineJoin::Bevel || line_join == LineJoin::Round ==> forall|i: int|
                0 <= i < final(self).paths@.len() ==> (#[trigger] final(self).paths@[i]).num_bevel
                    >= corner_count(path_flags(old(self).paths@[i], old(self).point_flags@)),
    {
        let ghost f0 = self.point_flags@;
        let ghost ps = self.paths@;
        let np = self.paths.len();
        let len = self.point_flags.len();
        let mut i: usize = 0;
        while i < np
            invariant
                np == ps.len(),
                len == f0.len(),
                i <= np,
                ranges_ordered(ps, f0.len()),
                left@.len() == f0.len(),
                inner_bevel@.len() == f0.len(),
                miter_short@.len() == f0.len(),
                self.point_flags@.len() == f0.len(),
                self.paths@.len() == ps.len(),
                forall|k: int| 0 <= k < f0.len() ==> #[trigger] self.point_flags@[k] == if covered_before(ps, i as int, k) {
                    spec_join_flags(f0[k], left@[k], inner_bevel@[k], miter_short@[k], line_join)
                } else {
                    f0[k]
                },
                forall|j: int| i <= j < ps.len() ==> #[trigger] self.paths@[j] == ps[j],
                forall|j: int| 0 <= j < i ==> #[trigger] self.paths@[j] == (PathInfo {
                    num_bevel: bevel_count(path_flags(ps[j], self.point_flags@)) as usize,
                    convex: left_count(path_flags(ps[j], self.point_flags@)) == ps[j].count,
                    ..ps[j]
                }),
            decreases np - i,
        {
            let mut p = self.paths[i];
            assert(p == ps[i as int]);
            assert(p.first + p.count <= len);
            let end = p.first + p.count;
            let ghost before = self.point_flags@;
            let ghost paths_before = self.paths@;
            let mut k: usize = p.first;
            let mut nb: usize = 0;
            let mut nl: usize = 0;
            while k < end
                invariant
                    p == ps[i as int],
                    self.paths@ == paths_before,
                    end == p.first + p.count,
                    end <= f0.len(),
                    p.first <= k <= end,
                    left@.len() == f0.len(),
                    inner_bevel@.len() == f0.len(),
                    miter_short@.len() == f0.len(),
                    self.point_flags@.len() == f0.len(),
                    forall|q: int| 0 <= q < f0.len() ==> #[trigger] self.point_flags@[q] == if p.first <= q < k {
                        spec_join_flags(before[q], left@[q], inner_bevel@[q], miter_short@[q], line_join)
                    } else {
                        before[q]
                    },
                    nb == bevel_count(self.point_flags@.subrange(p.first as int, k as int)),
                    nl == left_count(self.point_flags@.subrange(p.first as int, k as int)),
                    nb <= k - p.first,
                    nl <= k - p.first,
                decreases end - k,
            {
                let ghost pre = self.point_flags@;
                let nf = join_flags(self.point_flags[k], left[k], inner_bevel[k], miter_short[k], line_join);
                self.point_flags.set(k, nf);
                proof {
                    lemma_subrange_agree(pre, self.point_flags@, p.first as int, k as int);
                    assert(self.point_flags@.subrange(p.first as int, k + 1).drop_last()
                        == self.point_flags@.subrange(p.first as int, k as int));
                    assert(self.point_flags@.subrange(p.first as int, k + 1).last() == nf);
                }
                if nf & crate::expand::PT_BEVEL == crate::expand::PT_BEVEL
                    || nf & crate::expand::PR_INNERBEVEL == crate::expand::PR_INNERBEVEL {
                    nb = nb + 1;
                }
                if nf & crate::expand::PT_LEFT == crate::expand::PT_LEFT {
                    nl = nl + 1;
                }
                k = k + 1;
            }
            p.num_bevel = nb;
            p.convex = nl == p.count;
            self.paths.set(i, p);
            proof {
                let cur = self.point_flags@;
                assert forall|q: int| 0 <= q < f0.len() implies #[trigger] cur[q] == if covered_before(ps, i + 1, q) {
                    spec_join_flags(f0[q], left@[q], inner_bevel@[q], miter_short@[q], line_join)
                } else {
                    f0[q]
                } by {
                    if in_path(ps[i as int], q) {
                        assert(covered_before(ps, i + 1, q));
                        if covered_before(ps, i as int, q) {
                            let j = choose|j: int| 0 <= j < i && #[trigger] in_path(ps[j], q);
                            assert(ps[j].first + ps[j].count <= ps[i as int].first);
                        }
                    } else {
                        if covered_before(ps, i + 1, q) {
                            let j = choose|j: int| 0 <= j < i + 1 && #[trigger] in_path(ps[j], q);
                            assert(covered_before(ps, i as int, q));
                        }
                    }
                }
                assert forall|j: int| 0 <= j < i + 1 implies #[trigger] self.paths@[j] == PathInfo {
                    num_bevel: bevel_count(path_flags(ps[j], cur)) as usize,
                    convex: left_count(path_flags(ps[j], cur)) == ps[j].count,
                    ..ps[j]
                } by {
                    if j < i {
                        assert(ps[j].first + ps[j].count <= ps[i as int].first);
                        lemma_subrange_agree(before, cur, ps[j].first as int, ps[j].first + ps[j].count);
                    }
                }
            }
            i = i + 1;
        }
        proof {
            assert(self.point_flags@ =~= joined_flags(f0, ps, left@, inner_bevel@, miter_short@, line_join));
            assert forall|j: int| 0 <= j < self.paths@.len() implies {
                &&& #[trigger] self.paths@[j].first + self.paths@[j].count <= self.point_flags@.len()
                &&& self.paths@[j].num_bevel == bevel_count(path_flags(self.paths@[j], self.point_flags@))
            } by {
                let q = path_flags(ps[j], self.point_flags@);
                crate::expand::lemma_bevel_count_le_len(q);
            }
            assert forall|a: int, b: int| 0 <= a < b < self.paths@.len() implies
                #[trigger] self.paths@[a].first + self.paths@[a].count <= #[trigger] self.paths@[b].first by {
                assert(ps[a].first + ps[a].count <= ps[b].first);
            }
            assert forall|j: int| 0 <= j < self.paths@.len() implies {
                &&& ((#[trigger] self.paths@[j]).convex
                    <==> forall|k: int| ps[j].first <= k < ps[j].first + ps[j].count ==> #[trigger] left@[k])
                &&& (line_join == LineJoin::Bevel || line_join == LineJoin::Round) ==> self.paths@[j].num_bevel
                    >= corner_count(path_flags(ps[j], f0))
            } by {
                lemma_joins_convex_and_bevels(f0, ps, left@, inner_bevel@, miter_short@, line_join, j);
                let q = path_flags(ps[j], self.point_flags@);
                crate::expand::lemma_bevel_count_le_len(q);
                assert(self.paths@[j].convex == (left_count(q) == ps[j].count));
                assert(self.paths@[j].num_bevel == bevel_count(q));
            }
        }
    }
}

/// Number of corner points among `flags`.
pub open spec fn corner_count(flags: Seq<u32>) -> nat
    decreases flags.len(),
{
    if flags.len() == 0 {
        0
    } else {
        corner_count(flags.drop_last()) + if has_flag(flags.last(), PT_CORNER) { 1nat } else { 0nat }
    }
}

proof fn lemma_join_flag_bits(flags: u32, left: bool, inner_bevel: bool, miter_short: bool, line_join: LineJoin)
    ensures
        has_flag(spec_join_flags(flags, left, inner_bevel, miter_short, line_join), PT_LEFT) == left,
        has_flag(spec_join_flags(flags, left, inner_bevel, miter_short, line_join), PT_CORNER)
            == has_flag(flags, PT_CORNER),
        has_flag(spec_join_flags(flags, left, inner_bevel, miter_short, line_join), PT_BEVEL)
            == (has_flag(flags, PT_CORNER)
                && (miter_short || line_join == LineJoin::Bevel || line_join == LineJoin::Round)),
{
    let fl = flags;
    assert((fl & 1) & 1 == fl & 1 && (fl & 1) & 2 == 0 && (fl & 1) & 4 == 0 && (fl & 1) & 8 == 0) by (bit_vector);
    let f0 = flags & 1;
    assert((f0 | 2) & 1 == f0 & 1 && (f0 | 2) & 2 == 2 && (f0 | 2) & 4 == f0 & 4 && (f0 | 2) & 8 == f0 & 8) by (bit_vector);
    let f1 = if left { f0 | 2 } else { f0 };
    assert((f1 | 8) & 1 == f1 & 1 && (f1 | 8) & 2 == f1 & 2 && (f1 | 8) & 4 == f1 & 4 && (f1 | 8) & 8 == 8) by (bit_vector);
    let f2 = if inner_bevel { f1 | 8 } else { f1 };
    assert((f2 | 4) & 1 == f2 & 1 && (f2 | 4) & 2 == f2 & 2 && (f2 | 4) & 4 == 4 && (f2 | 4) & 8 == f2 & 8) by (bit_vector);
}

proof fn lemma_left_count_all(fs: Seq<u32>)
    ensures
        left_count(fs) <= fs.len(),
        (left_count(fs) == fs.len()) <==> (forall|k: int| 0 <= k < fs.len() ==> #[trigger] has_flag(fs[k], PT_LEFT)),
    decreases fs.len(),
{
    if fs.len() > 0 {
        let d = fs.drop_last();
        lemma_left_count_all(d);
        assert forall|k: int| 0 <= k < d.len() implies d[k] == fs[k] by {}
        if left_count(fs) == fs.len() {
            assert forall|k: int| 0 <= k < fs.len() implies #[trigger] has_flag(fs[k], PT_LEFT) by {
                if k < d.len() {
                    assert(has_flag(d[k], PT_LEFT));
                }
            }
        }
        if forall|k: int| 0 <= k < fs.len() ==> #[trigger] has_flag(fs[k], PT_LEFT) {
            assert forall|k: int| 0 <= k < d.len() implies #[trigger] has_flag(d[k], PT_LEFT) by {
                assert(has_flag(fs[k], PT_LEFT));
            }
            assert(has_flag(fs[fs.len() - 1], PT_LEFT));
        }
    }
}

proof fn lemma_bevels_cover_corners(before: Seq<u32>, after: Seq<u32>)
    requires
        before.len() == after.len(),
        forall|k: int| 0 <= k < before.len() && has_flag(before[k], PT_CORNER) ==> #[trigger] is_bevel(after[k]),
    ensures
        bevel_count(after) >= corner_count(before),
    decreases before.len(),
{
    if before.len() > 0 {
        let n = before.len() - 1;
        assert forall|k: int| 0 <= k < before.drop_last().len() && has_flag(before.drop_last()[k], PT_CORNER)
            implies #[trigger] is_bevel(after.drop_last()[k]) by {
            assert(before.drop_last()[k] == before[k]);
            assert(after.drop_last()[k] == after[k]);
            assert(is_bevel(after[k]));
        }
        lemma_bevels_cover_corners(before.drop_last(), after.drop_last());
        if has_flag(before[n], PT_CORNER) {
            assert(is_bevel(after[n]));
        }
    }
}

/// Once the joins are computed, a path is convex exactly when it turns
/// left at each of its points; with bevel or round joins, each of its
/// corners is beveled, so its bevel count is at least its number of
/// corners.
pub proof fn lemma_joins_convex_and_bevels(
    flags: Seq<u32>,
    paths: Seq<PathInfo>,
    left: Seq<bool>,
    inner_bevel: Seq<bool>,
    miter_short: Seq<bool>,
    line_join: LineJoin,
    i: int,
)
    requires
        ranges_ordered(paths, flags.len()),
        left.len() == flags.len(),
        inner_bevel.len() == flags.len(),
        miter_short.len() == flags.len(),
        0 <= i < paths.len(),
    ensures
        ({
            let f1 = joined_flags(flags, paths, left, inner_bevel, miter_short, line_join);
            let p = paths[i];
            &&& (left_count(path_flags(p, f1)) == p.count)
                <==> (forall|k: int| p.first <= k < p.first + p.count ==> #[trigger] left[k])
            &&& (line_join == LineJoin::Bevel || line_join == LineJoin::Round)
                ==> bevel_count(path_flags(p, f1)) >= corner_count(path_flags(p, flags))
        }),
{
    let f1 = joined_flags(flags, paths, left, inner_bevel, miter_short, line_join);
    let p = paths[i];
    let pf = path_flags(p, f1);
    let po = path_flags(p, flags);
    assert(p.first + p.count <= flags.len());
    assert forall|j: int| 0 <= j < p.count implies {
        &&& #[trigger] pf[j] == spec_join_flags(flags[p.first + j], left[p.first + j], inner_bevel[p.first + j],
            miter_short[p.first + j], line_join)
        &&& has_flag(pf[j], PT_LEFT) == left[p.first + j]
        &&& has_flag(pf[j], PT_BEVEL) == (has_flag(po[j], PT_CORNER)
            && (miter_short[p.first + j] || line_join == LineJoin::Bevel || line_join == LineJoin::Round))
    } by {
        assert(in_path(paths[i], p.first + j));
        assert(covered_before(paths, paths.len() as int, p.first + j));
        lemma_join_flag_bits(flags[p.first + j], left[p.first + j], inner_bevel[p.first + j],
            miter_short[p.first + j], line_join);
    }
    lemma_left_count_all(pf);
    if forall|k: int| p.first <= k < p.first + p.count ==> #[trigger] left[k] {
        assert forall|j: int| 0 <= j < pf.len() implies #[trigger] has_flag(pf[j], PT_LEFT) by {
            assert(left[p.first + j]);
        }
    }
    if left_count(pf) == p.count {
        assert forall|k: int| p.first <= k < p.first + p.count implies #[trigger] left[k] by {
            assert(has_flag(pf[k - p.first], PT_LEFT));
        }
    }
    if line_join == LineJoin::Bevel || line_join == LineJoin::Round {
        assert forall|k: int| 0 <= k < po.len() && has_flag(po[k], PT_CORNER) implies #[trigger] is_bevel(pf[k]) by {
            assert(has_flag(pf[k], PT_BEVEL));
        }
        lemma_bevels_cover_corners(po, pf);
    }
}

} // verus!
