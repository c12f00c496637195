use vstd::prelude::*;

use crate::paint::PathDir;

verus! {

/// A run of `count` vertices starting at vertex `offset`.
#[derive(Debug, Clone, Copy, PartialEq, Eq, Structural)]
pub struct VertexSlice {
    pub offset: usize,
    pub count: usize,
}

impl Default for VertexSlice {
    fn default() -> (r: Self)
        ensures
            r.offset == 0 && r.count == 0,
    {
        VertexSlice { offset: 0, count: 0 }
    }
}

impl Default for PathDir {
    fn default() -> (r: Self)
        ensures
            r == PathDir::CCW,
    {
        PathDir::CCW
    }
}

/// A flattened sub-path: its points `first..first + count` in the point
/// list, and, once expanded, its vertices: `num_fill` fill vertices from
/// `offset`, followed by `num_stroke` stroke (or fringe) vertices.
#[derive(Debug, Clone, Copy, PartialEq, Eq, Structural)]
pub struct PathInfo {
    pub first: usize,
    pub count: usize,
    pub closed: bool,
    pub num_bevel: usize,
    pub windding: PathDir,
    pub offset: usize,
    pub num_fill: usize,
    pub num_stroke: usize,
    pub convex: bool,
}

/// The vertex slices of an expanded path are kept in the same record.
pub type PathSlice = PathInfo;

impl Default for PathInfo {
    fn default() -> (r: Self)
        ensures
            r == PathInfo::spec_default(),
    {
        PathInfo {
            first: 0,
            count: 0,
            closed: false,
            num_bevel: 0,
            windding: PathDir::CCW,
            offset: 0,
            num_fill: 0,
            num_stroke: 0,
            convex: false,
        }
    }
}

impl PathInfo {
    /// The all-zero path record.
    pub open spec fn spec_default() -> PathInfo {
        PathInfo {
            first: 0,
            count: 0,
            closed: false,
            num_bevel: 0,
            windding: PathDir::CCW,
            offset: 0,
            num_fill: 0,
            num_stroke: 0,
            convex: false,
        }
    }

    /// The fill vertices of the path.
    pub fn get_fill(&self) -> (r: VertexSlice)
        ensures
            r.offset == self.offset,
            r.count == self.num_fill,
    {
        VertexSlice { offset: self.offset, count: self.num_fill }
    }

    /// The stroke vertices of the path, which follow its fill vertices.
    pub fn get_stroke(&self) -> (r: VertexSlice)
        requires
            self.offset + self.num_fill <= usize::MAX,
        ensures
            r.offset == self.offset + self.num_fill,
            r.count == self.num_stroke,
    {
        VertexSlice { offset: self.offset + self.num_fill, count: self.num_stroke }
    }
}

/// The vertex slices cached for a path that is drawn repeatedly.
#[derive(Debug, Clone)]
pub struct DrawSlice {
    pub fill: Vec<PathSlice>,
    pub bounds_offset: Option<usize>,
    pub stroke: Vec<PathSlice>,
    pub lines: Vec<PathSlice>,
}

impl Default for DrawSlice {
    fn default() -> (r: Self)
        ensures
            r.fill@.len() == 0,
            r.bounds_offset is None,
            r.stroke@.len() == 0,
            r.lines@.len() == 0,
    {
        DrawSlice { fill: Vec::new(), bounds_offset: None, stroke: Vec::new(), lines: Vec::new() }
    }
}

impl DrawSlice {
    /// Nothing has been expanded for the path.
    pub open spec fn spec_is_none(&self) -> bool {
        self.fill@.len() == 0 && self.stroke@.len() == 0 && self.lines@.len() == 0
    }

    /// Whether no fill, stroke or line slices are cached.
    pub fn is_none(&self) -> (r: bool)
        ensures
            r == self.spec_is_none(),
    {
        self.fill.is_empty() && self.stroke.is_empty() && self.lines.is_empty()
    }

    /// Drops every cached slice and the bounds offset.
    pub fn clear(&mut self)
        ensures
            final(self).spec_is_none(),
            final(self).bounds_offset is None,
    {
        self.fill.clear();
        self.bounds_offset = None;
        self.stroke.clear();
        self.lines.clear();
    }
}


/// Bit of the fill flag of a `DrawPathStyle`.
pub const STYLE_FILL: u32 = 1;
/// Bit of the stroke flag of a `DrawPathStyle`.
pub const STYLE_STROKE: u32 = 2;
/// Bit of the wirelines flag of a `DrawPathStyle`.
pub const STYLE_WIRELINES: u32 = 4;

/// Which expansions of a path are requested or cached: a set of the flags
/// `FILL`, `STROKE` and `WIRELINES`.
#[derive(Debug, Clone, Copy, PartialEq, Eq, Structural)]
pub struct DrawPathStyle {
    pub bits: u32,
}

impl DrawPathStyle {
    /// The fill flag alone.
    pub fn fill() -> (r: DrawPathStyle)
        ensures
            r == Self::spec_fill(),
    {
        DrawPathStyle { bits: STYLE_FILL }
    }

    /// The stroke flag alone.
    pub fn stroke() -> (r: DrawPathStyle)
        ensures
            r == Self::spec_stroke(),
    {
        DrawPathStyle { bits: STYLE_STROKE }
    }

    /// The wirelines flag alone.
    pub fn wirelines() -> (r: DrawPathStyle)
        ensures
            r == Self::spec_wirelines(),
    {
        DrawPathStyle { bits: STYLE_WIRELINES }
    }

    pub open spec fn spec_fill() -> DrawPathStyle {
        DrawPathStyle { bits: STYLE_FILL }
    }

    pub open spec fn spec_stroke() -> DrawPathStyle {
        DrawPathStyle { bits: STYLE_STROKE }
    }

    pub open spec fn spec_wirelines() -> DrawPathStyle {
        DrawPathStyle { bits: STYLE_WIRELINES }
    }

    /// The empty style.
    pub fn empty() -> (r: DrawPathStyle)
        ensures
            r.bits == 0,
    {
        DrawPathStyle { bits: 0 }
    }

    pub open spec fn spec_contains(self, other: DrawPathStyle) -> bool {
        self.bits & other.bits == other.bits
    }

    /// Whether every flag of `other` is set in `self`.
    pub fn contains(&self, other: DrawPathStyle) -> (r: bool)
        ensures
            r == self.spec_contains(other),
    {
        self.bits & other.bits == other.bits
    }

    /// Whether no flag is set.
    pub fn is_empty(&self) -> (r: bool)
        ensures
            r == (self.bits == 0),
    {
        self.bits == 0
    }

    /// The flags set in `self` or in `other`.
    pub fn union(&self, other: DrawPathStyle) -> (r: DrawPathStyle)
        ensures
            r.bits == self.bits | other.bits,
    {
        DrawPathStyle { bits: self.bits | other.bits }
    }
}

/// What drawing a path with a style does, given the style whose vertex
/// data is cached for the path.
#[derive(Debug, Clone, Copy, PartialEq, Eq, Structural)]
pub struct DrawPathPlan {
    /// The cached vertex data is drawn as it is.
    pub reuse_cache: bool,
    pub expand_fill: bool,
    pub expand_stroke: bool,
    pub expand_lines: bool,
    pub draw_fill: bool,
    pub draw_stroke: bool,
    pub draw_lines: bool,
    /// The style cached for the path afterwards.
    pub new_style: DrawPathStyle,
}

/// The plan of drawing a path with `style` when `cached` is cached for it:
/// `None` for the empty style, which draws nothing.
pub open spec fn spec_plan_draw_path(cached: DrawPathStyle, style: DrawPathStyle) -> Option<DrawPathPlan> {
    if style.bits == 0 {
        None
    } else if cached.spec_contains(style) {
        Some(DrawPathPlan {
            reuse_cache: true,
            expand_fill: false,
            expand_stroke: false,
            expand_lines: false,
            draw_fill: style.spec_contains(DrawPathStyle::spec_fill()),
            draw_stroke: style.spec_contains(DrawPathStyle::spec_stroke()),
            draw_lines: style.spec_contains(DrawPathStyle::spec_wirelines()),
            new_style: cached,
        })
    } else {
        let new_style = DrawPathStyle { bits: cached.bits | style.bits };
        Some(DrawPathPlan {
            reuse_cache: false,
            expand_fill: new_style.spec_contains(DrawPathStyle::spec_fill()),
            expand_stroke: new_style.spec_contains(DrawPathStyle::spec_stroke()),
            expand_lines: style.spec_contains(DrawPathStyle::spec_wirelines()),
            draw_fill: style.spec_contains(DrawPathStyle::spec_fill()),
            draw_stroke: style.spec_contains(DrawPathStyle::spec_stroke()),
            draw_lines: style.spec_contains(DrawPathStyle::spec_wirelines()),
            new_style,
        })
    }
}

/// Decides which expansions and draw calls drawing a path with `style`
/// makes, given the style `cached` for the path.
pub fn plan_draw_path(cached: DrawPathStyle, style: DrawPathStyle) -> (r: Option<DrawPathPlan>)
    ensures
        r == spec_plan_draw_path(cached, style),
{
    if style.is_empty() {
        return None;
    }
    if cached.contains(style) {
        Some(DrawPathPlan {
            reuse_cache: true,
            expand_fill: false,
            expand_stroke: false,
            expand_lines: false,
            draw_fill: style.contains(DrawPathStyle::fill()),
            draw_stroke: style.contains(DrawPathStyle::stroke()),
            draw_lines: style.contains(DrawPathStyle::wirelines()),
            new_style: cached,
        })
    } else {
        let new_style = cached.union(style);
        Some(DrawPathPlan {
            reuse_cache: false,
            expand_fill: new_style.contains(DrawPathStyle::fill()),
            expand_stroke: new_style.contains(DrawPathStyle::stroke()),
            expand_lines: style.contains(DrawPathStyle::wirelines()),
            draw_fill: style.contains(DrawPathStyle::fill()),
            draw_stroke: style.contains(DrawPathStyle::stroke()),
            draw_lines: style.contains(DrawPathStyle::wirelines()),
            new_style,
        })
    }
}

/// After a path is drawn with a style, drawing it again with the same
/// style reuses its cached vertex data and expands nothing.
pub proof fn lemma_redraw_reuses_cache(cached: DrawPathStyle, style: DrawPathStyle)
    requires
        style.bits != 0,
    ensures
        spec_plan_draw_path(spec_plan_draw_path(cached, style).unwrap().new_style, style)
            == Some(DrawPathPlan {
                reuse_cache: true,
                expand_fill: false,
                expand_stroke: false,
                expand_lines: false,
                draw_fill: style.spec_contains(DrawPathStyle::spec_fill()),
                draw_stroke: style.spec_contains(DrawPathStyle::spec_stroke()),
                draw_lines: style.spec_contains(DrawPathStyle::spec_wirelines()),
                new_style: spec_plan_draw_path(cached, style).unwrap().new_style,
            }),
{
    let c = cached.bits;
    let s = style.bits;
    assert((c | s) & s == s) by (bit_vector);
}

/// A draw draws exactly the parts that it requests, whatever is cached
/// for the path, and the requested parts are cached afterwards.
pub proof fn lemma_draw_covers_style(cached: DrawPathStyle, style: DrawPathStyle)
    requires
        style.bits != 0,
    ensures
        ({
            let p = spec_plan_draw_path(cached, style).unwrap();
            &&& p.draw_fill == style.spec_contains(DrawPathStyle::spec_fill())
            &&& p.draw_stroke == style.spec_contains(DrawPathStyle::spec_stroke())
            &&& p.draw_lines == style.spec_contains(DrawPathStyle::spec_wirelines())
            &&& p.new_style.spec_contains(style)
        }),
{
    let c = cached.bits;
    let s = style.bits;
    assert(s & 1 == 1 ==> (c | s) & 1 == 1) by (bit_vector);
    assert(s & 2 == 2 ==> (c | s) & 2 == 2) by (bit_vector);
    assert((c | s) & s == s) by (bit_vector);
}

/// What a draw of a path does with its cache, in terms of the style bits
/// (1 fill, 2 stroke, 4 wire lines): an empty style does nothing; the cache
/// is reused exactly when it holds every requested part; otherwise the
/// path is expanded again for every fill and stroke part of what it
/// cached and what is requested together, which it caches afterwards, and
/// its wire lines when they are requested. Either way exactly the
/// requested parts are drawn.
pub proof fn lemma_plan_by_bits(cached: DrawPathStyle, style: DrawPathStyle)
    ensures
        style.bits == 0 <==> spec_plan_draw_path(cached, style) is None,
        style.bits != 0 ==> ({
            let p = spec_plan_draw_path(cached, style).unwrap();
            let all = cached.bits | style.bits;
            &&& p.reuse_cache == (cached.bits & style.bits == style.bits)
            &&& p.reuse_cache ==> {
                &&& !p.expand_fill && !p.expand_stroke && !p.expand_lines
                &&& p.new_style.bits == cached.bits
            }
            &&& !p.reuse_cache ==> {
                &&& p.new_style.bits == all
                &&& p.expand_fill == (all & 1 == 1)
                &&& p.expand_stroke == (all & 2 == 2)
                &&& p.expand_lines == (style.bits & 4 == 4)
            }
            &&& p.draw_fill == (style.bits & 1 == 1)
            &&& p.draw_stroke == (style.bits & 2 == 2)
            &&& p.draw_lines == (style.bits & 4 == 4)
        }),
{
}

/// The state of a path that is kept between draws: the cached vertex
/// slices, the vertex buffer that holds their vertices, and the style that
/// was expanded.
pub struct PathMutInner<B> {
    pub draw_slice: DrawSlice,
    pub vertex_buffer: Option<B>,
    pub style: DrawPathStyle,
}

impl<B> PathMutInner<B> {
    /// Nothing cached, no vertex buffer.
    pub fn new() -> (r: Self)
        ensures
            r.draw_slice.spec_is_none(),
            r.draw_slice.bounds_offset is None,
            r.vertex_buffer is None,
            r.style.bits == 0,
    {
        PathMutInner { draw_slice: DrawSlice::default(), vertex_buffer: None, style: DrawPathStyle::empty() }
    }

    /// Forgets the cached expansions, so that the path can be edited again;
    /// the vertex buffer is kept for reuse.
    pub fn reset(&mut self)
        ensures
            final(self).draw_slice.spec_is_none(),
            final(self).draw_slice.bounds_offset is None,
            final(self).style.bits == 0,
            final(self).vertex_buffer == old(self).vertex_buffer,
    {
        self.style = DrawPathStyle::empty();
        self.draw_slice.clear();
    }

    /// A path may be edited only while nothing is cached for it.
    pub fn can_edit(&self) -> (r: bool)
        ensures
            r == self.draw_slice.spec_is_none(),
    {
        self.draw_slice.is_none()
    }
}

} // verus!
