use vstd::prelude::*;

use core::ops::Range;

use crate::mesh::{Mesh, INDEX_SIZE};
use crate::paint::{CompositeOperationState, PathFillType};
use crate::path::{PathInfo, PathSlice, VertexSlice};

verus! {

/// Size in bytes of one fragment uniform block: the dynamic uniform offset
/// of a draw call advances in steps of this size.
pub const RENDER_COMMAND_SIZE: usize = 256;

/// The kind of a recorded draw call.
#[derive(Debug, Clone, Copy, PartialEq, Eq, Structural)]
pub enum CallType {
    Fill(PathFillType),
    ConvexFill,
    Stroke,
    Triangles,
    Lines,
}

/// The vertex slices of one path of a draw call.
#[derive(Debug, Clone, Copy, PartialEq, Eq, Structural)]
pub struct GpuPath {
    pub fill: VertexSlice,
    pub stroke: VertexSlice,
}

impl GpuPath {
    /// First vertex of the path's triangle fan.
    pub fn triangle_fan_offset(&self) -> (r: i32)
        ensures
            r == self.fill.offset as i32,
    {
        self.fill.offset as i32
    }

    /// Number of triangles of the path's triangle fan.
    pub fn triangle_fan_count(&self) -> (r: u32)
        requires
            self.fill.count > 2,
        ensures
            r == (self.fill.count - 2) as u32,
    {
        (self.fill.count - 2) as u32
    }

    /// Vertex range of the path's stroke.
    pub fn stroke_vert(&self) -> (r: Range<u32>)
        requires
            self.stroke.offset + self.stroke.count <= usize::MAX,
        ensures
            r.start == self.stroke.offset as u32,
            r.end == (self.stroke.offset + self.stroke.count) as u32,
    {
        let start = self.stroke.offset as u32;
        let end = (self.stroke.offset + self.stroke.count) as u32;
        start..end
    }
}

/// A recorded draw call: its kind, the paths `path_range` of the path list
/// it draws, the vertex run `triangle` (the bounds quad of a fill, or the
/// triangles of a triangle call), the first of its fragment uniform blocks,
/// its blend state and the buffers it draws from when not the shared ones.
pub struct Call<B> {
    pub call_type: CallType,
    pub image: Option<usize>,
    pub path_range: Range<usize>,
    pub triangle: VertexSlice,
    pub uniform_offset: usize,
    pub blend_func: CompositeOperationState,
    pub vertex_buffer: Option<B>,
    pub instances: Option<(B, Range<u32>)>,
}

impl<B> Call<B> {
    /// Vertex range of the call's own triangles.
    pub fn triangle_vert(&self) -> (r: Range<u32>)
        requires
            self.triangle.offset + self.triangle.count <= usize::MAX,
        ensures
            r.start == self.triangle.offset as u32,
            r.end == (self.triangle.offset + self.triangle.count) as u32,
    {
        let start = self.triangle.offset as u32;
        let end = (self.triangle.offset + self.triangle.count) as u32;
        start..end
    }

    /// Byte offset of the call's uniform block number `offset`.
    pub fn uniform_offset(&self, offset: usize) -> (r: u32)
        requires
            (self.uniform_offset + offset) * RENDER_COMMAND_SIZE <= usize::MAX,
        ensures
            r == ((self.uniform_offset + offset) * RENDER_COMMAND_SIZE) as u32,
    {
        ((self.uniform_offset + offset) * RENDER_COMMAND_SIZE) as u32
    }
}

/// Number of uniform blocks a call of the kind uses.
pub open spec fn uniforms_used(t: CallType) -> nat {
    match t {
        CallType::Fill(_) => 2,
        _ => 1,
    }
}

/// The slices of a path that a fill draws.
pub open spec fn fill_gpu_path(p: PathInfo) -> GpuPath {
    GpuPath {
        fill: VertexSlice { offset: p.offset, count: p.num_fill },
        stroke: VertexSlice { offset: (p.offset + p.num_fill) as usize, count: p.num_stroke },
    }
}

/// The paths that a fill draws: those with at least three fill vertices.
pub open spec fn fill_gpu_paths(s: Seq<PathInfo>) -> Seq<GpuPath>
    decreases s.len(),
{
    if s.len() == 0 {
        Seq::empty()
    } else if s.last().num_fill < 3 {
        fill_gpu_paths(s.drop_last())
    } else {
        fill_gpu_paths(s.drop_last()).push(fill_gpu_path(s.last()))
    }
}

/// Number of fill vertices of the paths that a fill draws.
pub open spec fn fill_vertex_total(s: Seq<PathInfo>) -> nat
    decreases s.len(),
{
    if s.len() == 0 {
        0
    } else if s.last().num_fill < 3 {
        fill_vertex_total(s.drop_last())
    } else {
        fill_vertex_total(s.drop_last()) + s.last().num_fill as nat
    }
}

/// The stroke slices of the paths can be computed without overflow.
pub open spec fn stroke_offsets_fit(s: Seq<PathInfo>) -> bool {
    forall|i: int| 0 <= i < s.len() ==> #[trigger] s[i].offset + s[i].num_fill <= usize::MAX
}

/// The slices of a path that a stroke or a wirelines call draws.
pub open spec fn stroke_gpu_path(p: PathInfo) -> GpuPath {
    GpuPath {
        fill: VertexSlice { offset: 0, count: 0 },
        stroke: VertexSlice { offset: (p.offset + p.num_fill) as usize, count: p.num_stroke },
    }
}

/// The paths that a stroke or a wirelines call draws.
pub open spec fn stroke_gpu_paths(s: Seq<PathInfo>) -> Seq<GpuPath> {
    Seq::new(s.len(), |i: int| stroke_gpu_path(s[i]))
}

proof fn lemma_fill_prefix(s: Seq<PathInfo>, i: int)
    requires
        0 <= i < s.len(),
    ensures
        fill_gpu_paths(s.take(i + 1)) == if s[i].num_fill < 3 {
            fill_gpu_paths(s.take(i))
        } else {
            fill_gpu_paths(s.take(i)).push(fill_gpu_path(s[i]))
        },
        fill_vertex_total(s.take(i + 1)) == if s[i].num_fill < 3 {
            fill_vertex_total(s.take(i))
        } else {
            fill_vertex_total(s.take(i)) + s[i].num_fill as nat
        },
{
    assert(s.take(i + 1).drop_last() == s.take(i));
    assert(s.take(i + 1).last() == s[i]);
}

proof fn lemma_fill_total_prefix(s: Seq<PathInfo>, i: int)
    requires
        0 <= i <= s.len(),
    ensures
        fill_vertex_total(s.take(i)) <= fill_vertex_total(s),
    decreases s.len() - i,
{
    if i < s.len() {
        lemma_fill_prefix(s, i);
        lemma_fill_total_prefix(s, i + 1);
    } else {
        assert(s.take(i) == s);
    }
}

proof fn lemma_fill_paths_fan(s: Seq<PathInfo>)
    ensures
        forall|k: int| 0 <= k < fill_gpu_paths(s).len() ==> #[trigger] fill_gpu_paths(s)[k].fill.count > 2,
    decreases s.len(),
{
    if s.len() > 0 {
        lemma_fill_paths_fan(s.drop_last());
        let r = fill_gpu_paths(s.drop_last());
        if s.last().num_fill >= 3 {
            let q = r.push(fill_gpu_path(s.last()));
            assert(fill_gpu_paths(s) == q);
            assert forall|k: int| 0 <= k < q.len() implies #[trigger] q[k].fill.count > 2 by {
                if k < r.len() {
                    assert(q[k] == r[k]);
                    assert(r[k].fill.count > 2);
                } else {
                    assert(k == r.len());
                    assert(q[k] == fill_gpu_path(s.last()));
                    assert(s.last().num_fill >= 3);
                    assert(fill_gpu_path(s.last()).fill.count == s.last().num_fill);
                }
            }
        } else {
            assert(fill_gpu_paths(s) == r);
            assert forall|k: int| 0 <= k < r.len() implies #[trigger] r[k].fill.count > 2 by {}
        }
    }
}

/// A fill of the paths can be recorded: the fill slices of the paths that
/// it draws end within `usize`, and their vertices, and the index bytes
/// that cover them, can be counted.
pub open spec fn fill_fits_spec(s: Seq<PathInfo>) -> bool {
    &&& forall|i: int| 0 <= i < s.len() ==> #[trigger] s[i].num_fill >= 3 ==> s[i].offset + s[i].num_fill <= usize::MAX
    &&& fill_vertex_total(s) * INDEX_SIZE <= u64::MAX
    &&& fill_vertex_total(s) <= usize::MAX
}

/// Whether a fill of `paths` can be recorded (see `fill_fits_spec`).
pub fn fill_fits(paths: &[PathSlice]) -> (r: bool)
    ensures
        r == fill_fits_spec(paths@),
{
    let mut total: usize = 0;
    let mut i: usize = 0;
    while i < paths.len()
        invariant
            i <= paths@.len(),
            total == fill_vertex_total(paths@.take(i as int)),
            forall|j: int| 0 <= j < i ==> #[trigger] paths@[j].num_fill >= 3 ==> paths@[j].offset + paths@[j].num_fill <= usize::MAX,
        decreases paths@.len() - i,
    {
        proof {
            lemma_fill_prefix(paths@, i as int);
            lemma_fill_total_prefix(paths@, i + 1);
        }
        let p = &paths[i];
        if p.num_fill >= 3 {
            if p.offset.checked_add(p.num_fill).is_none() {
                return false;
            }
            total = match total.checked_add(p.num_fill) {
                Some(t) => t,
                None => return false,
            };
        }
        i = i + 1;
    }
    assert(paths@.take(paths@.len() as int) == paths@);
    (total as u64).checked_mul(INDEX_SIZE).is_some()
}

/// Whether a stroke or the wire lines of `paths` can be recorded.
pub fn strokes_fit(paths: &[PathSlice]) -> (r: bool)
    ensures
        r == stroke_offsets_fit(paths@),
{
    let mut i: usize = 0;
    while i < paths.len()
        invariant
            i <= paths@.len(),
            forall|j: int| 0 <= j < i ==> #[trigger] paths@[j].offset + paths@[j].num_fill <= usize::MAX,
        decreases paths@.len() - i,
    {
        if paths[i].offset.checked_add(paths[i].num_fill).is_none() {
            return false;
        }
        i = i + 1;
    }
    true
}

/// The draw calls recorded for a frame, with the paths and the fragment
/// uniform blocks they refer to, and the shared mesh they draw from.
pub struct RenderResource<B, U> {
    pub mesh: Mesh,
    pub paths: Vec<GpuPath>,
    pub calls: Vec<Call<B>>,
    pub uniforms: Vec<U>,
}

/// The call refers only to recorded paths and uniform blocks, and every
/// path of a fill has a triangle fan of at least three vertices.
pub open spec fn call_wf<B>(c: Call<B>, paths: Seq<GpuPath>, num_uniforms: nat) -> bool {
    &&& c.path_range.start <= c.path_range.end <= paths.len()
    &&& c.uniform_offset + uniforms_used(c.call_type) <= num_uniforms
    &&& (c.call_type is Fill || c.call_type is ConvexFill) ==> forall|j: int|
        c.path_range.start <= j < c.path_range.end ==> #[trigger] paths[j].fill.count > 2
}

proof fn lemma_call_wf_grow<B>(c: Call<B>, paths: Seq<GpuPath>, more: Seq<GpuPath>, n: nat, m: nat)
    requires
        call_wf(c, paths, n),
        n <= m,
    ensures
        call_wf(c, paths + more, m),
{
    if c.call_type is Fill || c.call_type is ConvexFill {
        assert forall|j: int| c.path_range.start <= j < c.path_range.end implies
            #[trigger] (paths + more)[j].fill.count > 2 by {
            assert((paths + more)[j] == paths[j]);
        }
    }
}

impl<B, U> RenderResource<B, U> {
    /// Every recorded call refers only to recorded paths and uniforms.
    pub open spec fn wf(&self) -> bool {
        &&& self.mesh.wf()
        &&& forall|i: int| 0 <= i < self.calls@.len() ==>
            call_wf(#[trigger] self.calls@[i], self.paths@, self.uniforms@.len())
    }

    /// Nothing recorded yet.
    pub fn new(mesh: Mesh) -> (r: Self)
        requires
            mesh.wf(),
        ensures
            r.wf(),
            r.mesh == mesh,
            r.paths@.len() == 0,
            r.calls@.len() == 0,
            r.uniforms@.len() == 0,
    {
        RenderResource { mesh, paths: Vec::new(), calls: Vec::new(), uniforms: Vec::new() }
    }

    proof fn lemma_wf_grow(self, paths: Seq<GpuPath>, more: Seq<GpuPath>, n: nat)
        requires
            self.wf(),
            self.paths@ == paths,
            self.uniforms@.len() <= n,
        ensures
            forall|i: int| 0 <= i < self.calls@.len() ==>
                call_wf(#[trigger] self.calls@[i], paths + more, n),
    {
        assert forall|i: int| 0 <= i < self.calls@.len() implies
            call_wf(#[trigger] self.calls@[i], paths + more, n) by {
            lemma_call_wf_grow(self.calls@[i], paths, more, self.uniforms@.len(), n);
        }
    }

    /// Drops every recorded call, path and uniform block.
    pub fn cancel(&mut self)
        requires
            old(self).wf(),
        ensures
            final(self).wf(),
            final(self).mesh == old(self).mesh,
            final(self).paths@.len() == 0,
            final(self).calls@.len() == 0,
            final(self).uniforms@.len() == 0,
    {
        self.calls.clear();
        self.paths.clear();
        self.uniforms.clear();
    }

    /// Records a fill of `paths`: the paths with at least three fill
    /// vertices, a stencil fill (with its bounds quad at `bounds_offset`
    /// and a simple uniform block before the paint's) or, without bounds,
    /// a convex fill. The shared index list is grown to cover the fill
    /// vertices; returns whether it grew.
    pub fn fill(
        &mut self,
        vertex_buffer: Option<B>,
        instances: Option<(B, Range<u32>)>,
        image: Option<usize>,
        composite_operation: CompositeOperationState,
        fill_type: PathFillType,
        bounds_offset: Option<usize>,
        paths: &[PathSlice],
        simple_uniform: U,
        paint_uniform: U,
    ) -> (grew: bool)
        requires
            old(self).wf(),
            forall|i: int| 0 <= i < paths@.len() ==> #[trigger] paths@[i].num_fill >= 3
                ==> paths@[i].offset + paths@[i].num_fill <= usize::MAX,
            fill_vertex_total(paths@) * INDEX_SIZE <= u64::MAX,
            fill_vertex_total(paths@) <= usize::MAX,
        ensures
            final(self).wf(),
            final(self).paths@ == old(self).paths@ + fill_gpu_paths(paths@),
            final(self).calls@ == old(self).calls@.push(Call {
                call_type: if bounds_offset is Some { CallType::Fill(fill_type) } else { CallType::ConvexFill },
                image,
                path_range: Range { start: old(self).paths@.len() as usize, end: final(self).paths@.len() as usize },
                triangle: match bounds_offset {
                    Some(offset) => VertexSlice { offset, count: 4 },
                    None => VertexSlice { offset: 0, count: 0 },
                },
                uniform_offset: old(self).uniforms@.len() as usize,
                blend_func: composite_operation,
                vertex_buffer,
                instances,
            }),
            final(self).uniforms@ == if bounds_offset is Some {
                old(self).uniforms@.push(simple_uniform).push(paint_uniform)
            } else {
                old(self).uniforms@.push(paint_uniform)
            },
            old(self).mesh.indices_updated(final(self).mesh, fill_vertex_total(paths@) as u64, grew),
    {
        let ghost old_paths = self.paths@;
        let path_offset = self.paths.len();
        let mut fill_vertex_count: usize = 0;
        let mut i: usize = 0;
        while i < paths.len()
            invariant
                i <= paths@.len(),
                self.mesh == old(self).mesh,
                self.calls == old(self).calls,
                self.uniforms == old(self).uniforms,
                path_offset == old_paths.len(),
                self.paths@ == old_paths + fill_gpu_paths(paths@.take(i as int)),
                fill_vertex_count == fill_vertex_total(paths@.take(i as int)),
                fill_vertex_total(paths@) <= usize::MAX,
                forall|i: int| 0 <= i < paths@.len() ==> #[trigger] paths@[i].num_fill >= 3
                    ==> paths@[i].offset + paths@[i].num_fill <= usize::MAX,
            decreases paths@.len() - i,
        {
            proof {
                lemma_fill_prefix(paths@, i as int);
                lemma_fill_total_prefix(paths@, i as int + 1);
            }
            let p = &paths[i];
            let fill = p.get_fill();
            if fill.count < 3 {
            } else {
                fill_vertex_count = fill_vertex_count + fill.count;
                self.paths.push(GpuPath { fill, stroke: p.get_stroke() });
            }
            i = i + 1;
        }
        proof {
            assert(paths@.take(paths@.len() as int) == paths@);
            lemma_fill_paths_fan(paths@);
        }
        let grew = self.mesh.update_indices(fill_vertex_count as u64);
        let call_type = if bounds_offset.is_some() { CallType::Fill(fill_type) } else { CallType::ConvexFill };
        let triangle = match bounds_offset {
            Some(offset) => VertexSlice { offset, count: 4 },
            None => VertexSlice { offset: 0, count: 0 },
        };
        let call = Call {
            call_type,
            image,
            path_range: path_offset..self.paths.len(),
            triangle,
            uniform_offset: self.uniforms.len(),
            blend_func: composite_operation,
            vertex_buffer,
            instances,
        };
        proof {
            old(self).lemma_wf_grow(old_paths, fill_gpu_paths(paths@), self.uniforms@.len() + uniforms_used(call_type));
        }
        if bounds_offset.is_some() {
            self.uniforms.push(simple_uniform);
            self.uniforms.push(paint_uniform);
        } else {
            self.uniforms.push(paint_uniform);
        }
        self.calls.push(call);
        proof {
            assert forall|i: int| 0 <= i < self.calls@.len() implies
                call_wf(#[trigger] self.calls@[i], self.paths@, self.uniforms@.len()) by {
                if i < self.calls@.len() - 1 {
                    assert(self.calls@[i] == old(self).calls@[i]);
                } else {
                    assert forall|j: int| self.calls@[i].path_range.start <= j < self.calls@[i].path_range.end
                        implies #[trigger] self.paths@[j].fill.count > 2 by {
                        assert(self.paths@[j] == fill_gpu_paths(paths@)[j - old_paths.len()]);
                    }
                }
            }
        }
        grew
    }

    /// Appends the stroke slices of `paths` to the path list.
    fn push_stroke_paths(&mut self, paths: &[PathSlice])
        requires
            stroke_offsets_fit(paths@),
        ensures
            final(self).paths@ == old(self).paths@ + stroke_gpu_paths(paths@),
            final(self).mesh == old(self).mesh,
            final(self).calls == old(self).calls,
            final(self).uniforms == old(self).uniforms,
    {
        let ghost old_paths = self.paths@;
        let mut i: usize = 0;
        while i < paths.len()
            invariant
                i <= paths@.len(),
                stroke_offsets_fit(paths@),
                self.mesh == old(self).mesh,
                self.calls == old(self).calls,
                self.uniforms == old(self).uniforms,
                self.paths@ == old_paths + stroke_gpu_paths(paths@.take(i as int)),
            decreases paths@.len() - i,
        {
            let p = &paths[i];
            let stroke = p.get_stroke();
            self.paths.push(GpuPath { fill: VertexSlice { offset: 0, count: 0 }, stroke });
            i = i + 1;
            assert(stroke_gpu_paths(paths@.take(i as int)) =~= stroke_gpu_paths(paths@.take(i - 1)).push(
                stroke_gpu_path(paths@[i - 1]),
            ));
        }
        assert(paths@.take(paths@.len() as int) == paths@);
    }

    /// Records a call of kind `call_type` over the paths just appended
    /// from `path_offset`, with one uniform block.
    fn push_single_call(
        &mut self,
        call_type: CallType,
        image: Option<usize>,
        path_offset: usize,
        triangle: VertexSlice,
        composite_operation: CompositeOperationState,
        vertex_buffer: Option<B>,
        instances: Option<(B, Range<u32>)>,
        uniform: U,
    )
        requires
            path_offset <= old(self).paths@.len(),
            call_type is Stroke || call_type is Triangles || call_type is Lines,
            forall|i: int| 0 <= i < old(self).calls@.len() ==>
                call_wf(#[trigger] old(self).calls@[i], old(self).paths@, old(self).uniforms@.len()),
        ensures
            final(self).wf() <== old(self).mesh.wf(),
            final(self).mesh == old(self).mesh,
            final(self).paths == old(self).paths,
            final(self).calls@ == old(self).calls@.push(Call {
                call_type,
                image,
                path_range: Range { start: path_offset, end: old(self).paths@.len() as usize },
                triangle,
                uniform_offset: old(self).uniforms@.len() as usize,
                blend_func: composite_operation,
                vertex_buffer,
                instances,
            }),
            final(self).uniforms@ == old(self).uniforms@.push(uniform),
    {
        let call = Call {
            call_type,
            image,
            path_range: path_offset..self.paths.len(),
            triangle,
            uniform_offset: self.uniforms.len(),
            blend_func: composite_operation,
            vertex_buffer,
            instances,
        };
        proof {
            assert forall|i: int| 0 <= i < self.calls@.len() implies
                call_wf(#[trigger] self.calls@[i], self.paths@, self.uniforms@.len() + 1) by {
                lemma_call_wf_grow(self.calls@[i], self.paths@, Seq::empty(), self.uniforms@.len(), self.uniforms@.len() + 1);
                assert(self.paths@ + Seq::<GpuPath>::empty() == self.paths@);
            }
        }
        self.uniforms.push(uniform);
        self.calls.push(call);
        proof {
            assert forall|i: int| 0 <= i < self.calls@.len() implies
                call_wf(#[trigger] self.calls@[i], self.paths@, self.uniforms@.len()) by {
                if i < self.calls@.len() - 1 {
                    assert(self.calls@[i] == old(self).calls@[i]);
                }
            }
        }
    }

    /// Records a stroke of `paths`, drawn with one uniform block.
    pub fn stroke(
        &mut self,
        vertex_buffer: Option<B>,
        instances: Option<(B, Range<u32>)>,
        image: Option<usize>,
        composite_operation: CompositeOperationState,
        paths: &[PathSlice],
        paint_uniform: U,
    )
        requires
            old(self).wf(),
            stroke_offsets_fit(paths@),
        ensures
            final(self).wf(),
            final(self).mesh == old(self).mesh,
            final(self).paths@ == old(self).paths@ + stroke_gpu_paths(paths@),
            final(self).calls@ == old(self).calls@.push(Call {
                call_type: CallType::Stroke,
                image,
                path_range: Range { start: old(self).paths@.len() as usize, end: final(self).paths@.len() as usize },
                triangle: VertexSlice { offset: 0, count: 0 },
                uniform_offset: old(self).uniforms@.len() as usize,
                blend_func: composite_operation,
                vertex_buffer,
                instances,
            }),
            final(self).uniforms@ == old(self).uniforms@.push(paint_uniform),
    {
        let path_offset = self.paths.len();
        self.push_stroke_paths(paths);
        proof {
            old(self).lemma_wf_grow(old(self).paths@, stroke_gpu_paths(paths@), old(self).uniforms@.len());
        }
        self.push_single_call(
            CallType::Stroke,
            image,
            path_offset,
            VertexSlice { offset: 0, count: 0 },
            composite_operation,
            vertex_buffer,
            instances,
            paint_uniform,
        );
    }

    /// Records the wire lines of `paths`, drawn with one uniform block.
    pub fn wirelines(
        &mut self,
        vertex_buffer: Option<B>,
        instances: Option<(B, Range<u32>)>,
        image: Option<usize>,
        composite_operation: CompositeOperationState,
        paths: &[PathSlice],
        paint_uniform: U,
    )
        requires
            old(self).wf(),
            stroke_offsets_fit(paths@),
        ensures
            final(self).wf(),
            final(self).mesh == old(self).mesh,
            final(self).paths@ == old(self).paths@ + stroke_gpu_paths(paths@),
            final(self).calls@ == old(self).calls@.push(Call {
                call_type: CallType::Lines,
                image,
                path_range: Range { start: old(self).paths@.len() as usize, end: final(self).paths@.len() as usize },
                triangle: VertexSlice { offset: 0, count: 0 },
                uniform_offset: old(self).uniforms@.len() as usize,
                blend_func: composite_operation,
                vertex_buffer,
                instances,
            }),
            final(self).uniforms@ == old(self).uniforms@.push(paint_uniform),
    {
        let path_offset = self.paths.len();
        self.push_stroke_paths(paths);
        proof {
            old(self).lemma_wf_grow(old(self).paths@, stroke_gpu_paths(paths@), old(self).uniforms@.len());
        }
        self.push_single_call(
            CallType::Lines,
            image,
            path_offset,
            VertexSlice { offset: 0, count: 0 },
            composite_operation,
            vertex_buffer,
            instances,
            paint_uniform,
        );
    }

    /// Records a call drawing the vertices `slice` as triangles, with one
    /// uniform block and no paths.
    pub fn triangles(
        &mut self,
        vertex_buffer: Option<B>,
        instances: Option<(B, Range<u32>)>,
        image: Option<usize>,
        composite_operation: CompositeOperationState,
        slice: VertexSlice,
        image_uniform: U,
    )
        requires
            old(self).wf(),
        ensures
            final(self).wf(),
            final(self).mesh == old(self).mesh,
            final(self).paths == old(self).paths,
            final(self).calls@ == old(self).calls@.push(Call {
                call_type: CallType::Triangles,
                image,
                path_range: Range { start: 0, end: 0 },
                triangle: slice,
                uniform_offset: old(self).uniforms@.len() as usize,
                blend_func: composite_operation,
                vertex_buffer,
                instances,
            }),
            final(self).uniforms@ == old(self).uniforms@.push(image_uniform),
    {
        let call = Call {
            call_type: CallType::Triangles,
            image,
            path_range: 0..0,
            triangle: slice,
            uniform_offset: self.uniforms.len(),
            blend_func: composite_operation,
            vertex_buffer,
            instances,
        };
        proof {
            assert forall|i: int| 0 <= i < self.calls@.len() implies
                call_wf(#[trigger] self.calls@[i], self.paths@, self.uniforms@.len() + 1) by {
                lemma_call_wf_grow(self.calls@[i], self.paths@, Seq::empty(), self.uniforms@.len(), self.uniforms@.len() + 1);
                assert(self.paths@ + Seq::<GpuPath>::empty() == self.paths@);
            }
        }
        self.calls.push(call);
        self.uniforms.push(image_uniform);
        proof {
            assert forall|i: int| 0 <= i < self.calls@.len() implies
                call_wf(#[trigger] self.calls@[i], self.paths@, self.uniforms@.len()) by {
                if i < self.calls@.len() - 1 {
                    assert(self.calls@[i] == old(self).calls@[i]);
                }
            }
        }
    }
}


/// A vertex run in the 32-bit form of the OpenGL backend.
#[derive(Debug, Clone, Copy, PartialEq, Eq, Structural)]
pub struct GLSlice {
    pub offset: u32,
    pub count: u32,
}

impl GLSlice {
    /// The run of a vertex slice, truncated to 32 bits.
    pub fn from_slice(value: VertexSlice) -> (r: GLSlice)
        ensures
            r.offset == value.offset as u32,
            r.count == value.count as u32,
    {
        GLSlice { offset: value.offset as u32, count: value.count as u32 }
    }

    /// The run of a range of vertices; an empty one when it is reversed.
    pub fn from_range(value: Range<u32>) -> (r: GLSlice)
        ensures
            r.offset == value.start,
            r.count == if value.end > value.start { (value.end - value.start) as u32 } else { 0 },
    {
        let count = if value.end > value.start { value.end - value.start } else { 0 };
        GLSlice { offset: value.start, count }
    }
}

} // verus!
