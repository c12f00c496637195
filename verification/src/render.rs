use vstd::prelude::*;

use core::ops::Range;

use crate::call::{call_wf, Call, CallType, GpuPath, RenderResource, RENDER_COMMAND_SIZE, uniforms_used};
use crate::pipeline::{spec_pipeline_slot, PipelineSlot, PipelineUsage};

verus! {

/// One step of drawing the recorded calls, for the backend to carry out
/// in order on its render pass.
#[derive(Debug)]
pub enum DrawOp {
    /// Make sure the slot of the usage holds a pipeline built for it.
    UpdatePipeline(PipelineUsage),
    /// Draw with the pipeline of the slot, and the call's buffers.
    SetPipeline(PipelineSlot),
    /// Bind the fragment uniform block at this byte offset.
    SetUniform(u32),
    /// Draw indexed triangles from the shared fan index list.
    DrawIndexed { indices: Range<u32>, base_vertex: i32 },
    /// Draw a run of vertices.
    Draw(Range<u32>),
}

/// The indexed draw of a path's triangle fan.
pub open spec fn fan_draw(p: GpuPath) -> DrawOp {
    DrawOp::DrawIndexed {
        indices: Range { start: 0, end: (((p.fill.count - 2) as u32) * 3) as u32 },
        base_vertex: p.fill.offset as i32,
    }
}

/// The draw of a path's stroke vertices.
pub open spec fn stroke_draw(p: GpuPath) -> DrawOp {
    DrawOp::Draw(Range {
        start: p.stroke.offset as u32,
        end: (p.stroke.offset + p.stroke.count) as u32,
    })
}

/// The paths of a call.
pub open spec fn call_paths<B>(c: Call<B>, paths: Seq<GpuPath>) -> Seq<GpuPath> {
    paths.subrange(c.path_range.start as int, c.path_range.end as int)
}

/// Byte offset of uniform block `k` of a call.
pub open spec fn uniform_at<B>(c: Call<B>, k: int) -> u32 {
    ((c.uniform_offset + k) * RENDER_COMMAND_SIZE) as u32
}

/// The draw of a call's own vertex run.
pub open spec fn triangle_draw<B>(c: Call<B>) -> DrawOp {
    DrawOp::Draw(Range {
        start: c.triangle.offset as u32,
        end: (c.triangle.offset + c.triangle.count) as u32,
    })
}

/// The steps that draw a call.
pub open spec fn spec_call_ops<B>(c: Call<B>, paths: Seq<GpuPath>) -> Seq<DrawOp> {
    let ps = call_paths(c, paths);
    let b = c.blend_func;
    match c.call_type {
        CallType::Fill(t) => seq![
            DrawOp::UpdatePipeline(PipelineUsage::FillStencil(t)),
            DrawOp::UpdatePipeline(PipelineUsage::FillStroke(b)),
            DrawOp::UpdatePipeline(PipelineUsage::FillInner(b)),
            DrawOp::SetPipeline(PipelineSlot::FillStencil),
            DrawOp::SetUniform(uniform_at(c, 0)),
        ] + ps.map_values(|p: GpuPath| fan_draw(p)) + seq![
            DrawOp::SetPipeline(PipelineSlot::FillStroke),
            DrawOp::SetUniform(uniform_at(c, 1)),
        ] + ps.map_values(|p: GpuPath| stroke_draw(p)) + seq![
            DrawOp::SetPipeline(PipelineSlot::FillInner),
            DrawOp::SetUniform(uniform_at(c, 1)),
            triangle_draw(c),
        ],
        CallType::ConvexFill => seq![
            DrawOp::UpdatePipeline(PipelineUsage::FillConvex(b)),
            DrawOp::UpdatePipeline(PipelineUsage::FillStroke(b)),
            DrawOp::SetPipeline(PipelineSlot::FillConvex),
            DrawOp::SetUniform(uniform_at(c, 0)),
        ] + ps.map_values(|p: GpuPath| fan_draw(p)) + seq![
            DrawOp::SetPipeline(PipelineSlot::FillStroke),
            DrawOp::SetUniform(uniform_at(c, 0)),
        ] + ps.map_values(|p: GpuPath| stroke_draw(p)),
        CallType::Stroke => seq![
            DrawOp::UpdatePipeline(PipelineUsage::FillStroke(b)),
            DrawOp::SetPipeline(PipelineSlot::FillStroke),
            DrawOp::SetUniform(uniform_at(c, 0)),
        ] + ps.map_values(|p: GpuPath| stroke_draw(p)),
        CallType::Triangles => seq![
            DrawOp::UpdatePipeline(PipelineUsage::Triangles(b)),
            DrawOp::SetPipeline(PipelineSlot::Triangles),
            DrawOp::SetUniform(uniform_at(c, 0)),
            triangle_draw(c),
        ],
        CallType::Lines => seq![
            DrawOp::UpdatePipeline(PipelineUsage::Lines(b)),
            DrawOp::SetPipeline(PipelineSlot::Wirelines),
            DrawOp::SetUniform(uniform_at(c, 0)),
        ] + ps.map_values(|p: GpuPath| stroke_draw(p)),
    }
}

/// The call can be drawn without overflow: its uniform byte offsets, the
/// index counts of its fans and the vertex ranges it draws fit.
pub open spec fn call_renderable<B>(c: Call<B>, paths: Seq<GpuPath>) -> bool {
    &&& (c.uniform_offset + uniforms_used(c.call_type) - 1) * RENDER_COMMAND_SIZE <= usize::MAX
    &&& (c.call_type is Fill || c.call_type is ConvexFill) ==> forall|j: int|
        c.path_range.start <= j < c.path_range.end ==>
            (((#[trigger] paths[j]).fill.count - 2) as u32) * 3 <= u32::MAX
    &&& !(c.call_type is Triangles) ==> forall|j: int|
        c.path_range.start <= j < c.path_range.end ==>
            (#[trigger] paths[j]).stroke.offset + paths[j].stroke.count <= usize::MAX
    &&& (c.call_type is Fill || c.call_type is Triangles) ==> c.triangle.offset + c.triangle.count <= usize::MAX
}

/// Appends the fan draws of `paths[start..end]`.
fn push_fan_draws(ops: &mut Vec<DrawOp>, paths: &Vec<GpuPath>, start: usize, end: usize)
    requires
        start <= end <= paths@.len(),
        forall|j: int| start <= j < end ==> (#[trigger] paths@[j]).fill.count > 2,
        forall|j: int| start <= j < end ==> (((#[trigger] paths@[j]).fill.count - 2) as u32) * 3 <= u32::MAX,
    ensures
        final(ops)@ == old(ops)@ + paths@.subrange(start as int, end as int).map_values(|p: GpuPath| fan_draw(p)),
{
    let ghost base = ops@;
    let mut j = start;
    while j < end
        invariant
            start <= j <= end <= paths@.len(),
            forall|j: int| start <= j < end ==> (#[trigger] paths@[j]).fill.count > 2,
            forall|j: int| start <= j < end ==> (((#[trigger] paths@[j]).fill.count - 2) as u32) * 3 <= u32::MAX,
            ops@ == base + paths@.subrange(start as int, j as int).map_values(|p: GpuPath| fan_draw(p)),
        decreases end - j,
    {
        let p = &paths[j];
        let count = p.triangle_fan_count();
        ops.push(DrawOp::DrawIndexed { indices: 0..(count * 3), base_vertex: p.triangle_fan_offset() });
        j = j + 1;
        assert(paths@.subrange(start as int, j as int).map_values(|p: GpuPath| fan_draw(p))
            =~= paths@.subrange(start as int, j - 1).map_values(|p: GpuPath| fan_draw(p)).push(fan_draw(paths@[j - 1])));
    }
}

/// Appends the stroke draws of `paths[start..end]`.
fn push_stroke_draws(ops: &mut Vec<DrawOp>, paths: &Vec<GpuPath>, start: usize, end: usize)
    requires
        start <= end <= paths@.len(),
        forall|j: int| start <= j < end ==>
            (#[trigger] paths@[j]).stroke.offset + paths@[j].stroke.count <= usize::MAX,
    ensures
        final(ops)@ == old(ops)@ + paths@.subrange(start as int, end as int).map_values(|p: GpuPath| stroke_draw(p)),
{
    let ghost base = ops@;
    let mut j = start;
    while j < end
        invariant
            start <= j <= end <= paths@.len(),
            forall|j: int| start <= j < end ==>
                (#[trigger] paths@[j]).stroke.offset + paths@[j].stroke.count <= usize::MAX,
            ops@ == base + paths@.subrange(start as int, j as int).map_values(|p: GpuPath| stroke_draw(p)),
        decreases end - j,
    {
        let p = &paths[j];
        ops.push(DrawOp::Draw(p.stroke_vert()));
        j = j + 1;
        assert(paths@.subrange(start as int, j as int).map_values(|p: GpuPath| stroke_draw(p))
            =~= paths@.subrange(start as int, j - 1).map_values(|p: GpuPath| stroke_draw(p)).push(stroke_draw(paths@[j - 1])));
    }
}

/// The slot of the pipeline last set before step `j`, if any.
pub open spec fn pipeline_at(ops: Seq<DrawOp>, j: int) -> Option<PipelineSlot>
    decreases j,
{
    if j <= 0 {
        None
    } else if ops[j - 1] is SetPipeline {
        Some(ops[j - 1]->SetPipeline_0)
    } else {
        pipeline_at(ops, j - 1)
    }
}

/// Some step before `j` updates a pipeline usage that slot `s` holds.
pub open spec fn updated_before(ops: Seq<DrawOp>, j: int, s: PipelineSlot) -> bool {
    exists|k: int|
        0 <= k < j && (#[trigger] ops[k]) is UpdatePipeline
            && spec_pipeline_slot(ops[k]->UpdatePipeline_0) == s
}

proof fn lemma_pipeline_at_run(ops: Seq<DrawOp>, m: int, j: int, s: PipelineSlot)
    requires
        0 <= m < j <= ops.len(),
        ops[m] == DrawOp::SetPipeline(s),
        forall|k: int| m < k < j ==> !((#[trigger] ops[k]) is SetPipeline),
    ensures
        pipeline_at(ops, j) == Some(s),
    decreases j - m,
{
    if j - 1 > m {
        lemma_pipeline_at_run(ops, m, j - 1, s);
    }
}

/// Every `SetPipeline` step follows an `UpdatePipeline` of a usage of that
/// slot; the indexed fan draws come only in fills, under the stencil
/// pipeline of a stencil fill and the convex-fill pipeline of a convex fill;
/// every plain draw comes after some pipeline was set, and never under
/// either of those two.
pub open spec fn draws_use_updated_pipelines(ops: Seq<DrawOp>, call_type: CallType) -> bool {
    &&& forall|j: int| 0 <= j < ops.len() && (#[trigger] ops[j]) is SetPipeline ==>
        updated_before(ops, j, ops[j]->SetPipeline_0)
    &&& forall|j: int| 0 <= j < ops.len() && (#[trigger] ops[j]) is DrawIndexed ==> {
        &&& call_type is ConvexFill ==> pipeline_at(ops, j) == Some(PipelineSlot::FillConvex)
        &&& call_type is Fill ==> pipeline_at(ops, j) == Some(PipelineSlot::FillStencil)
        &&& (call_type is Fill || call_type is ConvexFill)
    }
    &&& forall|j: int| 0 <= j < ops.len() && (#[trigger] ops[j]) is Draw ==> {
        &&& pipeline_at(ops, j) is Some
        &&& pipeline_at(ops, j) != Some(PipelineSlot::FillStencil)
        &&& pipeline_at(ops, j) != Some(PipelineSlot::FillConvex)
    }
}

proof fn lemma_fill_layout_pipelines(ops: Seq<DrawOp>, n: int, call_type: CallType)
    requires
        call_type is Fill,
        n >= 0,
        ops.len() == 10 + 2 * n,
        ops[0] is UpdatePipeline && spec_pipeline_slot(ops[0]->UpdatePipeline_0) == PipelineSlot::FillStencil,
        ops[1] is UpdatePipeline && spec_pipeline_slot(ops[1]->UpdatePipeline_0) == PipelineSlot::FillStroke,
        ops[2] is UpdatePipeline && spec_pipeline_slot(ops[2]->UpdatePipeline_0) == PipelineSlot::FillInner,
        ops[3] == DrawOp::SetPipeline(PipelineSlot::FillStencil),
        ops[4] is SetUniform,
        forall|k: int| 5 <= k < 5 + n ==> (#[trigger] ops[k]) is DrawIndexed,
        ops[5 + n] == DrawOp::SetPipeline(PipelineSlot::FillStroke),
        ops[6 + n] is SetUniform,
        forall|k: int| 7 + n <= k < 7 + 2 * n ==> (#[trigger] ops[k]) is Draw,
        ops[7 + 2 * n] == DrawOp::SetPipeline(PipelineSlot::FillInner),
        ops[8 + 2 * n] is SetUniform,
        ops[9 + 2 * n] is Draw,
    ensures
        draws_use_updated_pipelines(ops, call_type),
{
    assert forall|j: int| 0 <= j < ops.len() && (#[trigger] ops[j]) is SetPipeline implies
        updated_before(ops, j, ops[j]->SetPipeline_0) by {
        if j == 3 {
            assert(ops[0] is UpdatePipeline);
        } else if j == 5 + n {
            assert(ops[1] is UpdatePipeline);
        } else {
            if 5 <= j < 5 + n { assert(ops[j] is DrawIndexed); }
            if 7 + n <= j < 7 + 2 * n { assert(ops[j] is Draw); }
            assert(j == 7 + 2 * n);
            assert(ops[2] is UpdatePipeline);
        }
    }
    assert forall|j: int| 0 <= j < ops.len() && (#[trigger] ops[j]) is DrawIndexed implies
        pipeline_at(ops, j) == Some(PipelineSlot::FillStencil) by {
        if 7 + n <= j < 7 + 2 * n { assert(ops[j] is Draw); }
        assert(5 <= j < 5 + n);
        assert forall|k: int| 3 < k < j implies !((#[trigger] ops[k]) is SetPipeline) by {
            if k >= 5 { assert(ops[k] is DrawIndexed); }
        }
        lemma_pipeline_at_run(ops, 3, j, PipelineSlot::FillStencil);
    }
    assert forall|j: int| 0 <= j < ops.len() && (#[trigger] ops[j]) is Draw implies
        pipeline_at(ops, j) == Some(PipelineSlot::FillStroke)
        || pipeline_at(ops, j) == Some(PipelineSlot::FillInner) by {
        if 5 <= j < 5 + n { assert(ops[j] is DrawIndexed); }
        if j < 7 + 2 * n {
            assert(7 + n <= j);
            assert forall|k: int| 5 + n < k < j implies !((#[trigger] ops[k]) is SetPipeline) by {
                if k >= 7 + n { assert(ops[k] is Draw); }
            }
            lemma_pipeline_at_run(ops, 5 + n, j, PipelineSlot::FillStroke);
        } else {
            assert(j == 9 + 2 * n);
            lemma_pipeline_at_run(ops, 7 + 2 * n, j, PipelineSlot::FillInner);
        }
    }
}

proof fn lemma_fill_ops_pipelines<B>(c: Call<B>, paths: Seq<GpuPath>)
    requires
        c.path_range.start <= c.path_range.end <= paths.len(),
        c.call_type is Fill,
    ensures
        draws_use_updated_pipelines(spec_call_ops(c, paths), c.call_type),
{
    let ops = spec_call_ops(c, paths);
    let ps = call_paths(c, paths);
    let n = ps.len() as int;
    let fans = ps.map_values(|p: GpuPath| fan_draw(p));
    let strokes = ps.map_values(|p: GpuPath| stroke_draw(p));
    assert(fans.len() == n && strokes.len() == n);
    let t = c.call_type->Fill_0;
    let b = c.blend_func;
    let pre = seq![
        DrawOp::UpdatePipeline(PipelineUsage::FillStencil(t)),
        DrawOp::UpdatePipeline(PipelineUsage::FillStroke(b)),
        DrawOp::UpdatePipeline(PipelineUsage::FillInner(b)),
        DrawOp::SetPipeline(PipelineSlot::FillStencil),
        DrawOp::SetUniform(uniform_at(c, 0)),
    ];
    let mid = seq![DrawOp::SetPipeline(PipelineSlot::FillStroke), DrawOp::SetUniform(uniform_at(c, 1))];
    let post = seq![
        DrawOp::SetPipeline(PipelineSlot::FillInner),
        DrawOp::SetUniform(uniform_at(c, 1)),
        triangle_draw(c),
    ];
    assert(ops == pre + fans + mid + strokes + post);
    assert(ops.len() == 10 + 2 * n);
    assert forall|k: int| 0 <= k < 5 implies ops[k] == pre[k] by {}
    assert forall|k: int| 5 <= k < 5 + n implies (#[trigger] ops[k]) is DrawIndexed by {
        assert(ops[k] == fans[k - 5]);
    }
    assert forall|k: int| 5 + n <= k < 7 + n implies ops[k] == mid[k - 5 - n] by {}
    assert forall|k: int| 7 + n <= k < 7 + 2 * n implies (#[trigger] ops[k]) is Draw by {
        assert(ops[k] == strokes[k - 7 - n]);
    }
    assert forall|k: int| 7 + 2 * n <= k < 10 + 2 * n implies ops[k] == post[k - 7 - 2 * n] by {}
    lemma_fill_layout_pipelines(ops, n, c.call_type);
}

proof fn lemma_convex_fill_layout_pipelines(ops: Seq<DrawOp>, n: int, call_type: CallType)
    requires
        call_type is ConvexFill,
        n >= 0,
        ops.len() == 6 + 2 * n,
        ops[0] is UpdatePipeline && spec_pipeline_slot(ops[0]->UpdatePipeline_0) == PipelineSlot::FillConvex,
        ops[1] is UpdatePipeline && spec_pipeline_slot(ops[1]->UpdatePipeline_0) == PipelineSlot::FillStroke,
        ops[2] == DrawOp::SetPipeline(PipelineSlot::FillConvex),
        ops[3] is SetUniform,
        forall|k: int| 4 <= k < 4 + n ==> (#[trigger] ops[k]) is DrawIndexed,
        ops[4 + n] == DrawOp::SetPipeline(PipelineSlot::FillStroke),
        ops[5 + n] is SetUniform,
        forall|k: int| 6 + n <= k < 6 + 2 * n ==> (#[trigger] ops[k]) is Draw,
    ensures
        draws_use_updated_pipelines(ops, call_type),
{
    assert forall|j: int| 0 <= j < ops.len() && (#[trigger] ops[j]) is SetPipeline implies
        updated_before(ops, j, ops[j]->SetPipeline_0) by {
        if j == 2 {
            assert(ops[0] is UpdatePipeline);
        } else {
            if 4 <= j < 4 + n { assert(ops[j] is DrawIndexed); }
            if 6 + n <= j < 6 + 2 * n { assert(ops[j] is Draw); }
            assert(j == 4 + n);
            assert(ops[1] is UpdatePipeline);
        }
    }
    assert forall|j: int| 0 <= j < ops.len() && (#[trigger] ops[j]) is DrawIndexed implies
        pipeline_at(ops, j) == Some(PipelineSlot::FillConvex) by {
        if 6 + n <= j < 6 + 2 * n { assert(ops[j] is Draw); }
        assert(4 <= j < 4 + n);
        assert forall|k: int| 2 < k < j implies !((#[trigger] ops[k]) is SetPipeline) by {
            if k >= 4 { assert(ops[k] is DrawIndexed); }
        }
        lemma_pipeline_at_run(ops, 2, j, PipelineSlot::FillConvex);
    }
    assert forall|j: int| 0 <= j < ops.len() && (#[trigger] ops[j]) is Draw implies
        pipeline_at(ops, j) == Some(PipelineSlot::FillStroke) by {
        if 4 <= j < 4 + n { assert(ops[j] is DrawIndexed); }
        assert(6 + n <= j);
        assert forall|k: int| 4 + n < k < j implies !((#[trigger] ops[k]) is SetPipeline) by {
            if k >= 6 + n { assert(ops[k] is Draw); }
        }
        lemma_pipeline_at_run(ops, 4 + n, j, PipelineSlot::FillStroke);
    }
}

proof fn lemma_convex_fill_ops_pipelines<B>(c: Call<B>, paths: Seq<GpuPath>)
    requires
        c.path_range.start <= c.path_range.end <= paths.len(),
        c.call_type is ConvexFill,
    ensures
        draws_use_updated_pipelines(spec_call_ops(c, paths), c.call_type),
{
    let ops = spec_call_ops(c, paths);
    let ps = call_paths(c, paths);
    let n = ps.len() as int;
    let fans = ps.map_values(|p: GpuPath| fan_draw(p));
    let strokes = ps.map_values(|p: GpuPath| stroke_draw(p));
    assert(fans.len() == n && strokes.len() == n);
    let b = c.blend_func;
    let pre = seq![
        DrawOp::UpdatePipeline(PipelineUsage::FillConvex(b)),
        DrawOp::UpdatePipeline(PipelineUsage::FillStroke(b)),
        DrawOp::SetPipeline(PipelineSlot::FillConvex),
        DrawOp::SetUniform(uniform_at(c, 0)),
    ];
    let mid = seq![DrawOp::SetPipeline(PipelineSlot::FillStroke), DrawOp::SetUniform(uniform_at(c, 0))];
    assert(ops == pre + fans + mid + strokes);
    assert(ops.len() == 6 + 2 * n);
    assert forall|k: int| 0 <= k < 4 implies ops[k] == pre[k] by {}
    assert forall|k: int| 4 <= k < 4 + n implies (#[trigger] ops[k]) is DrawIndexed by {
        assert(ops[k] == fans[k - 4]);
    }
    assert forall|k: int| 4 + n <= k < 6 + n implies ops[k] == mid[k - 4 - n] by {}
    assert forall|k: int| 6 + n <= k < 6 + 2 * n implies (#[trigger] ops[k]) is Draw by {
        assert(ops[k] == strokes[k - 6 - n]);
    }
    lemma_convex_fill_layout_pipelines(ops, n, c.call_type);
}

proof fn lemma_triangles_ops_pipelines<B>(c: Call<B>, paths: Seq<GpuPath>)
    requires
        c.path_range.start <= c.path_range.end <= paths.len(),
        c.call_type is Triangles,
    ensures
        draws_use_updated_pipelines(spec_call_ops(c, paths), c.call_type),
{
    let ops = spec_call_ops(c, paths);
    let ps = call_paths(c, paths);
    let n = ps.len() as int;
    let fans = ps.map_values(|p: GpuPath| fan_draw(p));
    let strokes = ps.map_values(|p: GpuPath| stroke_draw(p));
    assert(fans.len() == n && strokes.len() == n);
    assert forall|k: int| 0 <= k < n implies (#[trigger] fans[k]) is DrawIndexed && (#[trigger] strokes[k]) is Draw by {}
    assert(ops.len() == 4);
    assert forall|j: int| 0 <= j < ops.len() && (#[trigger] ops[j]) is SetPipeline implies
        updated_before(ops, j, ops[j]->SetPipeline_0) by {
        assert(j == 1);
        assert(ops[0] is UpdatePipeline);
    }
    assert forall|j: int| 0 <= j < ops.len() && (#[trigger] ops[j]) is Draw implies
        pipeline_at(ops, j) == Some(PipelineSlot::Triangles) by {
        assert(j == 3);
        lemma_pipeline_at_run(ops, 1, j, PipelineSlot::Triangles);
    }
}

proof fn lemma_stroke_lines_ops_pipelines<B>(c: Call<B>, paths: Seq<GpuPath>)
    requires
        c.path_range.start <= c.path_range.end <= paths.len(),
        c.call_type is Stroke || c.call_type is Lines,
    ensures
        draws_use_updated_pipelines(spec_call_ops(c, paths), c.call_type),
{
    let ops = spec_call_ops(c, paths);
    let ps = call_paths(c, paths);
    let n = ps.len() as int;
    let fans = ps.map_values(|p: GpuPath| fan_draw(p));
    let strokes = ps.map_values(|p: GpuPath| stroke_draw(p));
    assert(fans.len() == n && strokes.len() == n);
    assert forall|k: int| 0 <= k < n implies (#[trigger] fans[k]) is DrawIndexed && (#[trigger] strokes[k]) is Draw by {}
    let b = c.blend_func;
    let pre = if c.call_type is Stroke {
        seq![
            DrawOp::UpdatePipeline(PipelineUsage::FillStroke(b)),
            DrawOp::SetPipeline(PipelineSlot::FillStroke),
            DrawOp::SetUniform(uniform_at(c, 0)),
        ]
    } else {
        seq![
            DrawOp::UpdatePipeline(PipelineUsage::Lines(b)),
            DrawOp::SetPipeline(PipelineSlot::Wirelines),
            DrawOp::SetUniform(uniform_at(c, 0)),
        ]
    };
    let s = pre[1]->SetPipeline_0;
    assert(ops == pre + strokes);
    assert forall|k: int| 0 <= k < 3 implies ops[k] == pre[k] by {}
    assert forall|k: int| 3 <= k < 3 + n implies ops[k] == strokes[k - 3] by {}
    assert(ops.len() == 3 + n);
    assert forall|j: int| 0 <= j < ops.len() && (#[trigger] ops[j]) is SetPipeline implies
        updated_before(ops, j, ops[j]->SetPipeline_0) by {
        if j >= 3 { assert(strokes[j - 3] is Draw); }
        assert(j == 1);
        assert(ops[0] is UpdatePipeline);
    }
    assert forall|j: int| 0 <= j < ops.len() && (#[trigger] ops[j]) is Draw implies
        pipeline_at(ops, j) == Some(s) by {
        assert(3 <= j);
        assert forall|k: int| 1 < k < j implies !((#[trigger] ops[k]) is SetPipeline) by {
            if k >= 3 { assert(strokes[k - 3] is Draw); }
        }
        lemma_pipeline_at_run(ops, 1, j, s);
    }
    assert forall|j: int| 0 <= j < ops.len() implies !((#[trigger] ops[j]) is DrawIndexed) by {
        if j >= 3 { assert(strokes[j - 3] is Draw); }
    }
}

/// Every pipeline that the steps of a call draw with is one whose usage the
/// call updated before it: each `SetPipeline` follows an `UpdatePipeline` of
/// a usage of that slot. The indexed fan draws are issued only by fills,
/// under the stencil pipeline of a stencil fill and the convex-fill pipeline
/// of a convex fill; every plain draw comes after some pipeline was set, and
/// never under either of those two.
pub proof fn lemma_call_ops_pipelines<B>(c: Call<B>, paths: Seq<GpuPath>)
    requires
        c.path_range.start <= c.path_range.end <= paths.len(),
    ensures
        draws_use_updated_pipelines(spec_call_ops(c, paths), c.call_type),
{
    match c.call_type {
        CallType::Fill(_) => lemma_fill_ops_pipelines(c, paths),
        CallType::ConvexFill => lemma_convex_fill_ops_pipelines(c, paths),
        CallType::Triangles => lemma_triangles_ops_pipelines(c, paths),
        _ => lemma_stroke_lines_ops_pipelines(c, paths),
    }
}

impl<B, U> RenderResource<B, U> {
    /// Whether call `i` can be drawn without overflow (see `call_renderable`).
    pub fn renderable(&self, i: usize) -> (r: bool)
        requires
            self.wf(),
            i < self.calls@.len(),
        ensures
            r == call_renderable(self.calls@[i as int], self.paths@),
    {
        let c = &self.calls[i];
        proof {
            assert(call_wf(self.calls@[i as int], self.paths@, self.uniforms@.len()));
        }
        let used: usize = match c.call_type {
            CallType::Fill(_) => 2,
            _ => 1,
        };
        let last = match c.uniform_offset.checked_add(used - 1) {
            Some(v) => v,
            None => return false,
        };
        if last.checked_mul(RENDER_COMMAND_SIZE).is_none() {
            return false;
        }
        let fan = match c.call_type {
            CallType::Fill(_) | CallType::ConvexFill => true,
            _ => false,
        };
        let triangles = match c.call_type {
            CallType::Triangles => true,
            _ => false,
        };
        let own_run = match c.call_type {
            CallType::Fill(_) | CallType::Triangles => true,
            _ => false,
        };
        if own_run && c.triangle.offset.checked_add(c.triangle.count).is_none() {
            return false;
        }
        let start = c.path_range.start;
        let end = c.path_range.end;
        let mut j = start;
        while j < end
            invariant
                start <= j <= end <= self.paths@.len(),
                start == c.path_range.start,
                end == c.path_range.end,
                c == self.calls@[i as int],
                call_wf(*c, self.paths@, self.uniforms@.len()),
                fan == (c.call_type is Fill || c.call_type is ConvexFill),
                triangles == (c.call_type is Triangles),
                fan ==> forall|k: int| start <= k < j ==>
                    (((#[trigger] self.paths@[k]).fill.count - 2) as u32) * 3 <= u32::MAX,
                !triangles ==> forall|k: int| start <= k < j ==>
                    (#[trigger] self.paths@[k]).stroke.offset + self.paths@[k].stroke.count <= usize::MAX,
            decreases end - j,
        {
            let p = &self.paths[j];
            if fan {
                assert(self.paths@[j as int].fill.count > 2);
                if ((p.fill.count - 2) as u32).checked_mul(3).is_none() {
                    return false;
                }
            }
            if !triangles && p.stroke.offset.checked_add(p.stroke.count).is_none() {
                return false;
            }
            j = j + 1;
        }
        true
    }

    /// The steps that draw call `i`: the pipelines it needs, then, for
    /// each pass, the pipeline, the uniform block and the draws.
    pub fn call_draw_ops(&self, i: usize) -> (ops: Vec<DrawOp>)
        requires
            self.wf(),
            i < self.calls@.len(),
            call_renderable(self.calls@[i as int], self.paths@),
        ensures
            ops@ == spec_call_ops(self.calls@[i as int], self.paths@),
            draws_use_updated_pipelines(ops@, self.calls@[i as int].call_type),
    {
        let c = &self.calls[i];
        proof {
            assert(call_wf(self.calls@[i as int], self.paths@, self.uniforms@.len()));
        }
        let start = c.path_range.start;
        let end = c.path_range.end;
        let b = c.blend_func;
        let mut ops: Vec<DrawOp> = Vec::new();
        match c.call_type {
            CallType::Fill(t) => {
                ops.push(DrawOp::UpdatePipeline(PipelineUsage::FillStencil(t)));
                ops.push(DrawOp::UpdatePipeline(PipelineUsage::FillStroke(b)));
                ops.push(DrawOp::UpdatePipeline(PipelineUsage::FillInner(b)));
                ops.push(DrawOp::SetPipeline(PipelineSlot::FillStencil));
                ops.push(DrawOp::SetUniform(c.uniform_offset(0)));
                push_fan_draws(&mut ops, &self.paths, start, end);
                ops.push(DrawOp::SetPipeline(PipelineSlot::FillStroke));
                ops.push(DrawOp::SetUniform(c.uniform_offset(1)));
                push_stroke_draws(&mut ops, &self.paths, start, end);
                ops.push(DrawOp::SetPipeline(PipelineSlot::FillInner));
                ops.push(DrawOp::SetUniform(c.uniform_offset(1)));
                ops.push(DrawOp::Draw(c.triangle_vert()));
            },
            CallType::ConvexFill => {
                ops.push(DrawOp::UpdatePipeline(PipelineUsage::FillConvex(b)));
                ops.push(DrawOp::UpdatePipeline(PipelineUsage::FillStroke(b)));
                ops.push(DrawOp::SetPipeline(PipelineSlot::FillConvex));
                ops.push(DrawOp::SetUniform(c.uniform_offset(0)));
                push_fan_draws(&mut ops, &self.paths, start, end);
                ops.push(DrawOp::SetPipeline(PipelineSlot::FillStroke));
                ops.push(DrawOp::SetUniform(c.uniform_offset(0)));
                push_stroke_draws(&mut ops, &self.paths, start, end);
            },
            CallType::Stroke => {
                ops.push(DrawOp::UpdatePipeline(PipelineUsage::FillStroke(b)));
                ops.push(DrawOp::SetPipeline(PipelineSlot::FillStroke));
                ops.push(DrawOp::SetUniform(c.uniform_offset(0)));
                push_stroke_draws(&mut ops, &self.paths, start, end);
            },
            CallType::Triangles => {
                ops.push(DrawOp::UpdatePipeline(PipelineUsage::Triangles(b)));
                ops.push(DrawOp::SetPipeline(PipelineSlot::Triangles));
                ops.push(DrawOp::SetUniform(c.uniform_offset(0)));
                ops.push(DrawOp::Draw(c.triangle_vert()));
            },
            CallType::Lines => {
                ops.push(DrawOp::UpdatePipeline(PipelineUsage::Lines(b)));
                ops.push(DrawOp::SetPipeline(PipelineSlot::Wirelines));
                ops.push(DrawOp::SetUniform(c.uniform_offset(0)));
                push_stroke_draws(&mut ops, &self.paths, start, end);
            },
        }
        assert(ops@ =~= spec_call_ops(self.calls@[i as int], self.paths@));
        proof {
            lemma_call_ops_pipelines(self.calls@[i as int], self.paths@);
        }
        ops
    }
}

} // verus!
