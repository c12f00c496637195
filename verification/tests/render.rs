use nvgx::call::{fill_fits, strokes_fit, CallType, GLSlice, GpuPath, RenderResource, RENDER_COMMAND_SIZE};
use nvgx::mesh::Mesh;
use nvgx::paint::{BlendFactor, CompositeOperationState, PathFillType};
use nvgx::path::{PathInfo, VertexSlice};
use nvgx::pipeline::{PipelineSlot, PipelineUsage};
use nvgx::render::DrawOp;

fn blend() -> CompositeOperationState {
    CompositeOperationState {
        src_rgb: BlendFactor::One,
        dst_rgb: BlendFactor::OneMinusSrcAlpha,
        src_alpha: BlendFactor::One,
        dst_alpha: BlendFactor::OneMinusSrcAlpha,
    }
}

fn slice(offset: usize, num_fill: usize, num_stroke: usize) -> PathInfo {
    PathInfo { offset, num_fill, num_stroke, ..PathInfo::default() }
}

fn resource() -> RenderResource<u8, u32> {
    RenderResource::new(Mesh::new(4))
}

#[test]
fn gpu_path_ranges() {
    let p = GpuPath { fill: VertexSlice { offset: 5, count: 7 }, stroke: VertexSlice { offset: 12, count: 4 } };
    assert_eq!(p.triangle_fan_offset(), 5);
    assert_eq!(p.triangle_fan_count(), 5);
    assert_eq!(p.stroke_vert(), 12..16);
}

#[test]
fn fill_keeps_paths_with_a_fan_and_grows_indices() {
    let mut r = resource();
    let paths = [slice(0, 5, 8), slice(13, 2, 4), slice(17, 3, 0)];
    let grew = r.fill(None, None, Some(1), blend(), PathFillType::EvenOdd, Some(20), &paths, 100, 200);
    // 8 fill vertices kept: the index list for 4 triangles (12 indices) grows to 24
    assert!(grew);
    assert_eq!(r.mesh.indices.len(), 24);
    assert_eq!(r.paths.len(), 2);
    assert_eq!(r.paths[0], GpuPath { fill: VertexSlice { offset: 0, count: 5 }, stroke: VertexSlice { offset: 5, count: 8 } });
    assert_eq!(r.paths[1], GpuPath { fill: VertexSlice { offset: 17, count: 3 }, stroke: VertexSlice { offset: 20, count: 0 } });
    assert_eq!(r.uniforms, vec![100, 200]);
    let c = &r.calls[0];
    assert_eq!(c.call_type, CallType::Fill(PathFillType::EvenOdd));
    assert_eq!(c.path_range, 0..2);
    assert_eq!(c.triangle, VertexSlice { offset: 20, count: 4 });
    assert_eq!(c.uniform_offset, 0);
    assert_eq!(c.image, Some(1));
    assert_eq!(c.uniform_offset(1), RENDER_COMMAND_SIZE as u32);
}

#[test]
fn convex_fill_uses_one_uniform() {
    let mut r = resource();
    r.triangles(None, None, None, blend(), VertexSlice { offset: 0, count: 6 }, 7);
    let grew = r.fill(Some(3), None, None, blend(), PathFillType::Winding, None, &[slice(6, 4, 10)], 1, 2);
    assert!(!grew);
    assert_eq!(r.uniforms, vec![7, 2]);
    let c = &r.calls[1];
    assert_eq!(c.call_type, CallType::ConvexFill);
    assert_eq!(c.triangle, VertexSlice::default());
    assert_eq!(c.uniform_offset, 1);
    assert_eq!(c.vertex_buffer, Some(3));
    assert_eq!(c.path_range, 0..1);
}

#[test]
fn stroke_and_lines_record_every_path() {
    let mut r = resource();
    r.stroke(None, None, None, blend(), &[slice(0, 0, 6), slice(6, 2, 1)], 11);
    r.wirelines(None, None, None, blend(), &[slice(9, 0, 3)], 12);
    assert_eq!(r.paths.len(), 3);
    assert_eq!(r.paths[1].stroke, VertexSlice { offset: 8, count: 1 });
    assert_eq!(r.paths[1].fill, VertexSlice::default());
    assert_eq!(r.calls[0].call_type, CallType::Stroke);
    assert_eq!(r.calls[0].path_range, 0..2);
    assert_eq!(r.calls[1].call_type, CallType::Lines);
    assert_eq!(r.calls[1].path_range, 2..3);
    assert_eq!(r.calls[1].uniform_offset, 1);
    r.cancel();
    assert!(r.calls.is_empty() && r.paths.is_empty() && r.uniforms.is_empty());
}

#[test]
fn draw_ops_of_a_stencil_fill() {
    let mut r = resource();
    r.fill(None, None, None, blend(), PathFillType::Winding, Some(30), &[slice(0, 6, 10), slice(16, 4, 10)], 1, 2);
    let ops = r.call_draw_ops(0);
    assert_eq!(ops.len(), 14);
    assert!(matches!(ops[0], DrawOp::UpdatePipeline(PipelineUsage::FillStencil(PathFillType::Winding))));
    assert!(matches!(ops[3], DrawOp::SetPipeline(PipelineSlot::FillStencil)));
    assert!(matches!(ops[4], DrawOp::SetUniform(0)));
    match &ops[5] {
        DrawOp::DrawIndexed { indices, base_vertex } => {
            assert_eq!(*indices, 0..12);
            assert_eq!(*base_vertex, 0);
        }
        _ => panic!("expected an indexed draw"),
    }
    match &ops[6] {
        DrawOp::DrawIndexed { indices, base_vertex } => {
            assert_eq!(*indices, 0..6);
            assert_eq!(*base_vertex, 16);
        }
        _ => panic!("expected an indexed draw"),
    }
    assert!(matches!(ops[8], DrawOp::SetUniform(256)));
    match &ops[9] {
        DrawOp::Draw(r) => assert_eq!(*r, 6..16),
        _ => panic!("expected a draw"),
    }
    assert!(matches!(ops[11], DrawOp::SetPipeline(PipelineSlot::FillInner)));
    match &ops[13] {
        DrawOp::Draw(r) => assert_eq!(*r, 30..34),
        _ => panic!("expected a draw"),
    }
}

#[test]
fn draw_ops_of_triangles_and_strokes() {
    let mut r = resource();
    r.triangles(None, None, Some(0), blend(), VertexSlice { offset: 4, count: 6 }, 0);
    r.stroke(None, None, None, blend(), &[slice(0, 0, 4)], 0);
    let t = r.call_draw_ops(0);
    assert_eq!(t.len(), 4);
    assert!(matches!(t[1], DrawOp::SetPipeline(PipelineSlot::Triangles)));
    match &t[3] {
        DrawOp::Draw(r) => assert_eq!(*r, 4..10),
        _ => panic!("expected a draw"),
    }
    let s = r.call_draw_ops(1);
    assert_eq!(s.len(), 4);
    assert!(matches!(s[2], DrawOp::SetUniform(256)));
    match &s[3] {
        DrawOp::Draw(r) => assert_eq!(*r, 0..4),
        _ => panic!("expected a draw"),
    }
}

#[test]
fn gl_slices() {
    assert_eq!(GLSlice::from_slice(VertexSlice { offset: 3, count: 9 }), GLSlice { offset: 3, count: 9 });
    assert_eq!(GLSlice::from_range(2..7), GLSlice { offset: 2, count: 5 });
    assert_eq!(GLSlice::from_range(7..2), GLSlice { offset: 7, count: 0 });
}

#[test]
fn recording_checks() {
    assert!(fill_fits(&[slice(0, 5, 8), slice(usize::MAX - 1, 2, 0)]));
    assert!(!fill_fits(&[slice(usize::MAX - 1, 3, 0)]));
    assert!(!fill_fits(&[slice(0, usize::MAX, 0), slice(0, 3, 0)]));
    assert!(strokes_fit(&[slice(0, 5, 8)]));
    assert!(!strokes_fit(&[slice(usize::MAX, 1, 8)]));
}

#[test]
fn recorded_calls_are_renderable() {
    let mut r = resource();
    r.fill(None, None, None, blend(), PathFillType::Winding, Some(9), &[slice(0, 5, 4)], 1, 2);
    r.stroke(None, None, None, blend(), &[slice(0, 5, 4)], 3);
    assert!(r.renderable(0));
    assert!(r.renderable(1));
    r.paths[1].stroke.offset = usize::MAX;
    assert!(!r.renderable(1));
}
