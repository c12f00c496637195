use nvgx::paint::{BlendFactor, CompositeOperationState, PathFillType};
use nvgx::pipeline::{
    pipeline_slot, CompareFn, PipelineConfig, PipelineManager, PipelineSlot, PipelineUsage, StencilOp, Topology,
};
use nvgx::pipeline_cache::{pipeline_key, Pipeline, PipelineBuilder};
use nvgx::texture::TextureType;

fn blend(src: BlendFactor) -> CompositeOperationState {
    CompositeOperationState { src_rgb: src, dst_rgb: BlendFactor::Zero, src_alpha: src, dst_alpha: BlendFactor::Zero }
}

#[test]
fn slots_of_usages() {
    let b = blend(BlendFactor::One);
    assert_eq!(pipeline_slot(&PipelineUsage::FillStencil(PathFillType::EvenOdd)), PipelineSlot::FillStencil);
    assert_eq!(pipeline_slot(&PipelineUsage::FillInner(b)), PipelineSlot::FillInner);
    assert_eq!(pipeline_slot(&PipelineUsage::Lines(b)), PipelineSlot::Wirelines);
}

#[test]
fn manager_swaps_only_on_change() {
    let b = blend(BlendFactor::One);
    let mut m = PipelineManager::new(TextureType::RGBA, b);
    let stencil = PipelineConfig { format: TextureType::RGBA, usage: PipelineUsage::FillStencil(PathFillType::Winding) };
    assert_eq!(m.slot(PipelineSlot::FillStencil), stencil);
    assert!(m.update_pipeline(stencil).is_none());
    let even = PipelineConfig { format: TextureType::RGBA, usage: PipelineUsage::FillStencil(PathFillType::EvenOdd) };
    assert!(m.update_pipeline(even).is_some());
    assert!(m.update_pipeline(even).is_none());
    assert_eq!(m.slot(PipelineSlot::FillStencil), even);
    let other = PipelineConfig { format: TextureType::RGBA, usage: PipelineUsage::Triangles(blend(BlendFactor::SrcAlpha)) };
    assert!(m.update_pipeline(other).is_some());
    assert_eq!(m.slot(PipelineSlot::Triangles), other);
    assert_eq!(m.slot(PipelineSlot::FillStroke).usage, PipelineUsage::FillStroke(b));
}

#[test]
fn stencil_fill_algorithm() {
    let b = blend(BlendFactor::One);
    let nonzero = PipelineConfig { format: TextureType::BGRA, usage: PipelineUsage::FillStencil(PathFillType::Winding) };
    let s = nonzero.stencil_state();
    assert_eq!(s.front.pass_op, StencilOp::IncrementWrap);
    assert_eq!(s.back.pass_op, StencilOp::DecrementWrap);
    let evenodd = PipelineConfig { format: TextureType::BGRA, usage: PipelineUsage::FillStencil(PathFillType::EvenOdd) };
    assert_eq!(evenodd.stencil_state().front.pass_op, StencilOp::Invert);
    let inner = PipelineConfig { format: TextureType::BGRA, usage: PipelineUsage::FillInner(b) };
    let s = inner.stencil_state();
    assert_eq!(s.front.compare, CompareFn::NotEqual);
    assert_eq!(s.front.fail_op, StencilOp::Zero);
    assert_eq!(s.back.compare, CompareFn::Always);
    let stroke = PipelineConfig { format: TextureType::BGRA, usage: PipelineUsage::FillStroke(b) };
    assert_eq!(stroke.stencil_state().front.compare, CompareFn::Equal);
    assert_eq!(stroke.primitive().topology, Topology::TriangleStrip);
    assert!(stroke.primitive().cull_back);
    let lines = PipelineConfig { format: TextureType::BGRA, usage: PipelineUsage::Lines(b) };
    assert!(lines.primitive().polygon_line);
    assert_eq!(lines.primitive().topology, Topology::LineStrip);
    assert_eq!(nonzero.primitive().topology, Topology::TriangleList);
}

#[test]
fn fragment_targets() {
    let b = blend(BlendFactor::DstColor);
    let stencil = PipelineConfig { format: TextureType::RGBA, usage: PipelineUsage::FillStencil(PathFillType::Winding) };
    let t = stencil.fragment_target();
    assert_eq!(t.blend, None);
    assert!(!t.write_all);
    let convex = PipelineConfig { format: TextureType::RGBA, usage: PipelineUsage::FillConvex(b) };
    let t = convex.fragment_target();
    assert_eq!(t.blend, Some(b));
    assert!(t.write_all);
    assert_eq!(t.format, TextureType::RGBA);
}

#[test]
fn manager_builds_initial_pipelines_in_order() {
    let b = blend(BlendFactor::One);
    let m = PipelineManager::new(TextureType::BGRA, b);
    assert_eq!(m.pipeline(PipelineSlot::FillStencil).handle, 0);
    assert_eq!(m.pipeline(PipelineSlot::Wirelines).handle, 5);
    assert_eq!(m.builder.built.len(), 6);
    assert_eq!(m.builder.built[3].usage, PipelineUsage::FillConvex(b));
}

#[test]
fn switching_back_reuses_the_first_pipeline() {
    let b = blend(BlendFactor::One);
    let mut m = PipelineManager::new(TextureType::RGBA, b);
    let first = m.pipeline(PipelineSlot::FillStencil);
    let even = PipelineConfig { format: TextureType::RGBA, usage: PipelineUsage::FillStencil(PathFillType::EvenOdd) };
    let r1 = m.update_pipeline(even).unwrap();
    assert!(r1.created);
    assert_eq!(r1.pipeline, Pipeline { handle: 6, config: even });
    assert_eq!(r1.displaced, None);
    let r2 = m.update_pipeline(first.config).unwrap();
    assert!(!r2.created);
    assert_eq!(r2.pipeline, first);
    assert_eq!(m.pipeline(PipelineSlot::FillStencil), first);
    let r3 = m.update_pipeline(even).unwrap();
    assert!(!r3.created);
    assert_eq!(r3.pipeline.handle, 6);
    assert_eq!(m.builder.built.len(), 7);
}

#[test]
fn builder_reports_displaced_pipeline() {
    let b = blend(BlendFactor::One);
    let c1 = PipelineConfig { format: TextureType::RGBA, usage: PipelineUsage::Lines(b) };
    let c2 = PipelineConfig { format: TextureType::RGBA, usage: PipelineUsage::Lines(blend(BlendFactor::Zero)) };
    let mut builder = PipelineBuilder::new();
    let p1 = builder.create(c1);
    let p1_again = builder.create(c1);
    let r = builder.update_pipeline(c2, p1);
    assert!(r.created);
    assert_eq!(r.displaced, None);
    let r = builder.update_pipeline(c2, p1_again);
    assert!(r.created);
    assert_eq!(r.displaced, Some(p1.handle));
}

#[test]
fn pipeline_keys_tell_configurations_apart() {
    let a = PipelineConfig { format: TextureType::RGBA, usage: PipelineUsage::FillInner(blend(BlendFactor::One)) };
    let c = PipelineConfig { format: TextureType::RGBA, usage: PipelineUsage::FillConvex(blend(BlendFactor::One)) };
    assert_ne!(pipeline_key(&a), pipeline_key(&c));
    assert_eq!(pipeline_key(&a), (0, 2, 1, 0, 1, 0));
    let s = PipelineConfig { format: TextureType::Alpha, usage: PipelineUsage::FillStencil(PathFillType::EvenOdd) };
    assert_eq!(pipeline_key(&s), (2, 0, 1, 0, 0, 0));
}
