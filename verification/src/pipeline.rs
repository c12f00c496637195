use vstd::prelude::*;

use crate::paint::{CompositeOperationState, PathFillType};
use crate::texture::TextureType;
use crate::pipeline_cache::{Pipeline, PipelineBuilder, Recycled};

verus! {

/// What a render pipeline is used for, with the state it is built for.
#[derive(Debug, Clone, Copy, PartialEq, Eq, Hash, Structural)]
pub enum PipelineUsage {
    FillStencil(PathFillType),
    FillStroke(CompositeOperationState),
    FillInner(CompositeOperationState),
    FillConvex(CompositeOperationState),
    Triangles(CompositeOperationState),
    Lines(CompositeOperationState),
}

/// A render pipeline's configuration: target format and usage.
#[derive(Debug, Clone, Copy, PartialEq, Eq, Hash, Structural)]
pub struct PipelineConfig {
    pub format: TextureType,
    pub usage: PipelineUsage,
}

/// The slots of the pipeline manager: one current pipeline per usage.
#[derive(Debug, Clone, Copy, PartialEq, Eq, Structural)]
pub enum PipelineSlot {
    FillStencil,
    FillStroke,
    FillInner,
    FillConvex,
    Triangles,
    Wirelines,
}

/// The slot that holds the pipeline of a usage.
pub open spec fn spec_pipeline_slot(usage: PipelineUsage) -> PipelineSlot {
    match usage {
        PipelineUsage::FillStencil(_) => PipelineSlot::FillStencil,
        PipelineUsage::FillStroke(_) => PipelineSlot::FillStroke,
        PipelineUsage::FillInner(_) => PipelineSlot::FillInner,
        PipelineUsage::FillConvex(_) => PipelineSlot::FillConvex,
        PipelineUsage::Triangles(_) => PipelineSlot::Triangles,
        PipelineUsage::Lines(_) => PipelineSlot::Wirelines,
    }
}

/// The slot that holds the pipeline of a usage.
pub fn pipeline_slot(usage: &PipelineUsage) -> (r: PipelineSlot)
    ensures
        r == spec_pipeline_slot(*usage),
{
    match usage {
        PipelineUsage::FillStencil(_) => PipelineSlot::FillStencil,
        PipelineUsage::FillStroke(_) => PipelineSlot::FillStroke,
        PipelineUsage::FillInner(_) => PipelineSlot::FillInner,
        PipelineUsage::FillConvex(_) => PipelineSlot::FillConvex,
        PipelineUsage::Triangles(_) => PipelineSlot::Triangles,
        PipelineUsage::Lines(_) => PipelineSlot::Wirelines,
    }
}


/// The current pipeline of each slot, and the builder that made them.
pub struct PipelineManager {
    pub builder: PipelineBuilder,
    pub fill_stencil: Pipeline,
    pub fill_stroke: Pipeline,
    pub fill_inner: Pipeline,
    pub fill_convex: Pipeline,
    pub triangles: Pipeline,
    pub wirelines: Pipeline,
}

impl PipelineManager {
    /// The pipeline of a slot.
    pub open spec fn spec_pipeline(&self, slot: PipelineSlot) -> Pipeline {
        match slot {
            PipelineSlot::FillStencil => self.fill_stencil,
            PipelineSlot::FillStroke => self.fill_stroke,
            PipelineSlot::FillInner => self.fill_inner,
            PipelineSlot::FillConvex => self.fill_convex,
            PipelineSlot::Triangles => self.triangles,
            PipelineSlot::Wirelines => self.wirelines,
        }
    }

    /// The configuration of a slot.
    pub open spec fn spec_slot(&self, slot: PipelineSlot) -> PipelineConfig {
        self.spec_pipeline(slot).config
    }

    /// Every slot holds a pipeline of its own usage, built by the builder.
    pub open spec fn wf(&self) -> bool {
        &&& spec_pipeline_slot(self.fill_stencil.config.usage) == PipelineSlot::FillStencil
        &&& spec_pipeline_slot(self.fill_stroke.config.usage) == PipelineSlot::FillStroke
        &&& spec_pipeline_slot(self.fill_inner.config.usage) == PipelineSlot::FillInner
        &&& spec_pipeline_slot(self.fill_convex.config.usage) == PipelineSlot::FillConvex
        &&& spec_pipeline_slot(self.triangles.config.usage) == PipelineSlot::Triangles
        &&& spec_pipeline_slot(self.wirelines.config.usage) == PipelineSlot::Wirelines
        &&& self.builder.wf()
        &&& forall|s: PipelineSlot| self.builder.holds(#[trigger] self.spec_pipeline(s))
    }

    /// `m` is this manager after the slot of `config` was made to hold
    /// it, `changed` telling whether the slot held another configuration.
    pub open spec fn updated(self, m: PipelineManager, config: PipelineConfig, changed: bool) -> bool {
        &&& changed == (self.spec_slot(spec_pipeline_slot(config.usage)) != config)
        &&& m.spec_slot(spec_pipeline_slot(config.usage)) == config
        &&& forall|s: PipelineSlot| s != spec_pipeline_slot(config.usage)
            ==> #[trigger] m.spec_slot(s) == self.spec_slot(s)
    }

    /// `m` is this manager after a request for `config` with the outcome
    /// `r`: nothing changes when the slot already holds it; otherwise the
    /// builder swaps the slot's pipeline for one of `config`.
    pub open spec fn swapped(self, m: PipelineManager, config: PipelineConfig, r: Option<Recycled>) -> bool {
        let slot = spec_pipeline_slot(config.usage);
        &&& self.updated(m, config, r is Some)
        &&& match r {
            None => m == self,
            Some(rec) => {
                &&& self.builder.recycled(m.builder, config, self.spec_pipeline(slot), rec)
                &&& m.spec_pipeline(slot) == rec.pipeline
            },
        }
        &&& forall|s: PipelineSlot| s != slot ==> #[trigger] m.spec_pipeline(s) == self.spec_pipeline(s)
    }

    /// The initial pipelines, built under the handles 0 to 5: a
    /// nonzero-winding stencil fill and the other usages with the blend
    /// state `blend`, all for `format`.
    pub fn new(format: TextureType, blend: CompositeOperationState) -> (r: Self)
        ensures
            r.wf(),
            r.fill_stencil == (Pipeline { handle: 0, config: PipelineConfig { format, usage: PipelineUsage::FillStencil(PathFillType::Winding) } }),
            r.fill_stroke == (Pipeline { handle: 1, config: PipelineConfig { format, usage: PipelineUsage::FillStroke(blend) } }),
            r.fill_inner == (Pipeline { handle: 2, config: PipelineConfig { format, usage: PipelineUsage::FillInner(blend) } }),
            r.fill_convex == (Pipeline { handle: 3, config: PipelineConfig { format, usage: PipelineUsage::FillConvex(blend) } }),
            r.triangles == (Pipeline { handle: 4, config: PipelineConfig { format, usage: PipelineUsage::Triangles(blend) } }),
            r.wirelines == (Pipeline { handle: 5, config: PipelineConfig { format, usage: PipelineUsage::Lines(blend) } }),
            r.builder.built@.len() == 6,
            r.builder.idle().dom().is_empty(),
    {
        let mut builder = PipelineBuilder::new();
        let fill_stencil = builder.create(PipelineConfig { format, usage: PipelineUsage::FillStencil(PathFillType::Winding) });
        let fill_stroke = builder.create(PipelineConfig { format, usage: PipelineUsage::FillStroke(blend) });
        let fill_inner = builder.create(PipelineConfig { format, usage: PipelineUsage::FillInner(blend) });
        let fill_convex = builder.create(PipelineConfig { format, usage: PipelineUsage::FillConvex(blend) });
        let triangles = builder.create(PipelineConfig { format, usage: PipelineUsage::Triangles(blend) });
        let wirelines = builder.create(PipelineConfig { format, usage: PipelineUsage::Lines(blend) });
        let r = PipelineManager { builder, fill_stencil, fill_stroke, fill_inner, fill_convex, triangles, wirelines };
        assert forall|s: PipelineSlot| r.builder.holds(#[trigger] r.spec_pipeline(s)) by {
            assert(r.builder.built@[0] == fill_stencil.config);
        }
        r
    }

    /// The pipeline of a slot.
    pub fn pipeline(&self, slot: PipelineSlot) -> (r: Pipeline)
        ensures
            r == self.spec_pipeline(slot),
    {
        match slot {
            PipelineSlot::FillStencil => self.fill_stencil,
            PipelineSlot::FillStroke => self.fill_stroke,
            PipelineSlot::FillInner => self.fill_inner,
            PipelineSlot::FillConvex => self.fill_convex,
            PipelineSlot::Triangles => self.triangles,
            PipelineSlot::Wirelines => self.wirelines,
        }
    }

    /// The configuration of a slot.
    pub fn slot(&self, slot: PipelineSlot) -> (r: PipelineConfig)
        ensures
            r == self.spec_slot(slot),
    {
        self.pipeline(slot).config
    }

    fn set_pipeline(&mut self, slot: PipelineSlot, p: Pipeline)
        ensures
            final(self).builder == old(self).builder,
            final(self).spec_pipeline(slot) == p,
            forall|s: PipelineSlot| s != slot ==> #[trigger] final(self).spec_pipeline(s) == old(self).spec_pipeline(s),
    {
        match slot {
            PipelineSlot::FillStencil => self.fill_stencil = p,
            PipelineSlot::FillStroke => self.fill_stroke = p,
            PipelineSlot::FillInner => self.fill_inner = p,
            PipelineSlot::FillConvex => self.fill_convex = p,
            PipelineSlot::Triangles => self.triangles = p,
            PipelineSlot::Wirelines => self.wirelines = p,
        }
    }

    /// Makes the slot of the configuration's usage hold a pipeline of it.
    /// Returns `None` when the slot already did; otherwise the builder's
    /// outcome, which tells the backend whether to build the pipeline and
    /// which idle pipeline it may drop.
    pub fn update_pipeline(&mut self, config: PipelineConfig) -> (r: Option<Recycled>)
        requires
            old(self).wf(),
        ensures
            final(self).wf(),
            old(self).swapped(*final(self), config, r),
    {
        let slot = pipeline_slot(&config.usage);
        let current = self.pipeline(slot);
        if current.config == config {
            return None;
        }
        let rec = self.builder.update_pipeline(config, current);
        self.set_pipeline(slot, rec.pipeline);
        assert forall|s: PipelineSlot| self.builder.holds(#[trigger] self.spec_pipeline(s)) by {
            if s != slot {
                assert(old(self).builder.holds(old(self).spec_pipeline(s)));
            }
        }
        assert forall|s: PipelineSlot| spec_pipeline_slot((#[trigger] self.spec_pipeline(s)).config.usage) == s by {
            if s != slot {
                assert(self.spec_pipeline(s) == old(self).spec_pipeline(s));
                assert(spec_pipeline_slot(old(self).spec_pipeline(s).config.usage) == s);
            }
        }
        assert(self.spec_pipeline(PipelineSlot::FillStencil) == self.fill_stencil);
        assert(self.spec_pipeline(PipelineSlot::FillStroke) == self.fill_stroke);
        assert(self.spec_pipeline(PipelineSlot::FillInner) == self.fill_inner);
        assert(self.spec_pipeline(PipelineSlot::FillConvex) == self.fill_convex);
        assert(self.spec_pipeline(PipelineSlot::Triangles) == self.triangles);
        assert(self.spec_pipeline(PipelineSlot::Wirelines) == self.wirelines);
        Some(rec)
    }
}

/// Asking twice in a row for the same configuration rebuilds at most
/// once: the second request finds it in its slot and changes nothing.
pub proof fn lemma_update_pipeline_twice(
    m0: PipelineManager,
    m1: PipelineManager,
    m2: PipelineManager,
    config: PipelineConfig,
    c1: bool,
    c2: bool,
)
    requires
        m0.updated(m1, config, c1),
        m1.updated(m2, config, c2),
    ensures
        !c2,
        forall|s: PipelineSlot| #[trigger] m2.spec_slot(s) == m1.spec_slot(s),
{
}

/// Switching a slot to another configuration and back brings back the
/// pipeline it first held, without building anything the second time.
pub proof fn lemma_switch_back_reuses(
    m0: PipelineManager,
    m1: PipelineManager,
    m2: PipelineManager,
    config: PipelineConfig,
    r1: Option<Recycled>,
    r2: Option<Recycled>,
)
    requires
        m0.wf(),
        m0.spec_slot(spec_pipeline_slot(config.usage)) != config,
        m0.swapped(m1, config, r1),
        m1.swapped(m2, m0.spec_slot(spec_pipeline_slot(config.usage)), r2),
    ensures
        r1 is Some,
        r2 is Some,
        !r2->0.created,
        m2.spec_pipeline(spec_pipeline_slot(config.usage)) == m0.spec_pipeline(spec_pipeline_slot(config.usage)),
{
    let slot = spec_pipeline_slot(config.usage);
    let p0 = m0.spec_pipeline(slot);
    assert(spec_pipeline_slot(p0.config.usage) == slot);
    crate::pipeline_cache::lemma_swap_back_reuses(m0.builder, m1.builder, m2.builder, p0, config, r1->0, r2->0);
}

/// The stencil value that an update leaves in place of `v`.
pub open spec fn stencil_op_result(op: StencilOp, v: u8) -> u8 {
    match op {
        StencilOp::Keep => v,
        StencilOp::Zero => 0,
        StencilOp::Invert => (255 - v) as u8,
        StencilOp::IncrementWrap => ((v + 1) % 256) as u8,
        StencilOp::DecrementWrap => ((v + 255) % 256) as u8,
    }
}

/// A stored stencil value `v` passes the comparison against the
/// reference value 0 that every draw uses.
pub open spec fn stencil_passes(compare: CompareFn, v: u8) -> bool {
    match compare {
        CompareFn::Always => true,
        CompareFn::Equal => v == 0,
        CompareFn::NotEqual => v != 0,
    }
}

/// The stencil value after a fragment of a face meets the value `v`: the
/// fail update when the stencil test fails, the depth-fail update when the
/// depth test fails, the pass update otherwise.
pub open spec fn face_result(f: StencilFace, v: u8, depth_pass: bool) -> u8 {
    if !stencil_passes(f.compare, v) {
        stencil_op_result(f.fail_op, v)
    } else if !depth_pass {
        stencil_op_result(f.depth_fail_op, v)
    } else {
        stencil_op_result(f.pass_op, v)
    }
}

/// What the stencil state of each usage does to a pixel whose stencil
/// value is `v` (every pipeline's depth test always passes; the cover pass
/// clears the stencil even where it would fail):
/// - the stencil pass of a fill draws everywhere and counts windings with
///   the nonzero rule (front faces add one, back faces take one away,
///   wrapping) or flips every bit with the even-odd rule;
/// - the cover pass of a fill draws exactly where the stencil is not zero,
///   and leaves zero behind on every outcome, so the stencil is clear for
///   the next call;
/// - strokes and convex fills draw exactly where the stencil is zero, and
///   triangles and lines everywhere; none of them changes the stencil.
pub proof fn lemma_stencil_algorithm(config: PipelineConfig, v: u8, depth_pass: bool)
    ensures
        ({
            let s = config.spec_stencil_state();
            &&& config.usage == PipelineUsage::FillStencil(PathFillType::Winding) ==> {
                &&& stencil_passes(s.front.compare, v) && stencil_passes(s.back.compare, v)
                &&& depth_pass ==> face_result(s.front, v, depth_pass) == (v + 1) % 256
                &&& depth_pass ==> face_result(s.back, v, depth_pass) == (v + 255) % 256
            }
            &&& config.usage == PipelineUsage::FillStencil(PathFillType::EvenOdd) ==> {
                &&& stencil_passes(s.front.compare, v) && stencil_passes(s.back.compare, v)
                &&& depth_pass ==> face_result(s.front, v, depth_pass) == 255 - v
                &&& depth_pass ==> face_result(s.back, v, depth_pass) == 255 - v
            }
            &&& config.usage is FillInner ==> {
                &&& stencil_passes(s.front.compare, v) == (v != 0)
                &&& face_result(s.front, v, depth_pass) == 0
            }
            &&& (config.usage is FillStroke || config.usage is FillConvex) ==> {
                &&& stencil_passes(s.front.compare, v) == (v == 0)
                &&& face_result(s.front, v, depth_pass) == v
            }
            &&& (config.usage is Triangles || config.usage is Lines) ==> {
                &&& stencil_passes(s.front.compare, v) && stencil_passes(s.back.compare, v)
                &&& face_result(s.front, v, depth_pass) == v
                &&& face_result(s.back, v, depth_pass) == v
            }
        }),
{
    let s = config.spec_stencil_state();
    match config.usage {
        PipelineUsage::FillStencil(PathFillType::Winding) => {
            assert(s.front == stencil_always(StencilOp::IncrementWrap));
            assert(s.back == stencil_always(StencilOp::DecrementWrap));
            assert(((v + 1) % 256) as u8 == (v + 1) % 256);
            assert(((v + 255) % 256) as u8 == (v + 255) % 256);
        },
        PipelineUsage::FillStencil(PathFillType::EvenOdd) => {
            assert(s.front == stencil_always(StencilOp::Invert));
            assert(s.back == stencil_always(StencilOp::Invert));
        },
        _ => {},
    }
}

/// Primitive assembly of a pipeline.
#[derive(Debug, Clone, Copy, PartialEq, Eq, Structural)]
pub enum Topology {
    TriangleList,
    TriangleStrip,
    LineStrip,
}

/// How a pipeline assembles and rasterises primitives.
#[derive(Debug, Clone, Copy, PartialEq, Eq, Structural)]
pub struct PrimitiveDesc {
    pub topology: Topology,
    /// Back faces are culled.
    pub cull_back: bool,
    /// Polygons are drawn as lines.
    pub polygon_line: bool,
}

/// Stencil comparison.
#[derive(Debug, Clone, Copy, PartialEq, Eq, Structural)]
pub enum CompareFn {
    Always,
    Equal,
    NotEqual,
}

/// Stencil update.
#[derive(Debug, Clone, Copy, PartialEq, Eq, Structural)]
pub enum StencilOp {
    Keep,
    Zero,
    Invert,
    IncrementWrap,
    DecrementWrap,
}

/// Stencil test and updates of one face.
#[derive(Debug, Clone, Copy, PartialEq, Eq, Structural)]
pub struct StencilFace {
    pub compare: CompareFn,
    pub pass_op: StencilOp,
    pub fail_op: StencilOp,
    pub depth_fail_op: StencilOp,
}

/// Stencil state of a pipeline; read and write masks are always 0xff.
#[derive(Debug, Clone, Copy, PartialEq, Eq, Structural)]
pub struct StencilDesc {
    pub front: StencilFace,
    pub back: StencilFace,
}

/// Colour output of a pipeline.
#[derive(Debug, Clone, Copy, PartialEq, Eq, Structural)]
pub struct ColorTargetDesc {
    pub format: TextureType,
    /// Blend state, none for a pipeline that writes no colour.
    pub blend: Option<CompositeOperationState>,
    /// Whether colour is written at all.
    pub write_all: bool,
}

/// A face that passes always and changes nothing.
pub open spec fn stencil_ignore() -> StencilFace {
    StencilFace { compare: CompareFn::Always, pass_op: StencilOp::Keep, fail_op: StencilOp::Keep, depth_fail_op: StencilOp::Keep }
}

/// A face that passes always, keeps on failure and applies `pass_op`.
pub open spec fn stencil_always(pass_op: StencilOp) -> StencilFace {
    StencilFace { compare: CompareFn::Always, pass_op, fail_op: StencilOp::Keep, depth_fail_op: StencilOp::Keep }
}

fn face(compare: CompareFn, pass_op: StencilOp, fail_op: StencilOp, depth_fail_op: StencilOp) -> (r: StencilFace)
    ensures
        r == (StencilFace { compare, pass_op, fail_op, depth_fail_op }),
{
    StencilFace { compare, pass_op, fail_op, depth_fail_op }
}

impl PipelineConfig {
    pub open spec fn spec_primitive(&self) -> PrimitiveDesc {
        match self.usage {
            PipelineUsage::FillStencil(_) | PipelineUsage::FillConvex(_) | PipelineUsage::Triangles(_) =>
                PrimitiveDesc { topology: Topology::TriangleList, cull_back: false, polygon_line: false },
            PipelineUsage::FillStroke(_) | PipelineUsage::FillInner(_) =>
                PrimitiveDesc { topology: Topology::TriangleStrip, cull_back: true, polygon_line: false },
            PipelineUsage::Lines(_) =>
                PrimitiveDesc { topology: Topology::LineStrip, cull_back: false, polygon_line: true },
        }
    }

    /// Triangle lists for stencil, convex and triangle draws, culled
    /// triangle strips for strokes and fill covers, line strips for lines.
    pub fn primitive(&self) -> (r: PrimitiveDesc)
        ensures
            r == self.spec_primitive(),
    {
        match self.usage {
            PipelineUsage::FillStencil(_) | PipelineUsage::FillConvex(_) | PipelineUsage::Triangles(_) =>
                PrimitiveDesc { topology: Topology::TriangleList, cull_back: false, polygon_line: false },
            PipelineUsage::FillStroke(_) | PipelineUsage::FillInner(_) =>
                PrimitiveDesc { topology: Topology::TriangleStrip, cull_back: true, polygon_line: false },
            PipelineUsage::Lines(_) =>
                PrimitiveDesc { topology: Topology::LineStrip, cull_back: false, polygon_line: true },
        }
    }

    pub open spec fn spec_stencil_state(&self) -> StencilDesc {
        match self.usage {
            PipelineUsage::FillStencil(PathFillType::Winding) => StencilDesc {
                front: stencil_always(StencilOp::IncrementWrap),
                back: stencil_always(StencilOp::DecrementWrap),
            },
            PipelineUsage::FillStencil(PathFillType::EvenOdd) => StencilDesc {
                front: stencil_always(StencilOp::Invert),
                back: stencil_always(StencilOp::Invert),
            },
            PipelineUsage::FillStroke(_) | PipelineUsage::FillConvex(_) => StencilDesc {
                front: StencilFace {
                    compare: CompareFn::Equal,
                    pass_op: StencilOp::Keep,
                    fail_op: StencilOp::Keep,
                    depth_fail_op: StencilOp::Keep,
                },
                back: stencil_ignore(),
            },
            PipelineUsage::FillInner(_) => StencilDesc {
                front: StencilFace {
                    compare: CompareFn::NotEqual,
                    pass_op: StencilOp::Zero,
                    fail_op: StencilOp::Zero,
                    depth_fail_op: StencilOp::Zero,
                },
                back: stencil_ignore(),
            },
            PipelineUsage::Triangles(_) | PipelineUsage::Lines(_) => StencilDesc {
                front: stencil_ignore(),
                back: stencil_ignore(),
            },
        }
    }

    /// The stencil algorithm of fills: the stencil pass counts windings
    /// (nonzero rule) or flips a bit (even-odd rule) per covered pixel;
    /// strokes and convex fills draw where the stencil is zero; the cover
    /// pass draws where it is not and clears it.
    pub fn stencil_state(&self) -> (r: StencilDesc)
        ensures
            r == self.spec_stencil_state(),
    {
        let keep = StencilOp::Keep;
        let ignore = face(CompareFn::Always, keep, keep, keep);
        match self.usage {
            PipelineUsage::FillStencil(PathFillType::Winding) => StencilDesc {
                front: face(CompareFn::Always, StencilOp::IncrementWrap, keep, keep),
                back: face(CompareFn::Always, StencilOp::DecrementWrap, keep, keep),
            },
            PipelineUsage::FillStencil(PathFillType::EvenOdd) => StencilDesc {
                front: face(CompareFn::Always, StencilOp::Invert, keep, keep),
                back: face(CompareFn::Always, StencilOp::Invert, keep, keep),
            },
            PipelineUsage::FillStroke(_) | PipelineUsage::FillConvex(_) => StencilDesc {
                front: face(CompareFn::Equal, keep, keep, keep),
                back: ignore,
            },
            PipelineUsage::FillInner(_) => StencilDesc {
                front: face(CompareFn::NotEqual, StencilOp::Zero, StencilOp::Zero, StencilOp::Zero),
                back: ignore,
            },
            PipelineUsage::Triangles(_) | PipelineUsage::Lines(_) => StencilDesc { front: ignore, back: ignore },
        }
    }

    pub open spec fn spec_fragment_target(&self) -> ColorTargetDesc {
        match self.usage {
            PipelineUsage::FillStencil(_) => ColorTargetDesc { format: self.format, blend: None, write_all: false },
            PipelineUsage::FillStroke(b) | PipelineUsage::FillInner(b) | PipelineUsage::FillConvex(b)
            | PipelineUsage::Triangles(b) | PipelineUsage::Lines(b) =>
                ColorTargetDesc { format: self.format, blend: Some(b), write_all: true },
        }
    }

    /// The colour target: the stencil pass writes no colour, the others
    /// blend with their blend state. Render targets are colour formats.
    pub fn fragment_target(&self) -> (r: ColorTargetDesc)
        requires
            self.format != TextureType::Alpha,
        ensures
            r == self.spec_fragment_target(),
    {
        match self.usage {
            PipelineUsage::FillStencil(_) => ColorTargetDesc { format: self.format, blend: None, write_all: false },
            PipelineUsage::FillStroke(b) | PipelineUsage::FillInner(b) | PipelineUsage::FillConvex(b)
            | PipelineUsage::Triangles(b) | PipelineUsage::Lines(b) =>
                ColorTargetDesc { format: self.format, blend: Some(b), write_all: true },
        }
    }
}

} // verus!
