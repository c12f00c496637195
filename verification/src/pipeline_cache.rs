use vstd::prelude::*;

use indexmap::IndexMap;

use crate::paint::{BlendFactor, CompositeOperationState, PathFillType};
use crate::pipeline::{PipelineConfig, PipelineUsage};
use crate::texture::TextureType;

verus! {

/// Key of a pipeline configuration among the idle pipelines: the target
/// format, the kind of usage, then the fill rule (stencil fills) or the
/// four blend factors (the other usages), each as a small number.
pub type PipelineKey = (u8, u8, u8, u8, u8, u8);

pub open spec fn spec_format_code(t: TextureType) -> u8 {
    match t {
        TextureType::RGBA => 0,
        TextureType::BGRA => 1,
        TextureType::Alpha => 2,
    }
}

pub open spec fn format_of(n: u8) -> TextureType {
    if n == 0 {
        TextureType::RGBA
    } else if n == 1 {
        TextureType::BGRA
    } else {
        TextureType::Alpha
    }
}

pub open spec fn spec_fill_code(t: PathFillType) -> u8 {
    match t {
        PathFillType::Winding => 0,
        PathFillType::EvenOdd => 1,
    }
}

pub open spec fn fill_of(n: u8) -> PathFillType {
    if n == 0 { PathFillType::Winding } else { PathFillType::EvenOdd }
}

pub open spec fn spec_factor_code(f: BlendFactor) -> u8 {
    match f {
        BlendFactor::Zero => 0,
        BlendFactor::One => 1,
        BlendFactor::SrcColor => 2,
        BlendFactor::OneMinusSrcColor => 3,
        BlendFactor::DstColor => 4,
        BlendFactor::OneMinusDstColor => 5,
        BlendFactor::SrcAlpha => 6,
        BlendFactor::OneMinusSrcAlpha => 7,
        BlendFactor::DstAlpha => 8,
        BlendFactor::OneMinusDstAlpha => 9,
        BlendFactor::SrcAlphaSaturate => 10,
    }
}

pub open spec fn factor_of(n: u8) -> BlendFactor {
    if n == 0 {
        BlendFactor::Zero
    } else if n == 1 {
        BlendFactor::One
    } else if n == 2 {
        BlendFactor::SrcColor
    } else if n == 3 {
        BlendFactor::OneMinusSrcColor
    } else if n == 4 {
        BlendFactor::DstColor
    } else if n == 5 {
        BlendFactor::OneMinusDstColor
    } else if n == 6 {
        BlendFactor::SrcAlpha
    } else if n == 7 {
        BlendFactor::OneMinusSrcAlpha
    } else if n == 8 {
        BlendFactor::DstAlpha
    } else if n == 9 {
        BlendFactor::OneMinusDstAlpha
    } else {
        BlendFactor::SrcAlphaSaturate
    }
}

/// The key of a usage kind with the blend state `b`.
pub open spec fn blend_key(format: u8, kind: u8, b: CompositeOperationState) -> PipelineKey {
    (
        format,
        kind,
        spec_factor_code(b.src_rgb),
        spec_factor_code(b.dst_rgb),
        spec_factor_code(b.src_alpha),
        spec_factor_code(b.dst_alpha),
    )
}

/// The key of a pipeline configuration.
pub open spec fn spec_pipeline_key(c: PipelineConfig) -> PipelineKey {
    let f = spec_format_code(c.format);
    match c.usage {
        PipelineUsage::FillStencil(t) => (f, 0, spec_fill_code(t), 0, 0, 0),
        PipelineUsage::FillStroke(b) => blend_key(f, 1, b),
        PipelineUsage::FillInner(b) => blend_key(f, 2, b),
        PipelineUsage::FillConvex(b) => blend_key(f, 3, b),
        PipelineUsage::Triangles(b) => blend_key(f, 4, b),
        PipelineUsage::Lines(b) => blend_key(f, 5, b),
    }
}

/// The configuration that a key stands for.
pub open spec fn config_of(k: PipelineKey) -> PipelineConfig {
    let b = CompositeOperationState {
        src_rgb: factor_of(k.2),
        dst_rgb: factor_of(k.3),
        src_alpha: factor_of(k.4),
        dst_alpha: factor_of(k.5),
    };
    PipelineConfig {
        format: format_of(k.0),
        usage: if k.1 == 0 {
            PipelineUsage::FillStencil(fill_of(k.2))
        } else if k.1 == 1 {
            PipelineUsage::FillStroke(b)
        } else if k.1 == 2 {
            PipelineUsage::FillInner(b)
        } else if k.1 == 3 {
            PipelineUsage::FillConvex(b)
        } else if k.1 == 4 {
            PipelineUsage::Triangles(b)
        } else {
            PipelineUsage::Lines(b)
        },
    }
}

proof fn lemma_factor_roundtrip(f: BlendFactor)
    ensures
        factor_of(spec_factor_code(f)) == f,
{
    match f {
        BlendFactor::Zero => {},
        BlendFactor::One => {},
        BlendFactor::SrcColor => {},
        BlendFactor::OneMinusSrcColor => {},
        BlendFactor::DstColor => {},
        BlendFactor::OneMinusDstColor => {},
        BlendFactor::SrcAlpha => {},
        BlendFactor::OneMinusSrcAlpha => {},
        BlendFactor::DstAlpha => {},
        BlendFactor::OneMinusDstAlpha => {},
        BlendFactor::SrcAlphaSaturate => {},
    }
}

proof fn lemma_key_roundtrip(c: PipelineConfig)
    ensures
        config_of(spec_pipeline_key(c)) == c,
{
    match c.usage {
        PipelineUsage::FillStencil(_) => {},
        PipelineUsage::FillStroke(b) | PipelineUsage::FillInner(b) | PipelineUsage::FillConvex(b)
        | PipelineUsage::Triangles(b) | PipelineUsage::Lines(b) => {
            lemma_factor_roundtrip(b.src_rgb);
            lemma_factor_roundtrip(b.dst_rgb);
            lemma_factor_roundtrip(b.src_alpha);
            lemma_factor_roundtrip(b.dst_alpha);
        },
    }
}

/// Distinct configurations have distinct keys.
pub proof fn lemma_key_injective(a: PipelineConfig, b: PipelineConfig)
    requires
        spec_pipeline_key(a) == spec_pipeline_key(b),
    ensures
        a == b,
{
    lemma_key_roundtrip(a);
    lemma_key_roundtrip(b);
}

fn factor_code(f: BlendFactor) -> (r: u8)
    ensures
        r == spec_factor_code(f),
{
    match f {
        BlendFactor::Zero => 0,
        BlendFactor::One => 1,
        BlendFactor::SrcColor => 2,
        BlendFactor::OneMinusSrcColor => 3,
        BlendFactor::DstColor => 4,
        BlendFactor::OneMinusDstColor => 5,
        BlendFactor::SrcAlpha => 6,
        BlendFactor::OneMinusSrcAlpha => 7,
        BlendFactor::DstAlpha => 8,
        BlendFactor::OneMinusDstAlpha => 9,
        BlendFactor::SrcAlphaSaturate => 10,
    }
}

fn exec_blend_key(format: u8, kind: u8, b: CompositeOperationState) -> (r: PipelineKey)
    ensures
        r == blend_key(format, kind, b),
{
    (format, kind, factor_code(b.src_rgb), factor_code(b.dst_rgb), factor_code(b.src_alpha), factor_code(b.dst_alpha))
}

/// The key of a pipeline configuration.
pub fn pipeline_key(c: &PipelineConfig) -> (r: PipelineKey)
    ensures
        r == spec_pipeline_key(*c),
{
    let f: u8 = match c.format {
        TextureType::RGBA => 0,
        TextureType::BGRA => 1,
        TextureType::Alpha => 2,
    };
    match c.usage {
        PipelineUsage::FillStencil(t) => {
            let t: u8 = match t {
                PathFillType::Winding => 0,
                PathFillType::EvenOdd => 1,
            };
            (f, 0, t, 0, 0, 0)
        },
        PipelineUsage::FillStroke(b) => exec_blend_key(f, 1, b),
        PipelineUsage::FillInner(b) => exec_blend_key(f, 2, b),
        PipelineUsage::FillConvex(b) => exec_blend_key(f, 3, b),
        PipelineUsage::Triangles(b) => exec_blend_key(f, 4, b),
        PipelineUsage::Lines(b) => exec_blend_key(f, 5, b),
    }
}

#[verifier::external_type_specification]
#[verifier::external_body]
#[verifier::reject_recursive_types(K)]
#[verifier::reject_recursive_types(V)]
#[verifier::reject_recursive_types(S)]
pub struct ExIndexMap<K, V, S>(IndexMap<K, V, S>);

/// The idle pipelines of a cache: the handle kept under each key.
pub uninterp spec fn idle_pipelines(m: IndexMap<PipelineKey, usize>) -> Map<PipelineKey, usize>;

/// `IndexMap::new`: a map with no entry.
#[verifier::external_body]
fn cache_new() -> (r: IndexMap<PipelineKey, usize>)
    ensures
        idle_pipelines(r).dom().is_empty(),
{
    IndexMap::new()
}

/// `IndexMap::shift_remove`: takes the value kept under the key out of the
/// map, if there is one.
#[verifier::external_body]
fn cache_shift_remove(m: &mut IndexMap<PipelineKey, usize>, key: PipelineKey) -> (r: Option<usize>)
    ensures
        r == if idle_pipelines(*old(m)).dom().contains(key) {
            Some(idle_pipelines(*old(m))[key])
        } else {
            None
        },
        idle_pipelines(*final(m)) == idle_pipelines(*old(m)).remove(key),
{
    m.shift_remove(&key)
}

/// `IndexMap::insert`: keeps the value under the key, and returns the value
/// that the key held before, if any.
#[verifier::external_body]
fn cache_insert(m: &mut IndexMap<PipelineKey, usize>, key: PipelineKey, value: usize) -> (r: Option<usize>)
    ensures
        r == if idle_pipelines(*old(m)).dom().contains(key) {
            Some(idle_pipelines(*old(m))[key])
        } else {
            None
        },
        idle_pipelines(*final(m)) == idle_pipelines(*old(m)).insert(key, value),
{
    m.insert(key, value)
}

/// A built pipeline: the handle under which the backend keeps it, and the
/// configuration it was built for.
#[derive(Debug, Clone, Copy, PartialEq, Eq, Structural)]
pub struct Pipeline {
    pub handle: usize,
    pub config: PipelineConfig,
}

/// The outcome of asking the builder for a pipeline in place of another:
/// the pipeline to use, whether it has to be built now (under its handle),
/// and the handle of an idle pipeline that the swapped-out one displaced,
/// which can be dropped.
#[derive(Debug, Clone, Copy, PartialEq, Eq, Structural)]
pub struct Recycled {
    pub pipeline: Pipeline,
    pub created: bool,
    pub displaced: Option<usize>,
}

/// The pipelines built so far, by handle, and the idle ones, by the key of
/// their configuration.
pub struct PipelineBuilder {
    pub built: Vec<PipelineConfig>,
    pub cache: IndexMap<PipelineKey, usize>,
}

impl PipelineBuilder {
    /// The idle pipelines, by key.
    pub open spec fn idle(&self) -> Map<PipelineKey, usize> {
        idle_pipelines(self.cache)
    }

    /// Every idle pipeline was built, for the configuration of its key.
    pub open spec fn wf(&self) -> bool {
        forall|k: PipelineKey| #[trigger] self.idle().dom().contains(k) ==> {
            &&& self.idle()[k] < self.built@.len()
            &&& spec_pipeline_key(self.built@[self.idle()[k] as int]) == k
        }
    }

    /// `p` was built for its configuration.
    pub open spec fn holds(&self, p: Pipeline) -> bool {
        &&& p.handle < self.built@.len()
        &&& self.built@[p.handle as int] == p.config
    }

    /// `b` is this builder after `current` was swapped for a pipeline of
    /// `config`, with the outcome `r`: the idle pipeline of that
    /// configuration is taken out of the cache, or a new one is built under
    /// the next handle; `current` becomes idle under its own key.
    pub open spec fn recycled(self, b: PipelineBuilder, config: PipelineConfig, current: Pipeline, r: Recycled) -> bool {
        let k = spec_pipeline_key(config);
        let rest = self.idle().remove(k);
        let kc = spec_pipeline_key(current.config);
        &&& r.pipeline.config == config
        &&& r.created == !self.idle().dom().contains(k)
        &&& r.pipeline.handle == if r.created { self.built@.len() as usize } else { self.idle()[k] }
        &&& b.built@ == if r.created { self.built@.push(config) } else { self.built@ }
        &&& b.idle() == rest.insert(kc, current.handle)
        &&& r.displaced == if rest.dom().contains(kc) { Some(rest[kc]) } else { None }
    }

    /// Nothing built yet.
    pub fn new() -> (r: Self)
        ensures
            r.wf(),
            r.built@.len() == 0,
            r.idle().dom().is_empty(),
    {
        PipelineBuilder { built: Vec::new(), cache: cache_new() }
    }

    /// Builds a pipeline for `config` under the next handle.
    pub fn create(&mut self, config: PipelineConfig) -> (p: Pipeline)
        requires
            old(self).wf(),
        ensures
            final(self).wf(),
            p == (Pipeline { handle: old(self).built@.len() as usize, config }),
            final(self).built@ == old(self).built@.push(config),
            final(self).idle() == old(self).idle(),
            final(self).holds(p),
    {
        let handle = self.built.len();
        self.built.push(config);
        proof {
            assert forall|k: PipelineKey| #[trigger] self.idle().dom().contains(k) implies {
                &&& self.idle()[k] < self.built@.len()
                &&& spec_pipeline_key(self.built@[self.idle()[k] as int]) == k
            } by {
                assert(self.cache == old(self).cache);
                assert(old(self).idle().dom().contains(k));
                assert(self.built@[self.idle()[k] as int] == old(self).built@[self.idle()[k] as int]);
            }
        }
        Pipeline { handle, config }
    }

    /// Swaps `current` for a pipeline of `config`: an idle one built for it
    /// if there is one, else a new one; `current` becomes idle.
    pub fn update_pipeline(&mut self, config: PipelineConfig, current: Pipeline) -> (r: Recycled)
        requires
            old(self).wf(),
            old(self).holds(current),
        ensures
            final(self).wf(),
            final(self).holds(r.pipeline),
            old(self).recycled(*final(self), config, current, r),
            forall|p: Pipeline| old(self).holds(p) ==> #[trigger] final(self).holds(p),
    {
        let ghost old_idle = self.idle();
        let key = pipeline_key(&config);
        let taken = cache_shift_remove(&mut self.cache, key);
        proof {
            assert forall|k: PipelineKey| #[trigger] self.idle().dom().contains(k) implies {
                &&& self.idle()[k] < self.built@.len()
                &&& spec_pipeline_key(self.built@[self.idle()[k] as int]) == k
            } by {
                assert(old_idle.dom().contains(k));
            }
        }
        let (pipeline, created) = match taken {
            Some(handle) => {
                proof {
                    assert(old_idle.dom().contains(key));
                    lemma_key_injective(self.built@[handle as int], config);
                }
                (Pipeline { handle, config }, false)
            },
            None => (self.create(config), true),
        };
        assert(self.built@[current.handle as int] == current.config);
        let ghost mid_idle = self.idle();
        let current_key = pipeline_key(&current.config);
        let displaced = cache_insert(&mut self.cache, current_key, current.handle);
        proof {
            assert forall|k: PipelineKey| #[trigger] self.idle().dom().contains(k) implies {
                &&& self.idle()[k] < self.built@.len()
                &&& spec_pipeline_key(self.built@[self.idle()[k] as int]) == k
            } by {
                if k != current_key {
                    assert(mid_idle.dom().contains(k));
                }
            }
            assert forall|p: Pipeline| old(self).holds(p) implies #[trigger] self.holds(p) by {
                assert(self.built@[p.handle as int] == old(self).built@[p.handle as int]);
            }
        }
        Recycled { pipeline, created, displaced }
    }
}

/// A pipeline swapped out of a slot stays idle: when its configuration is
/// asked for again in place of the pipeline that replaced it, the same
/// pipeline comes back and nothing is built.
pub proof fn lemma_swap_back_reuses(
    b0: PipelineBuilder,
    b1: PipelineBuilder,
    b2: PipelineBuilder,
    p: Pipeline,
    config: PipelineConfig,
    r1: Recycled,
    r2: Recycled,
)
    requires
        p.config != config,
        b0.recycled(b1, config, p, r1),
        b1.recycled(b2, p.config, r1.pipeline, r2),
    ensures
        !r2.created,
        r2.pipeline == p,
{
    if spec_pipeline_key(p.config) == spec_pipeline_key(config) {
        lemma_key_injective(p.config, config);
    }
    let kp = spec_pipeline_key(p.config);
    assert(b1.idle().dom().contains(kp));
    assert(b1.idle()[kp] == p.handle);
}

} // verus!
