use vstd::prelude::*;

use slab::Slab;

verus! {

/// Pixel format of a texture.
#[derive(Debug, Clone, Copy, PartialEq, Eq, Hash, Structural)]
pub enum TextureType {
    RGBA,
    BGRA,
    Alpha,
}

/// Bit of `ImageFlags`: generate mipmaps during creation of the image.
pub const IMAGE_GENERATE_MIPMAPS: u32 = 0x1;
/// Bit of `ImageFlags`: repeat the image in X direction.
pub const IMAGE_REPEATX: u32 = 0x2;
/// Bit of `ImageFlags`: repeat the image in Y direction.
pub const IMAGE_REPEATY: u32 = 0x4;
/// Bit of `ImageFlags`: flip (inverse) the image in Y direction when rendered.
pub const IMAGE_FLIPY: u32 = 0x8;
/// Bit of `ImageFlags`: the image data has premultiplied alpha.
pub const IMAGE_PREMULTIPLIED: u32 = 0x10;
/// Bit of `ImageFlags`: nearest instead of linear interpolation.
pub const IMAGE_NEAREST: u32 = 0x20;

/// Options of an image, a set of the `IMAGE_*` bits.
#[derive(Debug, Clone, Copy, PartialEq, Eq, Structural)]
pub struct ImageFlags {
    pub bits: u32,
}

impl ImageFlags {
    /// No option set.
    pub fn empty() -> (r: ImageFlags)
        ensures
            r.bits == 0,
    {
        ImageFlags { bits: 0 }
    }

    pub open spec fn spec_contains(self, bit: u32) -> bool {
        self.bits & bit == bit
    }

    /// Whether every bit of `bit` is set.
    pub fn contains(&self, bit: u32) -> (r: bool)
        ensures
            r == self.spec_contains(bit),
    {
        self.bits & bit == bit
    }

    /// The options of `self` and those of `other`.
    pub fn union(&self, other: ImageFlags) -> (r: ImageFlags)
        ensures
            r.bits == self.bits | other.bits,
    {
        ImageFlags { bits: self.bits | other.bits }
    }
}


/// What the renderer keeps of a texture besides its GPU objects: its
/// format, its options and its size in pixels.
#[derive(Debug, Clone, Copy, PartialEq, Eq, Structural)]
pub struct TextureInfo {
    pub texture_type: TextureType,
    pub image_flags: ImageFlags,
    pub width: u32,
    pub height: u32,
}

/// Errors of texture lookups.
#[derive(Debug, Clone, Copy, PartialEq, Eq, Structural)]
pub enum TextureError {
    /// No texture has this id.
    NotFound,
}

#[verifier::external_type_specification]
#[verifier::external_body]
#[verifier::reject_recursive_types(T)]
pub struct ExSlab<T>(Slab<T>);

/// A slab of texture records.
pub type TextureSlab = Slab<TextureInfo>;

/// The textures held by a slab, by key.
pub uninterp spec fn slab_textures(s: Slab<TextureInfo>) -> Map<usize, TextureInfo>;

/// `Slab::new`: an empty slab.
#[verifier::external_body]
fn slab_new() -> (r: TextureSlab)
    ensures
        slab_textures(r).dom().is_empty(),
{
    Slab::new()
}

/// `Slab::insert`: stores the value under a key that was vacant, and
/// returns that key.
#[verifier::external_body]
fn slab_insert(s: &mut Slab<TextureInfo>, value: TextureInfo) -> (key: usize)
    ensures
        !slab_textures(*old(s)).dom().contains(key),
        slab_textures(*final(s)) == slab_textures(*old(s)).insert(key, value),
{
    s.insert(value)
}

/// `Slab::get`: the value stored under the key, if any.
#[verifier::external_body]
fn slab_get(s: &Slab<TextureInfo>, key: usize) -> (r: Option<TextureInfo>)
    ensures
        r == if slab_textures(*s).dom().contains(key) { Some(slab_textures(*s)[key]) } else { None },
{
    s.get(key).copied()
}

/// `Slab::remove`: takes the value stored under a key that holds one.
#[verifier::external_body]
fn slab_remove(s: &mut Slab<TextureInfo>, key: usize) -> (r: TextureInfo)
    requires
        slab_textures(*old(s)).dom().contains(key),
    ensures
        r == slab_textures(*old(s))[key],
        slab_textures(*final(s)) == slab_textures(*old(s)).remove(key),
{
    s.remove(key)
}

/// The textures of a renderer, by id.
pub struct TextureManager {
    pub textures: Slab<TextureInfo>,
}

/// The texture with this id in the textures `m`, if any.
pub open spec fn spec_lookup(m: Map<usize, TextureInfo>, id: usize) -> Option<TextureInfo> {
    if m.dom().contains(id) { Some(m[id]) } else { None }
}

/// A texture looked up right after it was created is the one created, and
/// creating it changes no other id.
pub proof fn lemma_get_after_create(before: Map<usize, TextureInfo>, id: usize, info: TextureInfo, other: usize)
    requires
        !before.dom().contains(id),
        other != id,
    ensures
        spec_lookup(before.insert(id, info), id) == Some(info),
        spec_lookup(before.insert(id, info), other) == spec_lookup(before, other),
{
}

/// A texture looked up after it was removed is gone, and removing it
/// changes no other id.
pub proof fn lemma_get_after_remove(before: Map<usize, TextureInfo>, id: usize, other: usize)
    requires
        other != id,
    ensures
        spec_lookup(before.remove(id), id) is None,
        spec_lookup(before.remove(id), other) == spec_lookup(before, other),
{
}

/// Kind of shader a paint is drawn with.
#[derive(Debug, Clone, Copy, PartialEq, Eq, Structural)]
pub enum ShaderType {
    FillGradient,
    FillImage,
    Simple,
    Image,
}

/// The number by which the shader tells the kinds apart.
pub open spec fn spec_shader_code(t: ShaderType) -> u32 {
    match t {
        ShaderType::FillGradient => 0,
        ShaderType::FillImage => 1,
        ShaderType::Simple => 2,
        ShaderType::Image => 3,
    }
}

/// The number by which the shader tells the kinds apart.
pub fn shader_code(t: ShaderType) -> (r: u32)
    ensures
        r == spec_shader_code(t),
{
    match t {
        ShaderType::FillGradient => 0,
        ShaderType::FillImage => 1,
        ShaderType::Simple => 2,
        ShaderType::Image => 3,
    }
}

/// How the shader samples a texture: 0 for colour with premultiplied
/// alpha, 1 for colour to premultiply, 2 for an alpha mask.
pub open spec fn spec_texture_code(info: TextureInfo) -> u32 {
    match info.texture_type {
        TextureType::RGBA | TextureType::BGRA => if info.image_flags.spec_contains(IMAGE_PREMULTIPLIED) { 0 } else { 1 },
        TextureType::Alpha => 2,
    }
}

/// Where the paint of a draw comes from.
#[derive(Debug, Clone, Copy, PartialEq, Eq, Structural)]
pub enum PaintSource {
    /// A gradient: the paint's transform, radius and feather are used.
    Gradient,
    /// A texture, flipped vertically when `flip_y`.
    Image { flip_y: bool },
    /// The paint names an image that does not exist: nothing is set.
    MissingImage,
}

/// The shader setup of a paint: where its colour comes from, the shader
/// kind and the texture sampling mode.
#[derive(Debug, Clone, Copy, PartialEq, Eq, Structural)]
pub struct PaintShader {
    pub source: PaintSource,
    pub render_type: u32,
    pub texture_type: u32,
}

impl TextureManager {
    /// The textures, by id.
    pub open spec fn view(&self) -> Map<usize, TextureInfo> {
        slab_textures(self.textures)
    }

    /// No textures.
    pub fn new() -> (r: Self)
        ensures
            r.view() == Map::<usize, TextureInfo>::empty(),
    {
        TextureManager { textures: slab_new() }
    }

    /// Registers a texture under a fresh id and returns the id.
    pub fn create(&mut self, info: TextureInfo) -> (id: usize)
        ensures
            !old(self).view().dom().contains(id),
            final(self).view() == old(self).view().insert(id, info),
    {
        slab_insert(&mut self.textures, info)
    }

    /// The texture with this id, if any.
    pub fn get(&self, id: usize) -> (r: Option<TextureInfo>)
        ensures
            r == spec_lookup(self.view(), id),
    {
        slab_get(&self.textures, id)
    }

    /// Unregisters the texture with this id and returns it.
    pub fn remove(&mut self, id: usize) -> (r: TextureInfo)
        requires
            old(self).view().dom().contains(id),
        ensures
            r == old(self).view()[id],
            final(self).view() == old(self).view().remove(id),
    {
        slab_remove(&mut self.textures, id)
    }

    /// Size in pixels of the texture with this id.
    pub fn texture_size(&self, id: usize) -> (r: Result<(u32, u32), TextureError>)
        ensures
            r == if self.view().dom().contains(id) {
                Ok((self.view()[id].width, self.view()[id].height))
            } else {
                Err(TextureError::NotFound)
            },
    {
        match self.get(id) {
            Some(info) => Ok((info.width, info.height)),
            None => Err(TextureError::NotFound),
        }
    }

    /// The texture to bind for a draw with the image `id`: the image when
    /// it exists, `None` (the placeholder texture) otherwise.
    pub fn bind_target(&self, id: Option<usize>) -> (r: Option<usize>)
        ensures
            r == match id {
                Some(i) => if self.view().dom().contains(i) { Some(i) } else { None },
                None => None,
            },
    {
        match id {
            Some(i) => match self.get(i) {
                Some(_) => Some(i),
                None => None,
            },
            None => None,
        }
    }

    /// The shader setup of a paint drawing the image `image`, or a
    /// gradient when it has none.
    pub fn paint_shader(&self, image: Option<usize>) -> (r: PaintShader)
        ensures
            r == match image {
                None => PaintShader {
                    source: PaintSource::Gradient,
                    render_type: spec_shader_code(ShaderType::FillGradient),
                    texture_type: 0,
                },
                Some(i) => if self.view().dom().contains(i) {
                    PaintShader {
                        source: PaintSource::Image {
                            flip_y: self.view()[i].image_flags.spec_contains(IMAGE_FLIPY),
                        },
                        render_type: spec_shader_code(ShaderType::FillImage),
                        texture_type: spec_texture_code(self.view()[i]),
                    }
                } else {
                    PaintShader { source: PaintSource::MissingImage, render_type: 0, texture_type: 0 }
                },
            },
    {
        match image {
            None => PaintShader {
                source: PaintSource::Gradient,
                render_type: shader_code(ShaderType::FillGradient),
                texture_type: 0,
            },
            Some(i) => match self.get(i) {
                Some(info) => {
                    let texture_type = match info.texture_type {
                        TextureType::RGBA | TextureType::BGRA => if info.image_flags.contains(IMAGE_PREMULTIPLIED) { 0 } else { 1 },
                        TextureType::Alpha => 2,
                    };
                    PaintShader {
                        source: PaintSource::Image { flip_y: info.image_flags.contains(IMAGE_FLIPY) },
                        render_type: shader_code(ShaderType::FillImage),
                        texture_type,
                    }
                },
                None => PaintShader { source: PaintSource::MissingImage, render_type: 0, texture_type: 0 },
            },
        }
    }
}

/// Bytes per pixel of a texture format.
pub open spec fn spec_bytes_per_pixel(t: TextureType) -> u32 {
    match t {
        TextureType::RGBA | TextureType::BGRA => 4,
        TextureType::Alpha => 1,
    }
}

/// Bytes per row of an update `width` pixels wide of a texture.
pub fn bytes_per_row(texture_type: TextureType, width: u32) -> (r: u32)
    requires
        spec_bytes_per_pixel(texture_type) * width <= u32::MAX,
    ensures
        r == spec_bytes_per_pixel(texture_type) * width,
{
    let bpp: u32 = match texture_type {
        TextureType::RGBA | TextureType::BGRA => 4,
        TextureType::Alpha => 1,
    };
    bpp * width
}

/// How texture coordinates outside the image are sampled.
#[derive(Debug, Clone, Copy, PartialEq, Eq, Structural)]
pub enum AddressMode {
    Repeat,
    ClampToEdge,
}

/// How texels are interpolated.
#[derive(Debug, Clone, Copy, PartialEq, Eq, Structural)]
pub enum FilterMode {
    Nearest,
    Linear,
}

/// The sampler of a texture: wrapping along each axis and filtering.
#[derive(Debug, Clone, Copy, PartialEq, Eq, Structural)]
pub struct SamplerDesc {
    pub address_u: AddressMode,
    pub address_v: AddressMode,
    pub address_w: AddressMode,
    pub mag_filter: FilterMode,
    pub min_filter: FilterMode,
    pub mipmap_filter: FilterMode,
}

pub open spec fn spec_address(flags: ImageFlags, bit: u32) -> AddressMode {
    if flags.spec_contains(bit) { AddressMode::Repeat } else { AddressMode::ClampToEdge }
}

pub open spec fn spec_filter(flags: ImageFlags) -> FilterMode {
    if flags.spec_contains(IMAGE_NEAREST) { FilterMode::Nearest } else { FilterMode::Linear }
}

/// The sampler of an image with options `flags`: repeated along X and Y as
/// `IMAGE_REPEATX` and `IMAGE_REPEATY` ask, clamped otherwise, and filtered
/// by nearest texel with `IMAGE_NEAREST`, linearly otherwise.
pub fn sampler_desc(flags: ImageFlags) -> (r: SamplerDesc)
    ensures
        r == (SamplerDesc {
            address_u: spec_address(flags, IMAGE_REPEATX),
            address_v: spec_address(flags, IMAGE_REPEATY),
            address_w: AddressMode::ClampToEdge,
            mag_filter: spec_filter(flags),
            min_filter: spec_filter(flags),
            mipmap_filter: spec_filter(flags),
        }),
{
    let filter = if flags.contains(IMAGE_NEAREST) { FilterMode::Nearest } else { FilterMode::Linear };
    SamplerDesc {
        address_u: if flags.contains(IMAGE_REPEATX) { AddressMode::Repeat } else { AddressMode::ClampToEdge },
        address_v: if flags.contains(IMAGE_REPEATY) { AddressMode::Repeat } else { AddressMode::ClampToEdge },
        address_w: AddressMode::ClampToEdge,
        mag_filter: filter,
        min_filter: filter,
        mipmap_filter: filter,
    }
}

/// The GPU texture of an image: its pixel format, whether it may be
/// rendered into, and its number of mip levels.
#[derive(Debug, Clone, Copy, PartialEq, Eq, Structural)]
pub struct TextureDesc {
    pub format: TextureType,
    pub render_attachment: bool,
    pub mip_level_count: u32,
}

/// The GPU texture of an image of type `texture_type`: one mip level, in
/// the image's own format; colour textures may also be rendered into,
/// alpha textures may not.
pub fn texture_desc(texture_type: TextureType) -> (r: TextureDesc)
    ensures
        r == (TextureDesc {
            format: texture_type,
            render_attachment: texture_type != TextureType::Alpha,
            mip_level_count: 1,
        }),
{
    TextureDesc {
        format: texture_type,
        render_attachment: match texture_type {
            TextureType::Alpha => false,
            _ => true,
        },
        mip_level_count: 1,
    }
}

/// Minification filter of an OpenGL texture.
#[derive(Debug, Clone, Copy, PartialEq, Eq, Structural)]
pub enum MinFilter {
    Nearest,
    Linear,
    NearestMipmapNearest,
    LinearMipmapLinear,
}

/// Parameters of an OpenGL texture: filters, wrapping along S and T, and
/// whether mipmaps are generated after the upload.
#[derive(Debug, Clone, Copy, PartialEq, Eq, Structural)]
pub struct GlTextureParams {
    pub min_filter: MinFilter,
    pub mag_filter: FilterMode,
    pub wrap_s: AddressMode,
    pub wrap_t: AddressMode,
    pub generate_mipmaps: bool,
}

pub open spec fn spec_min_filter(flags: ImageFlags) -> MinFilter {
    if flags.spec_contains(IMAGE_GENERATE_MIPMAPS) {
        if flags.spec_contains(IMAGE_NEAREST) { MinFilter::NearestMipmapNearest } else { MinFilter::LinearMipmapLinear }
    } else {
        if flags.spec_contains(IMAGE_NEAREST) { MinFilter::Nearest } else { MinFilter::Linear }
    }
}

/// The OpenGL parameters of an image with options `flags`: mipmapped
/// minification when `IMAGE_GENERATE_MIPMAPS` is set, nearest filtering
/// with `IMAGE_NEAREST`, repetition as `IMAGE_REPEATX` / `IMAGE_REPEATY` ask.
pub fn gl_texture_params(flags: ImageFlags) -> (r: GlTextureParams)
    ensures
        r == (GlTextureParams {
            min_filter: spec_min_filter(flags),
            mag_filter: spec_filter(flags),
            wrap_s: spec_address(flags, IMAGE_REPEATX),
            wrap_t: spec_address(flags, IMAGE_REPEATY),
            generate_mipmaps: flags.spec_contains(IMAGE_GENERATE_MIPMAPS),
        }),
{
    let nearest = flags.contains(IMAGE_NEAREST);
    let mipmaps = flags.contains(IMAGE_GENERATE_MIPMAPS);
    let min_filter = if mipmaps {
        if nearest { MinFilter::NearestMipmapNearest } else { MinFilter::LinearMipmapLinear }
    } else {
        if nearest { MinFilter::Nearest } else { MinFilter::Linear }
    };
    GlTextureParams {
        min_filter,
        mag_filter: if nearest { FilterMode::Nearest } else { FilterMode::Linear },
        wrap_s: if flags.contains(IMAGE_REPEATX) { AddressMode::Repeat } else { AddressMode::ClampToEdge },
        wrap_t: if flags.contains(IMAGE_REPEATY) { AddressMode::Repeat } else { AddressMode::ClampToEdge },
        generate_mipmaps: mipmaps,
    }
}

} // verus!
