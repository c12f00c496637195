use nvgx::texture::{
    bytes_per_row, gl_texture_params, sampler_desc, shader_code, texture_desc, AddressMode, FilterMode, ImageFlags,
    MinFilter, IMAGE_GENERATE_MIPMAPS, IMAGE_NEAREST, IMAGE_REPEATY, PaintSource, ShaderType, TextureError, TextureInfo, TextureManager,
    TextureType, IMAGE_FLIPY, IMAGE_PREMULTIPLIED, IMAGE_REPEATX,
};

fn info(texture_type: TextureType, bits: u32, width: u32, height: u32) -> TextureInfo {
    TextureInfo { texture_type, image_flags: ImageFlags { bits }, width, height }
}

#[test]
fn create_get_remove() {
    let mut m = TextureManager::new();
    let a = m.create(info(TextureType::RGBA, 0, 4, 8));
    let b = m.create(info(TextureType::Alpha, 0, 1, 1));
    assert_ne!(a, b);
    assert_eq!(m.get(a), Some(info(TextureType::RGBA, 0, 4, 8)));
    assert_eq!(m.texture_size(a), Ok((4, 8)));
    assert_eq!(m.remove(a), info(TextureType::RGBA, 0, 4, 8));
    assert_eq!(m.get(a), None);
    assert_eq!(m.texture_size(a), Err(TextureError::NotFound));
    assert_eq!(m.get(b), Some(info(TextureType::Alpha, 0, 1, 1)));
    let c = m.create(info(TextureType::BGRA, 0, 2, 2));
    assert_eq!(m.get(c), Some(info(TextureType::BGRA, 0, 2, 2)));
}

#[test]
fn bind_target_falls_back_to_placeholder() {
    let mut m = TextureManager::new();
    let a = m.create(info(TextureType::RGBA, 0, 1, 1));
    assert_eq!(m.bind_target(Some(a)), Some(a));
    assert_eq!(m.bind_target(Some(a + 1)), None);
    assert_eq!(m.bind_target(None), None);
}

#[test]
fn paint_shader_setup() {
    let mut m = TextureManager::new();
    let plain = m.create(info(TextureType::RGBA, IMAGE_REPEATX, 1, 1));
    let pre = m.create(info(TextureType::BGRA, IMAGE_PREMULTIPLIED | IMAGE_FLIPY, 1, 1));
    let alpha = m.create(info(TextureType::Alpha, IMAGE_PREMULTIPLIED, 1, 1));
    let g = m.paint_shader(None);
    assert_eq!((g.source, g.render_type, g.texture_type), (PaintSource::Gradient, 0, 0));
    let p = m.paint_shader(Some(plain));
    assert_eq!((p.source, p.render_type, p.texture_type), (PaintSource::Image { flip_y: false }, 1, 1));
    let p = m.paint_shader(Some(pre));
    assert_eq!((p.source, p.render_type, p.texture_type), (PaintSource::Image { flip_y: true }, 1, 0));
    let p = m.paint_shader(Some(alpha));
    assert_eq!(p.texture_type, 2);
    let p = m.paint_shader(Some(99));
    assert_eq!((p.source, p.render_type, p.texture_type), (PaintSource::MissingImage, 0, 0));
}

#[test]
fn shader_codes_and_rows() {
    assert_eq!(shader_code(ShaderType::FillGradient), 0);
    assert_eq!(shader_code(ShaderType::FillImage), 1);
    assert_eq!(shader_code(ShaderType::Simple), 2);
    assert_eq!(shader_code(ShaderType::Image), 3);
    assert_eq!(bytes_per_row(TextureType::RGBA, 10), 40);
    assert_eq!(bytes_per_row(TextureType::BGRA, 3), 12);
    assert_eq!(bytes_per_row(TextureType::Alpha, 10), 10);
}

#[test]
fn image_flags() {
    let f = ImageFlags { bits: IMAGE_FLIPY }.union(ImageFlags { bits: IMAGE_PREMULTIPLIED });
    assert!(f.contains(IMAGE_FLIPY) && f.contains(IMAGE_PREMULTIPLIED));
    assert!(!f.contains(IMAGE_REPEATX));
    assert_eq!(ImageFlags::empty().bits, 0);
}

#[test]
fn sampler_follows_image_flags() {
    let s = sampler_desc(ImageFlags { bits: IMAGE_REPEATX | IMAGE_NEAREST });
    assert_eq!(s.address_u, AddressMode::Repeat);
    assert_eq!(s.address_v, AddressMode::ClampToEdge);
    assert_eq!(s.address_w, AddressMode::ClampToEdge);
    assert_eq!(s.mag_filter, FilterMode::Nearest);
    assert_eq!(s.mipmap_filter, FilterMode::Nearest);
    let s = sampler_desc(ImageFlags::empty());
    assert_eq!(s.address_u, AddressMode::ClampToEdge);
    assert_eq!(s.min_filter, FilterMode::Linear);
}

#[test]
fn texture_descriptions() {
    let d = texture_desc(TextureType::Alpha);
    assert_eq!(d.format, TextureType::Alpha);
    assert!(!d.render_attachment);
    assert_eq!(d.mip_level_count, 1);
    assert!(texture_desc(TextureType::BGRA).render_attachment);
}

#[test]
fn gl_parameters_follow_image_flags() {
    let p = gl_texture_params(ImageFlags { bits: IMAGE_GENERATE_MIPMAPS | IMAGE_NEAREST | IMAGE_REPEATY });
    assert_eq!(p.min_filter, MinFilter::NearestMipmapNearest);
    assert_eq!(p.mag_filter, FilterMode::Nearest);
    assert_eq!(p.wrap_s, AddressMode::ClampToEdge);
    assert_eq!(p.wrap_t, AddressMode::Repeat);
    assert!(p.generate_mipmaps);
    let p = gl_texture_params(ImageFlags { bits: IMAGE_GENERATE_MIPMAPS });
    assert_eq!(p.min_filter, MinFilter::LinearMipmapLinear);
    let p = gl_texture_params(ImageFlags::empty());
    assert_eq!(p.min_filter, MinFilter::Linear);
    assert!(!p.generate_mipmaps);
}
