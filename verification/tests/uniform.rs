use nvgx::uniform::{frag_stride, uniform_index, Unifrom, WgpuUnifromContent};

#[derive(Default)]
struct Blocks(Vec<u8>);

impl WgpuUnifromContent for Blocks {
    fn elem_size() -> usize {
        16
    }

    fn as_contents(&self) -> &[u8] {
        &self.0
    }

    fn offset(&self) -> usize {
        self.0.len() / 16
    }
}

#[test]
fn new_sizes_buffer_by_elements() {
    let u: Unifrom<Blocks> = Unifrom::new(3, Some(64));
    assert_eq!(u.buffer_size, 16 * 64);
    assert_eq!(u.binding_size, 16);
    assert_eq!(u.binding, 3);
    assert!(u.dynamic_offset);
    let v: Unifrom<Blocks> = Unifrom::new(0, None);
    assert_eq!(v.buffer_size, 16);
    assert!(!v.dynamic_offset);
}

#[test]
fn update_buffer_doubles_when_content_outgrows() {
    let mut u: Unifrom<Blocks> = Unifrom::new(0, Some(2));
    u.value.0 = vec![0; 32];
    assert_eq!(u.update_buffer(), None);
    u.value.0 = vec![0; 48];
    assert_eq!(u.update_buffer(), Some(96));
    assert_eq!(u.buffer_size, 96);
    assert_eq!(u.update_buffer(), None);
    assert_eq!(u.offset(), 3);
}

#[test]
fn strides_and_indices() {
    assert_eq!(frag_stride(176, 256), 256);
    assert_eq!(frag_stride(256, 256), 512);
    assert_eq!(frag_stride(100, 16), 112);
    assert_eq!(uniform_index(512, 256), 2);
    assert_eq!(uniform_index(0, 256), 0);
}
