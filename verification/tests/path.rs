use nvgx::paint::PathDir;
use nvgx::path::{plan_draw_path, DrawPathStyle, DrawSlice, PathInfo, PathMutInner, VertexSlice};

fn slice(offset: usize, num_fill: usize, num_stroke: usize) -> PathInfo {
    PathInfo { offset, num_fill, num_stroke, ..PathInfo::default() }
}

#[test]
fn path_info_slices() {
    let p = slice(10, 4, 6);
    assert_eq!(p.get_fill(), VertexSlice { offset: 10, count: 4 });
    assert_eq!(p.get_stroke(), VertexSlice { offset: 14, count: 6 });
    let d = PathInfo::default();
    assert_eq!(d.windding, PathDir::CCW);
    assert_eq!(d.get_stroke(), VertexSlice::default());
}

#[test]
fn draw_slice_clear_and_is_none() {
    let mut d = DrawSlice::default();
    assert!(d.is_none());
    d.lines.push(slice(0, 0, 3));
    assert!(!d.is_none());
    d.fill.push(slice(0, 3, 0));
    d.bounds_offset = Some(7);
    d.clear();
    assert!(d.is_none());
    assert_eq!(d.bounds_offset, None);
}

#[test]
fn style_flags() {
    let fill = DrawPathStyle::fill();
    let both = fill.union(DrawPathStyle::stroke());
    assert!(both.contains(fill));
    assert!(both.contains(DrawPathStyle::stroke()));
    assert!(!both.contains(DrawPathStyle::wirelines()));
    assert!(DrawPathStyle::empty().is_empty());
    assert!(both.contains(DrawPathStyle::empty()));
}

#[test]
fn plan_expands_then_reuses() {
    let fill = DrawPathStyle::fill();
    assert!(plan_draw_path(fill, DrawPathStyle::empty()).is_none());
    let first = plan_draw_path(DrawPathStyle::empty(), fill).unwrap();
    assert!(!first.reuse_cache && first.expand_fill && !first.expand_stroke && first.draw_fill);
    assert_eq!(first.new_style, fill);
    let again = plan_draw_path(first.new_style, fill).unwrap();
    assert!(again.reuse_cache && !again.expand_fill && again.draw_fill && !again.draw_stroke);
    assert_eq!(again.new_style, fill);
}

#[test]
fn plan_expands_cached_fill_with_new_stroke_and_draws_only_the_stroke() {
    let p = plan_draw_path(DrawPathStyle::fill(), DrawPathStyle::stroke()).unwrap();
    assert!(!p.reuse_cache);
    assert!(p.expand_fill && p.expand_stroke && !p.expand_lines);
    assert!(!p.draw_fill && p.draw_stroke && !p.draw_lines);
    assert_eq!(p.new_style.bits, 3);
    let hit = plan_draw_path(p.new_style, DrawPathStyle::stroke()).unwrap();
    assert!(hit.reuse_cache && !hit.draw_fill && hit.draw_stroke);
    let l = plan_draw_path(DrawPathStyle::fill(), DrawPathStyle::wirelines()).unwrap();
    assert!(l.expand_lines && l.draw_lines && !l.draw_fill && !l.draw_stroke);
}

#[test]
fn path_inner_reset() {
    let mut inner: PathMutInner<u8> = PathMutInner::new();
    assert!(inner.can_edit());
    inner.draw_slice.fill.push(slice(0, 3, 0));
    inner.style = DrawPathStyle::fill();
    inner.vertex_buffer = Some(9);
    assert!(!inner.can_edit());
    inner.reset();
    assert!(inner.can_edit());
    assert!(inner.style.is_empty());
    assert_eq!(inner.vertex_buffer, Some(9));
}
