use nvgx::expand::{stroke_vertex_budget, PR_INNERBEVEL, PT_BEVEL, PT_CORNER, PT_LEFT};
use nvgx::paint::{LineCap, LineJoin};
use nvgx::path::PathInfo;
use nvgx::stroke::stroke_layout;

fn path(first: usize, count: usize, closed: bool, num_bevel: usize) -> PathInfo {
    PathInfo { first, count, closed, num_bevel, ..PathInfo::default() }
}

#[test]
fn closed_path_gets_joins_and_closing_pair() {
    // three points, one of them beveled: 2 + 8 + 2 joins, and 2 closing vertices
    let flags = vec![PT_CORNER, PT_CORNER | PT_BEVEL, PT_CORNER];
    let paths = vec![path(0, 3, true, 1)];
    let segs = vec![0; 3];
    let mut slices = Vec::new();
    let end = stroke_layout(&paths, &flags, &segs, LineJoin::Bevel, LineCap::Butt, 4, 10, &mut slices);
    assert_eq!(end, Some(24));
    assert_eq!(slices.len(), 1);
    assert_eq!(slices[0].offset, 10);
    assert_eq!(slices[0].num_fill, 0);
    assert_eq!(slices[0].num_stroke, 14);
    assert!(14 <= stroke_vertex_budget(&paths, LineJoin::Bevel, LineCap::Butt, 4));
}

#[test]
fn open_paths_get_caps_and_inner_joins() {
    // open path of four points: two butt caps (4 each) and two inner joins,
    // one plain (2) and one inner bevel (10); then a round-capped one
    let flags = vec![PT_CORNER, PT_CORNER, PT_CORNER | PR_INNERBEVEL | PT_LEFT, PT_CORNER, 0, 0];
    let paths = vec![path(0, 4, false, 1), path(4, 2, false, 0)];
    let segs = vec![0; 6];
    let mut slices = vec![PathInfo { first: 99, ..PathInfo::default() }];
    let end = stroke_layout(&paths, &flags, &segs, LineJoin::Miter, LineCap::Butt, 3, 0, &mut slices);
    assert_eq!(end, Some(20 + 8));
    assert_eq!(slices[0].offset, 0);
    assert_eq!(slices[0].num_stroke, 20);
    assert_eq!(slices[0].first, 99);
    assert_eq!(slices[1].offset, 20);
    assert_eq!(slices[1].num_stroke, 8);
    let end = stroke_layout(&paths[1..], &flags, &segs, LineJoin::Miter, LineCap::Round, 3, 0, &mut slices);
    assert_eq!(end, Some(16));
}

#[test]
fn round_joins_use_their_segments() {
    let flags = vec![PT_CORNER | PT_BEVEL, PT_CORNER | PT_BEVEL];
    let paths = vec![path(0, 2, true, 2)];
    let segs = vec![3, 5];
    let mut slices = Vec::new();
    let end = stroke_layout(&paths, &flags, &segs, LineJoin::Round, LineCap::Butt, 5, 0, &mut slices);
    // (4 + 2 * 3) + (4 + 2 * 5) + 2
    assert_eq!(end, Some(26));
    assert!(26 <= stroke_vertex_budget(&paths, LineJoin::Round, LineCap::Butt, 5));
}

#[test]
fn short_open_path_and_bad_ranges() {
    let flags = vec![PT_CORNER];
    let segs = vec![0];
    let mut slices = Vec::new();
    let end = stroke_layout(&[path(0, 1, false, 0)], &flags, &segs, LineJoin::Miter, LineCap::Square, 2, 7, &mut slices);
    assert_eq!(end, Some(7));
    assert_eq!(slices[0].num_stroke, 0);
    let before = slices.clone();
    let end = stroke_layout(&[path(0, 2, true, 0)], &flags, &segs, LineJoin::Miter, LineCap::Square, 2, 7, &mut slices);
    assert_eq!(end, None);
    assert_eq!(slices.len(), before.len());
    assert_eq!(slices[0].offset, before[0].offset);
}
