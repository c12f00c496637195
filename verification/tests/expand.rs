use nvgx::expand::{
    checked_fill_vertex_budget, checked_lines_vertex_budget, checked_stroke_vertex_budget,
    count_joins, expand_lines, fill_layout, fill_vertex_budget, is_single_convex, join_flags, lines_vertex_budget,
    poly_reverse, stroke_vertex_budget, PR_INNERBEVEL, PT_BEVEL, PT_CORNER, PT_LEFT,
};
use nvgx::paint::{LineCap, LineJoin};
use nvgx::path::PathInfo;

fn path(first: usize, count: usize, closed: bool, num_bevel: usize) -> PathInfo {
    PathInfo { first, count, closed, num_bevel, ..PathInfo::default() }
}

#[test]
fn join_flags_keep_corner_and_add_tests() {
    let f = PT_CORNER | PT_LEFT | PT_BEVEL | PR_INNERBEVEL;
    assert_eq!(join_flags(f, false, false, false, LineJoin::Miter), PT_CORNER);
    assert_eq!(join_flags(PT_CORNER, true, false, false, LineJoin::Miter), PT_CORNER | PT_LEFT);
    assert_eq!(join_flags(PT_CORNER, false, false, true, LineJoin::Miter), PT_CORNER | PT_BEVEL);
    assert_eq!(join_flags(PT_CORNER, false, false, false, LineJoin::Round), PT_CORNER | PT_BEVEL);
    assert_eq!(join_flags(0, false, true, true, LineJoin::Bevel), PR_INNERBEVEL);
}

#[test]
fn count_joins_counts_bevels_and_left_turns() {
    let flags = [PT_BEVEL, PT_LEFT, PR_INNERBEVEL | PT_LEFT, 0, PT_CORNER];
    assert_eq!(count_joins(&flags), (2, 2));
    assert_eq!(count_joins(&[]), (0, 0));
}

#[test]
fn stroke_budget_matches_reservation() {
    let paths = [path(0, 4, true, 1), path(4, 3, false, 2)];
    // miter joins: (4+5+1)*2 + (3+10+1)*2 + butt caps 12
    assert_eq!(stroke_vertex_budget(&paths, LineJoin::Miter, LineCap::Butt, 6), 20 + 28 + 12);
    // round caps: (6*2+2)*2 = 28
    assert_eq!(stroke_vertex_budget(&paths, LineJoin::Bevel, LineCap::Round, 6), 20 + 28 + 28);
    // round joins: (4+1*8+1)*2 + (3+2*8+1)*2, no caps
    assert_eq!(stroke_vertex_budget(&paths, LineJoin::Round, LineCap::Square, 6), 26 + 40);
}

#[test]
fn fill_budget_matches_reservation() {
    let paths = [path(0, 4, true, 1), path(4, 3, true, 0)];
    assert_eq!(fill_vertex_budget(&paths, false), 4 + 6 + 4);
    assert_eq!(fill_vertex_budget(&paths, true), 4 + 6 + 20 + 4 + 8);
    let mut single = path(0, 5, true, 0);
    single.convex = true;
    assert!(is_single_convex(&[single]));
    assert_eq!(fill_vertex_budget(&[single], false), 6);
    assert!(!is_single_convex(&paths));
}

#[test]
fn lines_budget_counts_closing_vertex() {
    assert_eq!(lines_vertex_budget(&[path(0, 4, true, 0), path(4, 3, false, 0)]), 8);
    assert_eq!(lines_vertex_budget(&[]), 0);
}

#[test]
fn lines_layout_copies_points() {
    let paths = [path(0, 3, true, 0), path(3, 2, false, 0)];
    let mut slices = vec![PathInfo { first: 42, ..PathInfo::default() }];
    let sources = expand_lines(&paths, 10, 5, &mut slices);
    assert_eq!(sources, vec![0, 1, 2, 0, 3, 4]);
    assert_eq!(slices.len(), 2);
    assert_eq!((slices[0].offset, slices[0].num_fill, slices[0].num_stroke), (10, 0, 4));
    assert_eq!(slices[0].first, 42);
    assert_eq!((slices[1].offset, slices[1].num_fill, slices[1].num_stroke), (14, 0, 2));
}

#[test]
fn lines_layout_without_vertices_leaves_slices() {
    let mut slices = vec![PathInfo { offset: 3, ..PathInfo::default() }];
    let sources = expand_lines(&[], 0, 0, &mut slices);
    assert!(sources.is_empty());
    assert_eq!(slices.len(), 1);
    assert_eq!(slices[0].offset, 3);
}

#[test]
fn fill_layout_places_fill_then_fringe() {
    // path 0: a beveled right turn (2 fill vertices, 8 fringe) and two plain points
    let flags = [PT_CORNER | PT_BEVEL, PT_CORNER, PT_CORNER, PT_LEFT, PT_LEFT, PT_LEFT];
    let paths = [path(0, 3, true, 1), path(3, 3, true, 0)];
    let mut slices = Vec::new();
    let bounds = fill_layout(&paths, &flags, true, 5, &mut slices);
    assert_eq!((slices[0].offset, slices[0].num_fill, slices[0].num_stroke), (5, 4, 14));
    assert_eq!((slices[1].offset, slices[1].num_fill, slices[1].num_stroke), (23, 3, 8));
    assert_eq!(bounds, Some(34));
    let bounds = fill_layout(&paths, &flags, false, 0, &mut slices);
    assert_eq!((slices[0].offset, slices[0].num_fill, slices[0].num_stroke), (0, 3, 0));
    assert_eq!((slices[1].offset, slices[1].num_fill, slices[1].num_stroke), (3, 3, 0));
    assert_eq!(bounds, Some(6));
}

#[test]
fn fill_layout_of_single_convex_path_has_no_bounds() {
    let mut p = path(0, 4, true, 0);
    p.convex = true;
    let mut slices = Vec::new();
    assert_eq!(fill_layout(&[p], &[0, 0, 0, 0], false, 0, &mut slices), None);
    assert_eq!(slices[0].num_fill, 4);
}

#[test]
fn poly_reverse_reverses() {
    let mut v = [1, 2, 3, 4, 5];
    poly_reverse(&mut v);
    assert_eq!(v, [5, 4, 3, 2, 1]);
    let mut e: [u8; 0] = [];
    poly_reverse(&mut e);
    let mut two = ['a', 'b'];
    poly_reverse(&mut two);
    assert_eq!(two, ['b', 'a']);
}

#[test]
fn checked_budgets_match_or_refuse() {
    let paths = vec![path(0, 4, true, 1), path(4, 3, false, 0)];
    assert_eq!(
        checked_stroke_vertex_budget(&paths, LineJoin::Miter, LineCap::Round, 5),
        Some(stroke_vertex_budget(&paths, LineJoin::Miter, LineCap::Round, 5))
    );
    assert_eq!(checked_fill_vertex_budget(&paths, true), Some(fill_vertex_budget(&paths, true)));
    assert_eq!(checked_lines_vertex_budget(&paths), Some(lines_vertex_budget(&paths)));
    let huge = vec![path(0, usize::MAX, true, 0)];
    assert_eq!(checked_stroke_vertex_budget(&huge, LineJoin::Bevel, LineCap::Butt, 2), None);
    assert_eq!(checked_fill_vertex_budget(&huge, false), None);
    assert_eq!(checked_lines_vertex_budget(&huge), None);
    let many = vec![path(0, usize::MAX / 4, false, 0), path(0, usize::MAX / 4, false, 0)];
    assert_eq!(checked_stroke_vertex_budget(&many, LineJoin::Miter, LineCap::Butt, 2), None);
    assert_eq!(checked_lines_vertex_budget(&many), Some((usize::MAX / 4) * 2));
}
