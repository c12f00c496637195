use nvgx::cache::PathCache;
use nvgx::expand::{PR_INNERBEVEL, PT_BEVEL, PT_CORNER, PT_LEFT};
use nvgx::paint::{LineJoin, PathDir};

#[test]
fn points_go_to_the_last_path() {
    let mut c = PathCache::new();
    assert!(!c.add_point(PT_CORNER, false));
    c.add_path();
    assert!(c.add_point(PT_CORNER, false));
    assert!(c.add_point(0, false));
    assert!(!c.add_point(PT_LEFT, true));
    assert_eq!(c.point_flags, vec![PT_CORNER, PT_LEFT]);
    assert_eq!(c.paths[0].count, 2);
    c.add_path();
    assert_eq!(c.paths[1].first, 2);
    assert!(!c.add_point(PT_CORNER, true) || c.paths[1].count == 1);
    c.close_path();
    c.path_solidity(PathDir::CW);
    assert!(c.paths[1].closed && c.paths[1].windding == PathDir::CW);
    assert!(!c.paths[0].closed);
    c.clear();
    assert!(c.paths.is_empty() && c.point_flags.is_empty());
}

#[test]
fn repeated_end_point_closes_the_path() {
    let mut c = PathCache::new();
    c.add_path();
    for _ in 0..4 {
        c.add_point(PT_CORNER, false);
    }
    c.close_repeated(0, false);
    assert_eq!(c.paths[0].count, 4);
    c.close_repeated(0, true);
    assert_eq!(c.paths[0].count, 3);
    assert!(c.paths[0].closed);
    assert!(c.needs_reverse(0, true, false));
    assert!(!c.needs_reverse(0, false, true));
    c.path_solidity(PathDir::CW);
    assert!(c.needs_reverse(0, false, true));
}

#[test]
fn reverse_path_reverses_its_flags_only() {
    let mut c = PathCache::new();
    c.add_path();
    c.add_point(1, false);
    c.add_path();
    c.add_point(2, false);
    c.add_point(3, false);
    c.add_point(4, false);
    c.reverse_path(1);
    assert_eq!(c.point_flags, vec![1, 4, 3, 2]);
}

#[test]
fn joins_set_flags_bevels_and_convexity() {
    let mut c = PathCache::new();
    c.add_path();
    c.add_point(PT_CORNER, false);
    c.add_point(PT_CORNER, false);
    c.add_point(0, false);
    c.calculate_joins(&[true, true, true], &[false, true, false], &[true, false, false], LineJoin::Miter);
    assert_eq!(c.point_flags, vec![PT_CORNER | PT_LEFT | PT_BEVEL, PT_CORNER | PT_LEFT | PR_INNERBEVEL, PT_LEFT]);
    assert_eq!(c.paths[0].num_bevel, 2);
    assert!(c.paths[0].convex);
    c.calculate_joins(&[true, false, true], &[false, false, false], &[false, false, false], LineJoin::Round);
    assert_eq!(c.point_flags, vec![PT_CORNER | PT_LEFT | PT_BEVEL, PT_CORNER | PT_BEVEL, PT_LEFT]);
    assert_eq!(c.paths[0].num_bevel, 2);
    assert!(!c.paths[0].convex);
}
