use nvgx::context::{FrameStats, StateStack};
use nvgx::path::PathInfo;

fn slice(num_fill: usize, num_stroke: usize) -> PathInfo {
    PathInfo { num_fill, num_stroke, ..PathInfo::default() }
}

#[test]
fn save_and_restore() {
    let mut s = StateStack::new(1);
    s.save();
    assert_eq!(s.states, vec![1, 1]);
    s.set_state(5);
    assert_eq!(*s.state(), 5);
    s.restore();
    assert_eq!(*s.state(), 1);
    s.restore();
    assert_eq!(s.states, vec![1]);
    s.save();
    s.save();
    s.begin_frame(7);
    assert_eq!(s.states, vec![7]);
}

#[test]
fn stats_of_fill_stroke_lines() {
    let mut st = FrameStats::new();
    st.record_fill(&[slice(5, 10), slice(2, 2), slice(3, 0)]);
    assert_eq!(st.draw_call_count, 3);
    assert_eq!(st.fill_triangles_count, 3 + 8 + 1);
    st.record_stroke(&[slice(0, 6), slice(0, 2)]);
    assert_eq!(st.draw_call_count, 5);
    assert_eq!(st.fill_triangles_count, 12 + 4);
    st.record_lines(&[slice(0, 3)]);
    assert_eq!(st.draw_call_count, 6);
    assert_eq!(st.stroke_triangles_count, 0);
    assert_eq!(st.text_triangles_count, 0);
}

#[test]
fn restore_after_several_setters_gives_back_the_stack() {
    let mut s = StateStack::new(1);
    s.save();
    s.set_state(2);
    s.save();
    s.set_state(3);
    s.set_state(4);
    s.set_state(5);
    s.restore();
    assert_eq!(s.states, vec![1, 2]);
    s.restore();
    assert_eq!(s.states, vec![1]);
}

#[test]
fn stroke_of_empty_strips_counts_no_triangles() {
    let mut st = FrameStats::new();
    st.record_stroke(&[slice(0, 0), slice(0, 1), slice(0, 5)]);
    assert_eq!(st.draw_call_count, 3);
    assert_eq!(st.fill_triangles_count, 3);
}

#[test]
fn recording_checks_refuse_overflow() {
    let mut st = FrameStats::new();
    assert!(st.can_record_fill(&[slice(5, 10)]));
    assert!(st.can_record_stroke(&[slice(0, 0)]));
    assert!(st.can_record_lines(&[slice(0, 3)]));
    st.fill_triangles_count = usize::MAX - 3;
    assert!(st.can_record_fill(&[slice(5, 0)]));
    assert!(!st.can_record_fill(&[slice(5, 3)]));
    assert!(!st.can_record_stroke(&[slice(0, 6)]));
    st.draw_call_count = usize::MAX;
    assert!(!st.can_record_lines(&[slice(0, 3)]));
    assert!(st.can_record_lines(&[]));
}
