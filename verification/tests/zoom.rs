//! Zoom engine behavior: segment generation from clicks, camera
//! evaluation over time, and whole-timeline precomputation.

use drift::FX_ONE;
use drift::zoom::ClickEvent;
use drift::zoom::FrameState;
use drift::zoom::MoveEvent;
use drift::zoom::ZoomSegment;
use drift::zoom::evaluate_frame;
use drift::zoom::evaluate_zoom_at_time;
use drift::zoom::generate_zoom_segments;
use drift::zoom::interpolate_cursor_at_time;
use drift::zoom::precompute_frames;

fn fx(v: f64) -> i64 {
    (v * 1_000_000.0).round() as i64
}

fn seg(start: f64, end: f64, amount: f64) -> ZoomSegment {
    ZoomSegment { start: fx(start), end: fx(end), amount: fx(amount) }
}

fn down(time_ms: f64, x: f64, y: f64) -> ClickEvent {
    ClickEvent { time: fx(time_ms), x: fx(x), y: fx(y), down: true }
}

fn mv(time_ms: f64, x: f64, y: f64) -> MoveEvent {
    MoveEvent { time: fx(time_ms), x: fx(x), y: fx(y) }
}

#[test]
fn no_segments_returns_identity() {
    let state = evaluate_zoom_at_time(&vec![], fx(1000.0), fx(0.5), fx(0.5));
    assert_eq!(state.scale, FX_ONE);
    assert_eq!(state.x, fx(0.5));
}

#[test]
fn segment_zooms_in() {
    let segments = vec![seg(1.0, 5.0, 2.0)];
    // At t=2.0 (1 second into the segment), partially zoomed.
    let state = evaluate_zoom_at_time(&segments, fx(2000.0), fx(0.5), fx(0.5));
    assert!(state.scale > FX_ONE);
}

#[test]
fn segment_zooms_out_after() {
    let segments = vec![seg(1.0, 3.0, 2.0)];
    // At t=3.5 (0.5s after the segment end), still zooming out.
    let state = evaluate_zoom_at_time(&segments, fx(3500.0), fx(0.5), fx(0.5));
    assert!(state.scale > FX_ONE);

    // At t=5.0 (2s after the segment end), fully out.
    let state2 = evaluate_zoom_at_time(&segments, fx(5000.0), fx(0.5), fx(0.5));
    assert!((state2.scale - FX_ONE).abs() < fx(0.01));
}

#[test]
fn click_generates_segments() {
    let clicks = vec![down(1000.0, 0.5, 0.5), down(2000.0, 0.5, 0.5)];
    let segments = generate_zoom_segments(clicks, vec![], fx(10000.0));
    assert!(!segments.is_empty());
    assert!(segments[0].start < fx(2.0)); // starts before the clicks
}

#[test]
fn cursor_interpolation_works() {
    let moves = vec![mv(0.0, 0.0, 0.0), mv(1000.0, 1.0, 1.0)];
    let state = interpolate_cursor_at_time(moves, vec![], fx(500.0));
    assert!(state.x > 0 && state.x < fx(1.0));
    assert!(state.opacity > fx(0.5));
}

#[test]
fn precompute_consistency() {
    let segments = vec![seg(1.0, 3.0, 2.0)];
    let moves = vec![mv(0.0, 0.5, 0.5), mv(5000.0, 0.5, 0.5)];
    let frames = precompute_frames(segments, moves, vec![], fx(5000.0), fx(30.0));
    assert_eq!(frames.len(), 150);
    // The first frame is unzoomed.
    assert!((frames[0].zoom.scale - FX_ONE).abs() < fx(0.1));
}

#[test]
fn starts_panned_out() {
    // Critical: at t=0 the camera must be at scale 1.0 (no zoom).
    let segments = vec![seg(2.0, 5.0, 2.0)];
    let state = evaluate_zoom_at_time(&segments, 0, fx(0.5), fx(0.5));
    assert_eq!(state.scale, FX_ONE, "Must start fully panned out!");
    assert_eq!(state.x, fx(0.5));
    assert_eq!(state.y, fx(0.5));
}

#[test]
fn close_clicks_merge_into_one_padded_segment() {
    // Two clicks 1000 ms apart at the same position: one merged segment
    // starting one pre-roll before the first click.
    let clicks = vec![down(1000.0, 0.5, 0.5), down(2000.0, 0.5, 0.5)];
    let segments = generate_zoom_segments(clicks, vec![], fx(10000.0));
    assert_eq!(segments.len(), 1);
    assert_eq!(segments[0].start, fx(0.6)); // 1.0 - 0.4 pre-roll
    assert_eq!(segments[0].end, fx(4.0)); // 2.0 + 2.0 post-roll
    assert_eq!(segments[0].amount, fx(1.8));
}

#[test]
fn distant_clicks_make_separate_segments() {
    let clicks = vec![down(1000.0, 0.2, 0.2), down(9000.0, 0.8, 0.8)];
    let segments = generate_zoom_segments(clicks, vec![], fx(20000.0));
    assert_eq!(segments.len(), 2);
    assert!(segments[0].end < segments[1].start);
}

#[test]
fn clicks_in_the_stop_padding_are_ignored() {
    let clicks = vec![down(9800.0, 0.5, 0.5)];
    let segments = generate_zoom_segments(clicks, vec![], fx(10000.0));
    assert!(segments.is_empty());
}

#[test]
fn click_position_resolves_from_the_preceding_move() {
    // The click reports (0.9, 0.9) but the cursor was last seen at
    // (0.2, 0.2): grouping goes by the resolved position, so a second
    // click near (0.2, 0.2) joins the same group.
    let moves = vec![mv(500.0, 0.2, 0.2)];
    let clicks = vec![down(1000.0, 0.9, 0.9), down(1500.0, 0.21, 0.21)];
    let segments = generate_zoom_segments(clicks, moves, fx(10000.0));
    assert_eq!(segments.len(), 1);
}

#[test]
fn generation_is_deterministic() {
    let clicks = vec![down(1000.0, 0.5, 0.5), down(4000.0, 0.52, 0.5), down(9000.0, 0.9, 0.1)];
    let moves = vec![mv(0.0, 0.5, 0.5), mv(8000.0, 0.9, 0.1)];
    let a = generate_zoom_segments(clicks.clone(), moves.clone(), fx(15000.0));
    let b = generate_zoom_segments(clicks, moves, fx(15000.0));
    assert_eq!(a, b);
}

#[test]
fn zoom_out_keeps_decreasing() {
    let segments = vec![seg(1.0, 3.0, 2.0)];
    let early = evaluate_zoom_at_time(&segments, fx(3200.0), fx(0.5), fx(0.5));
    let late = evaluate_zoom_at_time(&segments, fx(3800.0), fx(0.5), fx(0.5));
    assert!(early.scale > late.scale);
    assert!(late.scale >= FX_ONE);
}

#[test]
fn precompute_frame_count_is_the_exact_ceiling() {
    let frames = precompute_frames(vec![], vec![], vec![], fx(1000.0), fx(24.0));
    assert_eq!(frames.len(), 24);
    let frames2 = precompute_frames(vec![], vec![], vec![], fx(1001.0), fx(24.0));
    assert_eq!(frames2.len(), 25);
    let none = precompute_frames(vec![], vec![], vec![], 0, fx(30.0));
    assert_eq!(none.len(), 0);
}

#[test]
fn evaluate_frame_combines_cursor_and_zoom() {
    let moves = vec![mv(0.0, 0.3, 0.3), mv(1000.0, 0.7, 0.7)];
    let state: FrameState = evaluate_frame(vec![], moves, vec![], fx(500.0));
    assert_eq!(state.zoom.scale, FX_ONE);
    assert!(state.cursor.x > 0 && state.cursor.x < FX_ONE);
}

#[test]
fn plateau_is_exactly_fully_zoomed() {
    // One second into a segment the transition is over: the camera sits
    // at exactly the segment's own zoom amount, centered on the clamped
    // cursor.
    let segments = vec![seg(1.0, 5.0, 1.8)];
    let state = evaluate_zoom_at_time(&segments, fx(2500.0), fx(0.5), fx(0.5));
    assert_eq!(state.scale, fx(1.8));
    assert_eq!(state.x, fx(0.5));

    // A cursor near the edge is clamped so the viewport stays inside.
    let edge = evaluate_zoom_at_time(&segments, fx(2500.0), fx(0.9), fx(0.9));
    assert_eq!(edge.x, 722_223);
    assert_eq!(edge.y, 722_223);

    // A hand-authored amount is honored, not replaced by the automatic
    // level: the clamp bounds follow the stronger zoom.
    let strong = vec![seg(1.0, 5.0, 2.0)];
    let state2 = evaluate_zoom_at_time(&strong, fx(2500.0), fx(0.9), fx(0.9));
    assert_eq!(state2.scale, fx(2.0));
    assert_eq!(state2.x, fx(0.75));
    let centered = evaluate_zoom_at_time(&strong, fx(2500.0), fx(0.5), fx(0.5));
    assert_eq!(centered.x, fx(0.5));
}

#[test]
fn empty_duration_generates_nothing() {
    let clicks = vec![down(100.0, 0.5, 0.5)];
    assert!(generate_zoom_segments(clicks, vec![], 0).is_empty());
}
