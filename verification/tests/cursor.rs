//! Cursor pipeline behavior: shake filtering, densification, spring and
//! linear interpolation, click state, and idle fade.

use drift::FX_ONE;
use drift::cursor::CursorClickEvent;
use drift::cursor::CursorEvents;
use drift::cursor::CursorMoveEvent;
use drift::cursor::MouseButton;
use drift::cursor::compute_click_state;
use drift::cursor::compute_idle_opacity;
use drift::cursor::densify_cursor_moves;
use drift::cursor::filter_cursor_shake;
use drift::cursor::interpolate_cursor;
use drift::spring::SpringConfig;

fn fx(v: f64) -> i64 {
    (v * 1_000_000.0).round() as i64
}

fn mv(time_ms: f64, x: f64, y: f64) -> CursorMoveEvent {
    CursorMoveEvent { time_ms: fx(time_ms), x: fx(x), y: fx(y), cursor_id: 0 }
}

fn click(time_ms: f64, down: bool) -> CursorClickEvent {
    CursorClickEvent { time_ms: fx(time_ms), down, button: MouseButton::Left }
}

fn make_events() -> CursorEvents {
    CursorEvents {
        moves: vec![mv(0.0, 0.1, 0.1), mv(100.0, 0.5, 0.5), mv(200.0, 0.9, 0.9)],
        clicks: vec![click(150.0, true), click(180.0, false)],
    }
}

#[test]
fn interpolation_without_smoothing() {
    let events = make_events();
    let result = interpolate_cursor(&events, fx(0.05), None, None).unwrap();
    assert!(result.x > fx(0.1) && result.x < fx(0.5));
}

#[test]
fn interpolation_with_smoothing() {
    let events = make_events();
    let config = SpringConfig::cursor_default();
    let result = interpolate_cursor(&events, fx(0.15), Some(config), None).unwrap();
    assert!(result.x > 0 && result.x < fx(1.0));
}

#[test]
fn shake_filter_removes_jitter() {
    let moves = vec![
        mv(0.0, 0.5, 0.5),
        mv(20.0, 0.501, 0.501),
        mv(40.0, 0.499, 0.499),
        mv(60.0, 0.500, 0.500),
    ];
    let filtered = filter_cursor_shake(&moves);
    assert!(filtered.len() <= moves.len());
}

#[test]
fn densification_fills_gaps() {
    let moves = vec![mv(0.0, 0.1, 0.1), mv(500.0, 0.9, 0.9)];
    let densified = densify_cursor_moves(&moves);
    assert!(densified.len() > moves.len());
}

#[test]
fn click_state_detected() {
    let events = make_events();
    let (progress, is_clicking) = compute_click_state(&events, fx(160.0));
    assert!(is_clicking);
    assert!(progress > 0);
}

#[test]
fn shake_filter_drops_the_reversal() {
    // The two interior samples reverse direction within a tiny area and a
    // short window: both go.
    let moves = vec![
        mv(0.0, 0.5, 0.5),
        mv(20.0, 0.501, 0.501),
        mv(40.0, 0.499, 0.499),
        mv(60.0, 0.500, 0.500),
    ];
    let filtered = filter_cursor_shake(&moves);
    assert_eq!(filtered.len(), 2);
    assert_eq!(filtered[0], moves[0]);
    assert_eq!(filtered[1], moves[3]);
}

#[test]
fn shake_filter_keeps_honest_motion() {
    let moves = vec![
        mv(0.0, 0.1, 0.1),
        mv(50.0, 0.3, 0.3),
        mv(100.0, 0.5, 0.5),
        mv(150.0, 0.7, 0.7),
    ];
    let filtered = filter_cursor_shake(&moves);
    assert_eq!(filtered, moves);
}

#[test]
fn densification_inserts_the_expected_count() {
    // 500 ms gap: ceil(500 / 16.666) = 30 steps, so 29 in-betweens.
    let moves = vec![mv(0.0, 0.1, 0.1), mv(500.0, 0.9, 0.9)];
    let densified = densify_cursor_moves(&moves);
    assert_eq!(densified.len(), 31);
    assert_eq!(densified[0], moves[0]);
    assert_eq!(densified[30], moves[1]);
    // Interior samples rise monotonically between the endpoints.
    for w in densified.windows(2) {
        assert!(w[0].time_ms <= w[1].time_ms);
        assert!(w[0].x <= w[1].x);
    }
}

#[test]
fn densification_respects_pointer_identity() {
    let mut b = mv(500.0, 0.9, 0.9);
    b.cursor_id = 1;
    let moves = vec![mv(0.0, 0.1, 0.1), b];
    let densified = densify_cursor_moves(&moves);
    assert_eq!(densified.len(), 2);
}

#[test]
fn densification_skips_short_travel() {
    // Plenty of time but barely any distance: nothing inserted.
    let moves = vec![mv(0.0, 0.5, 0.5), mv(500.0, 0.505, 0.505)];
    let densified = densify_cursor_moves(&moves);
    assert_eq!(densified.len(), 2);
}

#[test]
fn cursor_holds_before_the_first_sample() {
    let events = make_events();
    let result = interpolate_cursor(&events, -fx(1.0), None, None).unwrap();
    assert_eq!(result.x, fx(0.1));
    assert_eq!(result.y, fx(0.1));
    assert_eq!(result.velocity_x, 0);
    assert_eq!(result.opacity, FX_ONE);
}

#[test]
fn cursor_fades_after_the_last_sample() {
    let events = make_events();
    // 1.2 s after the last sample at 200 ms: past the 500 ms delay, the
    // 400 ms fade has finished.
    let result = interpolate_cursor(&events, fx(1.4), None, None).unwrap();
    assert_eq!(result.x, fx(0.9));
    assert_eq!(result.opacity, 0);
}

#[test]
fn cursor_without_samples_is_no_data() {
    let events = CursorEvents { moves: vec![], clicks: vec![] };
    assert!(interpolate_cursor(&events, fx(0.5), None, None).is_none());
}

#[test]
fn idle_opacity_is_full_while_active() {
    let events = make_events();
    assert_eq!(compute_idle_opacity(&events, fx(250.0)), FX_ONE);
}

#[test]
fn click_state_ends_after_release() {
    let events = make_events();
    let (_, is_clicking) = compute_click_state(&events, fx(200.0));
    assert!(!is_clicking);
}
