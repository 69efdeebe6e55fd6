//! Track-side zoom interpolation: focus precomputation, cursor
//! visibility, edge snapping, and the identity outside segments.

use drift::FX_ONE;
use drift::cursor::CursorEvents;
use drift::cursor::CursorMoveEvent;
use drift::spring::SpringConfig;
use drift::spring::Vec2;
use drift::zoom_track::SegmentsCursor;
use drift::zoom_track::ZoomFocusInterpolator;
use drift::zoom_track::ZoomMode;
use drift::zoom_track::ZoomSegment;
use drift::zoom_track::compute_zoom_bounds;
use drift::zoom_track::interpolate_zoom;

fn fx(v: f64) -> i64 {
    (v * 1_000_000.0).round() as i64
}

fn make_segment() -> ZoomSegment {
    ZoomSegment {
        start: fx(1.0),
        end: fx(5.0),
        amount: fx(2.0),
        mode: ZoomMode::Auto,
        instant_animation: false,
        edge_snap_ratio: fx(0.1),
    }
}

fn one_move_events() -> CursorEvents {
    CursorEvents {
        moves: vec![CursorMoveEvent { time_ms: 0, x: fx(0.5), y: fx(0.5), cursor_id: 0 }],
        clicks: vec![],
    }
}

#[test]
fn no_zoom_without_segments() {
    let events = CursorEvents { moves: vec![], clicks: vec![] };
    let mut interpolator =
        ZoomFocusInterpolator::new(events, None, SpringConfig::screen_movement(), fx(10.0));
    interpolator.precompute();

    let zoom = interpolate_zoom(&vec![], fx(2.0), &interpolator, None);
    assert!(!zoom.is_active);
}

#[test]
fn zoom_active_during_segment() {
    let mut interpolator =
        ZoomFocusInterpolator::new(one_move_events(), None, SpringConfig::screen_movement(), fx(10.0));
    interpolator.precompute();

    let segs = vec![make_segment()];
    let zoom = interpolate_zoom(&segs, fx(3.0), &interpolator, Some(Vec2 { x: fx(0.5), y: fx(0.5) }));
    assert!(zoom.is_active);
    assert!(zoom.camera_scale() > FX_ONE);
}

#[test]
fn cursor_stays_visible() {
    let bounds = compute_zoom_bounds(
        Vec2 { x: fx(0.5), y: fx(0.5) },
        fx(3.0),
        0,
        Some(Vec2 { x: fx(0.8), y: fx(0.8) }),
    );
    // The cursor at 0.8 is inside the bounds.
    assert!(bounds.top_left.x <= fx(0.8));
    assert!(bounds.bottom_right.x >= fx(0.8));
}

#[test]
fn edge_snap_keeps_margin() {
    let bounds = compute_zoom_bounds(Vec2 { x: fx(0.1), y: fx(0.1) }, fx(2.0), fx(0.2), None);
    assert!(bounds.top_left.x >= 0);
    assert!(bounds.top_left.y >= 0);
}

#[test]
fn identity_before_the_first_segment() {
    let mut interpolator =
        ZoomFocusInterpolator::new(one_move_events(), None, SpringConfig::screen_movement(), fx(10.0));
    interpolator.precompute();

    let segs = vec![make_segment()];
    let zoom = interpolate_zoom(&segs, fx(0.5), &interpolator, None);
    assert!(!zoom.is_active);
    assert_eq!(zoom.bounds.top_left, Vec2 { x: 0, y: 0 });
    assert_eq!(zoom.bounds.bottom_right, Vec2 { x: FX_ONE, y: FX_ONE });
    assert_eq!(zoom.camera_scale(), FX_ONE);
}

#[test]
fn bounds_never_leave_the_unit_square() {
    // Focus far off to one side, strong zoom, no snapping.
    let bounds = compute_zoom_bounds(Vec2 { x: fx(0.02), y: fx(0.98) }, fx(4.0), 0, None);
    assert!(bounds.top_left.x >= 0 && bounds.top_left.y >= 0);
    assert!(bounds.bottom_right.x <= FX_ONE && bounds.bottom_right.y <= FX_ONE);
    // Width is exactly 2 * (0.5 / 4.0) per axis.
    assert_eq!(bounds.bottom_right.x - bounds.top_left.x, fx(0.25));
    assert_eq!(bounds.bottom_right.y - bounds.top_left.y, fx(0.25));
}

#[test]
fn low_amounts_collapse_to_identity_bounds() {
    let bounds = compute_zoom_bounds(Vec2 { x: fx(0.3), y: fx(0.3) }, fx(1.0005), fx(0.5), None);
    assert_eq!(bounds.top_left, Vec2 { x: 0, y: 0 });
    assert_eq!(bounds.bottom_right, Vec2 { x: FX_ONE, y: FX_ONE });
}

#[test]
fn segments_cursor_reports_the_zoom_out_window() {
    let segs = vec![make_segment()];
    let c = SegmentsCursor::at_time(&segs, fx(5.5));
    assert_eq!(c.prev_segment, Some(make_segment()));
    assert_eq!(c.segment, None);
    assert_eq!(c.time_since_end, fx(0.5));

    let open = SegmentsCursor::at_time(&segs, fx(9.0));
    assert_eq!(open.segment, None);
    assert_eq!(open.time_since_end, 0);
}

#[test]
fn focus_track_follows_the_cursor() {
    let events = CursorEvents {
        moves: vec![
            CursorMoveEvent { time_ms: 0, x: fx(0.2), y: fx(0.2), cursor_id: 0 },
            CursorMoveEvent { time_ms: fx(2000.0), x: fx(0.8), y: fx(0.8), cursor_id: 0 },
        ],
        clicks: vec![],
    };
    let mut interpolator =
        ZoomFocusInterpolator::new(events, None, SpringConfig::screen_movement(), fx(5.0));
    interpolator.precompute();

    let early = interpolator.interpolate(fx(0.1));
    let late = interpolator.interpolate(fx(4.5));
    assert!(early.x < fx(0.5));
    assert!(late.x > fx(0.5));
}
