//! Export keyframe interpolation and configuration defaults.

use drift::FX_ONE;
use drift::export::ConvertConfig;
use drift::export::CursorKeyframe;
use drift::export::ExportConfig;
use drift::export::ZoomKeyframe;
use drift::export::default_crf;
use drift::export::default_fps;
use drift::export::default_preset;
use drift::export::interpolate_cursor_at;
use drift::export::interpolate_zoom_at;
use drift::fixed::fx_exp_neg;
use drift::fixed::fx_sqrt;
use drift::zoom::default_true;

fn fx(v: f64) -> i64 {
    (v * 1_000_000.0).round() as i64
}

fn zk(time_ms: f64, x: f64, y: f64, scale: f64) -> ZoomKeyframe {
    ZoomKeyframe { time_ms: fx(time_ms), x: fx(x), y: fx(y), scale: fx(scale) }
}

fn ck(time_ms: f64, x: f64, y: f64, click: bool) -> CursorKeyframe {
    CursorKeyframe { time_ms: fx(time_ms), x: fx(x), y: fx(y), click }
}

#[test]
fn zoom_keyframes_blend_with_smoothstep() {
    let keyframes = vec![zk(0.0, 0.0, 0.0, 1.0), zk(1000.0, 1.0, 1.0, 2.0)];
    // Midway the smoothstep blend is exactly one half.
    let mid = interpolate_zoom_at(&keyframes, fx(500.0));
    assert_eq!(mid.x, fx(0.5));
    assert_eq!(mid.scale, fx(1.5));
    // A quarter in: 3t^2 - 2t^3 at 0.25 is 0.15625.
    let quarter = interpolate_zoom_at(&keyframes, fx(250.0));
    assert_eq!(quarter.x, 156_250);
}

#[test]
fn zoom_keyframes_hold_at_the_boundaries() {
    let keyframes = vec![zk(100.0, 0.2, 0.3, 1.5), zk(1000.0, 0.8, 0.8, 2.0)];
    let before = interpolate_zoom_at(&keyframes, 0);
    assert_eq!((before.x, before.y, before.scale), (fx(0.2), fx(0.3), fx(1.5)));
    let after = interpolate_zoom_at(&keyframes, fx(2000.0));
    assert_eq!((after.x, after.scale), (fx(0.8), fx(2.0)));
}

#[test]
fn empty_zoom_keyframes_give_the_neutral_camera() {
    let state = interpolate_zoom_at(&vec![], fx(123.0));
    assert_eq!((state.x, state.y, state.scale), (fx(0.5), fx(0.5), FX_ONE));
}

#[test]
fn cursor_keyframes_blend_linearly() {
    let keyframes = vec![ck(0.0, 0.0, 0.0, false), ck(1000.0, 1.0, 0.0, false)];
    let mid = interpolate_cursor_at(&keyframes, fx(500.0));
    assert_eq!(mid.x, fx(0.5));
    assert_eq!(mid.opacity, FX_ONE);
    // One unit per second of horizontal travel.
    assert_eq!(mid.velocity_x, fx(1.0));
    assert!(mid.motion_blur > 0 && mid.motion_blur <= FX_ONE);
}

#[test]
fn cursor_keyframe_click_fades_over_the_span() {
    let keyframes = vec![ck(0.0, 0.5, 0.5, false), ck(1000.0, 0.5, 0.5, true)];
    let early = interpolate_cursor_at(&keyframes, fx(100.0));
    let late = interpolate_cursor_at(&keyframes, fx(900.0));
    assert_eq!(early.click_progress, fx(0.9));
    assert_eq!(late.click_progress, fx(0.1));
}

#[test]
fn cursor_keyframes_hold_at_the_boundaries() {
    let keyframes = vec![ck(100.0, 0.2, 0.3, true), ck(1000.0, 0.8, 0.8, false)];
    let before = interpolate_cursor_at(&keyframes, 0);
    assert_eq!((before.x, before.y), (fx(0.2), fx(0.3)));
    assert_eq!(before.click_progress, FX_ONE);
    let after = interpolate_cursor_at(&keyframes, fx(5000.0));
    assert_eq!((after.x, after.click_progress), (fx(0.8), 0));
}

#[test]
fn configuration_defaults_match_the_encoder_profile() {
    assert_eq!(default_crf(), 18);
    assert_eq!(default_fps(), 60);
    assert_eq!(default_preset(), "medium".to_string());
    assert!(default_true());

    let e = ExportConfig::default();
    assert_eq!((e.fps, e.width, e.height, e.crf), (30, 1920, 1080, 18));
    assert!(e.use_hw_accel);
    assert!(e.output_path.is_empty());

    let c = ConvertConfig::default();
    assert_eq!((c.crf, c.fps), (18, 60));
}

#[test]
fn fixed_point_kernels_hit_known_values() {
    // sqrt(4) = 2, sqrt(2) to six places.
    assert_eq!(fx_sqrt(fx(4.0)), fx(2.0));
    assert_eq!(fx_sqrt(fx(2.0)), 1_414_213);
    assert_eq!(fx_sqrt(0), 0);
    // e^0 = 1; e^-ln2 is one half to fixed-point precision.
    assert_eq!(fx_exp_neg(0), FX_ONE);
    assert!((fx_exp_neg(693_147) - fx(0.5)).abs() < 5);
    assert!(fx_exp_neg(fx(20.0)) == 0);
}
