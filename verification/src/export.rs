//! Export-side keyframe interpolation and configuration.
//!
//! During an export the caller hands precomputed zoom and cursor
//! keyframes; each frame's camera and cursor state is interpolated here
//! (smoothstep easing for the camera, linear blending with a derived
//! motion-blur strength for the cursor). The encoder process, file paths
//! and process plumbing are external collaborators.

use vstd::prelude::*;
use crate::compose::BackgroundConfig;
use crate::compose::CompositeConfig;
use crate::compose::CursorState;
use crate::compose::ZoomState;
use crate::fixed::FX_ONE;
use crate::fixed::fx_add;
use crate::fixed::fx_add_s;
use crate::fixed::fx_mul_s;
use crate::fixed::fx_div;
use crate::fixed::fx_div_s;
use crate::fixed::fx_lerp;
use crate::fixed::fx_max;
use crate::fixed::fx_min;
use crate::fixed::fx_mul;
use crate::fixed::fx_smoothstep;
use crate::fixed::fx_sqrt;
use crate::fixed::fx_sqrt_s;
use crate::fixed::fx_sub;
use crate::fixed::fx_sub_s;
use crate::fixed::lerp_s;
use crate::fixed::smoothstep_s;
use crate::zoom::min_i;

verus! {

/// Encoder settings for an export.
#[derive(Clone, Debug)]
pub struct ExportConfig {
    pub output_path: String,
    pub fps: u32,
    pub width: u32,
    pub height: u32,
    pub crf: u32,
    pub preset: String,
    pub use_hw_accel: bool,
}

impl Default for ExportConfig {
    /// Full-HD, 30 fps, visually lossless software encoding.
    fn default() -> (r: ExportConfig)
        ensures
            r.fps == 30,
            r.width == 1920,
            r.height == 1080,
            r.crf == 18,
            r.use_hw_accel,
            r.output_path@.len() == 0,
    {
        ExportConfig {
            output_path: String::new(),
            fps: 30,
            width: 1920,
            height: 1080,
            crf: 18,
            preset: default_preset(),
            use_hw_accel: true,
        }
    }
}

/// Default constant-rate factor.
pub fn default_crf() -> (r: u32)
    ensures
        r == 18,
{
    18
}

/// Default encoder preset.
pub fn default_preset() -> (r: String)
    ensures
        r@ =~= "medium"@,
{
    let mut s: String = String::new();
    s.append("medium");
    s
}

/// Default conversion frame rate.
pub fn default_fps() -> (r: u32)
    ensures
        r == 60,
{
    60
}

/// Settings for re-containering a recording.
#[derive(Clone, Debug)]
pub struct ConvertConfig {
    pub crf: u32,
    pub preset: String,
    pub fps: u32,
    pub use_hw_accel: bool,
    /// Empty means an automatically generated path.
    pub output_path: String,
}

impl Default for ConvertConfig {
    /// Visually lossless, 60 fps, hardware acceleration on.
    fn default() -> (r: ConvertConfig)
        ensures
            r.crf == 18,
            r.fps == 60,
            r.use_hw_accel,
            r.output_path@.len() == 0,
    {
        ConvertConfig {
            crf: 18,
            preset: default_preset(),
            fps: 60,
            use_hw_accel: true,
            output_path: String::new(),
        }
    }
}

/// A camera sample on the export timeline.
#[derive(Clone, Copy, Debug, PartialEq, Eq, Structural)]
pub struct ZoomKeyframe {
    pub time_ms: i64,
    pub x: i64,
    pub y: i64,
    pub scale: i64,
}

/// A cursor sample on the export timeline.
#[derive(Clone, Copy, Debug, PartialEq, Eq, Structural)]
pub struct CursorKeyframe {
    pub time_ms: i64,
    pub x: i64,
    pub y: i64,
    pub click: bool,
}

/// What an export reports back.
#[derive(Clone, Debug)]
pub struct ExportResult {
    pub output_path: String,
    pub file_size_bytes: u64,
    pub duration_ms: i64,
    pub frames_encoded: u64,
}

/// A complete composited-export request.
#[derive(Clone, Debug)]
pub struct CompositeExportConfig {
    pub export: ExportConfig,
    pub composite: CompositeConfig,
    pub background: BackgroundConfig,
    pub zoom_segments: Vec<ZoomKeyframe>,
    pub cursor_events: Vec<CursorKeyframe>,
}

/// Keyframe times never go back.
pub open spec fn zoom_keyframes_sorted(s: Seq<ZoomKeyframe>) -> bool {
    forall|i: int, j: int|
        #![trigger s[i].time_ms, s[j].time_ms]
        0 <= i <= j < s.len() ==> s[i].time_ms <= s[j].time_ms
}

/// Keyframe times never go back.
pub open spec fn cursor_keyframes_sorted(s: Seq<CursorKeyframe>) -> bool {
    forall|i: int, j: int|
        #![trigger s[i].time_ms, s[j].time_ms]
        0 <= i <= j < s.len() ==> s[i].time_ms <= s[j].time_ms
}

/// The eased camera between two bracketing keyframes.
pub open spec fn zoom_keyframe_blend(a: ZoomKeyframe, b: ZoomKeyframe, time_ms: int) -> ZoomState {
    let t = fx_div_s(fx_sub_s(time_ms, a.time_ms as int), fx_sub_s(b.time_ms as int, a.time_ms as int));
    let s = smoothstep_s(t);
    ZoomState {
        x: lerp_s(a.x as int, b.x as int, s) as i64,
        y: lerp_s(a.y as int, b.y as int, s) as i64,
        scale: lerp_s(a.scale as int, b.scale as int, s) as i64,
    }
}

/// Camera state at `time_ms`, from a sorted zoom keyframe list: the
/// neutral camera without keyframes, the boundary keyframe outside the
/// recorded range, and a smoothstep blend between the two bracketing
/// keyframes inside it.
pub fn interpolate_zoom_at(keyframes: &Vec<ZoomKeyframe>, time_ms: i64) -> (r: ZoomState)
    requires
        zoom_keyframes_sorted(keyframes@),
    ensures
        keyframes@.len() == 0 ==> r == (ZoomState { x: 500_000i64, y: 500_000i64, scale: FX_ONE }),
        keyframes@.len() > 0 && keyframes@[0].time_ms > time_ms ==> r == (ZoomState {
            x: keyframes@[0].x,
            y: keyframes@[0].y,
            scale: keyframes@[0].scale,
        }),
        keyframes@.len() > 0 && keyframes@[keyframes@.len() - 1].time_ms <= time_ms ==> r
            == (ZoomState {
            x: keyframes@[keyframes@.len() - 1].x,
            y: keyframes@[keyframes@.len() - 1].y,
            scale: keyframes@[keyframes@.len() - 1].scale,
        }),
        keyframes@.len() > 0 && keyframes@[0].time_ms <= time_ms && time_ms
            < keyframes@[keyframes@.len() - 1].time_ms ==> exists|i: int|
            0 <= i < keyframes@.len() - 1 && (#[trigger] keyframes@[i].time_ms) <= time_ms
                && time_ms < keyframes@[i + 1].time_ms && r == zoom_keyframe_blend(
                keyframes@[i],
                keyframes@[i + 1],
                time_ms as int,
            ),
{
    if keyframes.len() == 0 {
        return ZoomState::default();
    }

    // Number of keyframes at or before the query time.
    let n: usize = keyframes.len();
    let mut idx: usize = 0;
    while idx < n && keyframes[idx].time_ms <= time_ms
        invariant
            idx <= n,
            n == keyframes@.len(),
            forall|j: int| 0 <= j < idx ==> #[trigger] keyframes@[j].time_ms <= time_ms,
        decreases n - idx,
    {
        idx = idx + 1;
    }

    if idx == 0 {
        let k: ZoomKeyframe = keyframes[0];
        return ZoomState { x: k.x, y: k.y, scale: k.scale };
    }
    if idx >= n {
        let k: ZoomKeyframe = keyframes[n - 1];
        return ZoomState { x: k.x, y: k.y, scale: k.scale };
    }

    let a: ZoomKeyframe = keyframes[idx - 1];
    let b: ZoomKeyframe = keyframes[idx];
    let t: i64 = fx_div(fx_sub(time_ms, a.time_ms), fx_sub(b.time_ms, a.time_ms));
    let s: i64 = fx_smoothstep(t);

    ZoomState {
        x: fx_lerp(a.x, b.x, s),
        y: fx_lerp(a.y, b.y, s),
        scale: fx_lerp(a.scale, b.scale, s),
    }
}

/// The blended cursor between two bracketing keyframes: linear position,
/// velocity over the keyframe spacing floored at one millisecond, the
/// speed-derived motion blur capped at one, and the click progress fading
/// over the span when the next keyframe clicks.
pub open spec fn cursor_keyframe_blend_s(a: CursorKeyframe, b: CursorKeyframe, time_ms: int) -> CursorState {
    let span = fx_sub_s(b.time_ms as int, a.time_ms as int);
    let dt = if span >= FX_ONE as int {
        span
    } else {
        FX_ONE as int
    };
    let t = fx_div_s(fx_sub_s(time_ms, a.time_ms as int), span);
    let vx = fx_mul_s(fx_div_s(fx_sub_s(b.x as int, a.x as int), dt), 1_000_000_000);
    let vy = fx_mul_s(fx_div_s(fx_sub_s(b.y as int, a.y as int), dt), 1_000_000_000);
    let speed = fx_sqrt_s(fx_add_s(fx_mul_s(vx, vx), fx_mul_s(vy, vy)));
    CursorState {
        x: lerp_s(a.x as int, b.x as int, t) as i64,
        y: lerp_s(a.y as int, b.y as int, t) as i64,
        opacity: FX_ONE,
        size: 24_000_000,
        motion_blur: min_i(fx_div_s(speed, 2_000_000_000), FX_ONE as int) as i64,
        velocity_x: vx as i64,
        velocity_y: vy as i64,
        click_progress: if b.click {
            let fade = fx_sub_s(FX_ONE as int, t);
            (if fade >= 0 {
                fade
            } else {
                0int
            }) as i64
        } else {
            0
        },
    }
}

/// Cursor state at `time_ms`, from a sorted cursor keyframe list. Outside
/// the recorded range the boundary keyframe holds still, without blur;
/// inside it the position blends linearly, the velocity spans the
/// keyframe spacing, and the speed-derived motion blur stays within the
/// unit interval.
pub fn interpolate_cursor_at(keyframes: &Vec<CursorKeyframe>, time_ms: i64) -> (r: CursorState)
    requires
        cursor_keyframes_sorted(keyframes@),
    ensures
        keyframes@.len() == 0 ==> r == (CursorState {
            x: 500_000i64,
            y: 500_000i64,
            opacity: FX_ONE,
            size: 24_000_000i64,
            motion_blur: 0i64,
            velocity_x: 0i64,
            velocity_y: 0i64,
            click_progress: 0i64,
        }),
        keyframes@.len() > 0 && keyframes@[0].time_ms > time_ms ==> r == (CursorState {
            x: keyframes@[0].x,
            y: keyframes@[0].y,
            opacity: FX_ONE,
            size: 24_000_000i64,
            motion_blur: 0i64,
            velocity_x: 0i64,
            velocity_y: 0i64,
            click_progress: if keyframes@[0].click {
                FX_ONE
            } else {
                0i64
            },
        }),
        keyframes@.len() > 0 && keyframes@[keyframes@.len() - 1].time_ms <= time_ms ==> r
            == (CursorState {
            x: keyframes@[keyframes@.len() - 1].x,
            y: keyframes@[keyframes@.len() - 1].y,
            opacity: FX_ONE,
            size: 24_000_000i64,
            motion_blur: 0i64,
            velocity_x: 0i64,
            velocity_y: 0i64,
            click_progress: 0i64,
        }),
        keyframes@.len() > 0 && keyframes@[0].time_ms <= time_ms && time_ms
            < keyframes@[keyframes@.len() - 1].time_ms ==> exists|i: int|
            0 <= i < keyframes@.len() - 1 && (#[trigger] keyframes@[i]).time_ms <= time_ms
                && time_ms < keyframes@[i + 1].time_ms && r == cursor_keyframe_blend_s(
                keyframes@[i],
                keyframes@[i + 1],
                time_ms as int,
            ),
        0 <= r.motion_blur <= FX_ONE,
{
    if keyframes.len() == 0 {
        return CursorState::default();
    }

    let n: usize = keyframes.len();
    let mut idx: usize = 0;
    while idx < n && keyframes[idx].time_ms <= time_ms
        invariant
            idx <= n,
            n == keyframes@.len(),
            forall|j: int| 0 <= j < idx ==> #[trigger] keyframes@[j].time_ms <= time_ms,
        decreases n - idx,
    {
        idx = idx + 1;
    }

    if idx == 0 {
        let k: CursorKeyframe = keyframes[0];
        return CursorState {
            x: k.x,
            y: k.y,
            opacity: FX_ONE,
            size: 24_000_000,
            motion_blur: 0,
            velocity_x: 0,
            velocity_y: 0,
            click_progress: if k.click {
                FX_ONE
            } else {
                0
            },
        };
    }
    if idx >= n {
        let k: CursorKeyframe = keyframes[n - 1];
        return CursorState {
            x: k.x,
            y: k.y,
            opacity: FX_ONE,
            size: 24_000_000,
            motion_blur: 0,
            velocity_x: 0,
            velocity_y: 0,
            click_progress: 0,
        };
    }

    let a: CursorKeyframe = keyframes[idx - 1];
    let b: CursorKeyframe = keyframes[idx];
    let span: i64 = fx_sub(b.time_ms, a.time_ms);
    let dt: i64 = fx_max(span, FX_ONE);
    let t: i64 = fx_div(fx_sub(time_ms, a.time_ms), span);

    let vx: i64 = fx_mul(fx_div(fx_sub(b.x, a.x), dt), 1_000_000_000);
    let vy: i64 = fx_mul(fx_div(fx_sub(b.y, a.y), dt), 1_000_000_000);
    let speed: i64 = fx_sqrt(fx_add(fx_mul(vx, vx), fx_mul(vy, vy)));
    let motion_blur: i64 = fx_min(fx_div(speed, 2_000_000_000), FX_ONE);
    proof {
        crate::fixed::lemma_div_nonneg(
            crate::fixed::iabs((speed as int) * (FX_ONE as int)),
            crate::fixed::iabs(2_000_000_000),
        );
    }

    CursorState {
        x: fx_lerp(a.x, b.x, t),
        y: fx_lerp(a.y, b.y, t),
        opacity: FX_ONE,
        size: 24_000_000,
        motion_blur,
        velocity_x: vx,
        velocity_y: vy,
        click_progress: if b.click {
            fx_max(fx_sub(FX_ONE, t), 0)
        } else {
            0
        },
    }
}

} // verus!
