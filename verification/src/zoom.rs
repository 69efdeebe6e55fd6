//! Zoom engine: click-driven segment generation, camera evaluation, and
//! whole-timeline precomputation.
//!
//! Times arriving in milliseconds and the segment boundaries in seconds
//! are all fixed-point scalars. The evaluator walks a sorted segment list
//! and derives the camera center and scale for any query time; the
//! generator clusters clicks into the segments the evaluator consumes.

use vstd::prelude::*;
use crate::fixed::FX_HALF;
use crate::fixed::FX_ONE;
use crate::fixed::clamp_s;
use crate::fixed::fx_abs;
use crate::fixed::fx_add;
use crate::fixed::fx_add_s;
use crate::fixed::fx_clamp;
use crate::fixed::fx_div;
use crate::fixed::fx_div_s;
use crate::fixed::fx_divi;
use crate::fixed::fx_max;
use crate::fixed::fx_min;
use crate::fixed::fx_mul;
use crate::fixed::fx_mul_s;
use crate::fixed::fx_smoothstep;
use crate::fixed::fx_sqrt;
use crate::fixed::fx_sqrt_s;
use crate::fixed::fx_sub;
use crate::fixed::fx_sub_s;
use crate::fixed::iabs;
use crate::fixed::lemma_div_mono_denom;
use crate::fixed::lemma_div_mono_num;
use crate::fixed::lemma_div_nonneg;
use crate::fixed::lemma_mul_div_cancel;
use crate::fixed::lemma_fx_mul_zero;
use crate::fixed::sat64;
use crate::fixed::smoothstep_s;
use crate::fixed::tdiv;
use crate::spring::SpringConfig;
use crate::spring::SpringSimulation;
use crate::spring::spring_step_s;
use crate::spring::Vec2;
use crate::spring::spring_ease;
use crate::spring::spring_ease_out;
use crate::spring::spring_ease_out_s;
use crate::spring::spring_ease_s;

verus! {

/// A button press or release, with its screen position.
#[derive(Clone, Copy, Debug, PartialEq, Eq, Structural)]
pub struct ClickEvent {
    /// Milliseconds.
    pub time: i64,
    /// Normalized, 0 to 1.
    pub x: i64,
    /// Normalized, 0 to 1.
    pub y: i64,
    pub down: bool,
}

/// Default used when a click record does not say its direction.
pub fn default_true() -> (r: bool)
    ensures
        r,
{
    true
}

/// A pointer move sample.
#[derive(Clone, Copy, Debug, PartialEq, Eq, Structural)]
pub struct MoveEvent {
    /// Milliseconds.
    pub time: i64,
    pub x: i64,
    pub y: i64,
}

/// A time interval during which the camera zooms toward the cursor.
#[derive(Clone, Copy, Debug, PartialEq, Eq, Structural)]
pub struct ZoomSegment {
    /// Seconds.
    pub start: i64,
    /// Seconds.
    pub end: i64,
    /// Zoom level; one means no zoom.
    pub amount: i64,
}

/// Camera center and scale at one instant.
#[derive(Clone, Copy, Debug, PartialEq, Eq, Structural)]
pub struct ZoomState {
    pub x: i64,
    pub y: i64,
    pub scale: i64,
}

/// Cursor state at one instant, reduced to what the compositor needs.
#[derive(Clone, Copy, Debug, PartialEq, Eq, Structural)]
pub struct CursorState {
    pub x: i64,
    pub y: i64,
    pub opacity: i64,
    pub click_progress: i64,
    pub motion: i64,
}

/// Zoom plus cursor, evaluated together for one frame.
#[derive(Clone, Copy, Debug, PartialEq, Eq, Structural)]
pub struct FrameState {
    pub zoom: ZoomState,
    pub cursor: CursorState,
}

/// Seconds a zoom-in or zoom-out transition takes.
pub const ZOOM_DURATION: i64 = 1_000_000;

/// Clicks joining a group must be within this many seconds of a member.
pub const CLICK_GROUP_TIME_THRESHOLD_SECS: i64 = 2_500_000;

/// ... and within this normalized distance of a member.
pub const CLICK_GROUP_SPATIAL_THRESHOLD: i64 = 150_000;

/// Seconds of anticipation before a group's first click.
pub const CLICK_PRE_PADDING: i64 = 400_000;

/// Seconds the zoom holds after a group's last click.
pub const CLICK_POST_PADDING: i64 = 2_000_000;

/// Intervals closer than this many seconds are merged.
pub const MERGE_GAP_THRESHOLD: i64 = 800_000;

/// Segments shorter than this many seconds are dropped.
pub const MIN_SEGMENT_DURATION: i64 = 1_200_000;

/// Clicks within this many seconds of the end are ignored.
pub const STOP_PADDING_SECONDS: i64 = 500_000;

/// Zoom level of generated segments.
pub const AUTO_ZOOM_AMOUNT: i64 = 1_800_000;

/// Idle milliseconds before the cursor fades.
pub const CURSOR_IDLE_DELAY_MS: i64 = 600_000_000;

/// Milliseconds the idle fade takes.
pub const CURSOR_FADE_OUT_MS: i64 = 500_000_000;

/// Milliseconds the click ripple animation takes.
pub const CLICK_VISUAL_DURATION_MS: i64 = 350_000_000;

/// Combined magnitude under which a reversal counts as shake.
pub const SHAKE_THRESHOLD: i64 = 15_000;

/// Window in which shake is detected, milliseconds.
pub const SHAKE_WINDOW_MS: i64 = 100_000_000;

/// Screen-camera spring stiffness.
pub const SCREEN_SPRING_STIFFNESS: i64 = 120_000_000;

/// Screen-camera spring damping.
pub const SCREEN_SPRING_DAMPING: i64 = 32_000_000;

/// Screen-camera spring mass.
pub const SCREEN_SPRING_MASS: i64 = 2_500_000;

/// The camera that shows the whole frame: centered, unscaled.
pub open spec fn identity_zoom_state() -> ZoomState {
    ZoomState { x: FX_HALF, y: FX_HALF, scale: FX_ONE }
}

/// The query sits on some segment's plateau: the zoom-in transition has
/// finished and the segment has not ended.
pub open spec fn on_zoom_plateau(s: Seq<ZoomSegment>, time_secs: int) -> bool {
    exists|i: int|
        0 <= i < s.len() && (#[trigger] s[i]).start + ZOOM_DURATION as int <= time_secs
            && time_secs <= s[i].end
}

/// Segments the evaluator assumes: each runs forward, and they never
/// overlap (stated pairwise so it survives dropping segments).
pub open spec fn valid_segments(s: Seq<ZoomSegment>) -> bool {
    &&& forall|i: int| 0 <= i < s.len() ==> #[trigger] s[i].start < s[i].end
    &&& forall|i: int, j: int|
        #![trigger s[i].end, s[j].start]
        0 <= i < j < s.len() ==> s[i].end <= s[j].start
}

/// On a plateau, the segment the scan found is the plateau's segment:
/// valid segments are disjoint, so only one contains the query time.
proof fn lemma_plateau_is_current(s: Seq<ZoomSegment>, time_secs: int, c: int)
    requires
        valid_segments(s),
        on_zoom_plateau(s, time_secs),
        0 <= c < s.len(),
        time_secs > s[c].start,
        time_secs <= s[c].end,
    ensures
        s[c].start + ZOOM_DURATION as int <= time_secs,
{
    let ii = choose|i: int|
        0 <= i < s.len() && (#[trigger] s[i]).start + ZOOM_DURATION as int <= time_secs
            && time_secs <= s[i].end;
    if ii < c {
        assert(s[ii].end <= s[c].start);
        assert(false);
    } else if ii > c {
        assert(s[c].end <= s[ii].start);
        assert(false);
    }
}

/// Products of values at least one are at least the product of the bounds.
proof fn lemma_mul_lower(a: int, b: int, la: int, lb: int) by (nonlinear_arith)
    requires
        a >= la >= 0,
        b >= lb >= 0,
    ensures
        a * b >= la * lb,
{
}

// ───────────────────────────────────────────────────────────────
// Zoom evaluation
// ───────────────────────────────────────────────────────────────

/// First segment containing the query time (strictly after its start),
/// scanning from `i`.
pub open spec fn find_current_s(s: Seq<ZoomSegment>, t: int, i: int) -> Option<int>
    decreases s.len() - i,
{
    if i < 0 || i >= s.len() {
        None
    } else if t > s[i].start && t <= s[i].end {
        Some(i)
    } else {
        find_current_s(s, t, i + 1)
    }
}

/// Last segment already ended at the query time, scanning down from `j`.
pub open spec fn find_prev_ended_s(s: Seq<ZoomSegment>, t: int, j: int) -> Option<int>
    decreases j,
{
    if j <= 0 || j > s.len() {
        None
    } else if s[j - 1].end <= t {
        Some(j - 1)
    } else {
        find_prev_ended_s(s, t, j - 1)
    }
}

/// The full segment walk as a value: the zoom progress (0 none, 1 fully
/// zoomed), the governing segment's zoom amount, and the focus position,
/// covering the zoom-in ease, the zoom-out tail, back-to-back segments,
/// and the short-gap blend.
pub open spec fn eval_segments_s(s: Seq<ZoomSegment>, t: int, cx: int, cy: int) -> (
    int,
    int,
    int,
    int,
) {
    let current = find_current_s(s, t, 0);
    let prev = match current {
        Some(c) => if c > 0 {
            Some(c - 1)
        } else {
            None
        },
        None => find_prev_ended_s(s, t, s.len() as int),
    };
    match (prev, current) {
        (Some(p), None) => {
            let elapsed = fx_sub_s(t, s[p].end as int);
            if elapsed >= ZOOM_DURATION as int {
                (0, FX_ONE as int, FX_HALF as int, FX_HALF as int)
            } else {
                let ease = spring_ease_out_s(
                    fx_div_s(elapsed, ZOOM_DURATION as int),
                    SCREEN_SPRING_STIFFNESS as int,
                    SCREEN_SPRING_DAMPING as int,
                    SCREEN_SPRING_MASS as int,
                );
                (fx_sub_s(FX_ONE as int, ease), s[p].amount as int, cx, cy)
            }
        },
        (None, Some(c)) => {
            let raw = min_i(fx_div_s(fx_sub_s(t, s[c].start as int), ZOOM_DURATION as int), FX_ONE as int);
            let ease = spring_ease_s(
                raw,
                SCREEN_SPRING_STIFFNESS as int,
                SCREEN_SPRING_DAMPING as int,
                SCREEN_SPRING_MASS as int,
            );
            (ease, s[c].amount as int, cx, cy)
        },
        (Some(p), Some(c)) => {
            let raw = min_i(fx_div_s(fx_sub_s(t, s[c].start as int), ZOOM_DURATION as int), FX_ONE as int);
            let ease = spring_ease_s(
                raw,
                SCREEN_SPRING_STIFFNESS as int,
                SCREEN_SPRING_DAMPING as int,
                SCREEN_SPRING_MASS as int,
            );
            if s[c].start == s[p].end {
                (FX_ONE as int, s[c].amount as int, cx, cy)
            } else if fx_sub_s(s[c].start as int, s[p].end as int) < ZOOM_DURATION as int {
                let gap = fx_sub_s(s[c].start as int, s[p].end as int);
                let out = spring_ease_out_s(
                    fx_div_s(gap, ZOOM_DURATION as int),
                    SCREEN_SPRING_STIFFNESS as int,
                    SCREEN_SPRING_DAMPING as int,
                    SCREEN_SPRING_MASS as int,
                );
                let min_zoom = fx_sub_s(FX_ONE as int, out);
                let blend = fx_add_s(fx_mul_s(min_zoom, fx_sub_s(FX_ONE as int, ease)), ease);
                (blend, s[c].amount as int, cx, cy)
            } else {
                (ease, s[c].amount as int, cx, cy)
            }
        },
        (None, None) => (0, FX_ONE as int, FX_HALF as int, FX_HALF as int),
    }
}

/// Smaller of two mathematical integers.
pub open spec fn min_i(a: int, b: int) -> int {
    if a <= b {
        a
    } else {
        b
    }
}

/// The whole camera evaluation as a value: walk the segments, ease the
/// amount from one toward the governing segment's amount (floored at
/// one), and clamp the focus so the viewport stays inside the frame.
pub open spec fn zoom_state_s(s: Seq<ZoomSegment>, time_ms: int, cx: int, cy: int) -> ZoomState {
    if s.len() == 0 {
        identity_zoom_state()
    } else {
        let ts = sat64(tdiv(time_ms, 1000));
        let e = eval_segments_s(s, ts, cx, cy);
        if e.0 <= 1000 {
            identity_zoom_state()
        } else {
            let amount0 = fx_add_s(FX_ONE as int, fx_mul_s(fx_sub_s(e.1, FX_ONE as int), e.0));
            let amount = if amount0 >= FX_ONE as int {
                amount0
            } else {
                FX_ONE as int
            };
            let half = fx_div_s(FX_HALF as int, amount);
            ZoomState {
                x: clamp_s(e.2, half, FX_ONE as int - half) as i64,
                y: clamp_s(e.3, half, FX_ONE as int - half) as i64,
                scale: amount as i64,
            }
        }
    }
}

/// The camera on a plateau, as a value: the segment's own zoom amount,
/// the cursor clamped so the viewport stays inside the frame.
pub open spec fn plateau_zoom_state_s(amount: int, cx: int, cy: int) -> ZoomState {
    let half = fx_div_s(FX_HALF as int, amount);
    ZoomState {
        x: clamp_s(cx, half, FX_ONE as int - half) as i64,
        y: clamp_s(cy, half, FX_ONE as int - half) as i64,
        scale: amount as i64,
    }
}

/// Camera state at `time_ms`, focused on the given cursor position: the
/// exact value of `zoom_state_s` on the inputs.
///
/// With no segments the camera is the identity; before the first segment
/// of a valid sorted list it is exactly the identity too ("never start
/// zoomed"); on a segment's plateau the camera sits at the segment's own
/// zoom amount, centered on the clamped cursor. The scale never drops
/// below one, and the center always stays inside the unit square.
pub fn evaluate_zoom_at_time(
    segments: &Vec<ZoomSegment>,
    time_ms: i64,
    cursor_x: i64,
    cursor_y: i64,
) -> (r: ZoomState)
    ensures
        r == zoom_state_s(segments@, time_ms as int, cursor_x as int, cursor_y as int),
        segments@.len() == 0 ==> r == identity_zoom_state(),
        valid_segments(segments@) && segments@.len() > 0 && sat64(tdiv(time_ms as int, 1000))
            <= segments@[0].start ==> r == identity_zoom_state(),
        valid_segments(segments@) && on_zoom_plateau(segments@, sat64(tdiv(time_ms as int, 1000)))
            ==> exists|i: int|
            0 <= i < segments@.len() && (#[trigger] segments@[i]).start + ZOOM_DURATION as int
                <= sat64(tdiv(time_ms as int, 1000)) && sat64(tdiv(time_ms as int, 1000))
                <= segments@[i].end && (segments@[i].amount >= FX_ONE ==> r
                == plateau_zoom_state_s(segments@[i].amount as int, cursor_x as int, cursor_y as int)),
        r.scale >= FX_ONE,
        0 <= r.x <= FX_ONE,
        0 <= r.y <= FX_ONE,
{
    if segments.len() == 0 {
        return ZoomState { x: FX_HALF, y: FX_HALF, scale: FX_ONE };
    }

    let time_secs: i64 = fx_divi(time_ms, 1000);

    let (zoom_t, seg_amount, focus_x, focus_y): (i64, i64, i64, i64) = evaluate_segments(
        segments,
        time_secs,
        cursor_x,
        cursor_y,
    );

    if zoom_t <= 1_000 {
        return ZoomState { x: FX_HALF, y: FX_HALF, scale: FX_ONE };
    }

    // Ease the zoom level from one toward the governing segment's amount
    // (floored at one, as the data model requires of amounts anyway) and
    // keep the viewport inside the frame.
    let amount: i64 = fx_max(fx_add(FX_ONE, fx_mul(fx_sub(seg_amount, FX_ONE), zoom_t)), FX_ONE);
    let half: i64 = fx_div(FX_HALF, amount);
    proof {
        lemma_div_nonneg(iabs((FX_HALF as int) * (FX_ONE as int)), iabs(amount as int));
        lemma_div_mono_denom((FX_HALF as int) * (FX_ONE as int), iabs(amount as int), FX_ONE as int);
        assert(0 <= half <= FX_HALF);
        if valid_segments(segments@) && on_zoom_plateau(segments@, time_secs as int) {
            let ii = choose|i: int|
                0 <= i < segments@.len() && (#[trigger] segments@[i]).start + ZOOM_DURATION as int
                    <= time_secs && time_secs <= segments@[i].end && zoom_t as int
                    == FX_ONE as int && seg_amount as int == segments@[i].amount as int;
            if segments@[ii].amount >= FX_ONE {
                let a = segments@[ii].amount as int;
                lemma_mul_div_cancel(fx_sub_s(a, FX_ONE as int), FX_ONE as int);
                assert(amount == a);
            }
        }
    }

    let cx: i64 = fx_clamp(focus_x, half, fx_sub(FX_ONE, half));
    let cy: i64 = fx_clamp(focus_y, half, fx_sub(FX_ONE, half));

    ZoomState { x: cx, y: cy, scale: amount }
}

/// Walk the segment list at `time_secs`: the exact value of
/// `eval_segments_s`, that is the zoom progress (0 = no zoom, 1 = fully
/// zoomed), the governing segment's amount, and the focus position.
/// Handles the zoom-out tail after a segment, back-to-back segments
/// (stay fully zoomed, pan only), and short gaps (partial zoom-out
/// blended back up).
fn evaluate_segments(segments: &Vec<ZoomSegment>, time_secs: i64, cursor_x: i64, cursor_y: i64) -> (r:
    (i64, i64, i64, i64))
    ensures
        r.0 == eval_segments_s(segments@, time_secs as int, cursor_x as int, cursor_y as int).0,
        r.1 == eval_segments_s(segments@, time_secs as int, cursor_x as int, cursor_y as int).1,
        r.2 == eval_segments_s(segments@, time_secs as int, cursor_x as int, cursor_y as int).2,
        r.3 == eval_segments_s(segments@, time_secs as int, cursor_x as int, cursor_y as int).3,
        valid_segments(segments@) && segments@.len() > 0 && time_secs <= segments@[0].start
            ==> r == (0i64, FX_ONE, FX_HALF, FX_HALF),
        valid_segments(segments@) && on_zoom_plateau(segments@, time_secs as int) ==> exists|i: int|
            0 <= i < segments@.len() && (#[trigger] segments@[i]).start + ZOOM_DURATION as int
                <= time_secs && time_secs <= segments@[i].end && (r.0 as int, r.1 as int) == (
            FX_ONE as int,
            segments@[i].amount as int,
        ) && r.2 == cursor_x && r.3 == cursor_y,
{
    let ghost before_all: bool = valid_segments(segments@) && segments@.len() > 0 && time_secs
        <= segments@[0].start;
    let ghost plateau: bool = valid_segments(segments@) && on_zoom_plateau(
        segments@,
        time_secs as int,
    );

    let n: usize = segments.len();
    let mut current: Option<usize> = None;
    let mut prev: Option<usize> = None;

    let mut i: usize = 0;
    while i < n && current.is_none()
        invariant
            i <= n,
            n == segments@.len(),
            before_all == (valid_segments(segments@) && segments@.len() > 0 && time_secs
                <= segments@[0].start),
            before_all ==> current is None,
            (match current {
                Some(c) => c < n && time_secs > segments@[c as int].start && time_secs
                    <= segments@[c as int].end && (c > 0 ==> prev == Some((c - 1) as usize)) && (c
                    == 0 ==> prev is None) && find_current_s(segments@, time_secs as int, 0)
                    == Some(c as int),
                None => prev is None && find_current_s(segments@, time_secs as int, 0)
                    == find_current_s(segments@, time_secs as int, i as int),
            }),
            current is None ==> forall|j: int|
                0 <= j < i ==> !(time_secs > (#[trigger] segments@[j]).start && time_secs
                    <= segments@[j].end),
        decreases n - i,
    {
        let seg: ZoomSegment = segments[i];
        if time_secs > seg.start && time_secs <= seg.end {
            proof {
                if before_all {
                    assert(segments@[0].start < segments@[0].end);
                    if i > 0 {
                        assert(segments@[0].end <= segments@[i as int].start);
                    }
                    assert(false);
                }
            }
            current = Some(i);
            if i > 0 {
                prev = Some(i - 1);
            }
        }
        i = i + 1;
    }

    proof {
        if current is None {
            assert(find_current_s(segments@, time_secs as int, 0) == find_current_s(
                segments@,
                time_secs as int,
                n as int,
            ));
            assert(find_current_s(segments@, time_secs as int, n as int) is None);
        }
        if plateau && current is None {
            let ii = choose|i: int|
                0 <= i < segments@.len() && (#[trigger] segments@[i]).start + ZOOM_DURATION as int
                    <= time_secs && time_secs <= segments@[i].end;
            assert(time_secs > segments@[ii].start && time_secs <= segments@[ii].end);
            assert(false);
        }
    }

    if current.is_none() {
        // Not inside any segment: find the most recent one that ended.
        let mut j: usize = n;
        while j > 0 && segments[j - 1].end > time_secs
            invariant
                j <= n,
                n == segments@.len(),
                before_all == (valid_segments(segments@) && segments@.len() > 0 && time_secs
                    <= segments@[0].start),
                find_prev_ended_s(segments@, time_secs as int, n as int) == find_prev_ended_s(
                    segments@,
                    time_secs as int,
                    j as int,
                ),
            decreases j,
        {
            j = j - 1;
        }
        proof {
            if before_all && j > 0 {
                assert(segments@[0].start < segments@[0].end);
                if j > 1 {
                    assert(segments@[0].end <= segments@[j - 1].start);
                    assert(segments@[j - 1].start < segments@[j - 1].end);
                }
                assert(false);
            }
        }
        if j > 0 {
            prev = Some(j - 1);
            proof {
                assert(find_prev_ended_s(segments@, time_secs as int, n as int) == Some(
                    j - 1 as int,
                ));
            }
        } else {
            proof {
                assert(find_prev_ended_s(segments@, time_secs as int, n as int) is None);
            }
        }
    }

    match (prev, current) {
        (Some(p), None) => {
            // Zooming out from the previous segment.
            let prev_seg: ZoomSegment = segments[p];
            let elapsed: i64 = fx_sub(time_secs, prev_seg.end);
            if elapsed >= ZOOM_DURATION {
                return (0, FX_ONE, FX_HALF, FX_HALF);
            }
            let raw_t: i64 = fx_div(elapsed, ZOOM_DURATION);
            let ease_t: i64 = spring_ease_out(
                raw_t,
                SCREEN_SPRING_STIFFNESS,
                SCREEN_SPRING_DAMPING,
                SCREEN_SPRING_MASS,
            );
            (fx_sub(FX_ONE, ease_t), prev_seg.amount, cursor_x, cursor_y)
        },
        (None, Some(c)) => {
            // Zooming into the current segment, nothing before it.
            let seg: ZoomSegment = segments[c];
            let elapsed: i64 = fx_sub(time_secs, seg.start);
            let raw_t: i64 = fx_min(fx_div(elapsed, ZOOM_DURATION), FX_ONE);
            proof {
                if plateau {
                    lemma_plateau_is_current(segments@, time_secs as int, c as int);
                    lemma_mul_div_cancel(elapsed as int, FX_ONE as int);
                    assert(raw_t == FX_ONE);
                }
            }
            let ease_t: i64 = spring_ease(
                raw_t,
                SCREEN_SPRING_STIFFNESS,
                SCREEN_SPRING_DAMPING,
                SCREEN_SPRING_MASS,
            );
            (ease_t, seg.amount, cursor_x, cursor_y)
        },
        (Some(p), Some(c)) => {
            // Transitioning between segments.
            let seg: ZoomSegment = segments[c];
            let prev_seg: ZoomSegment = segments[p];
            let elapsed: i64 = fx_sub(time_secs, seg.start);
            let raw_t: i64 = fx_min(fx_div(elapsed, ZOOM_DURATION), FX_ONE);
            proof {
                if plateau {
                    lemma_plateau_is_current(segments@, time_secs as int, c as int);
                    lemma_mul_div_cancel(elapsed as int, FX_ONE as int);
                    assert(raw_t == FX_ONE);
                }
            }
            let ease_t: i64 = spring_ease(
                raw_t,
                SCREEN_SPRING_STIFFNESS,
                SCREEN_SPRING_DAMPING,
                SCREEN_SPRING_MASS,
            );
            proof {
                if plateau {
                    lemma_fx_mul_zero(FX_ONE - ease_t);
                }
            }

            if seg.start == prev_seg.end {
                // Back to back: stay fully zoomed and only pan.
                (FX_ONE, seg.amount, cursor_x, cursor_y)
            } else if fx_sub(seg.start, prev_seg.end) < ZOOM_DURATION {
                // Short gap: blend from the partial zoom-out level back up.
                let gap: i64 = fx_sub(seg.start, prev_seg.end);
                let out_t: i64 = spring_ease_out(
                    fx_div(gap, ZOOM_DURATION),
                    SCREEN_SPRING_STIFFNESS,
                    SCREEN_SPRING_DAMPING,
                    SCREEN_SPRING_MASS,
                );
                let min_zoom: i64 = fx_sub(FX_ONE, out_t);
                let t: i64 = fx_add(fx_mul(min_zoom, fx_sub(FX_ONE, ease_t)), ease_t);
                proof {
                    if plateau {
                        lemma_fx_mul_zero(min_zoom as int);
                        assert(t == FX_ONE);
                    }
                }
                (t, seg.amount, cursor_x, cursor_y)
            } else {
                (ease_t, seg.amount, cursor_x, cursor_y)
            }
        },
        (None, None) => (0, FX_ONE, FX_HALF, FX_HALF),
    }
}

// ───────────────────────────────────────────────────────────────
// Segment generation
// ───────────────────────────────────────────────────────────────

/// What the generator promises of each emitted segment: it lies inside
/// the recording, runs forward for at least the minimum duration, and
/// zooms by the automatic amount.
pub open spec fn generated_segment_ok(seg: ZoomSegment, limit: int) -> bool {
    0 <= seg.start && seg.start < seg.end && seg.end <= limit && seg.end - seg.start
        >= MIN_SEGMENT_DURATION as int && seg.amount == AUTO_ZOOM_AMOUNT
}

/// Interval starts never decrease.
pub open spec fn intervals_sorted(s: Seq<(i64, i64)>) -> bool {
    forall|i: int, j: int|
        #![trigger s[i].0, s[j].0]
        0 <= i <= j < s.len() ==> s[i].0 <= s[j].0
}

/// The window the generator works in: the recording minus its trailing
/// stop padding.
pub open spec fn activity_limit_s(max_duration: int) -> int {
    if max_duration > STOP_PADDING_SECONDS as int {
        max_duration - STOP_PADDING_SECONDS as int
    } else {
        max_duration
    }
}

/// A down-click at this time (seconds) is guaranteed to yield a segment:
/// it lies in the recording, and a minimum-length segment fits between
/// it and the activity limit.
pub open spec fn productive_click_time(v: int, limit: int) -> bool {
    0 <= v && v + MIN_SEGMENT_DURATION as int <= limit
}

/// Some down-click of the recording is productive.
pub open spec fn has_productive_click(clicks: Seq<ClickEvent>, limit: int) -> bool {
    exists|i: int|
        0 <= i < clicks.len() && (#[trigger] clicks[i]).down && productive_click_time(
            sat64(tdiv(clicks[i].time as int, 1000)),
            limit,
        )
}

/// Some interval in the list reaches the minimum segment duration.
pub open spec fn has_long_interval(s: Seq<(i64, i64)>) -> bool {
    exists|m: int| 0 <= m < s.len() && (#[trigger] s[m]).1 - s[m].0 >= MIN_SEGMENT_DURATION as int
}

/// Some interval of the list covers the time `v` and reaches the minimum
/// duration.
pub open spec fn some_interval_covers(s: Seq<(i64, i64)>, v: int) -> bool {
    exists|m: int|
        0 <= m < s.len() && (#[trigger] s[m]).0 <= v <= s[m].1 && s[m].1 - s[m].0
            >= MIN_SEGMENT_DURATION as int
}

/// Some segment of the list covers the time `v`.
pub open spec fn some_segment_covers(s: Seq<ZoomSegment>, v: int) -> bool {
    exists|k: int| 0 <= k < s.len() && (#[trigger] s[k]).start as int <= v <= s[k].end as int
}

/// A click's screen position: the nearest preceding move sample, the
/// click's own coordinates when none precedes it.
pub open spec fn resolve_position_s(moves: Seq<MoveEvent>, c: ClickEvent) -> (i64, i64) {
    match last_move_at_or_before_s(moves, c.time as int, moves.len() as int) {
        Some(k) => (moves[k].x, moves[k].y),
        None => (c.x, c.y),
    }
}

/// The retained down-clicks as (seconds, x, y), from index `i`: late
/// clicks and releases are discarded, positions resolve to the nearest
/// preceding move.
pub open spec fn click_positions_s(
    clicks: Seq<ClickEvent>,
    moves: Seq<MoveEvent>,
    limit: int,
    i: int,
    acc: Seq<(i64, i64, i64)>,
) -> Seq<(i64, i64, i64)>
    decreases clicks.len() - i,
{
    if i < 0 || i >= clicks.len() {
        acc
    } else {
        let c = clicks[i];
        let ts = sat64(tdiv(c.time as int, 1000));
        let acc2 = if c.down && ts < limit {
            acc.push((ts as i64, resolve_position_s(moves, c).0, resolve_position_s(moves, c).1))
        } else {
            acc
        };
        click_positions_s(clicks, moves, limit, i + 1, acc2)
    }
}

/// Whether a candidate click is close to a group member in both time and
/// space.
pub open spec fn clicks_close_s(cand: (i64, i64, i64), member: (i64, i64, i64)) -> bool {
    let dx = fx_sub_s(cand.1 as int, member.1 as int);
    let dy = fx_sub_s(cand.2 as int, member.2 as int);
    sat64(iabs(fx_sub_s(cand.0 as int, member.0 as int))) < CLICK_GROUP_TIME_THRESHOLD_SECS as int
        && fx_sqrt_s(fx_add_s(fx_mul_s(dx, dx), fx_mul_s(dy, dy)))
        < CLICK_GROUP_SPATIAL_THRESHOLD as int
}

/// Whether any already-assigned member of group `g` is close to the
/// candidate at `idx`, scanning members from `j`.
pub open spec fn can_join_s(
    pos: Seq<(i64, i64, i64)>,
    gof: Seq<int>,
    g: int,
    idx: int,
    j: int,
) -> bool
    decreases idx - j,
{
    if j < 0 || j >= idx {
        false
    } else if gof[j] == g && clicks_close_s(pos[idx], pos[j]) {
        true
    } else {
        can_join_s(pos, gof, g, idx, j + 1)
    }
}

/// The first existing group the candidate can join, scanning from `g`.
pub open spec fn find_group_s(
    pos: Seq<(i64, i64, i64)>,
    gof: Seq<int>,
    count: int,
    idx: int,
    g: int,
) -> Option<int>
    decreases count - g,
{
    if g < 0 || g >= count {
        None
    } else if can_join_s(pos, gof, g, idx, 0) {
        Some(g)
    } else {
        find_group_s(pos, gof, count, idx, g + 1)
    }
}

/// Greedy clustering from index `idx`: each click joins the first group
/// with a close member, else founds a new one. Returns the group of each
/// click and the group count.
pub open spec fn assign_groups_s(
    pos: Seq<(i64, i64, i64)>,
    idx: int,
    gof: Seq<int>,
    count: int,
) -> (Seq<int>, int)
    decreases pos.len() - idx,
{
    if idx < 0 || idx >= pos.len() {
        (gof, count)
    } else {
        match find_group_s(pos, gof, count, idx, 0) {
            Some(g) => assign_groups_s(pos, idx + 1, gof.push(g), count),
            None => assign_groups_s(pos, idx + 1, gof.push(count), count + 1),
        }
    }
}

/// The time span of group `g`'s members, scanning from `j` with the
/// running (found, min, max).
pub open spec fn group_span_s(
    pos: Seq<(i64, i64, i64)>,
    gof: Seq<int>,
    g: int,
    j: int,
    have: bool,
    tmin: i64,
    tmax: i64,
) -> (bool, i64, i64)
    decreases pos.len() - j,
{
    if j < 0 || j >= pos.len() {
        (have, tmin, tmax)
    } else {
        let t = pos[j].0;
        let next = if gof[j] == g {
            if !have {
                (true, t, t)
            } else {
                (
                    true,
                    if t < tmin {
                        t
                    } else {
                        tmin
                    },
                    if t > tmax {
                        t
                    } else {
                        tmax
                    },
                )
            }
        } else {
            (have, tmin, tmax)
        };
        group_span_s(pos, gof, g, j + 1, next.0, next.1, next.2)
    }
}

/// Each group's click span padded into an interval (pre-roll clamped at
/// zero, post-roll clamped at the activity limit), from group `g`.
pub open spec fn group_intervals_s(
    pos: Seq<(i64, i64, i64)>,
    gof: Seq<int>,
    count: int,
    limit: int,
    g: int,
    acc: Seq<(i64, i64)>,
) -> Seq<(i64, i64)>
    decreases count - g,
{
    if g < 0 || g >= count {
        acc
    } else {
        let span = group_span_s(pos, gof, g, 0, false, 0, 0);
        let acc2 = if span.0 {
            let start = if fx_sub_s(span.1 as int, CLICK_PRE_PADDING as int) >= 0 {
                fx_sub_s(span.1 as int, CLICK_PRE_PADDING as int)
            } else {
                0int
            };
            let end = if fx_add_s(span.2 as int, CLICK_POST_PADDING as int) <= limit {
                fx_add_s(span.2 as int, CLICK_POST_PADDING as int)
            } else {
                limit
            };
            if end > start {
                acc.push((start as i64, end as i64))
            } else {
                acc
            }
        } else {
            acc
        };
        group_intervals_s(pos, gof, count, limit, g + 1, acc2)
    }
}

/// The stable insertion point for a key: scan down from `p` past larger
/// starts.
pub open spec fn insert_pos_s(s: Seq<(i64, i64)>, key: i64, p: int) -> int
    decreases p,
{
    if p <= 0 {
        0
    } else if s[p - 1].0 > key {
        insert_pos_s(s, key, p - 1)
    } else {
        p
    }
}

/// Stable insertion sort by interval start, from index `i`.
pub open spec fn insertion_sort_s(items: Seq<(i64, i64)>, i: int, acc: Seq<(i64, i64)>) -> Seq<
    (i64, i64),
>
    decreases items.len() - i,
{
    if i < 0 || i >= items.len() {
        acc
    } else {
        let p = insert_pos_s(acc, items[i].0, acc.len() as int);
        insertion_sort_s(items, i + 1, acc.insert(p, items[i]))
    }
}

/// Merge sorted intervals whose gap is at most the merge threshold, from
/// index `i`: a close interval extends the last merged one's end.
pub open spec fn merge_fold_s(sorted: Seq<(i64, i64)>, i: int, acc: Seq<(i64, i64)>) -> Seq<
    (i64, i64),
>
    decreases sorted.len() - i,
{
    if i < 0 || i >= sorted.len() {
        acc
    } else {
        let iv = sorted[i];
        let acc2 = if acc.len() > 0 && iv.0 as int <= fx_add_s(
            acc[acc.len() - 1].1 as int,
            MERGE_GAP_THRESHOLD as int,
        ) {
            let last = acc[acc.len() - 1];
            acc.update(
                acc.len() - 1,
                (
                    last.0,
                    if last.1 >= iv.1 {
                        last.1
                    } else {
                        iv.1
                    },
                ),
            )
        } else {
            acc.push(iv)
        };
        merge_fold_s(sorted, i + 1, acc2)
    }
}

/// Keep the merged intervals of at least the minimum duration, as
/// segments at the automatic zoom level, from index `i`.
pub open spec fn keep_long_s(merged: Seq<(i64, i64)>, i: int, acc: Seq<ZoomSegment>) -> Seq<
    ZoomSegment,
>
    decreases merged.len() - i,
{
    if i < 0 || i >= merged.len() {
        acc
    } else {
        let acc2 = if fx_sub_s(merged[i].1 as int, merged[i].0 as int)
            >= MIN_SEGMENT_DURATION as int {
            acc.push(ZoomSegment { start: merged[i].0, end: merged[i].1, amount: AUTO_ZOOM_AMOUNT })
        } else {
            acc
        };
        keep_long_s(merged, i + 1, acc2)
    }
}

/// Without a qualifying down-click, the retained-click fold collects
/// nothing.
proof fn lemma_no_qualifying_clicks(
    clicks: Seq<ClickEvent>,
    moves: Seq<MoveEvent>,
    limit: int,
    i: int,
    acc: Seq<(i64, i64, i64)>,
)
    requires
        forall|j: int|
            0 <= j < clicks.len() ==> !((#[trigger] clicks[j]).down && sat64(
                tdiv(clicks[j].time as int, 1000),
            ) < limit),
    ensures
        click_positions_s(clicks, moves, limit, i, acc) == acc,
    decreases clicks.len() - i,
{
    if 0 <= i < clicks.len() {
        lemma_no_qualifying_clicks(clicks, moves, limit, i + 1, acc);
    }
}

/// The whole generator as a value: resolve and retain down-clicks,
/// cluster them greedily, pad each group into an interval, sort, merge,
/// and keep the long intervals.
pub open spec fn generate_segments_s(
    clicks: Seq<ClickEvent>,
    moves: Seq<MoveEvent>,
    max_duration: int,
) -> Seq<ZoomSegment> {
    if max_duration <= 0 {
        Seq::empty()
    } else {
        let limit = activity_limit_s(max_duration);
        if limit <= 0 {
            Seq::empty()
        } else {
            let pos = click_positions_s(clicks, moves, limit, 0, Seq::empty());
            if pos.len() == 0 {
                Seq::empty()
            } else {
                let assigned = assign_groups_s(pos, 0, Seq::empty(), 0);
                let ivs = group_intervals_s(pos, assigned.0, assigned.1, limit, 0, Seq::empty());
                if ivs.len() == 0 {
                    Seq::empty()
                } else {
                    keep_long_s(
                        merge_fold_s(insertion_sort_s(ivs, 0, Seq::empty()), 0, Seq::empty()),
                        0,
                        Seq::empty(),
                    )
                }
            }
        }
    }
}

/// Cluster down-clicks into zoom segments — the exact value of
/// `generate_segments_s`: resolve each click's position from the nearest
/// preceding move, group clicks by temporal and spatial proximity, pad
/// each group into an interval, merge close intervals, and drop the
/// too-short ones.
pub fn generate_zoom_segments(clicks: Vec<ClickEvent>, moves: Vec<MoveEvent>, duration_ms: i64) -> (r:
    Vec<ZoomSegment>)
    ensures
        valid_segments(r@),
        duration_ms <= 0 ==> r@.len() == 0,
        clicks@.len() == 0 ==> r@.len() == 0,
        forall|i: int|
            0 <= i < r@.len() ==> #[trigger] generated_segment_ok(
                r@[i],
                activity_limit_s(sat64(tdiv(duration_ms as int, 1000))),
            ),
        forall|i: int|
            0 <= i < r@.len() - 1 ==> fx_add_s(
                (#[trigger] r@[i]).end as int,
                MERGE_GAP_THRESHOLD as int,
            ) < r@[i + 1].start,
        has_productive_click(clicks@, activity_limit_s(sat64(tdiv(duration_ms as int, 1000))))
            ==> r@.len() > 0,
        forall|i: int|
            0 <= i < clicks@.len() && (#[trigger] clicks@[i]).down && productive_click_time(
                sat64(tdiv(clicks@[i].time as int, 1000)),
                activity_limit_s(sat64(tdiv(duration_ms as int, 1000))),
            ) ==> some_segment_covers(r@, sat64(tdiv(clicks@[i].time as int, 1000))),
        r@ == generate_segments_s(clicks@, moves@, sat64(tdiv(duration_ms as int, 1000))),
        (forall|i: int|
            0 <= i < clicks@.len() ==> !((#[trigger] clicks@[i]).down && sat64(
                tdiv(clicks@[i].time as int, 1000),
            ) < activity_limit_s(sat64(tdiv(duration_ms as int, 1000))))) ==> r@.len() == 0,
{
    let max_duration: i64 = fx_divi(duration_ms, 1000);
    generate_segments_impl(clicks, moves, max_duration)
}

/// Core of the segment generator, working in seconds.
#[verifier::rlimit(100)]
fn generate_segments_impl(clicks: Vec<ClickEvent>, moves: Vec<MoveEvent>, max_duration: i64) -> (r:
    Vec<ZoomSegment>)
    ensures
        valid_segments(r@),
        max_duration <= 0 ==> r@.len() == 0,
        clicks@.len() == 0 ==> r@.len() == 0,
        forall|i: int|
            0 <= i < r@.len() ==> #[trigger] generated_segment_ok(
                r@[i],
                activity_limit_s(max_duration as int),
            ),
        forall|i: int|
            0 <= i < r@.len() - 1 ==> fx_add_s(
                (#[trigger] r@[i]).end as int,
                MERGE_GAP_THRESHOLD as int,
            ) < r@[i + 1].start,
        has_productive_click(clicks@, activity_limit_s(max_duration as int)) ==> r@.len() > 0,
        forall|i: int|
            0 <= i < clicks@.len() && (#[trigger] clicks@[i]).down && productive_click_time(
                sat64(tdiv(clicks@[i].time as int, 1000)),
                activity_limit_s(max_duration as int),
            ) ==> some_segment_covers(r@, sat64(tdiv(clicks@[i].time as int, 1000))),
        r@ == generate_segments_s(clicks@, moves@, max_duration as int),
        (forall|i: int|
            0 <= i < clicks@.len() ==> !((#[trigger] clicks@[i]).down && sat64(
                tdiv(clicks@[i].time as int, 1000),
            ) < activity_limit_s(max_duration as int))) ==> r@.len() == 0,
{
    if max_duration <= 0 {
        let r0: Vec<ZoomSegment> = Vec::new();
        proof {
            assert(r0@ =~= generate_segments_s(clicks@, moves@, max_duration as int));
        }
        return r0;
    }

    // Ignore activity in the trailing stop padding.
    let activity_end_limit: i64 = if max_duration > STOP_PADDING_SECONDS {
        max_duration - STOP_PADDING_SECONDS
    } else {
        max_duration
    };
    if activity_end_limit <= 0 {
        let r0: Vec<ZoomSegment> = Vec::new();
        proof {
            assert(r0@ =~= generate_segments_s(clicks@, moves@, max_duration as int));
        }
        return r0;
    }

    // Down-clicks before the limit, with their resolved positions
    // (time in seconds, x, y).
    let mut click_positions: Vec<(i64, i64, i64)> = Vec::new();
    let mut ci: usize = 0;
    while ci < clicks.len()
        invariant
            ci <= clicks@.len(),
            click_positions@.len() <= ci,
            forall|k: int|
                0 <= k < click_positions@.len() ==> iabs(
                    (#[trigger] click_positions@[k]).0 as int,
                ) <= 9_223_372_036_854_776,
            forall|i: int|
                0 <= i < ci && (#[trigger] clicks@[i]).down && productive_click_time(
                    sat64(tdiv(clicks@[i].time as int, 1000)),
                    activity_end_limit as int,
                ) ==> exists|k: int|
                0 <= k < click_positions@.len() && (#[trigger] click_positions@[k]).0 as int
                    == sat64(tdiv(clicks@[i].time as int, 1000)),
            click_positions_s(
                clicks@,
                moves@,
                activity_end_limit as int,
                ci as int,
                click_positions@,
            ) == click_positions_s(
                clicks@,
                moves@,
                activity_end_limit as int,
                0,
                Seq::empty(),
            ),
        decreases clicks@.len() - ci,
    {
        let c: ClickEvent = clicks[ci];
        let t_secs: i64 = fx_divi(c.time, 1000);
        let ghost pre_pos: Seq<(i64, i64, i64)> = click_positions@;
        proof {
            lemma_div_mono_num(iabs(c.time as int), 9_223_372_036_854_775_808int, 1000);
        }
        if c.down && t_secs < activity_end_limit {
            // Nearest move at or before the click; the click's own
            // coordinates when none precedes it.
            let mut mx: i64 = c.x;
            let mut my: i64 = c.y;
            let mut mj: usize = moves.len();
            while mj > 0 && moves[mj - 1].time > c.time
                invariant
                    mj <= moves@.len(),
                    last_move_at_or_before_s(moves@, c.time as int, moves@.len() as int)
                        == last_move_at_or_before_s(moves@, c.time as int, mj as int),
                decreases mj,
            {
                mj = mj - 1;
            }
            if mj > 0 {
                mx = moves[mj - 1].x;
                my = moves[mj - 1].y;
            }
            proof {
                assert((mx, my) == resolve_position_s(moves@, c));
            }
            click_positions.push((t_secs, mx, my));
        }
        proof {
            assert forall|i: int|
                0 <= i < ci + 1 && (#[trigger] clicks@[i]).down && productive_click_time(
                    sat64(tdiv(clicks@[i].time as int, 1000)),
                    activity_end_limit as int,
                ) implies exists|k: int|
                0 <= k < click_positions@.len() && (#[trigger] click_positions@[k]).0 as int
                    == sat64(tdiv(clicks@[i].time as int, 1000)) by {
                if i == ci {
                    assert(c.down);
                    assert(productive_click_time(t_secs as int, activity_end_limit as int));
                    assert(t_secs < activity_end_limit);
                    assert(click_positions@[click_positions@.len() - 1].0 == t_secs);
                } else {
                    let k0 = choose|k: int|
                        0 <= k < pre_pos.len() && (#[trigger] pre_pos[k]).0 as int == sat64(
                            tdiv(clicks@[i].time as int, 1000),
                        );
                    assert(click_positions@[k0] == pre_pos[k0]);
                }
            }
        }
        ci = ci + 1;
    }

    proof {
        assert(click_positions@ == click_positions_s(
            clicks@,
            moves@,
            activity_end_limit as int,
            0,
            Seq::empty(),
        ));
        if forall|i: int|
            0 <= i < clicks@.len() ==> !((#[trigger] clicks@[i]).down && sat64(
                tdiv(clicks@[i].time as int, 1000),
            ) < activity_limit_s(max_duration as int)) {
            lemma_no_qualifying_clicks(
                clicks@,
                moves@,
                activity_end_limit as int,
                0,
                Seq::empty(),
            );
            assert(click_positions@ =~= Seq::<(i64, i64, i64)>::empty());
        }
    }

    if click_positions.len() == 0 {
        let r0: Vec<ZoomSegment> = Vec::new();
        proof {
            assert(r0@ =~= generate_segments_s(clicks@, moves@, max_duration as int));
        }
        return r0;
    }

    // Greedy clustering: a click joins the first existing group with a
    // member close in both time and space, else founds a new group.
    let np: usize = click_positions.len();
    let mut group_of: Vec<usize> = Vec::new();
    let mut group_count: usize = 0;
    let ghost mut gof_s: Seq<int> = Seq::empty();
    let mut idx: usize = 0;
    while idx < np
        invariant
            idx <= np,
            np == click_positions@.len(),
            group_of@.len() == idx,
            group_count <= idx,
            forall|k: int| 0 <= k < idx ==> #[trigger] group_of@[k] < group_count,
            gof_s.len() == idx,
            forall|k: int| 0 <= k < idx ==> #[trigger] gof_s[k] == group_of@[k] as int,
            assign_groups_s(click_positions@, idx as int, gof_s, group_count as int)
                == assign_groups_s(click_positions@, 0, Seq::empty(), 0),
        decreases np - idx,
    {
        let (ct, cx, cy): (i64, i64, i64) = click_positions[idx];

        let mut found: bool = false;
        let mut g: usize = 0;
        while g < group_count && !found
            invariant
                g <= group_count,
                found ==> g < group_count,
                group_of@.len() == idx,
                np == click_positions@.len(),
                idx <= np,
                gof_s.len() == idx,
                forall|k: int| 0 <= k < idx ==> #[trigger] gof_s[k] == group_of@[k] as int,
                (ct, cx, cy) == click_positions@[idx as int],
                !found ==> find_group_s(click_positions@, gof_s, group_count as int, idx as int, 0)
                    == find_group_s(
                    click_positions@,
                    gof_s,
                    group_count as int,
                    idx as int,
                    g as int,
                ),
                found ==> find_group_s(click_positions@, gof_s, group_count as int, idx as int, 0)
                    == Some(g as int),
            decreases (if found { 0int } else { 1int }), group_count - g,
        {
            let mut can_join: bool = false;
            let mut j: usize = 0;
            while j < idx && !can_join
                invariant
                    j <= idx,
                    idx <= group_of@.len(),
                    idx <= click_positions@.len(),
                    gof_s.len() == idx,
                    forall|k: int| 0 <= k < idx ==> #[trigger] gof_s[k] == group_of@[k] as int,
                    (ct, cx, cy) == click_positions@[idx as int],
                    g < group_count,
                    !can_join ==> can_join_s(click_positions@, gof_s, g as int, idx as int, 0)
                        == can_join_s(click_positions@, gof_s, g as int, idx as int, j as int),
                    can_join ==> can_join_s(click_positions@, gof_s, g as int, idx as int, 0),
                decreases (if can_join { 0int } else { 1int }), idx - j,
            {
                if group_of[j] == g {
                    let (gt, gx, gy): (i64, i64, i64) = click_positions[j];
                    let time_close: bool = fx_abs(fx_sub(ct, gt)) < CLICK_GROUP_TIME_THRESHOLD_SECS;
                    let dxv: i64 = fx_sub(cx, gx);
                    let dyv: i64 = fx_sub(cy, gy);
                    let spatial_close: bool = fx_sqrt(fx_add(fx_mul(dxv, dxv), fx_mul(dyv, dyv)))
                        < CLICK_GROUP_SPATIAL_THRESHOLD;
                    if time_close && spatial_close {
                        can_join = true;
                    } else {
                        j = j + 1;
                    }
                } else {
                    j = j + 1;
                }
            }
            if can_join {
                found = true;
            } else {
                g = g + 1;
            }
        }

        if found {
            group_of.push(g);
            proof {
                gof_s = gof_s.push(g as int);
            }
        } else {
            group_of.push(group_count);
            proof {
                gof_s = gof_s.push(group_count as int);
            }
            group_count = group_count + 1;
        }
        idx = idx + 1;
    }

    // Pad each group's click-time span into an interval, clamped to the
    // recording.
    let mut intervals: Vec<(i64, i64)> = Vec::new();
    let mut g: usize = 0;
    while g < group_count
        invariant
            np == click_positions@.len(),
            np == group_of@.len(),
            forall|k: int| 0 <= k < np ==> #[trigger] group_of@[k] < group_count,
            forall|k: int|
                0 <= k < np ==> iabs((#[trigger] click_positions@[k]).0 as int)
                    <= 9_223_372_036_854_776,
            forall|k: int|
                0 <= k < intervals@.len() ==> 0 <= #[trigger] intervals@[k].0 < intervals@[k].1
                    <= activity_end_limit,
            gof_s.len() == np,
            forall|k: int| 0 <= k < np ==> #[trigger] gof_s[k] == group_of@[k] as int,
            group_intervals_s(
                click_positions@,
                gof_s,
                group_count as int,
                activity_end_limit as int,
                g as int,
                intervals@,
            ) == group_intervals_s(
                click_positions@,
                gof_s,
                group_count as int,
                activity_end_limit as int,
                0,
                Seq::empty(),
            ),
            (exists|k: int|
                0 <= k < np && (#[trigger] group_of@[k]) < g && productive_click_time(
                    click_positions@[k].0 as int,
                    activity_end_limit as int,
                )) ==> has_long_interval(intervals@),
            forall|k: int|
                0 <= k < np && (#[trigger] group_of@[k]) < g && productive_click_time(
                    click_positions@[k].0 as int,
                    activity_end_limit as int,
                ) ==> some_interval_covers(intervals@, click_positions@[k].0 as int),
        decreases group_count - g,
    {
        let mut have: bool = false;
        let mut tmin: i64 = 0;
        let mut tmax: i64 = 0;
        let mut j: usize = 0;
        while j < np
            invariant
                j <= np,
                np == click_positions@.len(),
                np == group_of@.len(),
                g < group_count,
                forall|k: int|
                    0 <= k < np ==> iabs((#[trigger] click_positions@[k]).0 as int)
                        <= 9_223_372_036_854_776,
                have ==> iabs(tmin as int) <= 9_223_372_036_854_776 && iabs(tmax as int)
                    <= 9_223_372_036_854_776,
                !have ==> forall|k: int| 0 <= k < j ==> (#[trigger] group_of@[k]) != g,
                forall|k: int|
                    0 <= k < j && (#[trigger] group_of@[k]) == g ==> tmin
                        <= click_positions@[k].0 <= tmax,
                gof_s.len() == np,
                forall|k: int| 0 <= k < np ==> #[trigger] gof_s[k] == group_of@[k] as int,
                group_span_s(click_positions@, gof_s, g as int, j as int, have, tmin, tmax)
                    == group_span_s(click_positions@, gof_s, g as int, 0, false, 0, 0),
            decreases np - j,
        {
            if group_of[j] == g {
                let t: i64 = click_positions[j].0;
                if !have {
                    have = true;
                    tmin = t;
                    tmax = t;
                } else {
                    if t < tmin {
                        tmin = t;
                    }
                    if t > tmax {
                        tmax = t;
                    }
                }
            }
            j = j + 1;
        }
        if have {
            let start: i64 = fx_max(fx_sub(tmin, CLICK_PRE_PADDING), 0);
            let end: i64 = fx_min(fx_add(tmax, CLICK_POST_PADDING), activity_end_limit);
            proof {
                if exists|k: int|
                    0 <= k < np && (#[trigger] group_of@[k]) == g && productive_click_time(
                        click_positions@[k].0 as int,
                        activity_end_limit as int,
                    ) {
                    let k = choose|k: int|
                        0 <= k < np && (#[trigger] group_of@[k]) == g && productive_click_time(
                            click_positions@[k].0 as int,
                            activity_end_limit as int,
                        );
                    let v = click_positions@[k].0 as int;
                    assert(tmin <= v <= tmax);
                    assert(start <= v);
                    assert(end >= v + MIN_SEGMENT_DURATION);
                }
            }
            if end > start {
                let ghost pre_intervals: Seq<(i64, i64)> = intervals@;
                intervals.push((start, end));
                proof {
                    assert(forall|k: int|
                        0 <= k < pre_intervals.len() ==> #[trigger] intervals@[k]
                            == pre_intervals[k]);
                    if exists|k: int|
                        0 <= k < np && (#[trigger] group_of@[k]) == g && productive_click_time(
                            click_positions@[k].0 as int,
                            activity_end_limit as int,
                        ) {
                        assert(intervals@[intervals@.len() - 1] == (start, end));
                        assert(has_long_interval(intervals@));
                    }
                    if has_long_interval(pre_intervals) {
                        let w = choose|w: int|
                            0 <= w < pre_intervals.len() && (#[trigger] pre_intervals[w]).1
                                - pre_intervals[w].0 >= MIN_SEGMENT_DURATION as int;
                        assert(intervals@[w] == pre_intervals[w]);
                        assert(has_long_interval(intervals@));
                    }
                    assert forall|k: int|
                        0 <= k < np && (#[trigger] group_of@[k]) < g + 1 && productive_click_time(
                            click_positions@[k].0 as int,
                            activity_end_limit as int,
                        ) implies some_interval_covers(
                        intervals@,
                        click_positions@[k].0 as int,
                    ) by {
                        let v = click_positions@[k].0 as int;
                        if group_of@[k] == g {
                            assert(tmin <= click_positions@[k].0 <= tmax);
                            assert(start <= v);
                            assert(end >= v + MIN_SEGMENT_DURATION);
                            assert(intervals@[intervals@.len() - 1] == (start, end));
                        } else {
                            let w = choose|m: int|
                                0 <= m < pre_intervals.len() && (#[trigger] pre_intervals[m]).0
                                    <= v <= pre_intervals[m].1 && pre_intervals[m].1
                                    - pre_intervals[m].0 >= MIN_SEGMENT_DURATION as int;
                            assert(intervals@[w] == pre_intervals[w]);
                        }
                    }
                }
            } else {
                proof {
                    assert forall|k: int|
                        0 <= k < np && (#[trigger] group_of@[k]) < g + 1 && productive_click_time(
                            click_positions@[k].0 as int,
                            activity_end_limit as int,
                        ) implies some_interval_covers(
                        intervals@,
                        click_positions@[k].0 as int,
                    ) by {
                        let v = click_positions@[k].0 as int;
                        if group_of@[k] == g {
                            assert(tmin <= click_positions@[k].0 <= tmax);
                            assert(start <= v);
                            assert(end >= v + MIN_SEGMENT_DURATION);
                            assert(false);
                        }
                    }
                }
            }
        }
        g = g + 1;
    }

    proof {
        assert(activity_end_limit as int == activity_limit_s(max_duration as int));
        if has_productive_click(clicks@, activity_limit_s(max_duration as int)) {
            let i0 = choose|i: int|
                0 <= i < clicks@.len() && (#[trigger] clicks@[i]).down && productive_click_time(
                    sat64(tdiv(clicks@[i].time as int, 1000)),
                    activity_limit_s(max_duration as int),
                );
            let k = choose|k: int|
                0 <= k < click_positions@.len() && (#[trigger] click_positions@[k]).0 as int
                    == sat64(tdiv(clicks@[i0].time as int, 1000));
            assert(group_of@[k] < group_count);
            assert(has_long_interval(intervals@));
        }
        assert forall|i: int|
            0 <= i < clicks@.len() && (#[trigger] clicks@[i]).down && productive_click_time(
                sat64(tdiv(clicks@[i].time as int, 1000)),
                activity_limit_s(max_duration as int),
            ) implies some_interval_covers(
            intervals@,
            sat64(tdiv(clicks@[i].time as int, 1000)),
        ) by {
            let v = sat64(tdiv(clicks@[i].time as int, 1000));
            let k = choose|k: int|
                0 <= k < click_positions@.len() && (#[trigger] click_positions@[k]).0 as int == v;
            assert(group_of@[k] < group_count);
            assert(some_interval_covers(intervals@, click_positions@[k].0 as int));
        }
    }

    proof {
        assert(intervals@ == group_intervals_s(
            click_positions@,
            gof_s,
            group_count as int,
            activity_end_limit as int,
            0,
            Seq::empty(),
        ));
    }
    if intervals.len() == 0 {
        let r0: Vec<ZoomSegment> = Vec::new();
        proof {
            assert(r0@ =~= generate_segments_s(clicks@, moves@, max_duration as int));
        }
        return r0;
    }

    // Sort the intervals by start.
    let mut sorted: Vec<(i64, i64)> = Vec::new();
    let mut si: usize = 0;
    while si < intervals.len()
        invariant
            si <= intervals@.len(),
            intervals_sorted(sorted@),
            sorted@.len() == si,
            insertion_sort_s(intervals@, si as int, sorted@) == insertion_sort_s(
                intervals@,
                0,
                Seq::empty(),
            ),
            forall|k: int|
                0 <= k < intervals@.len() ==> 0 <= #[trigger] intervals@[k].0 < intervals@[k].1
                    <= activity_end_limit,
            forall|k: int|
                0 <= k < sorted@.len() ==> 0 <= #[trigger] sorted@[k].0 < sorted@[k].1
                    <= activity_end_limit,
            (exists|m: int|
                0 <= m < si && (#[trigger] intervals@[m]).1 - intervals@[m].0
                    >= MIN_SEGMENT_DURATION) ==> has_long_interval(sorted@),
            forall|m: int|
                0 <= m < si ==> exists|m2: int|
                    0 <= m2 < sorted@.len() && (#[trigger] sorted@[m2]) == #[trigger] intervals@[m],
        decreases intervals@.len() - si,
    {
        let item: (i64, i64) = intervals[si];
        let mut p: usize = sorted.len();
        while p > 0 && sorted[p - 1].0 > item.0
            invariant
                p <= sorted@.len(),
                forall|q: int| p <= q < sorted@.len() ==> #[trigger] sorted@[q].0 > item.0,
                insert_pos_s(sorted@, item.0, p as int) == insert_pos_s(
                    sorted@,
                    item.0,
                    sorted@.len() as int,
                ),
            decreases p,
        {
            p = p - 1;
        }
        proof {
            assert(p as int == insert_pos_s(sorted@, item.0, sorted@.len() as int));
        }
        let ghost pre: Seq<(i64, i64)> = sorted@;
        sorted.insert(p, item);
        proof {
            assert forall|a: int, b: int| 0 <= a <= b < sorted@.len() implies sorted@[a].0
                <= sorted@[b].0 by {
                if a < p && b < p {
                    assert(sorted@[a] == pre[a] && sorted@[b] == pre[b]);
                } else if a < p && b == p {
                    assert(pre[a].0 <= pre[p - 1].0 && pre[p - 1].0 <= item.0);
                } else if a < p && b > p {
                    assert(sorted@[a] == pre[a] && sorted@[b] == pre[b - 1]);
                } else if a == p && b > p {
                    assert(sorted@[b] == pre[b - 1] && pre[b - 1].0 > item.0);
                } else if a > p && b > p {
                    assert(sorted@[a] == pre[a - 1] && sorted@[b] == pre[b - 1]);
                }
            }
            assert forall|m: int| 0 <= m < si + 1 implies exists|m2: int|
                0 <= m2 < sorted@.len() && (#[trigger] sorted@[m2]) == #[trigger] intervals@[m] by {
                if m == si {
                    assert(sorted@[p as int] == item);
                } else {
                    let w = choose|m2: int|
                        0 <= m2 < pre.len() && (#[trigger] pre[m2]) == intervals@[m];
                    if w < p {
                        assert(sorted@[w] == pre[w]);
                    } else {
                        assert(sorted@[w + 1] == pre[w]);
                    }
                }
            }
            if exists|m: int|
                0 <= m < si + 1 && (#[trigger] intervals@[m]).1 - intervals@[m].0
                    >= MIN_SEGMENT_DURATION {
                let m = choose|m: int|
                    0 <= m < si + 1 && (#[trigger] intervals@[m]).1 - intervals@[m].0
                        >= MIN_SEGMENT_DURATION;
                if m == si {
                    assert(sorted@[p as int] == item);
                    assert(has_long_interval(sorted@));
                } else {
                    assert(has_long_interval(pre));
                    let w = choose|w: int|
                        0 <= w < pre.len() && (#[trigger] pre[w]).1 - pre[w].0
                            >= MIN_SEGMENT_DURATION as int;
                    if w < p {
                        assert(sorted@[w] == pre[w]);
                    } else {
                        assert(sorted@[w + 1] == pre[w]);
                    }
                    assert(has_long_interval(sorted@));
                }
            }
        }
        si = si + 1;
    }

    // Merge intervals separated by no more than the merge threshold.
    let mut merged: Vec<(i64, i64)> = Vec::new();
    let mut mi: usize = 0;
    while mi < sorted.len()
        invariant
            mi <= sorted@.len(),
            intervals_sorted(sorted@),
            forall|k: int|
                0 <= k < sorted@.len() ==> 0 <= #[trigger] sorted@[k].0 < sorted@[k].1
                    <= activity_end_limit,
            forall|k: int|
                0 <= k < merged@.len() ==> 0 <= #[trigger] merged@[k].0 < merged@[k].1
                    <= activity_end_limit,
            forall|k: int, l: int|
                #![trigger merged@[k].1, merged@[l].0]
                0 <= k < l < merged@.len() ==> fx_add_s(
                    merged@[k].1 as int,
                    MERGE_GAP_THRESHOLD as int,
                ) < merged@[l].0,
            merged@.len() > 0 && mi < sorted@.len() ==> merged@[merged@.len() - 1].0
                <= sorted@[mi as int].0,
            merge_fold_s(sorted@, mi as int, merged@) == merge_fold_s(sorted@, 0, Seq::empty()),
            (exists|m: int|
                0 <= m < mi && (#[trigger] sorted@[m]).1 - sorted@[m].0 >= MIN_SEGMENT_DURATION)
                ==> has_long_interval(merged@),
            forall|m: int|
                0 <= m < mi && (#[trigger] sorted@[m]).1 - sorted@[m].0 >= MIN_SEGMENT_DURATION
                    ==> exists|k: int|
                    0 <= k < merged@.len() && (#[trigger] merged@[k]).0 <= sorted@[m].0
                        && merged@[k].1 >= sorted@[m].1 && merged@[k].1 - merged@[k].0
                        >= MIN_SEGMENT_DURATION as int,
        decreases sorted@.len() - mi,
    {
        let interval: (i64, i64) = sorted[mi];
        let ghost pre_merged: Seq<(i64, i64)> = merged@;
        let mut handled: bool = false;
        if merged.len() > 0 {
            let last: (i64, i64) = merged[merged.len() - 1];
            if interval.0 <= fx_add(last.1, MERGE_GAP_THRESHOLD) {
                let new_end: i64 = fx_max(last.1, interval.1);
                let _tail: Option<(i64, i64)> = merged.pop();
                merged.push((last.0, new_end));
                handled = true;
                proof {
                    assert(merged@ =~= pre_merged.update(
                        pre_merged.len() - 1,
                        (last.0, new_end),
                    ));
                    assert(merged@.len() == pre_merged.len());
                    assert(forall|k: int|
                        0 <= k < pre_merged.len() - 1 ==> #[trigger] merged@[k]
                            == pre_merged[k]);
                    if has_long_interval(pre_merged) {
                        let w = choose|w: int|
                            0 <= w < pre_merged.len() && (#[trigger] pre_merged[w]).1
                                - pre_merged[w].0 >= MIN_SEGMENT_DURATION as int;
                        if w < pre_merged.len() - 1 {
                            assert(merged@[w] == pre_merged[w]);
                        } else {
                            // The merged tail only grew at its end.
                            assert(merged@[w].0 == pre_merged[w].0);
                            assert(merged@[w].1 >= pre_merged[w].1);
                        }
                        assert(has_long_interval(merged@));
                    }
                    if (interval.1 as int) - (interval.0 as int) >= MIN_SEGMENT_DURATION as int {
                        // The absorbed interval fits inside the new tail.
                        assert(merged@[merged@.len() - 1].0 <= interval.0);
                        assert(merged@[merged@.len() - 1].1 >= interval.1);
                        assert(has_long_interval(merged@));
                    }
                    assert forall|m: int|
                        0 <= m < mi + 1 && (#[trigger] sorted@[m]).1 - sorted@[m].0
                            >= MIN_SEGMENT_DURATION implies exists|k: int|
                        0 <= k < merged@.len() && (#[trigger] merged@[k]).0 <= sorted@[m].0
                            && merged@[k].1 >= sorted@[m].1 && merged@[k].1 - merged@[k].0
                            >= MIN_SEGMENT_DURATION as int by {
                        if m == mi {
                            assert(merged@[merged@.len() - 1].0 <= interval.0);
                            assert(merged@[merged@.len() - 1].1 >= interval.1);
                        } else {
                            let w = choose|k: int|
                                0 <= k < pre_merged.len() && (#[trigger] pre_merged[k]).0
                                    <= sorted@[m].0 && pre_merged[k].1 >= sorted@[m].1
                                    && pre_merged[k].1 - pre_merged[k].0
                                    >= MIN_SEGMENT_DURATION as int;
                            if w < pre_merged.len() - 1 {
                                assert(merged@[w] == pre_merged[w]);
                            } else {
                                assert(merged@[w].0 == pre_merged[w].0);
                                assert(merged@[w].1 >= pre_merged[w].1);
                            }
                        }
                    }
                }
            }
        }
        if !handled {
            merged.push(interval);
            proof {
                if has_long_interval(pre_merged) {
                    let w = choose|w: int|
                        0 <= w < pre_merged.len() && (#[trigger] pre_merged[w]).1
                            - pre_merged[w].0 >= MIN_SEGMENT_DURATION as int;
                    assert(merged@[w] == pre_merged[w]);
                    assert(has_long_interval(merged@));
                }
                if (interval.1 as int) - (interval.0 as int) >= MIN_SEGMENT_DURATION as int {
                    assert(merged@[merged@.len() - 1] == interval);
                    assert(has_long_interval(merged@));
                }
                assert forall|m: int|
                    0 <= m < mi + 1 && (#[trigger] sorted@[m]).1 - sorted@[m].0
                        >= MIN_SEGMENT_DURATION implies exists|k: int|
                    0 <= k < merged@.len() && (#[trigger] merged@[k]).0 <= sorted@[m].0
                        && merged@[k].1 >= sorted@[m].1 && merged@[k].1 - merged@[k].0
                        >= MIN_SEGMENT_DURATION as int by {
                    if m == mi {
                        assert(merged@[merged@.len() - 1] == interval);
                    } else {
                        let w = choose|k: int|
                            0 <= k < pre_merged.len() && (#[trigger] pre_merged[k]).0
                                <= sorted@[m].0 && pre_merged[k].1 >= sorted@[m].1
                                && pre_merged[k].1 - pre_merged[k].0
                                >= MIN_SEGMENT_DURATION as int;
                        assert(merged@[w] == pre_merged[w]);
                    }
                }
            }
        }
        mi = mi + 1;
    }

    // Emit segments, dropping intervals under the minimum duration.
    let mut result: Vec<ZoomSegment> = Vec::new();
    let mut ri: usize = 0;
    while ri < merged.len()
        invariant
            ri <= merged@.len(),
            forall|k: int|
                0 <= k < merged@.len() ==> 0 <= #[trigger] merged@[k].0 < merged@[k].1
                    <= activity_end_limit,
            forall|k: int, l: int|
                #![trigger merged@[k].1, merged@[l].0]
                0 <= k < l < merged@.len() ==> fx_add_s(
                    merged@[k].1 as int,
                    MERGE_GAP_THRESHOLD as int,
                ) < merged@[l].0,
            activity_end_limit == activity_limit_s(max_duration as int),
            forall|k: int|
                0 <= k < result@.len() ==> #[trigger] generated_segment_ok(
                    result@[k],
                    activity_end_limit as int,
                ),
            forall|k: int, l: int|
                #![trigger result@[k].end, result@[l].start]
                0 <= k < l < result@.len() ==> fx_add_s(
                    result@[k].end as int,
                    MERGE_GAP_THRESHOLD as int,
                ) < result@[l].start,
            ri > 0 ==> forall|k: int|
                0 <= k < result@.len() ==> #[trigger] result@[k].end <= merged@[ri - 1].1,
            ri == 0 ==> result@.len() == 0,
            keep_long_s(merged@, ri as int, result@) == keep_long_s(merged@, 0, Seq::empty()),
            (exists|k: int|
                0 <= k < ri && (#[trigger] merged@[k]).1 - merged@[k].0 >= MIN_SEGMENT_DURATION)
                ==> result@.len() > 0,
            forall|k: int|
                0 <= k < ri && (#[trigger] merged@[k]).1 - merged@[k].0 >= MIN_SEGMENT_DURATION
                    ==> exists|l: int|
                    0 <= l < result@.len() && (#[trigger] result@[l]).start == merged@[k].0
                        && result@[l].end == merged@[k].1,
        decreases merged@.len() - ri,
    {
        let (start, end): (i64, i64) = merged[ri];
        let ghost pre_result: Seq<ZoomSegment> = result@;
        let duration: i64 = fx_sub(end, start);
        if duration >= MIN_SEGMENT_DURATION {
            result.push(ZoomSegment { start, end, amount: AUTO_ZOOM_AMOUNT });
        }
        proof {
            assert forall|k: int|
                0 <= k < ri + 1 && (#[trigger] merged@[k]).1 - merged@[k].0
                    >= MIN_SEGMENT_DURATION implies exists|l: int|
                0 <= l < result@.len() && (#[trigger] result@[l]).start == merged@[k].0
                    && result@[l].end == merged@[k].1 by {
                if k == ri {
                    assert(duration >= MIN_SEGMENT_DURATION);
                    assert(result@[result@.len() - 1].start == merged@[k].0);
                    assert(result@[result@.len() - 1].end == merged@[k].1);
                } else {
                    let w = choose|l: int|
                        0 <= l < pre_result.len() && (#[trigger] pre_result[l]).start
                            == merged@[k].0 && pre_result[l].end == merged@[k].1;
                    assert(result@[w] == pre_result[w]);
                }
            }
        }
        ri = ri + 1;
    }

    proof {
        assert forall|i: int| 0 <= i < result@.len() implies #[trigger] result@[i].start
            < result@[i].end by {
            assert(generated_segment_ok(result@[i], activity_end_limit as int));
        }
        assert forall|i: int, j: int|
            #![trigger result@[i].end, result@[j].start]
            0 <= i < j < result@.len() implies result@[i].end <= result@[j].start by {
            assert(fx_add_s(result@[i].end as int, MERGE_GAP_THRESHOLD as int)
                < result@[j].start);
        }
        if has_productive_click(clicks@, activity_limit_s(max_duration as int)) {
            assert(has_long_interval(sorted@));
            assert(has_long_interval(merged@));
            assert(result@.len() > 0);
        }
        assert(sorted@ == insertion_sort_s(intervals@, 0, Seq::empty()));
        assert(merged@ == merge_fold_s(sorted@, 0, Seq::empty()));
        assert(result@ == keep_long_s(merged@, 0, Seq::empty()));
        assert(result@ == generate_segments_s(clicks@, moves@, max_duration as int));
        if forall|i: int|
            0 <= i < clicks@.len() ==> !((#[trigger] clicks@[i]).down && sat64(
                tdiv(clicks@[i].time as int, 1000),
            ) < activity_limit_s(max_duration as int)) {
            lemma_no_qualifying_clicks(
                clicks@,
                moves@,
                activity_end_limit as int,
                0,
                Seq::empty(),
            );
            assert(click_positions@ =~= Seq::<(i64, i64, i64)>::empty());
            assert(false);
        }
        assert forall|i: int|
            0 <= i < clicks@.len() && (#[trigger] clicks@[i]).down && productive_click_time(
                sat64(tdiv(clicks@[i].time as int, 1000)),
                activity_limit_s(max_duration as int),
            ) implies some_segment_covers(
            result@,
            sat64(tdiv(clicks@[i].time as int, 1000)),
        ) by {
            let v = sat64(tdiv(clicks@[i].time as int, 1000));
            let m = choose|m: int|
                0 <= m < intervals@.len() && (#[trigger] intervals@[m]).0 <= v
                    <= intervals@[m].1 && intervals@[m].1 - intervals@[m].0
                    >= MIN_SEGMENT_DURATION as int;
            let m2 = choose|m2: int|
                0 <= m2 < sorted@.len() && (#[trigger] sorted@[m2]) == #[trigger] intervals@[m];
            assert(sorted@[m2].1 - sorted@[m2].0 >= MIN_SEGMENT_DURATION);
            let k2 = choose|k2: int|
                0 <= k2 < merged@.len() && (#[trigger] merged@[k2]).0 <= sorted@[m2].0
                    && merged@[k2].1 >= sorted@[m2].1 && merged@[k2].1 - merged@[k2].0
                    >= MIN_SEGMENT_DURATION as int;
            let l = choose|l: int|
                0 <= l < result@.len() && (#[trigger] result@[l]).start == merged@[k2].0
                    && result@[l].end == merged@[k2].1;
            assert(result@[l].start as int <= v <= result@[l].end as int);
        }
    }

    result
}

// ───────────────────────────────────────────────────────────────
// Whole-timeline precomputation
// ───────────────────────────────────────────────────────────────

/// The timestamp of frame `k` at `fps`: the frame index times the frame
/// duration `1000 / fps`.
pub open spec fn frame_time_s(k: int, fps: int) -> int {
    fx_mul_s(k * (FX_ONE as int), fx_div_s(1000 * (FX_ONE as int), fps))
}

/// One frame's sample consumption: feed every sample at or before `t`,
/// from `idx` on, into the simulation as a moving target.
pub open spec fn consume_moves_s(
    filtered: Seq<MoveEvent>,
    t: int,
    idx: int,
    sim: SpringSimulation,
    last: int,
) -> (SpringSimulation, int, int)
    decreases filtered.len() - idx,
{
    if idx < 0 || idx >= filtered.len() || filtered[idx].time as int > t {
        (sim, idx, last)
    } else {
        let m = filtered[idx];
        let targeted = SpringSimulation {
            config: sim.config,
            position: sim.position,
            velocity: sim.velocity,
            target: Vec2 { x: m.x, y: m.y },
        };
        let dt = fx_sub_s(m.time as int, last);
        let stepped = if dt > 0 {
            spring_step_s(targeted, dt)
        } else {
            targeted
        };
        consume_moves_s(filtered, t, idx + 1, stepped, m.time as int)
    }
}

/// One frame of the shared replay: consume the due samples, then run the
/// remainder up to the frame's timestamp.
pub open spec fn precompute_step_s(
    filtered: Seq<MoveEvent>,
    fps: int,
    st: (SpringSimulation, int, int),
    k: int,
) -> (SpringSimulation, int, int) {
    let t = frame_time_s(k, fps);
    let c = consume_moves_s(filtered, t, st.1, st.0, st.2);
    let rem = fx_sub_s(t, c.2);
    if rem > 0 {
        (spring_step_s(c.0, rem), c.1, t)
    } else {
        c
    }
}

/// The shared replay's state after the first `k` frames.
pub open spec fn precompute_state_s(
    filtered: Seq<MoveEvent>,
    fps: int,
    start: SpringSimulation,
    k: int,
) -> (SpringSimulation, int, int)
    decreases k,
{
    if k <= 0 {
        (start, 0int, 0int)
    } else {
        precompute_step_s(filtered, fps, precompute_state_s(filtered, fps, start, k - 1), k - 1)
    }
}

/// The replay's initial state: resting at the first filtered sample, or
/// at the frame center without samples.
pub open spec fn precompute_start_s(filtered: Seq<MoveEvent>) -> SpringSimulation {
    let p = if filtered.len() > 0 {
        Vec2 { x: filtered[0].x, y: filtered[0].y }
    } else {
        Vec2 { x: FX_HALF, y: FX_HALF }
    };
    SpringSimulation {
        config: SpringConfig { tension: 100_000_000, mass: 1_000_000, friction: 20_000_000 },
        position: p,
        velocity: Vec2 { x: 0, y: 0 },
        target: p,
    }
}

/// How many frames an export of `duration_ms` at `fps` produces: the
/// ceiling of their product on the fixed-point grid.
pub open spec fn frame_count_s(duration_ms: int, fps: int) -> int {
    if duration_ms <= 0 || fps <= 0 {
        0
    } else {
        (duration_ms * fps + 999_999_999_999_999) / 1_000_000_000_000_000
    }
}

/// Evaluate every frame of an export upfront: one spring replay runs
/// forward across all frames, so the result is identical to querying
/// frame by frame, and the whole export is reproducible.
#[verifier::rlimit(100)]
pub fn precompute_frames(
    segments: Vec<ZoomSegment>,
    moves: Vec<MoveEvent>,
    clicks: Vec<ClickEvent>,
    duration_ms: i64,
    fps: i64,
) -> (r: Vec<FrameState>)
    requires
        fps > 0,
        frame_count_s(duration_ms as int, fps as int) <= 1_000_000_000,
    ensures
        r@.len() == frame_count_s(duration_ms as int, fps as int),
        forall|k: int|
            0 <= k < r@.len() ==> #[trigger] r@[k].zoom == zoom_state_s(
                segments@,
                frame_time_s(k, fps as int),
                r@[k].cursor.x as int,
                r@[k].cursor.y as int,
            ),
        forall|k: int|
            0 <= k < r@.len() ==> #[trigger] r@[k].cursor.opacity == zoom_opacity_s(
                filter_shake_s(moves@),
                frame_time_s(k, fps as int),
            ),
        forall|k: int|
            0 <= k < r@.len() ==> #[trigger] r@[k].cursor.click_progress == click_progress_s(
                clicks@,
                frame_time_s(k, fps as int),
                clicks@.len() as int,
            ),
        forall|k: int|
            0 <= k < r@.len() ==> ({
                let st = precompute_state_s(
                    filter_shake_s(moves@),
                    fps as int,
                    precompute_start_s(filter_shake_s(moves@)),
                    k + 1,
                );
                (#[trigger] r@[k]).cursor.x as int == clamp_s(st.0.position.x as int, 0, FX_ONE as int)
                    && r@[k].cursor.y as int == clamp_s(st.0.position.y as int, 0, FX_ONE as int)
                    && r@[k].cursor.motion as int == min_i(
                    fx_sqrt_s(
                        fx_add_s(
                            fx_mul_s(st.0.velocity.x as int, st.0.velocity.x as int),
                            fx_mul_s(st.0.velocity.y as int, st.0.velocity.y as int),
                        ),
                    ),
                    FX_ONE as int,
                )
            }),
        forall|k: int| 0 <= k < r@.len() ==> #[trigger] r@[k].zoom.scale >= FX_ONE,
{
    if duration_ms <= 0 {
        return Vec::new();
    }

    proof {
        assert((duration_ms as int) * (fps as int) < 0x8000_0000_0000_0000
            * 0x8000_0000_0000_0000) by (nonlinear_arith)
            requires
                0 < (duration_ms as int) < 0x8000_0000_0000_0000,
                0 < (fps as int) < 0x8000_0000_0000_0000;
    }
    let prod: u128 = (duration_ms as u128) * (fps as u128);
    let count128: u128 = (prod + 999_999_999_999_999u128) / 1_000_000_000_000_000u128;
    proof {
        assert(count128 == frame_count_s(duration_ms as int, fps as int));
    }
    let frame_count: usize = count128 as usize;
    let frame_duration_ms: i64 = fx_div(1_000_000_000, fps);

    // The shake filter runs once for the whole pass.
    let filtered: Vec<MoveEvent> = filter_shake(&moves);

    let config: SpringConfig = SpringConfig::cursor_default();
    let mut sim: SpringSimulation = SpringSimulation::new(config);
    if filtered.len() > 0 {
        sim.set_position(Vec2 { x: filtered[0].x, y: filtered[0].y });
    } else {
        sim.set_position(Vec2 { x: FX_HALF, y: FX_HALF });
    }
    sim.set_velocity(Vec2 { x: 0, y: 0 });
    let anchor: Vec2 = sim.position;
    sim.set_target(anchor);

    let mut frames: Vec<FrameState> = Vec::new();
    let mut move_idx: usize = 0;
    let mut last_sim_time: i64 = 0;

    proof {
        assert(sim == precompute_start_s(filtered@));
    }

    let mut frame: usize = 0;
    while frame < frame_count
        invariant
            frame <= frame_count,
            frame_count <= 1_000_000_000,
            frames@.len() == frame,
            move_idx <= filtered@.len(),
            fps > 0,
            frame_duration_ms == fx_div_s(1000 * (FX_ONE as int), fps as int),
            filtered@ == filter_shake_s(moves@),
            sim == precompute_state_s(
                filtered@,
                fps as int,
                precompute_start_s(filtered@),
                frame as int,
            ).0,
            move_idx as int == precompute_state_s(
                filtered@,
                fps as int,
                precompute_start_s(filtered@),
                frame as int,
            ).1,
            last_sim_time as int == precompute_state_s(
                filtered@,
                fps as int,
                precompute_start_s(filtered@),
                frame as int,
            ).2,
            forall|k: int|
                0 <= k < frames@.len() ==> ({
                    let st = precompute_state_s(
                        filtered@,
                        fps as int,
                        precompute_start_s(filtered@),
                        k + 1,
                    );
                    (#[trigger] frames@[k]).cursor.x as int == clamp_s(
                        st.0.position.x as int,
                        0,
                        FX_ONE as int,
                    ) && frames@[k].cursor.y as int == clamp_s(
                        st.0.position.y as int,
                        0,
                        FX_ONE as int,
                    ) && frames@[k].cursor.motion as int == min_i(
                        fx_sqrt_s(
                            fx_add_s(
                                fx_mul_s(st.0.velocity.x as int, st.0.velocity.x as int),
                                fx_mul_s(st.0.velocity.y as int, st.0.velocity.y as int),
                            ),
                        ),
                        FX_ONE as int,
                    )
                }),
            forall|k: int|
                0 <= k < frames@.len() ==> #[trigger] frames@[k].zoom == zoom_state_s(
                    segments@,
                    frame_time_s(k, fps as int),
                    frames@[k].cursor.x as int,
                    frames@[k].cursor.y as int,
                ),
            forall|k: int|
                0 <= k < frames@.len() ==> #[trigger] frames@[k].cursor.opacity == zoom_opacity_s(
                    filtered@,
                    frame_time_s(k, fps as int),
                ),
            forall|k: int|
                0 <= k < frames@.len() ==> #[trigger] frames@[k].cursor.click_progress
                    == click_progress_s(clicks@, frame_time_s(k, fps as int), clicks@.len() as int),
            forall|k: int| 0 <= k < frames@.len() ==> #[trigger] frames@[k].zoom.scale >= FX_ONE,
        decreases frame_count - frame,
    {
        let time_ms: i64 = fx_mul((frame as i64) * FX_ONE, frame_duration_ms);
        proof {
            assert(time_ms as int == frame_time_s(frame as int, fps as int));
        }
        let ghost entry_sim: SpringSimulation = sim;
        let ghost entry_idx: int = move_idx as int;
        let ghost entry_last: int = last_sim_time as int;

        // Advance the shared replay to this frame's time.
        while move_idx < filtered.len() && filtered[move_idx].time <= time_ms
            invariant
                move_idx <= filtered@.len(),
                consume_moves_s(
                    filtered@,
                    time_ms as int,
                    move_idx as int,
                    sim,
                    last_sim_time as int,
                ) == consume_moves_s(filtered@, time_ms as int, entry_idx, entry_sim, entry_last),
            decreases filtered@.len() - move_idx,
        {
            let m: MoveEvent = filtered[move_idx];
            sim.set_target(Vec2 { x: m.x, y: m.y });
            let dt: i64 = fx_sub(m.time, last_sim_time);
            if dt > 0 {
                sim.run(dt);
            }
            last_sim_time = m.time;
            move_idx = move_idx + 1;
        }

        let remaining: i64 = fx_sub(time_ms, last_sim_time);
        if remaining > 0 {
            sim.run(remaining);
            last_sim_time = time_ms;
        }
        proof {
            let st_next = precompute_state_s(
                filtered@,
                fps as int,
                precompute_start_s(filtered@),
                frame as int + 1,
            );
            assert(st_next == precompute_step_s(
                filtered@,
                fps as int,
                precompute_state_s(filtered@, fps as int, precompute_start_s(filtered@), frame as int),
                frame as int,
            ));
            assert(sim == st_next.0 && move_idx as int == st_next.1 && last_sim_time as int
                == st_next.2);
        }

        let cx: i64 = fx_clamp(sim.position.x, 0, FX_ONE);
        let cy: i64 = fx_clamp(sim.position.y, 0, FX_ONE);

        let cursor: CursorState = CursorState {
            x: cx,
            y: cy,
            opacity: compute_opacity(&filtered, time_ms),
            click_progress: compute_click_progress(&clicks, time_ms),
            motion: fx_min(
                fx_sqrt(
                    fx_add(
                        fx_mul(sim.velocity.x, sim.velocity.x),
                        fx_mul(sim.velocity.y, sim.velocity.y),
                    ),
                ),
                FX_ONE,
            ),
        };

        let zoom: ZoomState = evaluate_zoom_at_time(&segments, time_ms, cursor.x, cursor.y);

        frames.push(FrameState { zoom, cursor });
        frame = frame + 1;
    }

    frames
}

// ───────────────────────────────────────────────────────────────
// Cursor state evaluation
// ───────────────────────────────────────────────────────────────

/// Whether an interior sample survives the shake test against its raw
/// neighbors: kept when the window is wide, or when the motion does not
/// reverse, or when the mean travel is not tiny.
pub open spec fn shake_keep_s(prev: MoveEvent, curr: MoveEvent, next: MoveEvent) -> bool {
    if fx_sub_s(next.time as int, prev.time as int) > SHAKE_WINDOW_MS as int {
        true
    } else {
        let dx1 = fx_sub_s(curr.x as int, prev.x as int);
        let dy1 = fx_sub_s(curr.y as int, prev.y as int);
        let dx2 = fx_sub_s(next.x as int, curr.x as int);
        let dy2 = fx_sub_s(next.y as int, curr.y as int);
        let dot = fx_add_s(fx_mul_s(dx1, dx2), fx_mul_s(dy1, dy2));
        let dist = sat64(
            tdiv(
                fx_add_s(
                    fx_sqrt_s(fx_add_s(fx_mul_s(dx1, dx1), fx_mul_s(dy1, dy1))),
                    fx_sqrt_s(fx_add_s(fx_mul_s(dx2, dx2), fx_mul_s(dy2, dy2))),
                ),
                2,
            ),
        );
        !(dot < 0 && dist < SHAKE_THRESHOLD as int)
    }
}

/// The interior samples (indices 1 through `i - 1`) the shake filter
/// keeps.
pub open spec fn shake_kept_upto_s(moves: Seq<MoveEvent>, i: int) -> Seq<MoveEvent>
    decreases i,
{
    if i <= 1 {
        Seq::empty()
    } else {
        let prefix = shake_kept_upto_s(moves, i - 1);
        if shake_keep_s(moves[i - 2], moves[i - 1], moves[i]) {
            prefix.push(moves[i - 1])
        } else {
            prefix
        }
    }
}

/// The whole shake filter as a value: short lists pass through, longer
/// ones keep their endpoints and the surviving interior samples.
pub open spec fn filter_shake_s(moves: Seq<MoveEvent>) -> Seq<MoveEvent> {
    if moves.len() < 3 {
        moves
    } else {
        seq![moves[0]] + shake_kept_upto_s(moves, moves.len() - 1) + seq![
            moves[moves.len() - 1],
        ]
    }
}

/// The click ripple as a value: the best smoothstep progress over the
/// first `i` clicks whose animation is still running at `t`.
pub open spec fn click_progress_s(clicks: Seq<ClickEvent>, t: int, i: int) -> int
    decreases i,
{
    if i <= 0 {
        0
    } else {
        let best = click_progress_s(clicks, t, i - 1);
        let c = clicks[i - 1];
        let elapsed = fx_sub_s(t, c.time as int);
        if c.down && elapsed >= 0 && elapsed < CLICK_VISUAL_DURATION_MS as int {
            let p = smoothstep_s(fx_div_s(elapsed, CLICK_VISUAL_DURATION_MS as int));
            if p > best {
                p
            } else {
                best
            }
        } else {
            best
        }
    }
}

/// Latest sample at or before `t`, scanning down from `j`.
pub open spec fn last_move_at_or_before_s(moves: Seq<MoveEvent>, t: int, j: int) -> Option<int>
    decreases j,
{
    if j <= 0 || j > moves.len() {
        None
    } else if moves[j - 1].time as int <= t {
        Some(j - 1)
    } else {
        last_move_at_or_before_s(moves, t, j - 1)
    }
}

/// The idle fade as a value: hidden without samples, anchored at the
/// latest sample at or before `t` (time zero when every sample is in the
/// future), opaque within the idle delay, then a linear fade floored at
/// zero.
pub open spec fn zoom_opacity_s(moves: Seq<MoveEvent>, t: int) -> int {
    if moves.len() == 0 {
        0
    } else {
        let anchor = match last_move_at_or_before_s(moves, t, moves.len() as int) {
            Some(k) => moves[k].time as int,
            None => 0,
        };
        let idle = fx_sub_s(t, anchor);
        if idle <= CURSOR_IDLE_DELAY_MS as int {
            FX_ONE as int
        } else {
            let fade = fx_div_s(fx_sub_s(idle, CURSOR_IDLE_DELAY_MS as int), CURSOR_FADE_OUT_MS as int);
            let v = fx_sub_s(FX_ONE as int, fade);
            if v >= 0 {
                v
            } else {
                0
            }
        }
    }
}

/// The smoothstep blend stays within the unit interval on unit inputs.
proof fn lemma_smoothstep_unit(t: int)
    requires
        0 <= t <= FX_ONE as int,
    ensures
        0 <= smoothstep_s(t) <= FX_ONE as int,
{
    let tt = t * t;
    assert(tt >= 0) by (nonlinear_arith)
        requires
            tt == t * t;
    let q = tt / (FX_ONE as int);
    lemma_div_nonneg(tt, FX_ONE as int);
    assert(q * 1_000_000 <= tt) by (nonlinear_arith)
        requires
            q == tt / 1_000_000,
            tt >= 0;
    assert(tt <= 1_000_000_000_000) by (nonlinear_arith)
        requires
            tt == t * t,
            0 <= t <= 1_000_000;
    lemma_div_mono_num(tt, 1_000_000_000_000int, 1_000_000);
    let back = 3_000_000 - 2 * t;
    assert(fx_add_s(t, t) == 2 * t);
    assert(fx_sub_s(3 * (FX_ONE as int), 2 * t) == back);
    assert(fx_mul_s(t, t) == q);
    assert(t * t * (3_000_000 - 2 * t) <= 1_000_000_000_000_000_000) by (nonlinear_arith)
        requires
            0 <= t <= 1_000_000;
    assert(q * back <= 1_000_000_000_000) by (nonlinear_arith)
        requires
            q >= 0,
            q * 1_000_000 <= t * t,
            back == 3_000_000 - 2 * t,
            0 <= t <= 1_000_000,
            t * t * (3_000_000 - 2 * t) <= 1_000_000_000_000_000_000;
    assert(q * back >= 0) by (nonlinear_arith)
        requires
            q >= 0,
            back >= 1_000_000;
    assert(fx_mul_s(q, back) == (q * back) / 1_000_000);
    lemma_div_nonneg(q * back, 1_000_000);
    lemma_div_mono_num(q * back, 1_000_000_000_000int, 1_000_000);
}

/// The click ripple at `time_ms`: the best smoothstep progress over all
/// presses whose animation is still running. Zero when no press qualifies.
pub fn compute_click_progress(clicks: &Vec<ClickEvent>, time_ms: i64) -> (r: i64)
    ensures
        r == click_progress_s(clicks@, time_ms as int, clicks@.len() as int),
        0 <= r <= FX_ONE,
        clicks@.len() == 0 ==> r == 0,
        r > 0 ==> exists|i: int|
            0 <= i < clicks@.len() && #[trigger] clicks@[i].down && clicks@[i].time <= time_ms,
{
    let mut best_progress: i64 = 0;

    let mut i: usize = 0;
    while i < clicks.len()
        invariant
            i <= clicks@.len(),
            0 <= best_progress <= FX_ONE,
            best_progress == click_progress_s(clicks@, time_ms as int, i as int),
            best_progress > 0 ==> exists|j: int|
                0 <= j < i && #[trigger] clicks@[j].down && clicks@[j].time <= time_ms,
        decreases clicks@.len() - i,
    {
        let click: ClickEvent = clicks[i];
        if click.down {
            let elapsed: i64 = fx_sub(time_ms, click.time);
            if elapsed >= 0 && elapsed < CLICK_VISUAL_DURATION_MS {
                let t: i64 = fx_div(elapsed, CLICK_VISUAL_DURATION_MS);
                proof {
                    lemma_div_nonneg(
                        iabs((elapsed as int) * (FX_ONE as int)),
                        iabs(CLICK_VISUAL_DURATION_MS as int),
                    );
                    lemma_div_mono_num(
                        (elapsed as int) * (FX_ONE as int),
                        349_999_999int * 1_000_000int,
                        CLICK_VISUAL_DURATION_MS as int,
                    );
                    lemma_smoothstep_unit(t as int);
                }
                let progress: i64 = fx_smoothstep(t);
                if progress > best_progress {
                    best_progress = progress;
                }
            }
        }
        i = i + 1;
    }

    best_progress
}

/// Cursor opacity at `time_ms`: opaque while recently active, fading out
/// after the idle delay. With no samples the cursor is hidden; a query
/// before every sample measures idleness from time zero.
pub fn compute_opacity(moves: &Vec<MoveEvent>, time_ms: i64) -> (r: i64)
    ensures
        r == zoom_opacity_s(moves@, time_ms as int),
        moves@.len() == 0 ==> r == 0,
        0 <= r <= FX_ONE,
{
    if moves.len() == 0 {
        return 0;
    }

    // Latest sample not after the query; fall back to time zero.
    let mut j: usize = moves.len();
    while j > 0 && moves[j - 1].time > time_ms
        invariant
            j <= moves@.len(),
            last_move_at_or_before_s(moves@, time_ms as int, moves@.len() as int)
                == last_move_at_or_before_s(moves@, time_ms as int, j as int),
        decreases j,
    {
        j = j - 1;
    }
    let last_move_time: i64 = if j > 0 {
        moves[j - 1].time
    } else {
        0
    };

    let idle_time: i64 = fx_sub(time_ms, last_move_time);

    if idle_time <= CURSOR_IDLE_DELAY_MS {
        FX_ONE
    } else {
        let fade_progress: i64 = fx_div(fx_sub(idle_time, CURSOR_IDLE_DELAY_MS), CURSOR_FADE_OUT_MS);
        proof {
            lemma_div_nonneg(
                iabs(fx_sub_s(idle_time as int, CURSOR_IDLE_DELAY_MS as int) * (FX_ONE as int)),
                iabs(CURSOR_FADE_OUT_MS as int),
            );
        }
        fx_max(fx_sub(FX_ONE, fade_progress), 0)
    }
}

/// The spring replay as a value: feed the samples from index `i` on to
/// the simulation as moving targets, stepping by the sample spacing; a
/// sample past the query time becomes the target for one partial step to
/// the query, and when the samples run out the remainder of the time is
/// run in one step.
pub open spec fn cursor_replay_s(
    moves: Seq<MoveEvent>,
    time_ms: int,
    i: int,
    sim: SpringSimulation,
    last_time: int,
) -> SpringSimulation
    decreases moves.len() - i,
{
    if i < 0 || i >= moves.len() {
        if last_time < time_ms {
            spring_step_s(sim, fx_sub_s(time_ms, last_time))
        } else {
            sim
        }
    } else {
        let m = moves[i];
        let targeted = SpringSimulation {
            config: sim.config,
            position: sim.position,
            velocity: sim.velocity,
            target: Vec2 { x: m.x, y: m.y },
        };
        if m.time as int > time_ms {
            spring_step_s(targeted, fx_sub_s(time_ms, last_time))
        } else {
            let dt = fx_sub_s(m.time as int, last_time);
            let stepped = if dt > 0 {
                spring_step_s(targeted, dt)
            } else {
                targeted
            };
            cursor_replay_s(moves, time_ms, i + 1, stepped, m.time as int)
        }
    }
}

/// The position query as a value: boundary holds outside the recorded
/// range; inside it, the shake-filtered samples are replayed through the
/// default cursor spring up to the query time and the position is
/// clamped to the unit square.
pub open spec fn cursor_position_s(moves: Seq<MoveEvent>, time_ms: int) -> (int, int, int, int) {
    if moves.len() == 0 {
        (FX_HALF as int, FX_HALF as int, 0int, 0int)
    } else if time_ms <= moves[0].time as int {
        (moves[0].x as int, moves[0].y as int, 0int, 0int)
    } else if time_ms >= moves[moves.len() - 1].time as int {
        (moves[moves.len() - 1].x as int, moves[moves.len() - 1].y as int, 0int, 0int)
    } else {
        let filtered = filter_shake_s(moves);
        let start = Vec2 { x: filtered[0].x, y: filtered[0].y };
        let init = SpringSimulation {
            config: SpringConfig { tension: 100_000_000, mass: 1_000_000, friction: 20_000_000 },
            position: start,
            velocity: Vec2 { x: 0, y: 0 },
            target: start,
        };
        let sim = cursor_replay_s(filtered, time_ms, 0, init, 0);
        (
            clamp_s(sim.position.x as int, 0, FX_ONE as int),
            clamp_s(sim.position.y as int, 0, FX_ONE as int),
            sim.velocity.x as int,
            sim.velocity.y as int,
        )
    }
}

/// The whole cursor evaluation as a value: position and velocity from
/// the replay, the idle fade, the click ripple, and the capped motion
/// magnitude.
pub open spec fn cursor_state_s(moves: Seq<MoveEvent>, clicks: Seq<ClickEvent>, t: int) -> CursorState {
    if moves.len() == 0 {
        CursorState { x: FX_HALF, y: FX_HALF, opacity: 0, click_progress: 0, motion: 0 }
    } else {
        let p = cursor_position_s(moves, t);
        CursorState {
            x: p.0 as i64,
            y: p.1 as i64,
            opacity: zoom_opacity_s(moves, t) as i64,
            click_progress: click_progress_s(clicks, t, clicks.len() as int) as i64,
            motion: min_i(
                fx_sqrt_s(fx_add_s(fx_mul_s(p.2, p.2), fx_mul_s(p.3, p.3))),
                FX_ONE as int,
            ) as i64,
        }
    }
}

/// Shake filter for plain move samples: drop interior samples that
/// reverse direction within a tiny area and a short window.
fn filter_shake(moves: &Vec<MoveEvent>) -> (r: Vec<MoveEvent>)
    ensures
        r@ == filter_shake_s(moves@),
        r@.len() <= moves@.len(),
        moves@.len() < 3 ==> r@ == moves@,
        moves@.len() >= 1 ==> r@.len() >= 1 && r@[0] == moves@[0]
            && r@[r@.len() - 1] == moves@[moves@.len() - 1],
{
    let n: usize = moves.len();
    if n < 3 {
        let mut copy: Vec<MoveEvent> = Vec::new();
        let mut i: usize = 0;
        while i < n
            invariant
                i <= n,
                n == moves@.len(),
                copy@ == moves@.subrange(0, i as int),
            decreases n - i,
        {
            copy.push(moves[i]);
            i = i + 1;
        }
        proof {
            assert(copy@ =~= moves@);
        }
        return copy;
    }

    let mut result: Vec<MoveEvent> = Vec::new();
    result.push(moves[0]);

    let mut i: usize = 1;
    while i < n - 1
        invariant
            1 <= i <= n - 1,
            3 <= n == moves@.len(),
            1 <= result@.len() <= i,
            result@[0] == moves@[0],
            result@ == seq![moves@[0]] + shake_kept_upto_s(moves@, i as int),
        decreases n - 1 - i,
    {
        let prev: MoveEvent = moves[i - 1];
        let curr: MoveEvent = moves[i];
        let next: MoveEvent = moves[i + 1];

        let ghost pre: Seq<MoveEvent> = result@;
        let time_window: i64 = fx_sub(next.time, prev.time);
        if time_window > SHAKE_WINDOW_MS {
            result.push(curr);
            proof {
                assert(shake_keep_s(moves@[i - 1], moves@[i as int], moves@[i + 1]));
                assert(result@ =~= seq![moves@[0]] + shake_kept_upto_s(moves@, i + 1));
            }
            i = i + 1;
            continue;
        }

        let dx1: i64 = fx_sub(curr.x, prev.x);
        let dy1: i64 = fx_sub(curr.y, prev.y);
        let dx2: i64 = fx_sub(next.x, curr.x);
        let dy2: i64 = fx_sub(next.y, curr.y);

        let dot: i64 = fx_add(fx_mul(dx1, dx2), fx_mul(dy1, dy2));
        let mag_in: i64 = fx_sqrt(fx_add(fx_mul(dx1, dx1), fx_mul(dy1, dy1)));
        let mag_out: i64 = fx_sqrt(fx_add(fx_mul(dx2, dx2), fx_mul(dy2, dy2)));
        let dist: i64 = fx_divi(fx_add(mag_in, mag_out), 2);

        if dot < 0 && dist < SHAKE_THRESHOLD {
            proof {
                assert(!shake_keep_s(moves@[i - 1], moves@[i as int], moves@[i + 1]));
                assert(result@ =~= seq![moves@[0]] + shake_kept_upto_s(moves@, i + 1));
            }
            i = i + 1;
            continue;
        }

        result.push(curr);
        proof {
            assert(shake_keep_s(moves@[i - 1], moves@[i as int], moves@[i + 1]));
            assert(result@ =~= seq![moves@[0]] + shake_kept_upto_s(moves@, i + 1));
        }
        i = i + 1;
    }

    result.push(moves[n - 1]);
    proof {
        assert(result@ =~= seq![moves@[0]] + shake_kept_upto_s(moves@, n - 1) + seq![
            moves@[n - 1],
        ]);
    }
    result
}

/// Spring-smoothed cursor position at `time_ms`: replay the filtered
/// samples through the default cursor spring up to the query time. Before
/// the first sample and after the last the position holds steady with
/// zero velocity; in between the position is clamped to the unit square.
fn interpolate_cursor_position(moves: &Vec<MoveEvent>, time_ms: i64) -> (r: (i64, i64, i64, i64))
    ensures
        r.0 == cursor_position_s(moves@, time_ms as int).0,
        r.1 == cursor_position_s(moves@, time_ms as int).1,
        r.2 == cursor_position_s(moves@, time_ms as int).2,
        r.3 == cursor_position_s(moves@, time_ms as int).3,
        moves@.len() == 0 ==> r == (FX_HALF, FX_HALF, 0i64, 0i64),
        moves@.len() > 0 && time_ms <= moves@[0].time ==> r == (
            moves@[0].x,
            moves@[0].y,
            0i64,
            0i64,
        ),
        moves@.len() > 0 && time_ms > moves@[0].time && time_ms >= moves@[moves@.len() - 1].time
            ==> r == (moves@[moves@.len() - 1].x, moves@[moves@.len() - 1].y, 0i64, 0i64),
        0 <= r.0 <= FX_ONE || (moves@.len() > 0 && (time_ms <= moves@[0].time || time_ms
            >= moves@[moves@.len() - 1].time)),
        0 <= r.1 <= FX_ONE || (moves@.len() > 0 && (time_ms <= moves@[0].time || time_ms
            >= moves@[moves@.len() - 1].time)),
{
    if moves.len() == 0 {
        return (FX_HALF, FX_HALF, 0, 0);
    }

    if time_ms <= moves[0].time {
        return (moves[0].x, moves[0].y, 0, 0);
    }

    let last: MoveEvent = moves[moves.len() - 1];
    if time_ms >= last.time {
        return (last.x, last.y, 0, 0);
    }

    let filtered: Vec<MoveEvent> = filter_shake(moves);

    let config: SpringConfig = SpringConfig::cursor_default();
    let mut sim: SpringSimulation = SpringSimulation::new(config);
    let start: Vec2 = Vec2 { x: filtered[0].x, y: filtered[0].y };
    sim.set_position(start);
    sim.set_velocity(Vec2 { x: 0, y: 0 });
    sim.set_target(start);

    let ghost goal: SpringSimulation = cursor_replay_s(filtered@, time_ms as int, 0, sim, 0);

    let mut last_time: i64 = 0;
    let mut i: usize = 0;
    let mut done: bool = false;
    while i < filtered.len() && !done
        invariant
            i <= filtered@.len(),
            !done ==> cursor_replay_s(filtered@, time_ms as int, i as int, sim, last_time as int)
                == goal,
            done ==> sim == goal && last_time == time_ms,
        decreases (if done { 0int } else { 1int }), filtered@.len() - i,
    {
        let m: MoveEvent = filtered[i];
        if m.time > time_ms {
            // Future sample: aim at it and advance only to the query time.
            sim.set_target(Vec2 { x: m.x, y: m.y });
            sim.run(fx_sub(time_ms, last_time));
            last_time = time_ms;
            done = true;
        } else {
            sim.set_target(Vec2 { x: m.x, y: m.y });
            let dt: i64 = fx_sub(m.time, last_time);
            if dt > 0 {
                sim.run(dt);
            }
            last_time = m.time;
            i = i + 1;
        }
    }

    // Past every sample without reaching the query: run the remainder.
    if last_time < time_ms {
        sim.run(fx_sub(time_ms, last_time));
    }
    proof {
        assert(sim == goal);
    }

    let x: i64 = fx_clamp(sim.position.x, 0, FX_ONE);
    let y: i64 = fx_clamp(sim.position.y, 0, FX_ONE);

    (x, y, sim.velocity.x, sim.velocity.y)
}

/// Cursor state for one query time: spring-smoothed position, click
/// ripple progress, idle-fade opacity, and motion magnitude for blur.
pub fn interpolate_cursor_at_time(moves: Vec<MoveEvent>, clicks: Vec<ClickEvent>, time_ms: i64) -> (r:
    CursorState)
    ensures
        r == cursor_state_s(moves@, clicks@, time_ms as int),
        moves@.len() == 0 ==> r == (CursorState {
            x: FX_HALF,
            y: FX_HALF,
            opacity: 0i64,
            click_progress: 0i64,
            motion: 0i64,
        }),
        moves@.len() > 0 && time_ms <= moves@[0].time ==> r.x == moves@[0].x && r.y == moves@[0].y
            && r.motion == 0,
        moves@.len() > 0 && time_ms > moves@[0].time && time_ms >= moves@[moves@.len() - 1].time
            ==> r.x == moves@[moves@.len() - 1].x && r.y == moves@[moves@.len() - 1].y
            && r.motion == 0,
        0 <= r.opacity <= FX_ONE,
        0 <= r.click_progress <= FX_ONE,
        0 <= r.motion <= FX_ONE,
{
    if moves.len() == 0 {
        return CursorState { x: FX_HALF, y: FX_HALF, opacity: 0, click_progress: 0, motion: 0 };
    }

    let (x, y, vx, vy): (i64, i64, i64, i64) = interpolate_cursor_position(&moves, time_ms);
    proof {
        lemma_fx_mul_zero(0);
    }

    let click_progress: i64 = compute_click_progress(&clicks, time_ms);
    let opacity: i64 = compute_opacity(&moves, time_ms);

    let motion: i64 = fx_min(fx_sqrt(fx_add(fx_mul(vx, vx), fx_mul(vy, vy))), FX_ONE);

    CursorState { x, y, opacity, click_progress, motion }
}

/// Zoom and cursor state for one frame, evaluated together: the cursor
/// position doubles as the zoom focus.
pub fn evaluate_frame(
    segments: Vec<ZoomSegment>,
    moves: Vec<MoveEvent>,
    clicks: Vec<ClickEvent>,
    time_ms: i64,
) -> (r: FrameState)
    ensures
        r.cursor == cursor_state_s(moves@, clicks@, time_ms as int),
        r.zoom == zoom_state_s(
            segments@,
            time_ms as int,
            r.cursor.x as int,
            r.cursor.y as int,
        ),
        segments@.len() == 0 ==> r.zoom == identity_zoom_state(),
        r.zoom.scale >= FX_ONE,
{
    let cursor: CursorState = interpolate_cursor_at_time(moves, clicks, time_ms);
    let zoom: ZoomState = evaluate_zoom_at_time(&segments, time_ms, cursor.x, cursor.y);
    FrameState { zoom, cursor }
}

} // verus!
