//! Segment-based zoom with a precomputed focus track.
//!
//! A query resolves the active segment (or the transition after one),
//! eases the zoom amount with the spring curves, takes the focus position
//! from a spring-smoothed track precomputed at a fixed rate, and derives
//! camera bounds with a cursor-visibility guarantee, edge snapping, and a
//! final clamp to the unit square. The precomputed track makes scrubbing
//! and full export passes agree exactly.

use vstd::prelude::*;
use crate::cursor::CursorEvents;
use crate::cursor::interpolate_cursor;
use crate::cursor::interpolate_cursor_s;
use crate::cursor::moves_sorted;
use crate::spring::spring_step_s;
use crate::zoom::min_i;
use crate::fixed::FX_HALF;
use crate::fixed::FX_ONE;
use crate::fixed::fx_add;
use crate::fixed::fx_add_s;
use crate::fixed::clamp_s;
use crate::fixed::fx_clamp;
use crate::fixed::fx_div;
use crate::fixed::fx_div_s;
use crate::fixed::fx_divi;
use crate::fixed::fx_lerp;
use crate::fixed::fx_max;
use crate::fixed::fx_min;
use crate::fixed::fx_mul;
use crate::fixed::fx_mul_s;
use crate::fixed::fx_sub;
use crate::fixed::fx_sub_s;
use crate::fixed::iabs;
use crate::fixed::lemma_div_nonneg;
use crate::fixed::lerp_s;
use crate::fixed::sat64;
use crate::fixed::tdiv;
use crate::spring::SpringConfig;
use crate::spring::SpringSimulation;
use crate::spring::Vec2;
use crate::spring::instant_ease;
use crate::spring::instant_ease_s;
use crate::spring::spring_ease;
use crate::spring::spring_ease_out;
use crate::spring::spring_ease_out_s;
use crate::spring::spring_ease_s;

verus! {

/// Seconds a zoom-in or zoom-out transition takes.
pub const ZOOM_DURATION: i64 = 1_000_000;

/// Stiffness of the screen-movement spring driving the focus track.
pub const SCREEN_SPRING_STIFFNESS: i64 = 200_000_000;

/// Damping of the screen-movement spring.
pub const SCREEN_SPRING_DAMPING: i64 = 40_000_000;

/// Mass of the screen-movement spring.
pub const SCREEN_SPRING_MASS: i64 = 2_250_000;

/// Milliseconds between precomputed focus samples (125 Hz).
pub const FOCUS_SAMPLE_INTERVAL_MS: i64 = 8_000_000;

/// Whether the camera follows the cursor or a fixed position.
#[derive(Clone, Copy, Debug, PartialEq, Eq, Structural)]
pub enum ZoomMode {
    /// Follow the cursor.
    Auto,
    /// Fixed position.
    Manual,
}

/// A zoom interval with its easing and edge policy.
#[derive(Clone, Copy, Debug, PartialEq, Eq, Structural)]
pub struct ZoomSegment {
    /// Seconds.
    pub start: i64,
    /// Seconds.
    pub end: i64,
    /// Zoom level; 1.5 means 150%.
    pub amount: i64,
    pub mode: ZoomMode,
    pub instant_animation: bool,
    /// 0 to 1: how far the viewport is pushed off the frame edges.
    pub edge_snap_ratio: i64,
}

/// Segments the evaluator assumes: each runs forward and they never
/// overlap, stated pairwise.
pub open spec fn track_segments_valid(s: Seq<ZoomSegment>) -> bool {
    &&& forall|i: int| 0 <= i < s.len() ==> #[trigger] s[i].start < s[i].end
    &&& forall|i: int, j: int|
        #![trigger s[i].end, s[j].start]
        0 <= i < j < s.len() ==> s[i].end <= s[j].start
}

/// The query sits on some segment's plateau: the zoom-in transition has
/// finished and the segment has not ended.
pub open spec fn on_track_plateau(s: Seq<ZoomSegment>, time_secs: int) -> bool {
    exists|i: int|
        0 <= i < s.len() && (#[trigger] s[i]).start + ZOOM_DURATION as int <= time_secs
            && time_secs <= s[i].end
}

/// The visible portion of the unit square.
#[derive(Clone, Copy, Debug, PartialEq, Eq, Structural)]
pub struct ZoomBounds {
    pub top_left: Vec2,
    pub bottom_right: Vec2,
}

/// Width of the bounds, floored at 0.001 so its reciprocal exists.
pub open spec fn bounds_width_s(b: ZoomBounds) -> int {
    let w = fx_sub_s(b.bottom_right.x as int, b.top_left.x as int);
    if w >= 1000 {
        w
    } else {
        1000int
    }
}

impl ZoomBounds {
    /// The whole unit square.
    pub fn identity() -> (r: ZoomBounds)
        ensures
            r == (ZoomBounds {
                top_left: Vec2 { x: 0i64, y: 0i64 },
                bottom_right: Vec2 { x: FX_ONE, y: FX_ONE },
            }),
    {
        ZoomBounds {
            top_left: Vec2 { x: 0, y: 0 },
            bottom_right: Vec2 { x: FX_ONE, y: FX_ONE },
        }
    }

    /// Viewport width (the camera scale is its reciprocal).
    pub fn scale(&self) -> (r: i64)
        ensures
            r == bounds_width_s(*self),
    {
        fx_max(fx_sub(self.bottom_right.x, self.top_left.x), 1000)
    }

    /// Midpoint of the viewport.
    pub fn center(&self) -> (r: Vec2)
        ensures
            r.x == fx_mul_s(fx_add_s(self.top_left.x as int, self.bottom_right.x as int), FX_HALF as int),
            r.y == fx_mul_s(fx_add_s(self.top_left.y as int, self.bottom_right.y as int), FX_HALF as int),
    {
        Vec2 {
            x: fx_mul(fx_add(self.top_left.x, self.bottom_right.x), FX_HALF),
            y: fx_mul(fx_add(self.top_left.y, self.bottom_right.y), FX_HALF),
        }
    }
}

/// The evaluated zoom at one query time.
#[derive(Clone, Copy, Debug, PartialEq, Eq, Structural)]
pub struct InterpolatedZoom {
    pub bounds: ZoomBounds,
    pub is_active: bool,
    /// 0 at identity, 1 fully zoomed.
    pub transition_progress: i64,
}

/// The zoom that shows everything.
pub open spec fn identity_zoom() -> InterpolatedZoom {
    InterpolatedZoom {
        bounds: ZoomBounds {
            top_left: Vec2 { x: 0, y: 0 },
            bottom_right: Vec2 { x: FX_ONE, y: FX_ONE },
        },
        is_active: false,
        transition_progress: 0,
    }
}

impl InterpolatedZoom {
    /// No zoom at all.
    pub fn identity() -> (r: InterpolatedZoom)
        ensures
            r == identity_zoom(),
    {
        InterpolatedZoom {
            bounds: ZoomBounds {
                top_left: Vec2 { x: 0, y: 0 },
                bottom_right: Vec2 { x: FX_ONE, y: FX_ONE },
            },
            is_active: false,
            transition_progress: 0,
        }
    }

    /// Camera center handed to the compositor.
    pub fn camera_center(&self) -> (r: Vec2)
        ensures
            r.x == fx_mul_s(
                fx_add_s(self.bounds.top_left.x as int, self.bounds.bottom_right.x as int),
                FX_HALF as int,
            ),
            r.y == fx_mul_s(
                fx_add_s(self.bounds.top_left.y as int, self.bounds.bottom_right.y as int),
                FX_HALF as int,
            ),
    {
        self.bounds.center()
    }

    /// Camera scale handed to the compositor: the reciprocal of the
    /// viewport width.
    pub fn camera_scale(&self) -> (r: i64)
        ensures
            r == fx_div_s(FX_ONE as int, bounds_width_s(self.bounds)),
    {
        let w: i64 = self.bounds.scale();
        fx_div(FX_ONE, w)
    }
}

// ───────────────────────────────────────────────────────────────
// Segment cursor
// ───────────────────────────────────────────────────────────────

/// Where a query time falls relative to the segment list.
#[derive(Clone, Copy, Debug, PartialEq, Eq, Structural)]
pub struct SegmentsCursor {
    /// The segment being zoomed into, if any.
    pub segment: Option<ZoomSegment>,
    /// Transition progress inside the segment, 0 to 1.
    pub time_in_segment: i64,
    /// Seconds since the previous segment ended, for the zoom-out tail.
    pub time_since_end: i64,
    /// The segment preceding the query, if any.
    pub prev_segment: Option<ZoomSegment>,
}

/// First segment whose span (inclusive) contains the query, from `i`.
pub open spec fn find_inside_s(s: Seq<ZoomSegment>, t: int, i: int) -> Option<int>
    decreases s.len() - i,
{
    if i < 0 || i >= s.len() {
        None
    } else if t >= s[i].start && t <= s[i].end {
        Some(i)
    } else {
        find_inside_s(s, t, i + 1)
    }
}

/// First segment whose zoom-out window contains the query, from `i`.
pub open spec fn find_outwindow_s(s: Seq<ZoomSegment>, t: int, i: int) -> Option<int>
    decreases s.len() - i,
{
    if i < 0 || i >= s.len() {
        None
    } else if t > s[i].end && t < fx_add_s(s[i].end as int, ZOOM_DURATION as int) {
        Some(i)
    } else {
        find_outwindow_s(s, t, i + 1)
    }
}

/// The whole segment lookup as a value: inside a segment (with its
/// capped transition progress), in the zoom-out window after one, or in
/// open time.
pub open spec fn at_time_s(s: Seq<ZoomSegment>, t: int) -> SegmentsCursor {
    match find_inside_s(s, t, 0) {
        Some(i) => SegmentsCursor {
            segment: Some(s[i]),
            time_in_segment: min_i(
                fx_div_s(fx_sub_s(t, s[i].start as int), ZOOM_DURATION as int),
                FX_ONE as int,
            ) as i64,
            time_since_end: 0,
            prev_segment: if i > 0 {
                Some(s[i - 1])
            } else {
                None
            },
        },
        None => match find_outwindow_s(s, t, 0) {
            Some(j) => SegmentsCursor {
                segment: if j + 1 < s.len() {
                    Some(s[j + 1])
                } else {
                    None
                },
                time_in_segment: 0,
                time_since_end: fx_sub_s(t, s[j].end as int) as i64,
                prev_segment: Some(s[j]),
            },
            None => SegmentsCursor {
                segment: None,
                time_in_segment: 0,
                time_since_end: 0,
                prev_segment: if s.len() > 0 && t > s[s.len() - 1].end {
                    Some(s[s.len() - 1])
                } else {
                    None
                },
            },
        },
    }
}

impl SegmentsCursor {
    /// Locate `time_secs` in the segment list: inside a segment, in the
    /// zoom-out window after one, or in open time.
    pub fn at_time(segments: &Vec<ZoomSegment>, time_secs: i64) -> (r: SegmentsCursor)
        ensures
            r == at_time_s(segments@, time_secs as int),
            segments@.len() == 0 ==> r == (SegmentsCursor {
                segment: None,
                time_in_segment: 0i64,
                time_since_end: 0i64,
                prev_segment: None,
            }),
            track_segments_valid(segments@) && segments@.len() > 0 && time_secs
                < segments@[0].start ==> r == (SegmentsCursor {
                segment: None,
                time_in_segment: 0i64,
                time_since_end: 0i64,
                prev_segment: None,
            }),
            0 <= r.time_in_segment <= FX_ONE,
            0 <= r.time_since_end,
            track_segments_valid(segments@) && on_track_plateau(segments@, time_secs as int)
                ==> r.segment is Some,
    {
        let ghost before_all: bool = track_segments_valid(segments@) && segments@.len() > 0
            && time_secs < segments@[0].start;
        let ghost plateau: bool = track_segments_valid(segments@) && on_track_plateau(
            segments@,
            time_secs as int,
        );

        let n: usize = segments.len();

        // Inside a segment?
        let mut i: usize = 0;
        while i < n
            invariant
                i <= n,
                n == segments@.len(),
                before_all == (track_segments_valid(segments@) && segments@.len() > 0 && time_secs
                    < segments@[0].start),
                plateau == (track_segments_valid(segments@) && on_track_plateau(
                    segments@,
                    time_secs as int,
                )),
                forall|j: int|
                    0 <= j < i ==> !(time_secs >= (#[trigger] segments@[j]).start && time_secs
                        <= segments@[j].end),
                find_inside_s(segments@, time_secs as int, 0) == find_inside_s(
                    segments@,
                    time_secs as int,
                    i as int,
                ),
            decreases n - i,
        {
            let seg: ZoomSegment = segments[i];
            if time_secs >= seg.start && time_secs <= seg.end {
                proof {
                    if before_all {
                        if i > 0 {
                            assert(segments@[0].start < segments@[0].end);
                            assert(segments@[0].end <= segments@[i as int].start);
                        }
                        assert(false);
                    }
                }
                let elapsed: i64 = fx_sub(time_secs, seg.start);
                let progress: i64 = fx_min(fx_div(elapsed, ZOOM_DURATION), FX_ONE);
                proof {
                    lemma_div_nonneg(
                        iabs((elapsed as int) * (FX_ONE as int)),
                        iabs(ZOOM_DURATION as int),
                    );
                }
                let prev: Option<ZoomSegment> = if i > 0 {
                    Some(segments[i - 1])
                } else {
                    None
                };
                return SegmentsCursor {
                    segment: Some(seg),
                    time_in_segment: progress,
                    time_since_end: 0,
                    prev_segment: prev,
                };
            }
            i = i + 1;
        }

        proof {
            assert(find_inside_s(segments@, time_secs as int, n as int) is None);
            if plateau {
                let ii = choose|i: int|
                    0 <= i < segments@.len() && (#[trigger] segments@[i]).start
                        + ZOOM_DURATION as int <= time_secs && time_secs <= segments@[i].end;
                assert(!(time_secs >= segments@[ii].start && time_secs <= segments@[ii].end));
                assert(false);
            }
        }

        // In the zoom-out window after a segment?
        let mut j: usize = 0;
        while j < n
            invariant
                j <= n,
                n == segments@.len(),
                before_all == (track_segments_valid(segments@) && segments@.len() > 0 && time_secs
                    < segments@[0].start),
                plateau == (track_segments_valid(segments@) && on_track_plateau(
                    segments@,
                    time_secs as int,
                )),
                forall|k: int|
                    0 <= k < n ==> !(time_secs >= (#[trigger] segments@[k]).start && time_secs
                        <= segments@[k].end),
                find_inside_s(segments@, time_secs as int, 0) is None,
                find_outwindow_s(segments@, time_secs as int, 0) == find_outwindow_s(
                    segments@,
                    time_secs as int,
                    j as int,
                ),
            decreases n - j,
        {
            let seg: ZoomSegment = segments[j];
            if time_secs > seg.end && time_secs < fx_add(seg.end, ZOOM_DURATION) {
                proof {
                    if plateau {
                        let ii = choose|i: int|
                            0 <= i < segments@.len() && (#[trigger] segments@[i]).start
                                + ZOOM_DURATION as int <= time_secs && time_secs
                                <= segments@[i].end;
                        assert(!(time_secs >= segments@[ii].start && time_secs
                            <= segments@[ii].end));
                        assert(false);
                    }
                    if before_all {
                        if j > 0 {
                            assert(segments@[0].start < segments@[0].end);
                            assert(segments@[0].end <= segments@[j as int].start);
                        }
                        assert(false);
                    }
                }
                let time_since_end: i64 = fx_sub(time_secs, seg.end);
                let next: Option<ZoomSegment> = if j + 1 < n {
                    Some(segments[j + 1])
                } else {
                    None
                };
                return SegmentsCursor {
                    segment: next,
                    time_in_segment: 0,
                    time_since_end,
                    prev_segment: Some(seg),
                };
            }
            j = j + 1;
        }

        // Open time: remember the last segment already ended, if any.
        let prev: Option<ZoomSegment> = if n > 0 && time_secs > segments[n - 1].end {
            proof {
                if before_all {
                    if n > 1 {
                        assert(segments@[0].start < segments@[0].end);
                        assert(segments@[0].end <= segments@[n - 1].start);
                    }
                    assert(false);
                }
            }
            Some(segments[n - 1])
        } else {
            None
        };
        SegmentsCursor { segment: None, time_in_segment: 0, time_since_end: 0, prev_segment: prev }
    }
}

// ───────────────────────────────────────────────────────────────
// Focus track
// ───────────────────────────────────────────────────────────────

/// One precomputed focus sample.
#[derive(Clone, Copy, Debug, PartialEq, Eq, Structural)]
pub struct FocusEvent {
    pub time_ms: i64,
    pub position: Vec2,
}

/// The focus track: a screen-movement spring run once across the whole
/// timeline at a fixed sampling rate, chasing the smoothed cursor. The
/// precomputation makes scrubbing and export passes read identical focus
/// positions.
pub struct ZoomFocusInterpolator {
    pub events: Option<Vec<FocusEvent>>,
    pub cursor_events: CursorEvents,
    pub cursor_smoothing: Option<SpringConfig>,
    pub screen_spring: SpringConfig,
    pub duration_secs: i64,
}

/// The focus sampling as a fold from `current`: at each sample time the
/// screen spring chases the smoothed cursor (the target keeps its last
/// value when there is no cursor), steps by the sampling interval, and
/// the reached position is recorded.
pub open spec fn focus_fold_s(
    moves: Seq<crate::cursor::CursorMoveEvent>,
    clicks: Seq<crate::cursor::CursorClickEvent>,
    smoothing: Option<SpringConfig>,
    total_ms: int,
    current: int,
    sim: SpringSimulation,
    acc: Seq<FocusEvent>,
) -> Seq<FocusEvent>
    decreases total_ms + FOCUS_SAMPLE_INTERVAL_MS - current,
{
    if current > total_ms {
        acc
    } else {
        let cur = interpolate_cursor_s(moves, clicks, sat64(tdiv(current, 1000)), smoothing, None);
        let targeted = match cur {
            Some(c) => SpringSimulation {
                config: sim.config,
                position: sim.position,
                velocity: sim.velocity,
                target: Vec2 { x: c.x, y: c.y },
            },
            None => sim,
        };
        let stepped = spring_step_s(targeted, FOCUS_SAMPLE_INTERVAL_MS as int);
        focus_fold_s(
            moves,
            clicks,
            smoothing,
            total_ms,
            current + FOCUS_SAMPLE_INTERVAL_MS,
            stepped,
            acc.push(FocusEvent { time_ms: current as i64, position: stepped.position }),
        )
    }
}

/// The whole precomputed track as a value: empty without cursor data,
/// else the screen spring started at the initial smoothed cursor
/// position and sampled across the (clamped) timeline.
pub open spec fn focus_track_s(
    moves: Seq<crate::cursor::CursorMoveEvent>,
    clicks: Seq<crate::cursor::CursorClickEvent>,
    smoothing: Option<SpringConfig>,
    screen_spring: SpringConfig,
    duration_secs: int,
) -> Seq<FocusEvent> {
    if moves.len() == 0 {
        Seq::empty()
    } else {
        let initial = match interpolate_cursor_s(moves, clicks, 0, smoothing, None) {
            Some(c) => Vec2 { x: c.x, y: c.y },
            None => Vec2 { x: FX_HALF, y: FX_HALF },
        };
        let sim0 = SpringSimulation {
            config: screen_spring,
            position: initial,
            velocity: Vec2 { x: 0, y: 0 },
            target: initial,
        };
        let total = min_i(fx_mul_s(duration_secs, 1_000_000_000), 4_000_000_000_000_000);
        focus_fold_s(moves, clicks, smoothing, total, 0, sim0, Seq::empty())
    }
}

/// How many samples the precomputed track holds: one per interval step
/// from zero through the recording's end (clamped far above any real
/// duration), none for negative durations.
pub open spec fn track_len_s(duration_secs: int) -> int {
    let total = min_i(fx_mul_s(duration_secs, 1_000_000_000), 4_000_000_000_000_000);
    if total < 0 {
        0
    } else {
        total / (FOCUS_SAMPLE_INTERVAL_MS as int) + 1
    }
}

/// The focus when no usable track exists: the smoothed cursor itself,
/// or the frame center without cursor data.
pub open spec fn focus_fallback_s(
    moves: Seq<crate::cursor::CursorMoveEvent>,
    clicks: Seq<crate::cursor::CursorClickEvent>,
    time_secs: int,
    smoothing: Option<SpringConfig>,
) -> Vec2 {
    match interpolate_cursor_s(moves, clicks, time_secs, smoothing, None) {
        Some(c) => Vec2 { x: c.x, y: c.y },
        None => Vec2 { x: FX_HALF, y: FX_HALF },
    }
}

/// First track sample strictly after the query, scanning from `i`.
pub open spec fn track_upper_s(ev: Seq<FocusEvent>, tq: int, i: int) -> int
    decreases ev.len() - i,
{
    if i < 0 || i >= ev.len() {
        ev.len() as int
    } else if ev[i].time_ms as int <= tq {
        track_upper_s(ev, tq, i + 1)
    } else {
        i
    }
}

/// The track lookup as a value: the boundary sample outside the track's
/// span, else the linear blend of the two bracketing samples.
pub open spec fn track_lookup_s(ev: Seq<FocusEvent>, time_secs: int) -> Vec2 {
    let tq = fx_mul_s(time_secs, 1_000_000_000);
    let idx = track_upper_s(ev, tq, 0);
    if idx == 0 {
        ev[0].position
    } else if idx >= ev.len() {
        ev[ev.len() - 1].position
    } else {
        let a = ev[idx - 1];
        let b = ev[idx];
        let denom = fx_sub_s(b.time_ms as int, a.time_ms as int);
        let t = if denom == 0 {
            0int
        } else {
            fx_div_s(fx_sub_s(tq, a.time_ms as int), denom)
        };
        Vec2 {
            x: lerp_s(a.position.x as int, b.position.x as int, t) as i64,
            y: lerp_s(a.position.y as int, b.position.y as int, t) as i64,
        }
    }
}

impl ZoomFocusInterpolator {
    /// A track that has not been precomputed yet.
    pub fn new(
        cursor_events: CursorEvents,
        cursor_smoothing: Option<SpringConfig>,
        screen_spring: SpringConfig,
        duration_secs: i64,
    ) -> (r: ZoomFocusInterpolator)
        ensures
            r.events is None,
            r.cursor_events == cursor_events,
            r.cursor_smoothing == cursor_smoothing,
            r.screen_spring == screen_spring,
            r.duration_secs == duration_secs,
    {
        ZoomFocusInterpolator {
            events: None,
            cursor_events,
            cursor_smoothing,
            screen_spring,
            duration_secs,
        }
    }

    /// Precompute focus samples at the fixed interval across the whole
    /// timeline — the exact value of `focus_track_s`: the screen-movement
    /// spring chases the smoothed cursor and each reached position is
    /// recorded. Runs once: an already computed track is kept.
    #[verifier::rlimit(100)]
    pub fn precompute(&mut self)
        requires
            moves_sorted(old(self).cursor_events.moves@),
        ensures
            final(self).events is Some,
            final(self).cursor_events == old(self).cursor_events,
            final(self).cursor_smoothing == old(self).cursor_smoothing,
            final(self).screen_spring == old(self).screen_spring,
            final(self).duration_secs == old(self).duration_secs,
            old(self).events is Some ==> *final(self) == *old(self),
            old(self).events is None ==> (match final(self).events {
                Some(ev) => ev@ == focus_track_s(
                    old(self).cursor_events.moves@,
                    old(self).cursor_events.clicks@,
                    old(self).cursor_smoothing,
                    old(self).screen_spring,
                    old(self).duration_secs as int,
                ) && (forall|k: int|
                    0 <= k < ev@.len() ==> (#[trigger] ev@[k]).time_ms == k * (
                    FOCUS_SAMPLE_INTERVAL_MS as int)) && (old(self).cursor_events.moves@.len() > 0
                    ==> ev@.len() == track_len_s(old(self).duration_secs as int)),
                None => false,
            }),
    {
        if self.events.is_some() {
            return;
        }

        if self.cursor_events.moves.len() == 0 {
            self.events = Some(Vec::new());
            return;
        }

        let mut sim: SpringSimulation = SpringSimulation::new(self.screen_spring);

        // Start at the first interpolated cursor position.
        let first: Option<crate::cursor::InterpolatedCursor> = interpolate_cursor(
            &self.cursor_events,
            0,
            self.cursor_smoothing,
            None,
        );
        let initial: Vec2 = match first {
            Some(c) => Vec2 { x: c.x, y: c.y },
            None => Vec2 { x: FX_HALF, y: FX_HALF },
        };

        sim.set_position(initial);
        sim.set_velocity(Vec2 { x: 0, y: 0 });
        sim.set_target(initial);

        // The sampling loop steps by a constant; cap the end of the walk
        // far above any real recording so the step arithmetic stays exact.
        let total_ms: i64 = fx_min(fx_mul(self.duration_secs, 1_000_000_000), 4_000_000_000_000_000);
        let mut events: Vec<FocusEvent> = Vec::new();
        let mut current_time_ms: i64 = 0;

        let ghost goal: Seq<FocusEvent> = focus_track_s(
            self.cursor_events.moves@,
            self.cursor_events.clicks@,
            self.cursor_smoothing,
            self.screen_spring,
            self.duration_secs as int,
        );
        proof {
            assert(goal == focus_fold_s(
                self.cursor_events.moves@,
                self.cursor_events.clicks@,
                self.cursor_smoothing,
                total_ms as int,
                0,
                sim,
                Seq::empty(),
            ));
        }

        while current_time_ms <= total_ms
            invariant
                total_ms <= 4_000_000_000_000_000,
                total_ms == min_i(
                    fx_mul_s(self.duration_secs as int, 1_000_000_000),
                    4_000_000_000_000_000,
                ),
                current_time_ms >= 0,
                current_time_ms == events@.len() * (FOCUS_SAMPLE_INTERVAL_MS as int),
                events@.len() > 0 ==> (events@.len() - 1) * (FOCUS_SAMPLE_INTERVAL_MS as int)
                    <= total_ms,
                forall|k: int|
                    0 <= k < events@.len() ==> (#[trigger] events@[k]).time_ms == k * (
                    FOCUS_SAMPLE_INTERVAL_MS as int),
                moves_sorted(self.cursor_events.moves@),
                self.cursor_events.moves@.len() > 0,
                focus_fold_s(
                    self.cursor_events.moves@,
                    self.cursor_events.clicks@,
                    self.cursor_smoothing,
                    total_ms as int,
                    current_time_ms as int,
                    sim,
                    events@,
                ) == goal,
            decreases total_ms + FOCUS_SAMPLE_INTERVAL_MS - current_time_ms,
        {
            let time_secs: i64 = fx_divi(current_time_ms, 1000);

            // Chase the smoothed cursor at this time.
            let cursor: Option<crate::cursor::InterpolatedCursor> = interpolate_cursor(
                &self.cursor_events,
                time_secs,
                self.cursor_smoothing,
                None,
            );
            match cursor {
                Some(c) => {
                    sim.set_target(Vec2 { x: c.x, y: c.y });
                },
                None => {},
            }

            sim.run(FOCUS_SAMPLE_INTERVAL_MS);

            events.push(FocusEvent { time_ms: current_time_ms, position: sim.position });

            current_time_ms = current_time_ms + FOCUS_SAMPLE_INTERVAL_MS;
        }

        proof {
            if total_ms >= 0 {
                vstd::arithmetic::div_mod::lemma_fundamental_div_mod_converse(
                    total_ms as int,
                    FOCUS_SAMPLE_INTERVAL_MS as int,
                    events@.len() - 1,
                    total_ms - (events@.len() - 1) * (FOCUS_SAMPLE_INTERVAL_MS as int),
                );
            }
            assert(focus_fold_s(
                self.cursor_events.moves@,
                self.cursor_events.clicks@,
                self.cursor_smoothing,
                total_ms as int,
                current_time_ms as int,
                sim,
                events@,
            ) == events@);
            assert(events@ == goal);
        }
        self.events = Some(events);
    }

    /// The focus position at `time_secs`: linear interpolation between the
    /// two nearest precomputed samples, the smoothed cursor itself when no
    /// track exists, and the frame center with no cursor data at all.
    pub fn interpolate(&self, time_secs: i64) -> (r: Vec2)
        requires
            moves_sorted(self.cursor_events.moves@),
        ensures
            (match self.events {
                Some(ev) => (ev@.len() > 0 ==> r == track_lookup_s(ev@, time_secs as int)) && (
                ev@.len() == 0 ==> r == focus_fallback_s(
                    self.cursor_events.moves@,
                    self.cursor_events.clicks@,
                    time_secs as int,
                    self.cursor_smoothing,
                )) && (ev@.len() > 0 && ev@[0].time_ms > fx_mul_s(time_secs as int, 1_000_000_000)
                    ==> r == ev@[0].position) && (ev@.len() > 0 && (forall|k: int|
                    0 <= k < ev@.len() ==> #[trigger] ev@[k].time_ms <= fx_mul_s(
                        time_secs as int,
                        1_000_000_000,
                    )) ==> r == ev@[ev@.len() - 1].position),
                None => r == focus_fallback_s(
                    self.cursor_events.moves@,
                    self.cursor_events.clicks@,
                    time_secs as int,
                    self.cursor_smoothing,
                ),
            }),
    {
        match &self.events {
            Some(ev) => {
                if ev.len() > 0 {
                    return self.interpolate_from_events(ev, time_secs);
                }
            },
            None => {},
        }

        // No track: fall back to direct cursor interpolation.
        let cursor: Option<crate::cursor::InterpolatedCursor> = interpolate_cursor(
            &self.cursor_events,
            time_secs,
            self.cursor_smoothing,
            None,
        );
        match cursor {
            Some(c) => Vec2 { x: c.x, y: c.y },
            None => Vec2 { x: FX_HALF, y: FX_HALF },
        }
    }

    /// Linear interpolation between the bracketing track samples.
    fn interpolate_from_events(&self, events: &Vec<FocusEvent>, time_secs: i64) -> (r: Vec2)
        requires
            events@.len() > 0,
        ensures
            r == track_lookup_s(events@, time_secs as int),
            events@[0].time_ms > fx_mul_s(time_secs as int, 1_000_000_000) ==> r
                == events@[0].position,
            (forall|k: int|
                0 <= k < events@.len() ==> #[trigger] events@[k].time_ms <= fx_mul_s(
                    time_secs as int,
                    1_000_000_000,
                )) ==> r == events@[events@.len() - 1].position,
    {
        let time_ms: i64 = fx_mul(time_secs, 1_000_000_000);

        // Number of samples at or before the query time.
        let mut idx: usize = 0;
        while idx < events.len() && events[idx].time_ms <= time_ms
            invariant
                idx <= events@.len(),
                idx > 0 ==> events@[0].time_ms <= time_ms,
                track_upper_s(events@, time_ms as int, 0) == track_upper_s(
                    events@,
                    time_ms as int,
                    idx as int,
                ),
            decreases events@.len() - idx,
        {
            idx = idx + 1;
        }

        if idx == 0 {
            return events[0].position;
        }
        if idx >= events.len() {
            return events[events.len() - 1].position;
        }

        let a: FocusEvent = events[idx - 1];
        let b: FocusEvent = events[idx];
        let denom: i64 = fx_sub(b.time_ms, a.time_ms);
        let t: i64 = if denom == 0 {
            0
        } else {
            fx_div(fx_sub(time_ms, a.time_ms), denom)
        };

        Vec2 {
            x: fx_lerp(a.position.x, b.position.x, t),
            y: fx_lerp(a.position.y, b.position.y, t),
        }
    }
}

// ───────────────────────────────────────────────────────────────
// Main zoom interpolation
// ───────────────────────────────────────────────────────────────

/// One axis of the cursor-visibility shift: move the center so the
/// cursor sits inside the inset margin of the viewport.
pub open spec fn visible_shift_s(c: int, cursor: int, half: int, margin: int) -> int {
    let low = fx_add_s(fx_sub_s(c, half), margin);
    let high = fx_sub_s(fx_add_s(c, half), margin);
    if cursor < low {
        fx_sub_s(c, fx_sub_s(low, cursor))
    } else if cursor > high {
        fx_add_s(c, fx_sub_s(cursor, high))
    } else {
        c
    }
}

/// One axis of the edge snap: push the viewport away from the frame's
/// edges by the snap distance.
pub open spec fn edge_snap_shift_s(c0: int, half: int, snap: int) -> int {
    let c1 = if fx_sub_s(c0, half) < snap {
        fx_add_s(half, snap)
    } else {
        c0
    };
    if fx_add_s(c1, half) > fx_sub_s(FX_ONE as int, snap) {
        fx_sub_s(fx_sub_s(FX_ONE as int, half), snap)
    } else {
        c1
    }
}

/// The whole bounds computation as a value: identity for amounts at or
/// under 1.001, else the focus center with the cursor-visibility shift,
/// the edge snap, and the final clamp into the unit square.
pub open spec fn zoom_bounds_s(focus: Vec2, amount: int, edge_snap: int, actual_cursor: Option<
    Vec2,
>) -> ZoomBounds {
    if amount <= 1_001_000 {
        ZoomBounds {
            top_left: Vec2 { x: 0, y: 0 },
            bottom_right: Vec2 { x: FX_ONE, y: FX_ONE },
        }
    } else {
        let half = fx_div_s(FX_HALF as int, amount);
        let margin = fx_mul_s(half, 150_000);
        let cx0 = match actual_cursor {
            Some(cursor) => visible_shift_s(focus.x as int, cursor.x as int, half, margin),
            None => focus.x as int,
        };
        let cy0 = match actual_cursor {
            Some(cursor) => visible_shift_s(focus.y as int, cursor.y as int, half, margin),
            None => focus.y as int,
        };
        let snap = fx_mul_s(edge_snap, half);
        let cx1 = if edge_snap > 0 {
            edge_snap_shift_s(cx0, half, snap)
        } else {
            cx0
        };
        let cy1 = if edge_snap > 0 {
            edge_snap_shift_s(cy0, half, snap)
        } else {
            cy0
        };
        let cx = clamp_s(cx1, half, FX_ONE as int - half);
        let cy = clamp_s(cy1, half, FX_ONE as int - half);
        ZoomBounds {
            top_left: Vec2 { x: fx_sub_s(cx, half) as i64, y: fx_sub_s(cy, half) as i64 },
            bottom_right: Vec2 { x: fx_add_s(cx, half) as i64, y: fx_add_s(cy, half) as i64 },
        }
    }
}

/// Camera bounds centered on the focus, with the cursor-visibility
/// guarantee, edge snapping, and a final clamp into the unit square.
///
/// Amounts at or under 1.001 yield the identity bounds. Otherwise the
/// viewport has width exactly twice `0.5 / amount` per axis and lies
/// entirely inside the unit square.
pub fn compute_zoom_bounds(
    focus: Vec2,
    amount: i64,
    edge_snap: i64,
    actual_cursor: Option<Vec2>,
) -> (r: ZoomBounds)
    ensures
        r == zoom_bounds_s(focus, amount as int, edge_snap as int, actual_cursor),
        amount <= 1_001_000 ==> r == (ZoomBounds {
            top_left: Vec2 { x: 0i64, y: 0i64 },
            bottom_right: Vec2 { x: FX_ONE, y: FX_ONE },
        }),
        0 <= r.top_left.x <= r.bottom_right.x <= FX_ONE,
        0 <= r.top_left.y <= r.bottom_right.y <= FX_ONE,
        amount > 1_001_000 ==> r.bottom_right.x - r.top_left.x == 2 * fx_div_s(
            FX_HALF as int,
            amount as int,
        ) && r.bottom_right.y - r.top_left.y == 2 * fx_div_s(FX_HALF as int, amount as int),
{
    if amount <= 1_001_000 {
        return ZoomBounds::identity();
    }

    let half: i64 = fx_div(FX_HALF, amount);
    proof {
        lemma_div_nonneg(iabs((FX_HALF as int) * (FX_ONE as int)), iabs(amount as int));
        crate::fixed::lemma_div_le(
            (FX_HALF as int) * (FX_ONE as int),
            iabs(amount as int),
        );
        assert(((FX_HALF as int) * (FX_ONE as int)) / (amount as int) < FX_HALF as int)
            by (nonlinear_arith)
            requires
                amount > 1_001_000,
        ;
    }

    // Start centered on the focus.
    let mut cx: i64 = focus.x;
    let mut cy: i64 = focus.y;

    // Shift the center so the actual cursor stays inside an inset margin.
    match actual_cursor {
        Some(cursor) => {
            let margin: i64 = fx_mul(half, 150_000);

            let left: i64 = fx_add(fx_sub(cx, half), margin);
            let right: i64 = fx_sub(fx_add(cx, half), margin);
            let top: i64 = fx_add(fx_sub(cy, half), margin);
            let bottom: i64 = fx_sub(fx_add(cy, half), margin);

            if cursor.x < left {
                cx = fx_sub(cx, fx_sub(left, cursor.x));
            } else if cursor.x > right {
                cx = fx_add(cx, fx_sub(cursor.x, right));
            }

            if cursor.y < top {
                cy = fx_sub(cy, fx_sub(top, cursor.y));
            } else if cursor.y > bottom {
                cy = fx_add(cy, fx_sub(cursor.y, bottom));
            }
        },
        None => {},
    }

    // Push the viewport away from the frame edges.
    if edge_snap > 0 {
        let snap: i64 = fx_mul(edge_snap, half);

        if fx_sub(cx, half) < snap {
            cx = fx_add(half, snap);
        }
        if fx_add(cx, half) > fx_sub(FX_ONE, snap) {
            cx = fx_sub(fx_sub(FX_ONE, half), snap);
        }
        if fx_sub(cy, half) < snap {
            cy = fx_add(half, snap);
        }
        if fx_add(cy, half) > fx_sub(FX_ONE, snap) {
            cy = fx_sub(fx_sub(FX_ONE, half), snap);
        }
    }

    // The viewport never exits the unit square.
    cx = fx_clamp(cx, half, fx_sub(FX_ONE, half));
    cy = fx_clamp(cy, half, fx_sub(FX_ONE, half));

    ZoomBounds {
        top_left: Vec2 { x: fx_sub(cx, half), y: fx_sub(cy, half) },
        bottom_right: Vec2 { x: fx_add(cx, half), y: fx_add(cy, half) },
    }
}

/// The whole zoom evaluation as a value, given the focus position: ease
/// the amount from one toward the segment's amount inside a segment,
/// from the segment's amount back toward one in the zoom-out window,
/// and derive the bounds around the focus.
pub open spec fn interp_zoom_s(
    s: Seq<ZoomSegment>,
    t: int,
    focus: Vec2,
    actual_cursor: Option<Vec2>,
) -> InterpolatedZoom {
    if s.len() == 0 {
        identity_zoom()
    } else {
        let c = at_time_s(s, t);
        match (c.segment, c.prev_segment) {
            (Some(seg), _) => {
                let ease = if seg.instant_animation {
                    instant_ease_s(c.time_in_segment as int)
                } else {
                    spring_ease_s(
                        c.time_in_segment as int,
                        SCREEN_SPRING_STIFFNESS as int,
                        SCREEN_SPRING_DAMPING as int,
                        SCREEN_SPRING_MASS as int,
                    )
                };
                let amount = fx_add_s(
                    FX_ONE as int,
                    fx_mul_s(fx_sub_s(seg.amount as int, FX_ONE as int), ease),
                );
                InterpolatedZoom {
                    bounds: zoom_bounds_s(focus, amount, seg.edge_snap_ratio as int, actual_cursor),
                    is_active: true,
                    transition_progress: ease as i64,
                }
            },
            (None, Some(prev)) => {
                if c.time_since_end > 0 && c.time_since_end < ZOOM_DURATION {
                    let out_t = fx_div_s(c.time_since_end as int, ZOOM_DURATION as int);
                    let ease = if prev.instant_animation {
                        instant_ease_s(out_t)
                    } else {
                        spring_ease_out_s(
                            out_t,
                            SCREEN_SPRING_STIFFNESS as int,
                            SCREEN_SPRING_DAMPING as int,
                            SCREEN_SPRING_MASS as int,
                        )
                    };
                    let amount = fx_add_s(
                        prev.amount as int,
                        fx_mul_s(fx_sub_s(FX_ONE as int, prev.amount as int), ease),
                    );
                    InterpolatedZoom {
                        bounds: zoom_bounds_s(
                            focus,
                            amount,
                            prev.edge_snap_ratio as int,
                            actual_cursor,
                        ),
                        is_active: true,
                        transition_progress: fx_sub_s(FX_ONE as int, ease) as i64,
                    }
                } else {
                    identity_zoom()
                }
            },
            _ => identity_zoom(),
        }
    }
}

/// Evaluate the zoom at `time_secs`.
///
/// Empty segment lists, and times before the first segment of a valid
/// list, give exactly the identity zoom ("never start zoomed"). The
/// resulting viewport always lies inside the unit square.
pub fn interpolate_zoom(
    segments: &Vec<ZoomSegment>,
    time_secs: i64,
    focus_interpolator: &ZoomFocusInterpolator,
    actual_cursor: Option<Vec2>,
) -> (r: InterpolatedZoom)
    requires
        moves_sorted(focus_interpolator.cursor_events.moves@),
    ensures
        (match focus_interpolator.events {
            Some(ev) => (ev@.len() > 0 ==> r == interp_zoom_s(
                segments@,
                time_secs as int,
                track_lookup_s(ev@, time_secs as int),
                actual_cursor,
            )) && (ev@.len() == 0 ==> r == interp_zoom_s(
                segments@,
                time_secs as int,
                focus_fallback_s(
                    focus_interpolator.cursor_events.moves@,
                    focus_interpolator.cursor_events.clicks@,
                    time_secs as int,
                    focus_interpolator.cursor_smoothing,
                ),
                actual_cursor,
            )),
            None => r == interp_zoom_s(
                segments@,
                time_secs as int,
                focus_fallback_s(
                    focus_interpolator.cursor_events.moves@,
                    focus_interpolator.cursor_events.clicks@,
                    time_secs as int,
                    focus_interpolator.cursor_smoothing,
                ),
                actual_cursor,
            ),
        }),
        segments@.len() == 0 ==> r == identity_zoom(),
        track_segments_valid(segments@) && segments@.len() > 0 && time_secs < segments@[0].start
            ==> r == identity_zoom(),
        track_segments_valid(segments@) && on_track_plateau(segments@, time_secs as int)
            ==> r.is_active,
        0 <= r.bounds.top_left.x <= r.bounds.bottom_right.x <= FX_ONE,
        0 <= r.bounds.top_left.y <= r.bounds.bottom_right.y <= FX_ONE,
{
    if segments.len() == 0 {
        return InterpolatedZoom::identity();
    }

    let cursor: SegmentsCursor = SegmentsCursor::at_time(segments, time_secs);

    match (cursor.segment, cursor.prev_segment) {
        (Some(seg), _) => {
            // Inside a zoom segment: easing in.
            let ease_t: i64 = if seg.instant_animation {
                instant_ease(cursor.time_in_segment)
            } else {
                spring_ease(
                    cursor.time_in_segment,
                    SCREEN_SPRING_STIFFNESS,
                    SCREEN_SPRING_DAMPING,
                    SCREEN_SPRING_MASS,
                )
            };

            let amount: i64 = fx_add(FX_ONE, fx_mul(fx_sub(seg.amount, FX_ONE), ease_t));
            let focus: Vec2 = focus_interpolator.interpolate(time_secs);
            let bounds: ZoomBounds = compute_zoom_bounds(
                focus,
                amount,
                seg.edge_snap_ratio,
                actual_cursor,
            );

            InterpolatedZoom { bounds, is_active: true, transition_progress: ease_t }
        },
        (None, Some(prev)) => {
            if cursor.time_since_end > 0 && cursor.time_since_end < ZOOM_DURATION {
                // Zooming out from the previous segment.
                let out_t: i64 = fx_div(cursor.time_since_end, ZOOM_DURATION);
                let ease_t: i64 = if prev.instant_animation {
                    instant_ease(out_t)
                } else {
                    spring_ease_out(
                        out_t,
                        SCREEN_SPRING_STIFFNESS,
                        SCREEN_SPRING_DAMPING,
                        SCREEN_SPRING_MASS,
                    )
                };

                let amount: i64 = fx_add(prev.amount, fx_mul(fx_sub(FX_ONE, prev.amount), ease_t));
                let focus: Vec2 = focus_interpolator.interpolate(time_secs);
                let bounds: ZoomBounds = compute_zoom_bounds(
                    focus,
                    amount,
                    prev.edge_snap_ratio,
                    actual_cursor,
                );

                InterpolatedZoom {
                    bounds,
                    is_active: true,
                    transition_progress: fx_sub(FX_ONE, ease_t),
                }
            } else {
                InterpolatedZoom::identity()
            }
        },
        _ => InterpolatedZoom::identity(),
    }
}

} // verus!
