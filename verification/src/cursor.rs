//! Cursor interpolation pipeline.
//!
//! Raw pointer samples are cleaned (shake filter), densified (smoothstep
//! in-betweens across large gaps), replayed through the spring solver with
//! click-dependent profiles, and finally queried at arbitrary times.
//! Auxiliary outputs are the click-animation progress, the idle-fade
//! opacity, and the velocity used for motion blur.

use vstd::prelude::*;
use crate::fixed::FX_ONE;
use crate::fixed::fx_abs;
use crate::fixed::fx_add;
use crate::fixed::fx_add_s;
use crate::fixed::clamp_s;
use crate::fixed::fx_clamp;
use crate::fixed::fx_div;
use crate::fixed::fx_div_s;
use crate::fixed::fx_divi;
use crate::fixed::fx_lerp;
use crate::fixed::fx_max;
use crate::fixed::fx_min;
use crate::fixed::fx_mul;
use crate::fixed::fx_mul_s;
use crate::fixed::fx_smoothstep;
use crate::fixed::fx_sqrt;
use crate::fixed::fx_sub;
use crate::fixed::fx_sub_s;
use crate::fixed::iabs;
use crate::fixed::lemma_div_nonneg;
use crate::fixed::lemma_mag_test;
use crate::fixed::fx_sqrt_s;
use crate::fixed::lerp_s;
use crate::fixed::sat64;
use crate::fixed::smoothstep_s;
use crate::fixed::tdiv;
use crate::zoom::min_i;
use crate::spring::SpringConfig;
use crate::spring::SpringSimulation;
use crate::spring::Vec2;
use crate::spring::spring_step_s;

verus! {

/// Clicks within this window (milliseconds) switch the spring profile.
pub const CLICK_REACTION_WINDOW_MS: i64 = 160_000_000;

/// Combined magnitude (normalized units) under which a direction reversal
/// counts as shake.
pub const SHAKE_THRESHOLD_UV: i64 = 15_000;

/// Time window (milliseconds) within which shake is detected.
pub const SHAKE_DETECTION_WINDOW_MS: i64 = 100_000_000;

/// One frame at 60 Hz, in milliseconds.
pub const CURSOR_FRAME_DURATION_MS: i64 = 16_666_667;

/// Gaps longer than four frame intervals are densified.
pub const GAP_INTERPOLATION_THRESHOLD_MS: i64 = CURSOR_FRAME_DURATION_MS * 4;

/// Minimum travel (normalized units) before a gap is densified.
pub const MIN_CURSOR_TRAVEL_FOR_INTERPOLATION: i64 = 20_000;

/// Upper bound on inserted samples per gap.
pub const MAX_INTERPOLATED_STEPS: usize = 120;

/// Idle time (milliseconds) before the cursor starts fading.
pub const CURSOR_IDLE_MIN_DELAY_MS: i64 = 500_000_000;

/// Length of the idle fade (milliseconds).
pub const CURSOR_IDLE_FADE_OUT_MS: i64 = 400_000_000;

/// Length of the click visual effect, in seconds.
pub const CURSOR_CLICK_DURATION: i64 = 250_000;

/// Scale the cursor shrinks to at the peak of a click.
pub const CLICK_SHRINK_SCALE: i64 = 700_000;

/// Mouse button carried by a click event.
#[derive(Clone, Copy, Debug, PartialEq, Eq, Structural)]
pub enum MouseButton {
    Left,
    Right,
    Middle,
    Other,
}

/// A raw pointer move sample: time in milliseconds, normalized
/// coordinates, and the id of the cursor sprite that was active.
#[derive(Clone, Copy, Debug, PartialEq, Eq, Structural)]
pub struct CursorMoveEvent {
    pub time_ms: i64,
    pub x: i64,
    pub y: i64,
    pub cursor_id: u64,
}

/// A raw button transition: time in milliseconds and direction.
#[derive(Clone, Copy, Debug, PartialEq, Eq, Structural)]
pub struct CursorClickEvent {
    pub time_ms: i64,
    pub down: bool,
    pub button: MouseButton,
}

/// A complete recording of pointer activity.
#[derive(Clone, Debug)]
pub struct CursorEvents {
    pub moves: Vec<CursorMoveEvent>,
    pub clicks: Vec<CursorClickEvent>,
}

/// The cursor state at one query time.
#[derive(Clone, Copy, Debug, PartialEq, Eq, Structural)]
pub struct InterpolatedCursor {
    pub x: i64,
    pub y: i64,
    pub velocity_x: i64,
    pub velocity_y: i64,
    pub cursor_id: u64,
    /// Progress of the click animation, 0 to 1.
    pub click_progress: i64,
    /// Whether a primary-button press is currently held.
    pub is_clicking: bool,
    /// Idle-fade opacity, 0 to 1.
    pub opacity: i64,
}

/// Samples never go back in time.
pub open spec fn moves_sorted(s: Seq<CursorMoveEvent>) -> bool {
    forall|i: int, j: int|
        #![trigger s[i].time_ms, s[j].time_ms]
        0 <= i <= j < s.len() ==> s[i].time_ms <= s[j].time_ms
}

// ───────────────────────────────────────────────────────────────
// Shake filtering
// ───────────────────────────────────────────────────────────────

/// Whether an interior sample survives the shake test against its raw
/// neighbors.
pub open spec fn cursor_shake_keep_s(
    prev: CursorMoveEvent,
    curr: CursorMoveEvent,
    next: CursorMoveEvent,
) -> bool {
    if fx_sub_s(next.time_ms as int, prev.time_ms as int) > SHAKE_DETECTION_WINDOW_MS as int {
        true
    } else {
        let dx1 = fx_sub_s(curr.x as int, prev.x as int);
        let dy1 = fx_sub_s(curr.y as int, prev.y as int);
        let dx2 = fx_sub_s(next.x as int, curr.x as int);
        let dy2 = fx_sub_s(next.y as int, curr.y as int);
        let dot = fx_add_s(fx_mul_s(dx1, dx2), fx_mul_s(dy1, dy2));
        let dist = sat64(
            tdiv(
                fx_add_s(
                    fx_sqrt_s(fx_add_s(fx_mul_s(dx1, dx1), fx_mul_s(dy1, dy1))),
                    fx_sqrt_s(fx_add_s(fx_mul_s(dx2, dx2), fx_mul_s(dy2, dy2))),
                ),
                2,
            ),
        );
        !(dot < 0 && dist < SHAKE_THRESHOLD_UV as int)
    }
}

/// The interior samples (indices 1 through `i - 1`) the filter keeps.
pub open spec fn cursor_shake_kept_upto_s(moves: Seq<CursorMoveEvent>, i: int) -> Seq<
    CursorMoveEvent,
>
    decreases i,
{
    if i <= 1 {
        Seq::empty()
    } else {
        let prefix = cursor_shake_kept_upto_s(moves, i - 1);
        if cursor_shake_keep_s(moves[i - 2], moves[i - 1], moves[i]) {
            prefix.push(moves[i - 1])
        } else {
            prefix
        }
    }
}

/// The whole shake filter as a value: short lists pass through, longer
/// ones keep their endpoints and the surviving interior samples.
pub open spec fn filter_cursor_shake_s(moves: Seq<CursorMoveEvent>) -> Seq<CursorMoveEvent> {
    if moves.len() < 3 {
        moves
    } else {
        seq![moves[0]] + cursor_shake_kept_upto_s(moves, moves.len() - 1) + seq![
            moves[moves.len() - 1],
        ]
    }
}

/// Remove interior samples whose motion reverses direction within a small
/// area and a short time window: micro-jitter from hand tremor or touchpad
/// noise. The first and last samples always survive, and the output is
/// never longer than the input.
pub fn filter_cursor_shake(moves: &Vec<CursorMoveEvent>) -> (r: Vec<CursorMoveEvent>)
    ensures
        r@ == filter_cursor_shake_s(moves@),
        r@.len() <= moves@.len(),
        moves@.len() < 3 ==> r@ == moves@,
        moves@.len() >= 1 ==> r@.len() >= 1 && r@[0] == moves@[0]
            && r@[r@.len() - 1] == moves@[moves@.len() - 1],
{
    let n: usize = moves.len();
    if n < 3 {
        let mut copy: Vec<CursorMoveEvent> = Vec::new();
        let mut i: usize = 0;
        while i < n
            invariant
                i <= n,
                n == moves@.len(),
                copy@ == moves@.subrange(0, i as int),
            decreases n - i,
        {
            copy.push(moves[i]);
            i = i + 1;
        }
        proof {
            assert(copy@ =~= moves@);
        }
        return copy;
    }

    let mut result: Vec<CursorMoveEvent> = Vec::new();
    result.push(moves[0]);

    let mut i: usize = 1;
    while i < n - 1
        invariant
            1 <= i <= n - 1,
            3 <= n == moves@.len(),
            1 <= result@.len() <= i,
            result@[0] == moves@[0],
            result@ == seq![moves@[0]] + cursor_shake_kept_upto_s(moves@, i as int),
        decreases n - 1 - i,
    {
        let prev: CursorMoveEvent = moves[i - 1];
        let curr: CursorMoveEvent = moves[i];
        let next: CursorMoveEvent = moves[i + 1];

        let time_window: i64 = fx_sub(next.time_ms, prev.time_ms);
        if time_window > SHAKE_DETECTION_WINDOW_MS {
            result.push(curr);
            proof {
                assert(cursor_shake_keep_s(moves@[i - 1], moves@[i as int], moves@[i + 1]));
                assert(result@ =~= seq![moves@[0]] + cursor_shake_kept_upto_s(moves@, i + 1));
            }
            i = i + 1;
            continue;
        }

        let dx1: i64 = fx_sub(curr.x, prev.x);
        let dy1: i64 = fx_sub(curr.y, prev.y);
        let dx2: i64 = fx_sub(next.x, curr.x);
        let dy2: i64 = fx_sub(next.y, curr.y);

        let dot: i64 = fx_add(fx_mul(dx1, dx2), fx_mul(dy1, dy2));
        let mag_in: i64 = fx_sqrt(fx_add(fx_mul(dx1, dx1), fx_mul(dy1, dy1)));
        let mag_out: i64 = fx_sqrt(fx_add(fx_mul(dx2, dx2), fx_mul(dy2, dy2)));
        let dist: i64 = fx_divi(fx_add(mag_in, mag_out), 2);

        // Direction reversed and movement tiny: drop the shaky point.
        if dot < 0 && dist < SHAKE_THRESHOLD_UV {
            proof {
                assert(!cursor_shake_keep_s(moves@[i - 1], moves@[i as int], moves@[i + 1]));
                assert(result@ =~= seq![moves@[0]] + cursor_shake_kept_upto_s(moves@, i + 1));
            }
            i = i + 1;
            continue;
        }

        result.push(curr);
        proof {
            assert(cursor_shake_keep_s(moves@[i - 1], moves@[i as int], moves@[i + 1]));
            assert(result@ =~= seq![moves@[0]] + cursor_shake_kept_upto_s(moves@, i + 1));
        }
        i = i + 1;
    }

    result.push(moves[n - 1]);
    proof {
        assert(result@ =~= seq![moves@[0]] + cursor_shake_kept_upto_s(moves@, n - 1) + seq![
            moves@[n - 1],
        ]);
    }
    result
}

// ───────────────────────────────────────────────────────────────
// Move densification
// ───────────────────────────────────────────────────────────────

/// Whether the gap between two consecutive same-pointer samples is wide
/// enough (in time and in distance) that in-between samples are inserted.
/// The distance test is stated on the squared travel, which is what the
/// truncated square-root comparison in the code decides.
pub open spec fn densify_gap_spec(a: CursorMoveEvent, b: CursorMoveEvent) -> bool {
    let d2 = fx_add_s(
        fx_mul_s(fx_sub_s(b.x as int, a.x as int), fx_sub_s(b.x as int, a.x as int)),
        fx_mul_s(fx_sub_s(b.y as int, a.y as int), fx_sub_s(b.y as int, a.y as int)),
    );
    a.cursor_id == b.cursor_id
        && fx_sub_s(b.time_ms as int, a.time_ms as int) > GAP_INTERPOLATION_THRESHOLD_MS as int
        && !(d2 * (FX_ONE as int) < (MIN_CURSOR_TRAVEL_FOR_INTERPOLATION + 1)
            * (MIN_CURSOR_TRAVEL_FOR_INTERPOLATION + 1))
}

/// How many smoothstep steps a qualifying gap gets: the gap divided by
/// the frame interval, rounded up, held between 2 and the cap.
pub open spec fn densify_steps_s(gap: int) -> int {
    let sc = (gap + 16_666_666) / (CURSOR_FRAME_DURATION_MS as int);
    if sc >= 120 {
        120
    } else if sc < 2 {
        2
    } else {
        sc
    }
}

/// The in-between samples inserted across one gap, for step indices `s`
/// through `steps - 1`: each at the proportional time, with smoothstep
/// blended coordinates, under the first sample's pointer id.
pub open spec fn gap_inserts_s(a: CursorMoveEvent, b: CursorMoveEvent, steps: int, s: int) -> Seq<
    CursorMoveEvent,
>
    decreases steps - s,
{
    if s < 1 || s >= steps {
        Seq::empty()
    } else {
        let t = sat64(tdiv(s * (FX_ONE as int), steps));
        let sm = smoothstep_s(t);
        let gap = fx_sub_s(b.time_ms as int, a.time_ms as int);
        seq![
            CursorMoveEvent {
                time_ms: fx_add_s(a.time_ms as int, fx_mul_s(gap, t)) as i64,
                x: lerp_s(a.x as int, b.x as int, sm) as i64,
                y: lerp_s(a.y as int, b.y as int, sm) as i64,
                cursor_id: a.cursor_id,
            },
        ] + gap_inserts_s(a, b, steps, s + 1)
    }
}

/// What one adjacent pair contributes: the in-betweens of a qualifying
/// gap, then the pair's second sample.
pub open spec fn densify_pair_s(a: CursorMoveEvent, b: CursorMoveEvent) -> Seq<CursorMoveEvent> {
    if densify_gap_spec(a, b) {
        gap_inserts_s(a, b, densify_steps_s(fx_sub_s(b.time_ms as int, a.time_ms as int)), 1)
            + seq![b]
    } else {
        seq![b]
    }
}

/// The contributions of the first `i` adjacent pairs.
pub open spec fn densify_upto_s(moves: Seq<CursorMoveEvent>, i: int) -> Seq<CursorMoveEvent>
    decreases i,
{
    if i <= 0 {
        Seq::empty()
    } else {
        densify_upto_s(moves, i - 1) + densify_pair_s(moves[i - 1], moves[i])
    }
}

/// The whole densification as a value: short lists pass through, longer
/// ones keep the first sample and append each pair's contribution.
pub open spec fn densify_s(moves: Seq<CursorMoveEvent>) -> Seq<CursorMoveEvent> {
    if moves.len() < 2 {
        moves
    } else {
        seq![moves[0]] + densify_upto_s(moves, moves.len() - 1)
    }
}

/// Insert smoothstep-interpolated samples into wide gaps so the spring
/// replay never has to jump. Never interpolates across pointer ids, never
/// drops a sample, and strictly lengthens the list when some gap
/// qualifies.
pub fn densify_cursor_moves(moves: &Vec<CursorMoveEvent>) -> (r: Vec<CursorMoveEvent>)
    ensures
        r@ == densify_s(moves@),
        r@.len() >= moves@.len(),
        moves@.len() < 2 ==> r@ == moves@,
        moves@.len() >= 1 ==> r@.len() >= 1 && r@[0] == moves@[0]
            && r@[r@.len() - 1] == moves@[moves@.len() - 1],
        (exists|j: int|
            0 <= j < moves@.len() - 1 && #[trigger] densify_gap_spec(moves@[j], moves@[j + 1]))
            ==> r@.len() > moves@.len(),
{
    let n: usize = moves.len();
    if n < 2 {
        let mut copy: Vec<CursorMoveEvent> = Vec::new();
        let mut i: usize = 0;
        while i < n
            invariant
                i <= n,
                n == moves@.len(),
                copy@ == moves@.subrange(0, i as int),
            decreases n - i,
        {
            copy.push(moves[i]);
            i = i + 1;
        }
        proof {
            assert(copy@ =~= moves@);
        }
        return copy;
    }

    let mut result: Vec<CursorMoveEvent> = Vec::new();
    result.push(moves[0]);

    let mut idx: usize = 0;
    while idx < n - 1
        invariant
            0 <= idx <= n - 1,
            2 <= n == moves@.len(),
            result@.len() >= idx + 1,
            result@[0] == moves@[0],
            result@[result@.len() - 1] == moves@[idx as int],
            result@ == seq![moves@[0]] + densify_upto_s(moves@, idx as int),
            (exists|j: int| 0 <= j < idx && #[trigger] densify_gap_spec(moves@[j], moves@[j + 1]))
                ==> result@.len() >= idx + 2,
        decreases n - 1 - idx,
    {
        let a: CursorMoveEvent = moves[idx];
        let b: CursorMoveEvent = moves[idx + 1];

        let gap: i64 = fx_sub(b.time_ms, a.time_ms);
        let dxa: i64 = fx_sub(b.x, a.x);
        let dya: i64 = fx_sub(b.y, a.y);
        let travel2: i64 = fx_add(fx_mul(dxa, dxa), fx_mul(dya, dya));
        let distance: i64 = fx_sqrt(travel2);
        proof {
            lemma_mag_test(
                travel2 as int,
                distance as int,
                MIN_CURSOR_TRAVEL_FOR_INTERPOLATION as int + 1,
            );
        }

        let ghost entry: Seq<CursorMoveEvent> = result@;

        if a.cursor_id != b.cursor_id {
            // Different pointers: never interpolate across them.
            result.push(b);
            proof {
                assert(!densify_gap_spec(moves@[idx as int], moves@[idx as int + 1]));
                assert(result@ =~= seq![moves@[0]] + densify_upto_s(moves@, idx + 1));
            }
            idx = idx + 1;
            continue;
        }

        if gap > GAP_INTERPOLATION_THRESHOLD_MS && distance > MIN_CURSOR_TRAVEL_FOR_INTERPOLATION {
            proof {
                assert(densify_gap_spec(moves@[idx as int], moves@[idx as int + 1]));
            }
            // Bounded number of smoothstep in-betweens across the gap.
            let step_count: u128 = ((gap as u128) + 16_666_666u128) / 16_666_667u128;
            let steps: usize = if step_count >= 120u128 {
                MAX_INTERPOLATED_STEPS
            } else if step_count < 2u128 {
                2usize
            } else {
                step_count as usize
            };
            proof {
                assert(steps as int == densify_steps_s(gap as int));
            }

            let ghost entry_len: int = result@.len() as int;
            let mut s: usize = 1;
            while s < steps
                invariant
                    1 <= s <= steps,
                    2 <= steps <= 120,
                    2 <= moves@.len(),
                    1 <= result@.len(),
                    result@.len() as int >= entry_len + s - 1,
                    result@[0] == moves@[0],
                    a == moves@[idx as int] && b == moves@[idx as int + 1],
                    idx < moves@.len() - 1,
                    gap as int == fx_sub_s(b.time_ms as int, a.time_ms as int),
                    steps as int == densify_steps_s(gap as int),
                    entry + gap_inserts_s(a, b, steps as int, 1) == result@ + gap_inserts_s(
                        a,
                        b,
                        steps as int,
                        s as int,
                    ),
                decreases steps - s,
            {
                let t: i64 = fx_divi((s as i64) * FX_ONE, steps as i64);
                let smooth_t: i64 = fx_smoothstep(t);
                let ghost before: Seq<CursorMoveEvent> = result@;
                result.push(
                    CursorMoveEvent {
                        time_ms: fx_add(a.time_ms, fx_mul(gap, t)),
                        x: fx_lerp(a.x, b.x, smooth_t),
                        y: fx_lerp(a.y, b.y, smooth_t),
                        cursor_id: a.cursor_id,
                    },
                );
                proof {
                    assert(gap_inserts_s(a, b, steps as int, s as int) == seq![
                        result@[result@.len() - 1],
                    ] + gap_inserts_s(a, b, steps as int, s as int + 1));
                    assert(entry + gap_inserts_s(a, b, steps as int, 1) =~= result@
                        + gap_inserts_s(a, b, steps as int, s as int + 1));
                }
                s = s + 1;
            }
            proof {
                assert(gap_inserts_s(a, b, steps as int, steps as int) =~= Seq::<
                    CursorMoveEvent,
                >::empty());
                assert(result@ =~= entry + gap_inserts_s(a, b, steps as int, 1));
            }
        }

        result.push(b);
        proof {
            assert(result@ =~= seq![moves@[0]] + densify_upto_s(moves@, idx + 1));
        }
        idx = idx + 1;
    }

    result
}

// ───────────────────────────────────────────────────────────────
// Spring profile system
// ───────────────────────────────────────────────────────────────

/// Which spring parameters drive the cursor at a given moment.
#[derive(Clone, Copy, Debug, PartialEq, Eq, Structural)]
pub enum SpringProfile {
    Default,
    Snappy,
    Drag,
}

/// The three cursor spring configurations, resolved once per replay.
pub struct CursorSpringPresets {
    pub default: SpringConfig,
    pub snappy: SpringConfig,
    pub drag: SpringConfig,
}

impl CursorSpringPresets {
    /// Resolve the presets from a base configuration and an optional
    /// override for the click (snappy) spring. The drag profile scales the
    /// base by (0.8, 1.2, 1.3).
    pub fn new(base: SpringConfig, click_spring: Option<SpringConfig>) -> (r: CursorSpringPresets)
        ensures
            r.default == base,
            r.snappy == (match click_spring {
                Some(c) => c,
                None => SpringConfig {
                    tension: 700_000_000i64,
                    mass: 1_000_000i64,
                    friction: 30_000_000i64,
                },
            }),
            r.drag.tension == fx_mul_s(base.tension as int, 800_000),
            r.drag.mass == (if fx_mul_s(base.mass as int, 1_200_000) >= 1000 {
                fx_mul_s(base.mass as int, 1_200_000)
            } else {
                1000int
            }),
            r.drag.friction == fx_mul_s(base.friction as int, 1_300_000),
    {
        let snappy: SpringConfig = match click_spring {
            Some(c) => c,
            None => SpringConfig { tension: 700_000_000, mass: 1_000_000, friction: 30_000_000 },
        };
        CursorSpringPresets { default: base, snappy, drag: base.scaled(800_000, 1_200_000, 1_300_000) }
    }

    /// Look the configuration up for a profile.
    pub fn config(&self, profile: SpringProfile) -> (r: SpringConfig)
        ensures
            r == (match profile {
                SpringProfile::Default => self.default,
                SpringProfile::Snappy => self.snappy,
                SpringProfile::Drag => self.drag,
            }),
    {
        match profile {
            SpringProfile::Default => self.default,
            SpringProfile::Snappy => self.snappy,
            SpringProfile::Drag => self.drag,
        }
    }
}

/// Walks the click list alongside the replay and decides which spring
/// profile applies at each sample time.
pub struct ClickProfileTracker {
    pub next_index: usize,
    pub last_click_time: Option<i64>,
    pub primary_down: bool,
}

/// The profile decision: drag while the primary button is held, snappy
/// within the reaction window of the last or the next click, default
/// otherwise.
pub open spec fn profile_spec(
    t: ClickProfileTracker,
    clicks: Seq<CursorClickEvent>,
    time_ms: int,
) -> SpringProfile {
    if t.primary_down {
        SpringProfile::Drag
    } else {
        let near_last = match t.last_click_time {
            Some(v) => sat64(iabs(fx_sub_s(time_ms, v as int))) < CLICK_REACTION_WINDOW_MS as int,
            None => false,
        };
        let near_next = t.next_index < clicks.len() && sat64(
            iabs(fx_sub_s(clicks[t.next_index as int].time_ms as int, time_ms)),
        ) < CLICK_REACTION_WINDOW_MS as int;
        if near_last {
            SpringProfile::Snappy
        } else if near_next {
            SpringProfile::Snappy
        } else {
            SpringProfile::Default
        }
    }
}

/// The click consumption from index `i`: absorb every click at or
/// before `time_ms`, tracking the last click time and the primary
/// button.
pub open spec fn advance_from_s(
    clicks: Seq<CursorClickEvent>,
    time_ms: int,
    i: int,
    last: Option<i64>,
    down: bool,
) -> (int, Option<i64>, bool)
    decreases clicks.len() - i,
{
    if i < 0 || i >= clicks.len() || clicks[i].time_ms as int > time_ms {
        (i, last, down)
    } else {
        let c = clicks[i];
        advance_from_s(
            clicks,
            time_ms,
            i + 1,
            Some(c.time_ms),
            if c.button == MouseButton::Left {
                c.down
            } else {
                down
            },
        )
    }
}

/// The whole click consumption as a tracker value.
pub open spec fn advance_s(
    clicks: Seq<CursorClickEvent>,
    time_ms: int,
    t: ClickProfileTracker,
) -> ClickProfileTracker {
    let f = advance_from_s(clicks, time_ms, t.next_index as int, t.last_click_time, t.primary_down);
    ClickProfileTracker { next_index: f.0 as usize, last_click_time: f.1, primary_down: f.2 }
}

impl ClickProfileTracker {
    /// Start before the first click, with no button held.
    pub fn new() -> (r: ClickProfileTracker)
        ensures
            r.next_index == 0,
            r.last_click_time is None,
            !r.primary_down,
    {
        ClickProfileTracker { next_index: 0, last_click_time: None, primary_down: false }
    }

    /// Consume every click at or before `time_ms`, remembering the last
    /// click time and tracking whether the primary button is held.
    pub fn advance_to(&mut self, clicks: &Vec<CursorClickEvent>, time_ms: i64)
        requires
            old(self).next_index <= clicks@.len(),
        ensures
            *final(self) == advance_s(clicks@, time_ms as int, *old(self)),
            final(self).next_index <= clicks@.len(),
    {
        while self.next_index < clicks.len() && clicks[self.next_index].time_ms <= time_ms
            invariant
                self.next_index <= clicks@.len(),
                advance_s(clicks@, time_ms as int, *self) == advance_s(
                    clicks@,
                    time_ms as int,
                    *old(self),
                ),
            decreases clicks@.len() - self.next_index,
        {
            let click: CursorClickEvent = clicks[self.next_index];
            self.last_click_time = Some(click.time_ms);
            if click.button == MouseButton::Left {
                self.primary_down = click.down;
            }
            self.next_index = self.next_index + 1;
        }
    }

    /// Decide the spring profile for a sample at `time_ms`.
    pub fn profile(&self, clicks: &Vec<CursorClickEvent>, time_ms: i64) -> (r: SpringProfile)
        requires
            self.next_index <= clicks@.len(),
        ensures
            r == profile_spec(*self, clicks@, time_ms as int),
    {
        if self.primary_down {
            return SpringProfile::Drag;
        }

        match self.last_click_time {
            Some(last_click) => {
                if fx_abs(fx_sub(time_ms, last_click)) < CLICK_REACTION_WINDOW_MS {
                    return SpringProfile::Snappy;
                }
            },
            None => {},
        }

        if self.next_index < clicks.len() {
            let upcoming: CursorClickEvent = clicks[self.next_index];
            if fx_abs(fx_sub(upcoming.time_ms, time_ms)) < CLICK_REACTION_WINDOW_MS {
                return SpringProfile::Snappy;
            }
        }

        SpringProfile::Default
    }
}

// ───────────────────────────────────────────────────────────────
// Smoothed event generation
// ───────────────────────────────────────────────────────────────

/// One state snapshot of the spring replay, taken at a sample time.
#[derive(Clone, Copy, Debug, PartialEq, Eq, Structural)]
pub struct SmoothedCursorEvent {
    pub time: i64,
    pub target: Vec2,
    pub position: Vec2,
    pub velocity: Vec2,
    pub cursor_id: u64,
}

/// The resolved spring presets as a value.
pub open spec fn presets_s(base: SpringConfig, click_spring: Option<SpringConfig>) -> CursorSpringPresets {
    CursorSpringPresets {
        default: base,
        snappy: match click_spring {
            Some(c) => c,
            None => SpringConfig { tension: 700_000_000, mass: 1_000_000, friction: 30_000_000 },
        },
        drag: SpringConfig {
            tension: fx_mul_s(base.tension as int, 800_000) as i64,
            mass: (if fx_mul_s(base.mass as int, 1_200_000) >= 1000 {
                fx_mul_s(base.mass as int, 1_200_000)
            } else {
                1000int
            }) as i64,
            friction: fx_mul_s(base.friction as int, 1_300_000) as i64,
        },
    }
}

/// The configuration a profile selects.
pub open spec fn preset_config_s(p: CursorSpringPresets, profile: SpringProfile) -> SpringConfig {
    match profile {
        SpringProfile::Default => p.default,
        SpringProfile::Snappy => p.snappy,
        SpringProfile::Drag => p.drag,
    }
}

/// The spring replay over the densified samples, from index `i`: retarget,
/// switch the profile by click context, step by the sample spacing, and
/// record a clamped snapshot per sample.
pub open spec fn smoothed_fold_s(
    clicks: Seq<CursorClickEvent>,
    moves: Seq<CursorMoveEvent>,
    presets: CursorSpringPresets,
    i: int,
    sim: SpringSimulation,
    tracker: ClickProfileTracker,
    last_time: int,
    acc: Seq<SmoothedCursorEvent>,
) -> Seq<SmoothedCursorEvent>
    decreases moves.len() - i,
{
    if i < 0 || i >= moves.len() {
        acc
    } else {
        let m = moves[i];
        let tr2 = advance_s(clicks, m.time_ms as int, tracker);
        let prof = profile_spec(tr2, clicks, m.time_ms as int);
        let configured = SpringSimulation {
            config: preset_config_s(presets, prof),
            position: sim.position,
            velocity: sim.velocity,
            target: Vec2 { x: m.x, y: m.y },
        };
        let stepped = spring_step_s(configured, fx_sub_s(m.time_ms as int, last_time));
        let snap = SmoothedCursorEvent {
            time: m.time_ms,
            target: Vec2 { x: m.x, y: m.y },
            position: Vec2 {
                x: clamp_s(stepped.position.x as int, 0, FX_ONE as int) as i64,
                y: clamp_s(stepped.position.y as int, 0, FX_ONE as int) as i64,
            },
            velocity: stepped.velocity,
            cursor_id: m.cursor_id,
        };
        smoothed_fold_s(
            clicks,
            moves,
            presets,
            i + 1,
            stepped,
            tr2,
            m.time_ms as int,
            acc.push(snap),
        )
    }
}

/// The whole smoothed-event generation as a value: a resting lead
/// snapshot when the data starts after time zero, then the replay fold.
pub open spec fn get_smoothed_events_s(
    clicks: Seq<CursorClickEvent>,
    moves: Seq<CursorMoveEvent>,
    base: SpringConfig,
    click_spring: Option<SpringConfig>,
) -> Seq<SmoothedCursorEvent> {
    if moves.len() == 0 {
        Seq::empty()
    } else {
        let start = Vec2 { x: moves[0].x, y: moves[0].y };
        let sim0 = SpringSimulation {
            config: base,
            position: start,
            velocity: Vec2 { x: 0, y: 0 },
            target: start,
        };
        let tracker0 = ClickProfileTracker {
            next_index: 0,
            last_click_time: None,
            primary_down: false,
        };
        let lead = if moves[0].time_ms > 0 {
            seq![
                SmoothedCursorEvent {
                    time: 0,
                    target: start,
                    position: start,
                    velocity: Vec2 { x: 0, y: 0 },
                    cursor_id: moves[0].cursor_id,
                },
            ]
        } else {
            Seq::empty()
        };
        smoothed_fold_s(clicks, moves, presets_s(base, click_spring), 0, sim0, tracker0, 0, lead)
    }
}

/// Replay the (already filtered and densified) samples through the spring
/// simulation, switching profiles near clicks, and record a snapshot per
/// sample. A leading snapshot at time zero is added when the data starts
/// later.
fn get_smoothed_events(
    events: &CursorEvents,
    moves: &Vec<CursorMoveEvent>,
    base_config: SpringConfig,
    click_spring: Option<SpringConfig>,
) -> (r: Vec<SmoothedCursorEvent>)
    ensures
        r@ == get_smoothed_events_s(events.clicks@, moves@, base_config, click_spring),
        moves@.len() == 0 ==> r@.len() == 0,
        moves@.len() > 0 ==> r@.len() == moves@.len() + (if moves@[0].time_ms > 0 {
            1int
        } else {
            0int
        }),
{
    if moves.len() == 0 {
        return Vec::new();
    }

    let presets: CursorSpringPresets = CursorSpringPresets::new(base_config, click_spring);
    proof {
        assert(presets == presets_s(base_config, click_spring));
    }
    let mut tracker: ClickProfileTracker = ClickProfileTracker::new();

    let mut sim: SpringSimulation = SpringSimulation::new(base_config);
    let start: Vec2 = Vec2 { x: moves[0].x, y: moves[0].y };
    sim.set_position(start);
    sim.set_velocity(Vec2 { x: 0, y: 0 });
    sim.set_target(start);

    let mut result: Vec<SmoothedCursorEvent> = Vec::new();
    let mut last_time: i64 = 0;

    // Cursor data starting after t = 0 gets a resting initial snapshot.
    if moves[0].time_ms > 0 {
        result.push(
            SmoothedCursorEvent {
                time: 0,
                target: sim.target,
                position: sim.position,
                velocity: sim.velocity,
                cursor_id: moves[0].cursor_id,
            },
        );
    }

    let ghost lead: int = result@.len() as int;
    let ghost goal: Seq<SmoothedCursorEvent> = smoothed_fold_s(
        events.clicks@,
        moves@,
        presets,
        0,
        sim,
        tracker,
        0,
        result@,
    );
    proof {
        assert(goal == get_smoothed_events_s(events.clicks@, moves@, base_config, click_spring));
    }
    let mut i: usize = 0;
    while i < moves.len()
        invariant
            i <= moves@.len(),
            result@.len() == lead + i,
            0 <= lead <= 1,
            tracker.next_index <= events.clicks@.len(),
            smoothed_fold_s(
                events.clicks@,
                moves@,
                presets,
                i as int,
                sim,
                tracker,
                last_time as int,
                result@,
            ) == goal,
        decreases moves@.len() - i,
    {
        let m: CursorMoveEvent = moves[i];
        let target: Vec2 = Vec2 { x: m.x, y: m.y };
        sim.set_target(target);

        // Switch the spring profile by click context.
        tracker.advance_to(&events.clicks, m.time_ms);
        let profile: SpringProfile = tracker.profile(&events.clicks, m.time_ms);
        sim.set_config(presets.config(profile));

        let dt: i64 = fx_sub(m.time_ms, last_time);
        sim.run(dt);
        last_time = m.time_ms;

        let clamped: Vec2 = Vec2 {
            x: fx_clamp(sim.position.x, 0, FX_ONE),
            y: fx_clamp(sim.position.y, 0, FX_ONE),
        };

        result.push(
            SmoothedCursorEvent {
                time: m.time_ms,
                target,
                position: clamped,
                velocity: sim.velocity,
                cursor_id: m.cursor_id,
            },
        );
        i = i + 1;
    }

    proof {
        assert(result@ == goal);
    }
    result
}

// ───────────────────────────────────────────────────────────────
// Main interpolation entry point
// ───────────────────────────────────────────────────────────────

/// Milliseconds corresponding to a query time in seconds.
pub open spec fn ms_of_secs(time_secs: int) -> int {
    fx_mul_s(time_secs, 1_000_000_000)
}

/// First pair of raw samples bracketing the query, scanning from `i`.
pub open spec fn find_linear_bracket_s(moves: Seq<CursorMoveEvent>, t: int, i: int) -> Option<int>
    decreases moves.len() - i,
{
    if i < 0 || i + 1 >= moves.len() {
        None
    } else if moves[i].time_ms as int <= t && t <= moves[i + 1].time_ms as int {
        Some(i)
    } else {
        find_linear_bracket_s(moves, t, i + 1)
    }
}

/// The piecewise-linear query as a value: the blend of the first
/// bracketing pair, nothing when no pair brackets.
pub open spec fn linear_lookup_s(
    moves: Seq<CursorMoveEvent>,
    clicks: Seq<CursorClickEvent>,
    t: int,
) -> Option<InterpolatedCursor> {
    match find_linear_bracket_s(moves, t, 0) {
        Some(i) => Some(linear_blend_s(moves[i], moves[i + 1], moves, clicks, t)),
        None => None,
    }
}

/// The whole cursor query as a value: nothing without samples, the held
/// boundary samples outside the recorded range (fading past the end),
/// and inside it either the spring pipeline (filter, densify, replay,
/// residual step) or the plain linear blend.
pub open spec fn interpolate_cursor_s(
    moves: Seq<CursorMoveEvent>,
    clicks: Seq<CursorClickEvent>,
    time_secs: int,
    smoothing: Option<SpringConfig>,
    click_spring: Option<SpringConfig>,
) -> Option<InterpolatedCursor> {
    let tq = ms_of_secs(time_secs);
    if moves.len() == 0 {
        None
    } else if moves[0].time_ms as int > tq {
        Some(
            InterpolatedCursor {
                x: moves[0].x,
                y: moves[0].y,
                velocity_x: 0,
                velocity_y: 0,
                cursor_id: moves[0].cursor_id,
                click_progress: 0,
                is_clicking: false,
                opacity: FX_ONE,
            },
        )
    } else if moves[moves.len() - 1].time_ms as int <= tq {
        Some(
            InterpolatedCursor {
                x: moves[moves.len() - 1].x,
                y: moves[moves.len() - 1].y,
                velocity_x: 0,
                velocity_y: 0,
                cursor_id: moves[moves.len() - 1].cursor_id,
                click_progress: 0,
                is_clicking: false,
                opacity: idle_opacity_s(fx_sub_s(tq, moves[moves.len() - 1].time_ms as int)) as i64,
            },
        )
    } else {
        match smoothing {
            Some(config) => from_smoothed_s(
                get_smoothed_events_s(clicks, densify_s(filter_cursor_shake_s(moves)), config, click_spring),
                time_secs,
                config,
                moves,
                clicks,
            ),
            None => linear_lookup_s(moves, clicks, tq),
        }
    }
}

/// Interpolate the cursor at `time_secs`, optionally with spring smoothing
/// and a click-spring override.
///
/// Outside the recorded range the state holds steady at the boundary
/// sample with zero velocity; past the end the opacity fades out after the
/// idle delay. Inside the range, the smoothed pipeline (shake filter,
/// densify, spring replay) or plain linear interpolation is used. Some
/// state is returned exactly when any sample exists.
pub fn interpolate_cursor(
    events: &CursorEvents,
    time_secs: i64,
    smoothing: Option<SpringConfig>,
    click_spring: Option<SpringConfig>,
) -> (r: Option<InterpolatedCursor>)
    requires
        moves_sorted(events.moves@),
    ensures
        r == interpolate_cursor_s(
            events.moves@,
            events.clicks@,
            time_secs as int,
            smoothing,
            click_spring,
        ),
        (r is Some) <==> events.moves@.len() > 0,
        events.moves@.len() > 0 && events.moves@[0].time_ms > ms_of_secs(time_secs as int)
            ==> r == Some(
            (InterpolatedCursor {
                x: events.moves@[0].x,
                y: events.moves@[0].y,
                velocity_x: 0i64,
                velocity_y: 0i64,
                cursor_id: events.moves@[0].cursor_id,
                click_progress: 0i64,
                is_clicking: false,
                opacity: FX_ONE,
            }),
        ),
        (match smoothing {
            Some(config) => events.moves@.len() > 0 && events.moves@[0].time_ms <= ms_of_secs(
                time_secs as int,
            ) && events.moves@[events.moves@.len() - 1].time_ms > ms_of_secs(time_secs as int)
                ==> r == from_smoothed_s(
                get_smoothed_events_s(
                    events.clicks@,
                    densify_s(filter_cursor_shake_s(events.moves@)),
                    config,
                    click_spring,
                ),
                time_secs as int,
                config,
                events.moves@,
                events.clicks@,
            ),
            None => true,
        }),
        smoothing is None && events.moves@.len() > 0 && events.moves@[0].time_ms <= ms_of_secs(
            time_secs as int,
        ) && events.moves@[events.moves@.len() - 1].time_ms > ms_of_secs(time_secs as int)
            ==> exists|i: int|
            0 <= i < events.moves@.len() - 1 && (#[trigger] events.moves@[i]).time_ms
                <= ms_of_secs(time_secs as int) && ms_of_secs(time_secs as int)
                <= events.moves@[i + 1].time_ms && r == Some(
                linear_blend_s(
                    events.moves@[i],
                    events.moves@[i + 1],
                    events.moves@,
                    events.clicks@,
                    ms_of_secs(time_secs as int),
                ),
            ),
        events.moves@.len() > 0 && events.moves@[events.moves@.len() - 1].time_ms <= ms_of_secs(
            time_secs as int,
        ) ==> r == Some(
            (InterpolatedCursor {
                x: events.moves@[events.moves@.len() - 1].x,
                y: events.moves@[events.moves@.len() - 1].y,
                velocity_x: 0i64,
                velocity_y: 0i64,
                cursor_id: events.moves@[events.moves@.len() - 1].cursor_id,
                click_progress: 0i64,
                is_clicking: false,
                opacity: idle_opacity_s(
                    fx_sub_s(
                        ms_of_secs(time_secs as int),
                        events.moves@[events.moves@.len() - 1].time_ms as int,
                    ),
                ) as i64,
            }),
        ),
{
    let time_ms: i64 = fx_mul(time_secs, 1_000_000_000);

    if events.moves.len() == 0 {
        return None;
    }

    // Before the first sample: hold its position, fully opaque.
    let first: CursorMoveEvent = events.moves[0];
    if first.time_ms > time_ms {
        return Some(
            InterpolatedCursor {
                x: first.x,
                y: first.y,
                velocity_x: 0,
                velocity_y: 0,
                cursor_id: first.cursor_id,
                click_progress: 0,
                is_clicking: false,
                opacity: FX_ONE,
            },
        );
    }

    // At or after the last sample: hold its position and fade when idle.
    let last: CursorMoveEvent = events.moves[events.moves.len() - 1];
    if last.time_ms <= time_ms {
        let idle_time: i64 = fx_sub(time_ms, last.time_ms);
        let opacity: i64 = if idle_time > CURSOR_IDLE_MIN_DELAY_MS {
            let fade_progress: i64 = fx_div(
                fx_sub(idle_time, CURSOR_IDLE_MIN_DELAY_MS),
                CURSOR_IDLE_FADE_OUT_MS,
            );
            fx_max(fx_sub(FX_ONE, fade_progress), 0)
        } else {
            FX_ONE
        };
        return Some(
            InterpolatedCursor {
                x: last.x,
                y: last.y,
                velocity_x: 0,
                velocity_y: 0,
                cursor_id: last.cursor_id,
                click_progress: 0,
                is_clicking: false,
                opacity,
            },
        );
    }

    match smoothing {
        Some(config) => {
            // Full spring pipeline: clean, densify, replay, query.
            let filtered: Vec<CursorMoveEvent> = filter_cursor_shake(&events.moves);
            let densified: Vec<CursorMoveEvent> = densify_cursor_moves(&filtered);
            let smoothed: Vec<SmoothedCursorEvent> = get_smoothed_events(
                events,
                &densified,
                config,
                click_spring,
            );
            interpolate_from_smoothed(&smoothed, time_secs, config, events)
        },
        None => interpolate_linear(events, time_ms),
    }
}

/// First snapshot pair bracketing the query, scanning from `i`.
pub open spec fn first_bracket_s(sm: Seq<SmoothedCursorEvent>, t: int, i: int) -> Option<int>
    decreases sm.len() - i,
{
    if i < 0 || i + 1 >= sm.len() {
        None
    } else if sm[i].time as int <= t && t < sm[i + 1].time as int {
        Some(i)
    } else {
        first_bracket_s(sm, t, i + 1)
    }
}

/// The smoothed query as a value: pick the bracketing snapshot (the last
/// one when none brackets), re-run the solver for the residual delta,
/// clamp the position, and attach the click and idle state.
pub open spec fn from_smoothed_s(
    sm: Seq<SmoothedCursorEvent>,
    time_secs: int,
    config: SpringConfig,
    moves: Seq<CursorMoveEvent>,
    clicks: Seq<CursorClickEvent>,
) -> Option<InterpolatedCursor> {
    if sm.len() == 0 {
        None
    } else {
        let tq = fx_mul_s(time_secs, 1_000_000_000);
        let e = match first_bracket_s(sm, tq, 0) {
            Some(i) => sm[i],
            None => sm[sm.len() - 1],
        };
        let stepped = spring_step_s(
            SpringSimulation {
                config,
                position: e.position,
                velocity: e.velocity,
                target: e.target,
            },
            fx_sub_s(tq, e.time as int),
        );
        Some(
            InterpolatedCursor {
                x: clamp_s(stepped.position.x as int, 0, FX_ONE as int) as i64,
                y: clamp_s(stepped.position.y as int, 0, FX_ONE as int) as i64,
                velocity_x: stepped.velocity.x,
                velocity_y: stepped.velocity.y,
                cursor_id: e.cursor_id,
                click_progress: click_state_s(clicks, tq).0 as i64,
                is_clicking: click_state_s(clicks, tq).1,
                opacity: cursor_idle_opacity_s(moves, tq) as i64,
            },
        )
    }
}

/// Query the spring replay at an arbitrary time: pick the bracketing
/// snapshot and re-run the solver for the residual delta.
fn interpolate_from_smoothed(
    smoothed: &Vec<SmoothedCursorEvent>,
    time_secs: i64,
    config: SpringConfig,
    events: &CursorEvents,
) -> (r: Option<InterpolatedCursor>)
    ensures
        r == from_smoothed_s(smoothed@, time_secs as int, config, events.moves@, events.clicks@),
        (r is Some) <==> smoothed@.len() > 0,
        (match r {
            Some(c) => 0 <= c.x <= FX_ONE && 0 <= c.y <= FX_ONE && 0 <= c.opacity <= FX_ONE && 0
                <= c.click_progress <= FX_ONE,
            None => true,
        }),
{
    if smoothed.len() == 0 {
        return None;
    }

    let time_ms: i64 = fx_mul(time_secs, 1_000_000_000);
    let mut sim: SpringSimulation = SpringSimulation::new(config);

    // First snapshot pair that brackets the query time, if any.
    let mut found: bool = false;
    let mut fidx: usize = 0;
    let mut i: usize = 0;
    while !found && i < smoothed.len() - 1
        invariant
            1 <= smoothed@.len(),
            i <= smoothed@.len(),
            found ==> fidx + 1 < smoothed@.len() && first_bracket_s(
                smoothed@,
                time_ms as int,
                0,
            ) == Some(fidx as int),
            !found ==> first_bracket_s(smoothed@, time_ms as int, 0) == first_bracket_s(
                smoothed@,
                time_ms as int,
                i as int,
            ),
        decreases (if found { 0int } else { 1int }), smoothed@.len() - i,
    {
        if smoothed[i].time <= time_ms && time_ms < smoothed[i + 1].time {
            found = true;
            fidx = i;
        } else {
            i = i + 1;
        }
    }

    let e: SmoothedCursorEvent = if found {
        smoothed[fidx]
    } else {
        smoothed[smoothed.len() - 1]
    };
    sim.set_position(e.position);
    sim.set_velocity(e.velocity);
    sim.set_target(e.target);
    sim.run(fx_sub(time_ms, e.time));

    let (click_progress, is_clicking): (i64, bool) = compute_click_state(events, time_ms);
    let opacity: i64 = compute_idle_opacity(events, time_ms);

    Some(
        InterpolatedCursor {
            x: fx_clamp(sim.position.x, 0, FX_ONE),
            y: fx_clamp(sim.position.y, 0, FX_ONE),
            velocity_x: sim.velocity.x,
            velocity_y: sim.velocity.y,
            cursor_id: e.cursor_id,
            click_progress,
            is_clicking,
            opacity,
        },
    )
}

/// The piecewise-linear sample between two bracketing raw samples: the
/// blend factor over their spacing (zero for nearly coincident times),
/// the velocity over the spacing floored at one millisecond, and the
/// click and idle state at the query time.
pub open spec fn linear_blend_s(
    a: CursorMoveEvent,
    b: CursorMoveEvent,
    moves: Seq<CursorMoveEvent>,
    clicks: Seq<CursorClickEvent>,
    time_ms: int,
) -> InterpolatedCursor {
    let denom = fx_sub_s(b.time_ms as int, a.time_ms as int);
    let t = if sat64(iabs(denom)) < 1000 {
        0int
    } else {
        fx_div_s(fx_sub_s(time_ms, a.time_ms as int), denom)
    };
    let dts = sat64(tdiv(denom, 1000));
    let dt = if dts >= 1000 {
        dts
    } else {
        1000int
    };
    InterpolatedCursor {
        x: lerp_s(a.x as int, b.x as int, t) as i64,
        y: lerp_s(a.y as int, b.y as int, t) as i64,
        velocity_x: fx_div_s(fx_sub_s(b.x as int, a.x as int), dt) as i64,
        velocity_y: fx_div_s(fx_sub_s(b.y as int, a.y as int), dt) as i64,
        cursor_id: a.cursor_id,
        click_progress: click_state_s(clicks, time_ms).0 as i64,
        is_clicking: click_state_s(clicks, time_ms).1,
        opacity: cursor_idle_opacity_s(moves, time_ms) as i64,
    }
}

/// Piecewise-linear interpolation between raw samples, used when smoothing
/// is off (cheap scrubbing).
fn interpolate_linear(events: &CursorEvents, time_ms: i64) -> (r: Option<InterpolatedCursor>)
    requires
        moves_sorted(events.moves@),
        events.moves@.len() >= 1,
        events.moves@[0].time_ms <= time_ms,
        events.moves@[events.moves@.len() - 1].time_ms > time_ms,
    ensures
        r is Some,
        r == linear_lookup_s(events.moves@, events.clicks@, time_ms as int),
        exists|i: int|
            0 <= i < events.moves@.len() - 1 && (#[trigger] events.moves@[i]).time_ms <= time_ms
                && time_ms <= events.moves@[i + 1].time_ms && r == Some(
                linear_blend_s(
                    events.moves@[i],
                    events.moves@[i + 1],
                    events.moves@,
                    events.clicks@,
                    time_ms as int,
                ),
            ),
{
    let moves: &Vec<CursorMoveEvent> = &events.moves;
    let n: usize = moves.len();
    let mut i: usize = 0;
    while i < n - 1
        invariant
            2 <= n == moves@.len(),
            0 <= i <= n - 1,
            moves@ == events.moves@,
            moves_sorted(moves@),
            moves@[i as int].time_ms <= time_ms,
            moves@[n - 1].time_ms > time_ms,
            find_linear_bracket_s(moves@, time_ms as int, 0) == find_linear_bracket_s(
                moves@,
                time_ms as int,
                i as int,
            ),
        decreases n - 1 - i,
    {
        let a: CursorMoveEvent = moves[i];
        let b: CursorMoveEvent = moves[i + 1];

        if a.time_ms <= time_ms && time_ms <= b.time_ms {
            let denom: i64 = fx_sub(b.time_ms, a.time_ms);
            let t_fac: i64 = if fx_abs(denom) < 1000 {
                0
            } else {
                fx_div(fx_sub(time_ms, a.time_ms), denom)
            };

            let dt_s: i64 = fx_max(fx_divi(denom, 1000), 1000);
            let vx: i64 = fx_div(fx_sub(b.x, a.x), dt_s);
            let vy: i64 = fx_div(fx_sub(b.y, a.y), dt_s);

            let (click_progress, is_clicking): (i64, bool) = compute_click_state(events, time_ms);
            let opacity: i64 = compute_idle_opacity(events, time_ms);

            let sample: InterpolatedCursor = InterpolatedCursor {
                x: fx_lerp(a.x, b.x, t_fac),
                y: fx_lerp(a.y, b.y, t_fac),
                velocity_x: vx,
                velocity_y: vy,
                cursor_id: a.cursor_id,
                click_progress,
                is_clicking,
                opacity,
            };
            proof {
                let blend = linear_blend_s(
                    events.moves@[i as int],
                    events.moves@[i as int + 1],
                    events.moves@,
                    events.clicks@,
                    time_ms as int,
                );
                assert(sample == blend);
            }
            return Some(sample);
        }

        i = i + 1;
    }

    None
}

// ───────────────────────────────────────────────────────────────
// Click state and idle opacity
// ───────────────────────────────────────────────────────────────

/// First click strictly after the query, scanning from `i`: the scan
/// stops there.
pub open spec fn click_stop_s(clicks: Seq<CursorClickEvent>, t: int, i: int) -> int
    decreases clicks.len() - i,
{
    if i < 0 || i >= clicks.len() {
        clicks.len() as int
    } else if clicks[i].time_ms as int <= t {
        click_stop_s(clicks, t, i + 1)
    } else {
        i
    }
}

/// Fold of the first `i` clicks: the last press time seen (releases keep
/// it) and whether the most recent transition was a press.
pub open spec fn click_fold_s(clicks: Seq<CursorClickEvent>, i: int) -> (Option<i64>, bool)
    decreases i,
{
    if i <= 0 {
        (None, false)
    } else {
        let prev = click_fold_s(clicks, i - 1);
        let c = clicks[i - 1];
        if c.down {
            (Some(c.time_ms), true)
        } else {
            (prev.0, false)
        }
    }
}

/// The click state as a value: fold the clicks up to the first future
/// one; the progress ramps over the click duration, capped at one.
pub open spec fn click_state_s(clicks: Seq<CursorClickEvent>, t: int) -> (int, bool) {
    let f = click_fold_s(clicks, click_stop_s(clicks, t, 0));
    let progress = match f.0 {
        Some(v) => min_i(
            fx_div_s(sat64(tdiv(fx_sub_s(t, v as int), 1000)), CURSOR_CLICK_DURATION as int),
            FX_ONE as int,
        ),
        None => 0int,
    };
    (progress, f.1)
}

/// Latest sample at or before `t`, scanning down from `j`.
pub open spec fn last_cursor_move_at_or_before_s(moves: Seq<CursorMoveEvent>, t: int, j: int) -> Option<
    int,
>
    decreases j,
{
    if j <= 0 || j > moves.len() {
        None
    } else if moves[j - 1].time_ms as int <= t {
        Some(j - 1)
    } else {
        last_cursor_move_at_or_before_s(moves, t, j - 1)
    }
}

/// The idle fade as a value: opaque when every sample is in the future,
/// else the fade anchored at the latest sample not after the query.
pub open spec fn cursor_idle_opacity_s(moves: Seq<CursorMoveEvent>, t: int) -> int {
    match last_cursor_move_at_or_before_s(moves, t, moves.len() as int) {
        Some(k) => idle_opacity_s(fx_sub_s(t, moves[k].time_ms as int)),
        None => FX_ONE as int,
    }
}

/// The idle fade: full opacity until the delay has passed, then a linear
/// ramp down to zero over the fade duration.
pub open spec fn idle_opacity_s(idle: int) -> int {
    if idle > CURSOR_IDLE_MIN_DELAY_MS as int {
        let fade = fx_div_s(
            fx_sub_s(idle, CURSOR_IDLE_MIN_DELAY_MS as int),
            CURSOR_IDLE_FADE_OUT_MS as int,
        );
        if fx_sub_s(FX_ONE as int, fade) >= 0 {
            fx_sub_s(FX_ONE as int, fade)
        } else {
            0
        }
    } else {
        FX_ONE as int
    }
}

/// Click animation state at `time_ms`: the progress of the most recent
/// press (smoothly capped at one) and whether a press is currently held.
pub fn compute_click_state(events: &CursorEvents, time_ms: i64) -> (r: (i64, bool))
    ensures
        r.0 == click_state_s(events.clicks@, time_ms as int).0,
        r.1 == click_state_s(events.clicks@, time_ms as int).1,
        0 <= r.0 <= FX_ONE,
        (forall|i: int|
            0 <= i < events.clicks@.len() ==> #[trigger] events.clicks@[i].time_ms > time_ms)
            ==> r == (0i64, false),
        r.1 ==> exists|i: int|
            0 <= i < events.clicks@.len() && #[trigger] events.clicks@[i].time_ms <= time_ms
                && events.clicks@[i].down,
{
    let clicks: &Vec<CursorClickEvent> = &events.clicks;
    let mut last_down_time: Option<i64> = None;
    let mut is_down: bool = false;

    let mut i: usize = 0;
    while i < clicks.len() && clicks[i].time_ms <= time_ms
        invariant
            i <= clicks@.len(),
            forall|j: int| 0 <= j < i ==> #[trigger] clicks@[j].time_ms <= time_ms,
            click_stop_s(clicks@, time_ms as int, 0) == click_stop_s(clicks@, time_ms as int, i as int),
            last_down_time == click_fold_s(clicks@, i as int).0,
            is_down == click_fold_s(clicks@, i as int).1,
            i == 0 ==> last_down_time is None && !is_down,
            (match last_down_time {
                Some(v) => v <= time_ms,
                None => true,
            }),
            is_down ==> exists|j: int|
                0 <= j < i && #[trigger] clicks@[j].time_ms <= time_ms && clicks@[j].down,
        decreases clicks@.len() - i,
    {
        let click: CursorClickEvent = clicks[i];
        if click.down {
            last_down_time = Some(click.time_ms);
            is_down = true;
        } else {
            is_down = false;
        }
        i = i + 1;
    }

    proof {
        // Pin down that a non-empty scan saw the first click, so callers
        // whose clicks all lie in the future get the neutral answer.
        if i > 0 {
            assert(clicks@[0].time_ms <= time_ms);
        }
    }

    let progress: i64 = match last_down_time {
        Some(t) => {
            let elapsed_secs: i64 = fx_divi(fx_sub(time_ms, t), 1000);
            let p: i64 = fx_div(elapsed_secs, CURSOR_CLICK_DURATION);
            proof {
                lemma_div_nonneg(
                    iabs((elapsed_secs as int) * (FX_ONE as int)),
                    iabs(CURSOR_CLICK_DURATION as int),
                );
                lemma_div_nonneg(iabs(fx_sub_s(time_ms as int, t as int)), 1000);
            }
            fx_min(p, FX_ONE)
        },
        None => 0,
    };

    (progress, is_down)
}

/// Cursor opacity at `time_ms`: full while recently active, fading out
/// after the idle delay. The fade is anchored at the latest sample not
/// after the query time.
pub fn compute_idle_opacity(events: &CursorEvents, time_ms: i64) -> (r: i64)
    ensures
        r == cursor_idle_opacity_s(events.moves@, time_ms as int),
        0 <= r <= FX_ONE,
        (forall|i: int|
            0 <= i < events.moves@.len() ==> #[trigger] events.moves@[i].time_ms > time_ms)
            ==> r == FX_ONE,
        (exists|i: int|
            0 <= i < events.moves@.len() && #[trigger] events.moves@[i].time_ms <= time_ms)
            ==> exists|i: int|
            0 <= i < events.moves@.len() && #[trigger] events.moves@[i].time_ms <= time_ms
                && (forall|k: int|
                i < k < events.moves@.len() ==> #[trigger] events.moves@[k].time_ms > time_ms)
                && r == idle_opacity_s(fx_sub_s(time_ms as int, events.moves@[i].time_ms as int)),
{
    let moves: &Vec<CursorMoveEvent> = &events.moves;
    let mut j: usize = moves.len();
    while j > 0 && moves[j - 1].time_ms > time_ms
        invariant
            j <= moves@.len(),
            forall|k: int| j <= k < moves@.len() ==> #[trigger] moves@[k].time_ms > time_ms,
            last_cursor_move_at_or_before_s(moves@, time_ms as int, moves@.len() as int)
                == last_cursor_move_at_or_before_s(moves@, time_ms as int, j as int),
        decreases j,
    {
        j = j - 1;
    }

    if j == 0 {
        return FX_ONE;
    }

    let anchor: i64 = moves[j - 1].time_ms;
    let idle_time: i64 = fx_sub(time_ms, anchor);
    if idle_time > CURSOR_IDLE_MIN_DELAY_MS {
        let fade: i64 = fx_div(fx_sub(idle_time, CURSOR_IDLE_MIN_DELAY_MS), CURSOR_IDLE_FADE_OUT_MS);
        proof {
            lemma_div_nonneg(
                iabs(fx_sub_s(idle_time as int, CURSOR_IDLE_MIN_DELAY_MS as int) * (
                FX_ONE as int)),
                iabs(CURSOR_IDLE_FADE_OUT_MS as int),
            );
        }
        fx_max(fx_sub(FX_ONE, fade), 0)
    } else {
        FX_ONE
    }
}

} // verus!
