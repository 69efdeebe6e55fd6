//! Analytical spring-mass-damper solver.
//!
//! The solver advances a second-order system in closed form, so the result
//! of one large step equals the result the continuous system would reach:
//! there is no integrator drift. All three damping regimes are covered:
//! underdamped (oscillatory), overdamped (two real roots, with a
//! first-order fallback when the roots coincide on the fixed-point grid),
//! and critically damped.

use vstd::prelude::*;
use crate::fixed::FX_ONE;
use crate::fixed::FX_SAT;
use crate::fixed::cos_s;
use crate::fixed::exp_neg_s;
use crate::fixed::fx_add;
use crate::fixed::fx_add_s;
use crate::fixed::fx_cos;
use crate::fixed::fx_div;
use crate::fixed::fx_divi;
use crate::fixed::fx_exp_neg;
use crate::fixed::fx_max;
use crate::fixed::fx_mul;
use crate::fixed::fx_mul_s;
use crate::fixed::fx_neg;
use crate::fixed::fx_sin;
use crate::fixed::fx_smoothstep;
use crate::fixed::fx_sqrt;
use crate::fixed::fx_sqrt_s;
use crate::fixed::fx_sub;
use crate::fixed::fx_sub_s;
use crate::fixed::lemma_fx_div_zero;
use crate::fixed::lemma_fx_mul_zero;
use crate::fixed::lemma_mag_test;
use crate::fixed::sat64;
use crate::fixed::sin_s;
use crate::fixed::smoothstep_s;
use crate::fixed::tdiv;
use crate::fixed::fx_div_s;

verus! {

/// A two-dimensional fixed-point vector.
#[derive(Clone, Copy, Debug, PartialEq, Eq, Structural)]
pub struct Vec2 {
    pub x: i64,
    pub y: i64,
}

/// Zero vector.
pub open spec fn vec2_zero() -> Vec2 {
    Vec2 { x: 0, y: 0 }
}

/// Physical parameters of a spring-mass-damper system, in fixed point.
#[derive(Clone, Copy, Debug, PartialEq, Eq, Structural)]
pub struct SpringConfig {
    pub tension: i64,
    pub mass: i64,
    pub friction: i64,
}

impl Default for SpringConfig {
    /// The smooth cursor-following preset is the default configuration.
    fn default() -> (r: SpringConfig)
        ensures
            r == (SpringConfig { tension: 100_000_000i64, mass: 1_000_000i64, friction: 20_000_000i64 }),
    {
        SpringConfig { tension: 100_000_000, mass: 1_000_000, friction: 20_000_000 }
    }
}

impl SpringConfig {
    /// Smooth cursor following.
    pub fn cursor_default() -> (r: SpringConfig)
        ensures
            r == (SpringConfig { tension: 100_000_000i64, mass: 1_000_000i64, friction: 20_000_000i64 }),
    {
        SpringConfig { tension: 100_000_000, mass: 1_000_000, friction: 20_000_000 }
    }

    /// Snappy response near click events.
    pub fn cursor_snappy() -> (r: SpringConfig)
        ensures
            r == (SpringConfig { tension: 700_000_000i64, mass: 1_000_000i64, friction: 30_000_000i64 }),
    {
        SpringConfig { tension: 700_000_000, mass: 1_000_000, friction: 30_000_000 }
    }

    /// Slower response while the primary button is held.
    pub fn cursor_drag() -> (r: SpringConfig)
        ensures
            r == (SpringConfig { tension: 80_000_000i64, mass: 1_200_000i64, friction: 26_000_000i64 }),
    {
        SpringConfig { tension: 80_000_000, mass: 1_200_000, friction: 26_000_000 }
    }

    /// Stiffer, heavier preset for whole-screen camera movement.
    pub fn screen_movement() -> (r: SpringConfig)
        ensures
            r == (SpringConfig { tension: 200_000_000i64, mass: 2_250_000i64, friction: 40_000_000i64 }),
    {
        SpringConfig { tension: 200_000_000, mass: 2_250_000, friction: 40_000_000 }
    }

    /// Scale the parameters by per-field multipliers; the mass keeps a
    /// floor of `0.001` so later divisions stay meaningful.
    pub fn scaled(&self, tension_scale: i64, mass_scale: i64, friction_scale: i64) -> (r: SpringConfig)
        ensures
            r.tension == fx_mul_s(self.tension as int, tension_scale as int),
            r.mass == (if fx_mul_s(self.mass as int, mass_scale as int) >= 1000 {
                fx_mul_s(self.mass as int, mass_scale as int)
            } else {
                1000int
            }),
            r.friction == fx_mul_s(self.friction as int, friction_scale as int),
    {
        SpringConfig {
            tension: fx_mul(self.tension, tension_scale),
            mass: fx_max(fx_mul(self.mass, mass_scale), 1000),
            friction: fx_mul(self.friction, friction_scale),
        }
    }
}

/// A two-dimensional spring simulation: position and velocity chase a
/// movable target, both axes sharing one set of parameters.
pub struct SpringSimulation {
    pub config: SpringConfig,
    pub position: Vec2,
    pub velocity: Vec2,
    pub target: Vec2,
}

/// The rest test: both the displacement magnitude and the velocity
/// magnitude lie under their thresholds (`1e-5` and `1e-4` respectively).
/// Stated on the squared magnitudes so the truncated square root drops out.
pub open spec fn at_rest_spec(s: SpringSimulation) -> bool {
    let dx = fx_sub_s(s.position.x as int, s.target.x as int);
    let dy = fx_sub_s(s.position.y as int, s.target.y as int);
    let disp2 = fx_add_s(fx_mul_s(dx, dx), fx_mul_s(dy, dy));
    let vel2 = fx_add_s(
        fx_mul_s(s.velocity.x as int, s.velocity.x as int),
        fx_mul_s(s.velocity.y as int, s.velocity.y as int),
    );
    disp2 * (FX_ONE as int) < 100 && vel2 * (FX_ONE as int) < 10_000
}

/// One axis of the analytical step, as a value: the new displacement and
/// velocity that `solve_spring_1d` computes, regime by regime, over the
/// exact fixed-point kernels.
pub open spec fn solve_axis_s(displacement: int, velocity: int, t: int, omega0: int, zeta: int) -> (
    int,
    int,
) {
    if zeta < FX_ONE as int - 10_000 {
        // Underdamped: oscillatory decay.
        let omega_d = fx_mul_s(omega0, fx_sqrt_s(fx_sub_s(FX_ONE as int, fx_mul_s(zeta, zeta))));
        let zo = fx_mul_s(zeta, omega0);
        let arg = if fx_mul_s(zo, t) >= 0 {
            fx_mul_s(zo, t)
        } else {
            0
        };
        let decay = exp_neg_s(arg);
        let ang = fx_mul_s(omega_d, t);
        let cos_t = cos_s(ang);
        let sin_t = sin_s(ang);
        let den = if omega_d >= 100 {
            omega_d
        } else {
            100
        };
        let b = fx_div_s(fx_add_s(velocity, fx_mul_s(displacement, zo)), den);
        let nd = fx_mul_s(decay, fx_add_s(fx_mul_s(displacement, cos_t), fx_mul_s(b, sin_t)));
        let nv = fx_mul_s(
            decay,
            fx_sub_s(
                fx_mul_s(fx_sub_s(fx_mul_s(b, omega_d), fx_mul_s(displacement, zo)), cos_t),
                fx_mul_s(fx_add_s(fx_mul_s(displacement, omega_d), fx_mul_s(b, zo)), sin_t),
            ),
        );
        (nd, nv)
    } else if zeta > FX_ONE as int + 10_000 {
        // Overdamped: two real exponential roots.
        let sqrt_term = fx_sqrt_s(fx_sub_s(fx_mul_s(zeta, zeta), FX_ONE as int));
        let s1 = sat64(-fx_mul_s(omega0, fx_sub_s(zeta, sqrt_term)));
        let s2 = sat64(-fx_mul_s(omega0, fx_add_s(zeta, sqrt_term)));
        let denom = fx_sub_s(s1, s2);
        if denom == 0 {
            // Coinciding roots: first-order correction around the mean.
            let s_avg = sat64(tdiv(fx_add_s(s1, s2), 2));
            let arg0 = sat64(-fx_mul_s(s_avg, t));
            let arg = if arg0 >= 0 {
                arg0
            } else {
                0
            };
            let decay = exp_neg_s(arg);
            let slope = fx_sub_s(velocity, fx_mul_s(displacement, s_avg));
            let lin = fx_add_s(displacement, fx_mul_s(slope, t));
            (fx_mul_s(decay, lin), fx_mul_s(decay, fx_add_s(slope, fx_mul_s(s_avg, lin))))
        } else {
            let c1 = fx_div_s(fx_sub_s(velocity, fx_mul_s(displacement, s2)), denom);
            let c2 = fx_sub_s(displacement, c1);
            let a1 = sat64(-fx_mul_s(s1, t));
            let e1 = exp_neg_s(
                if a1 >= 0 {
                    a1
                } else {
                    0
                },
            );
            let a2 = sat64(-fx_mul_s(s2, t));
            let e2 = exp_neg_s(
                if a2 >= 0 {
                    a2
                } else {
                    0
                },
            );
            let nd = fx_add_s(fx_mul_s(c1, e1), fx_mul_s(c2, e2));
            let nv = fx_add_s(fx_mul_s(fx_mul_s(c1, s1), e1), fx_mul_s(fx_mul_s(c2, s2), e2));
            (nd, nv)
        }
    } else {
        // Critically damped.
        let arg0 = fx_mul_s(omega0, t);
        let decay = exp_neg_s(
            if arg0 >= 0 {
                arg0
            } else {
                0
            },
        );
        let b = fx_add_s(velocity, fx_mul_s(displacement, omega0));
        let lin = fx_add_s(displacement, fx_mul_s(b, t));
        (fx_mul_s(decay, lin), fx_mul_s(decay, fx_sub_s(b, fx_mul_s(omega0, lin))))
    }
}

/// One whole `run` step as a value: derive the spring parameters, advance
/// both axes analytically, and snap to the target when the result lies
/// inside the rest thresholds.
pub open spec fn spring_step_s(s: SpringSimulation, dt_ms: int) -> SpringSimulation {
    if dt_ms <= 0 {
        s
    } else {
        let t = sat64(tdiv(dt_ms, 1000));
        let mass = if s.config.mass as int >= 1000 {
            s.config.mass as int
        } else {
            1000
        };
        let omega0 = fx_sqrt_s(fx_div_s(s.config.tension as int, mass));
        let sq = fx_sqrt_s(fx_mul_s(s.config.tension as int, mass));
        let den = if fx_add_s(sq, sq) >= 1 {
            fx_add_s(sq, sq)
        } else {
            1
        };
        let zeta = fx_div_s(s.config.friction as int, den);
        let dx = fx_sub_s(s.position.x as int, s.target.x as int);
        let dy = fx_sub_s(s.position.y as int, s.target.y as int);
        let (ndx, nvx) = solve_axis_s(dx, s.velocity.x as int, t, omega0, zeta);
        let (ndy, nvy) = solve_axis_s(dy, s.velocity.y as int, t, omega0, zeta);
        let pos = Vec2 {
            x: fx_add_s(s.target.x as int, ndx) as i64,
            y: fx_add_s(s.target.y as int, ndy) as i64,
        };
        let vel = Vec2 { x: nvx as i64, y: nvy as i64 };
        let rdx = fx_sub_s(pos.x as int, s.target.x as int);
        let rdy = fx_sub_s(pos.y as int, s.target.y as int);
        let disp2 = fx_add_s(fx_mul_s(rdx, rdx), fx_mul_s(rdy, rdy));
        let vel2 = fx_add_s(fx_mul_s(nvx, nvx), fx_mul_s(nvy, nvy));
        if fx_sqrt_s(disp2) < 10 && fx_sqrt_s(vel2) < 100 {
            SpringSimulation {
                config: s.config,
                position: s.target,
                velocity: Vec2 { x: 0, y: 0 },
                target: s.target,
            }
        } else {
            SpringSimulation { config: s.config, position: pos, velocity: vel, target: s.target }
        }
    }
}

/// A settled spring never drifts: the snapped rest state (position on
/// the target, velocity zero) is a fixed point of every step, so once a
/// simulation snaps to rest it stays there exactly, forever.
#[verifier::rlimit(100)]
pub proof fn lemma_rest_is_absorbing(s: SpringSimulation, dt_ms: int)
    requires
        s.position == s.target,
        s.velocity == vec2_zero(),
    ensures
        spring_step_s(s, dt_ms) == s,
{
    if dt_ms > 0 {
        let t = sat64(tdiv(dt_ms, 1000));
        let mass = if s.config.mass as int >= 1000 {
            s.config.mass as int
        } else {
            1000
        };
        let omega0 = fx_sqrt_s(fx_div_s(s.config.tension as int, mass));
        let sq = fx_sqrt_s(fx_mul_s(s.config.tension as int, mass));
        let den = if fx_add_s(sq, sq) >= 1 {
            fx_add_s(sq, sq)
        } else {
            1
        };
        let zeta = fx_div_s(s.config.friction as int, den);
        lemma_fx_mul_zero(0);
        lemma_fx_mul_zero(1);
        assert(fx_sub_s(s.position.x as int, s.target.x as int) == 0);
        assert(fx_sub_s(s.position.y as int, s.target.y as int) == 0);
        lemma_solve_axis_zero(t, omega0, zeta);
        let pos = Vec2 {
            x: fx_add_s(s.target.x as int, 0) as i64,
            y: fx_add_s(s.target.y as int, 0) as i64,
        };
        let rdx = fx_sub_s(pos.x as int, s.target.x as int);
        let rdy = fx_sub_s(pos.y as int, s.target.y as int);
        assert(0 <= rdx <= 1 && 0 <= rdy <= 1);
        assert(fx_mul_s(rdx, rdx) == 0) by {
            assert(0 <= rdx * rdx <= 1) by (nonlinear_arith)
                requires
                    0 <= rdx <= 1;
        }
        assert(fx_mul_s(rdy, rdy) == 0) by {
            assert(0 <= rdy * rdy <= 1) by (nonlinear_arith)
                requires
                    0 <= rdy <= 1;
        }
        assert(fx_add_s(0, 0) == 0);
        assert(fx_sqrt_s(0) == 0);
        assert(spring_step_s(s, dt_ms) == SpringSimulation {
            config: s.config,
            position: s.target,
            velocity: Vec2 { x: 0, y: 0 },
            target: s.target,
        });
    }
}

/// An axis starting exactly at equilibrium stays there, whatever the
/// step and parameters.
pub proof fn lemma_solve_axis_zero(t: int, omega0: int, zeta: int)
    ensures
        solve_axis_s(0, 0, t, omega0, zeta) == (0int, 0int),
{
    lemma_fx_mul_zero(0);
    if zeta < FX_ONE as int - 10_000 {
        let omega_d = fx_mul_s(omega0, fx_sqrt_s(fx_sub_s(FX_ONE as int, fx_mul_s(zeta, zeta))));
        let zo = fx_mul_s(zeta, omega0);
        let den = if omega_d >= 100 {
            omega_d
        } else {
            100
        };
        lemma_fx_mul_zero(zo);
        lemma_fx_div_zero(den);
        let ang = fx_mul_s(omega_d, t);
        lemma_fx_mul_zero(cos_s(ang));
        lemma_fx_mul_zero(sin_s(ang));
        lemma_fx_mul_zero(omega_d);
        let arg = if fx_mul_s(zo, t) >= 0 {
            fx_mul_s(zo, t)
        } else {
            0
        };
        lemma_fx_mul_zero(exp_neg_s(arg));
    } else if zeta > FX_ONE as int + 10_000 {
        let sqrt_term = fx_sqrt_s(fx_sub_s(fx_mul_s(zeta, zeta), FX_ONE as int));
        let s1 = sat64(-fx_mul_s(omega0, fx_sub_s(zeta, sqrt_term)));
        let s2 = sat64(-fx_mul_s(omega0, fx_add_s(zeta, sqrt_term)));
        let denom = fx_sub_s(s1, s2);
        if denom == 0 {
            let s_avg = sat64(tdiv(fx_add_s(s1, s2), 2));
            lemma_fx_mul_zero(s_avg);
            lemma_fx_mul_zero(t);
            let arg0 = sat64(-fx_mul_s(s_avg, t));
            let arg = if arg0 >= 0 {
                arg0
            } else {
                0
            };
            lemma_fx_mul_zero(exp_neg_s(arg));
        } else {
            lemma_fx_mul_zero(s2);
            lemma_fx_div_zero(denom);
            let a1 = sat64(-fx_mul_s(s1, t));
            let a2 = sat64(-fx_mul_s(s2, t));
            lemma_fx_mul_zero(
                exp_neg_s(
                    if a1 >= 0 {
                        a1
                    } else {
                        0
                    },
                ),
            );
            lemma_fx_mul_zero(
                exp_neg_s(
                    if a2 >= 0 {
                        a2
                    } else {
                        0
                    },
                ),
            );
            lemma_fx_mul_zero(s1);
        }
    } else {
        lemma_fx_mul_zero(omega0);
        lemma_fx_mul_zero(t);
        let arg0 = fx_mul_s(omega0, t);
        lemma_fx_mul_zero(
            exp_neg_s(
                if arg0 >= 0 {
                    arg0
                } else {
                    0
                },
            ),
        );
    }
}

/// Convergence for the default cursor spring, in exact form: from any
/// state, one step of at least 1.4 seconds deepens the exponential decay
/// past the fixed-point grid, so the step lands exactly on the target
/// with zero velocity — and by `lemma_rest_is_absorbing` it stays there.
/// (For other parameters convergence over many short steps is a property
/// of the real-valued envelope, beyond the fixed-point contracts; the
/// regime tests exercise it numerically.)
#[verifier::rlimit(100)]
pub proof fn lemma_default_spring_converges(s: SpringSimulation, dt_ms: int)
    requires
        s.config == (SpringConfig {
            tension: 100_000_000i64,
            mass: 1_000_000i64,
            friction: 20_000_000i64,
        }),
        1_400_000_000 <= dt_ms <= 9_223_372_036_854_775_807,
    ensures
        spring_step_s(s, dt_ms) == (SpringSimulation {
            config: s.config,
            position: s.target,
            velocity: Vec2 { x: 0, y: 0 },
            target: s.target,
        }),
{
    let t = sat64(tdiv(dt_ms, 1000));
    crate::fixed::lemma_div_mono_num(1_400_000_000, dt_ms, 1000);
    crate::fixed::lemma_div_mono_num(dt_ms, 9_223_372_036_854_775_807, 1000);
    assert(1_400_000 <= t <= 9_223_372_036_854_775);
    let mass = 1_000_000int;
    assert(fx_div_s(100_000_000, mass) == 100_000_000) by {
        assert(100_000_000int * 1_000_000int / 1_000_000int == 100_000_000int);
    }
    assert(fx_mul_s(100_000_000, mass) == 100_000_000) by {
        assert(100_000_000int * 1_000_000int / 1_000_000int == 100_000_000int);
    }
    // sqrt(100) is exactly ten on the grid.
    assert(fx_sqrt_s(100_000_000) == 10_000_000) by {
        assert(10_000_000int * 10_000_000int <= 100_000_000int * 1_000_000int);
        assert(100_000_000int * 1_000_000int < 10_000_001int * 10_000_001int);
        assert(exists|r: int|
            r >= 0 && #[trigger] (r * r) <= 100_000_000int * 1_000_000int && (r + 1) * (r + 1)
                > 100_000_000int * 1_000_000int);
        crate::fixed::lemma_sqrt_unique(
            fx_sqrt_s(100_000_000),
            10_000_000,
            100_000_000int * 1_000_000int,
        );
    }
    let omega0 = 10_000_000int;
    let den = fx_add_s(10_000_000, 10_000_000);
    assert(den == 20_000_000);
    assert(fx_div_s(20_000_000, 20_000_000) == 1_000_000) by {
        assert(20_000_000int * 1_000_000int / 20_000_000int == 1_000_000int);
    }
    let zeta = 1_000_000int;
    // Critically damped branch; the decay argument is ten times the step.
    assert(fx_mul_s(omega0, t) == 10 * t) by {
        crate::fixed::lemma_mul_div_cancel(10 * t, 1_000_000);
        assert(10_000_000int * t == 10 * t * 1_000_000) by (nonlinear_arith);
        assert(10 * t >= 0 && 10 * t <= FX_SAT as int) by (nonlinear_arith)
            requires
                1_400_000 <= t <= 9_223_372_036_854_775,
        ;
    }
    assert(10 * t >= 14_000_000) by (nonlinear_arith)
        requires
            t >= 1_400_000,
    ;
    lemma_fx_mul_zero(0);
    lemma_fx_mul_zero(1);
    let dx = fx_sub_s(s.position.x as int, s.target.x as int);
    let dy = fx_sub_s(s.position.y as int, s.target.y as int);
    let bx = fx_add_s(s.velocity.x as int, fx_mul_s(dx, omega0));
    let by = fx_add_s(s.velocity.y as int, fx_mul_s(dy, omega0));
    lemma_fx_mul_zero(fx_add_s(dx, fx_mul_s(bx, t)));
    lemma_fx_mul_zero(fx_add_s(dy, fx_mul_s(by, t)));
    lemma_fx_mul_zero(fx_sub_s(bx, fx_mul_s(omega0, fx_add_s(dx, fx_mul_s(bx, t)))));
    lemma_fx_mul_zero(fx_sub_s(by, fx_mul_s(omega0, fx_add_s(dy, fx_mul_s(by, t)))));
    assert(solve_axis_s(dx, s.velocity.x as int, t, omega0, zeta) == (0int, 0int));
    assert(solve_axis_s(dy, s.velocity.y as int, t, omega0, zeta) == (0int, 0int));
    let pos = Vec2 {
        x: fx_add_s(s.target.x as int, 0) as i64,
        y: fx_add_s(s.target.y as int, 0) as i64,
    };
    let rdx = fx_sub_s(pos.x as int, s.target.x as int);
    let rdy = fx_sub_s(pos.y as int, s.target.y as int);
    assert(0 <= rdx <= 1 && 0 <= rdy <= 1);
    assert(fx_mul_s(rdx, rdx) == 0) by {
        assert(0 <= rdx * rdx <= 1) by (nonlinear_arith)
            requires
                0 <= rdx <= 1;
    }
    assert(fx_mul_s(rdy, rdy) == 0) by {
        assert(0 <= rdy * rdy <= 1) by (nonlinear_arith)
            requires
                0 <= rdy <= 1;
    }
    assert(fx_add_s(0, 0) == 0);
    assert(fx_sqrt_s(0) == 0);
}

/// At rest is immediate when the position already sits on the target and
/// the velocity is zero: no settling time is required.
pub proof fn lemma_at_rest_at_target(s: SpringSimulation)
    requires
        s.position == s.target,
        s.velocity == vec2_zero(),
    ensures
        at_rest_spec(s),
{
    crate::fixed::lemma_fx_mul_zero(0);
    assert(fx_sub_s(s.position.x as int, s.target.x as int) == 0);
    assert(fx_sub_s(s.position.y as int, s.target.y as int) == 0);
    assert(fx_add_s(0, 0) == 0);
}

impl SpringSimulation {
    /// Fresh simulation at the origin.
    pub fn new(config: SpringConfig) -> (r: SpringSimulation)
        ensures
            r.config == config,
            r.position == vec2_zero(),
            r.velocity == vec2_zero(),
            r.target == vec2_zero(),
    {
        SpringSimulation {
            config,
            position: Vec2 { x: 0, y: 0 },
            velocity: Vec2 { x: 0, y: 0 },
            target: Vec2 { x: 0, y: 0 },
        }
    }

    /// Replace the spring parameters.
    pub fn set_config(&mut self, config: SpringConfig)
        ensures
            *final(self) == (SpringSimulation { config, ..*old(self) }),
    {
        self.config = config;
    }

    /// Place the simulated point.
    pub fn set_position(&mut self, pos: Vec2)
        ensures
            *final(self) == (SpringSimulation { position: pos, ..*old(self) }),
    {
        self.position = pos;
    }

    /// Set the current velocity.
    pub fn set_velocity(&mut self, vel: Vec2)
        ensures
            *final(self) == (SpringSimulation { velocity: vel, ..*old(self) }),
    {
        self.velocity = vel;
    }

    /// Move the target the point is chasing.
    pub fn set_target(&mut self, target: Vec2)
        ensures
            *final(self) == (SpringSimulation { target, ..*old(self) }),
    {
        self.target = target;
    }

    /// Advance the simulation by `dt_ms` milliseconds (fixed point) and
    /// return the new position. Non-positive steps are a no-op. After the
    /// update, a state inside the rest thresholds snaps exactly onto the
    /// target with zero velocity, so the state never drifts microscopically
    /// forever.
    pub fn run(&mut self, dt_ms: i64) -> (pos: Vec2)
        ensures
            *final(self) == spring_step_s(*old(self), dt_ms as int),
            pos == final(self).position,
            final(self).config == old(self).config,
            final(self).target == old(self).target,
            dt_ms <= 0 ==> *final(self) == *old(self),
            dt_ms > 0 && old(self).position == old(self).target
                && old(self).velocity == vec2_zero()
                ==> final(self).position == old(self).target
                    && final(self).velocity == vec2_zero(),
            dt_ms > 0 && at_rest_spec(*final(self))
                ==> final(self).position == final(self).target
                    && final(self).velocity == vec2_zero(),
    {
        if dt_ms <= 0 {
            return self.position;
        }

        let t: i64 = fx_divi(dt_ms, 1000);
        let mass: i64 = fx_max(self.config.mass, 1000);
        let stiffness: i64 = self.config.tension;
        let damping: i64 = self.config.friction;

        let omega0: i64 = fx_sqrt(fx_div(stiffness, mass));
        let sq: i64 = fx_sqrt(fx_mul(stiffness, mass));
        let zeta: i64 = fx_div(damping, fx_max(fx_add(sq, sq), 1));

        let dx: i64 = fx_sub(self.position.x, self.target.x);
        let dy: i64 = fx_sub(self.position.y, self.target.y);

        let (new_disp_x, new_vel_x) = solve_spring_1d(dx, self.velocity.x, t, omega0, zeta);
        let (new_disp_y, new_vel_y) = solve_spring_1d(dy, self.velocity.y, t, omega0, zeta);

        self.position = Vec2 {
            x: fx_add(self.target.x, new_disp_x),
            y: fx_add(self.target.y, new_disp_y),
        };
        self.velocity = Vec2 { x: new_vel_x, y: new_vel_y };

        // Rest detection on the freshly stored state.
        let rdx: i64 = fx_sub(self.position.x, self.target.x);
        let rdy: i64 = fx_sub(self.position.y, self.target.y);
        let disp2: i64 = fx_add(fx_mul(rdx, rdx), fx_mul(rdy, rdy));
        let disp_mag: i64 = fx_sqrt(disp2);
        let vel2: i64 = fx_add(
            fx_mul(self.velocity.x, self.velocity.x),
            fx_mul(self.velocity.y, self.velocity.y),
        );
        let vel_mag: i64 = fx_sqrt(vel2);

        proof {
            lemma_mag_test(disp2 as int, disp_mag as int, 10);
            lemma_mag_test(vel2 as int, vel_mag as int, 100);
            if old(self).position == old(self).target && old(self).velocity == vec2_zero() {
                lemma_fx_mul_zero(0);
                lemma_fx_mul_zero(1);
                assert(new_disp_x == 0 && new_vel_x == 0 && new_disp_y == 0 && new_vel_y == 0);
                assert(0 <= rdx <= 1 && 0 <= rdy <= 1);
                assert(fx_mul_s(rdx as int, rdx as int) == 0) by {
                    assert(0 <= (rdx as int) * (rdx as int) <= 1) by (nonlinear_arith)
                        requires
                            0 <= rdx <= 1;
                }
                assert(fx_mul_s(rdy as int, rdy as int) == 0) by {
                    assert(0 <= (rdy as int) * (rdy as int) <= 1) by (nonlinear_arith)
                        requires
                            0 <= rdy <= 1;
                }
                assert(disp2 == 0 && vel2 == 0);
                assert(disp_mag == 0 && vel_mag == 0);
            }
        }

        if disp_mag < 10 && vel_mag < 100 {
            self.position = self.target;
            self.velocity = Vec2 { x: 0, y: 0 };
        }

        self.position
    }

    /// Whether displacement and velocity are both below the rest
    /// thresholds right now.
    pub fn is_at_rest(&self) -> (r: bool)
        ensures
            r == at_rest_spec(*self),
    {
        let dx: i64 = fx_sub(self.position.x, self.target.x);
        let dy: i64 = fx_sub(self.position.y, self.target.y);
        let disp2: i64 = fx_add(fx_mul(dx, dx), fx_mul(dy, dy));
        let disp_mag: i64 = fx_sqrt(disp2);
        let vel2: i64 = fx_add(
            fx_mul(self.velocity.x, self.velocity.x),
            fx_mul(self.velocity.y, self.velocity.y),
        );
        let vel_mag: i64 = fx_sqrt(vel2);
        proof {
            lemma_mag_test(disp2 as int, disp_mag as int, 10);
            lemma_mag_test(vel2 as int, vel_mag as int, 100);
        }
        disp_mag < 10 && vel_mag < 100
    }
}

/// Advance one axis analytically by `t` seconds (fixed point), given the
/// natural frequency `omega0` and damping ratio `zeta`. Returns the new
/// displacement and velocity. A system starting exactly at equilibrium
/// stays there.
fn solve_spring_1d(displacement: i64, velocity: i64, t: i64, omega0: i64, zeta: i64) -> (r: (
    i64,
    i64,
))
    ensures
        r.0 == solve_axis_s(
            displacement as int,
            velocity as int,
            t as int,
            omega0 as int,
            zeta as int,
        ).0,
        r.1 == solve_axis_s(
            displacement as int,
            velocity as int,
            t as int,
            omega0 as int,
            zeta as int,
        ).1,
        displacement == 0 && velocity == 0 ==> r.0 == 0 && r.1 == 0,
{
    let from_equilibrium: bool = displacement == 0 && velocity == 0;
    if zeta < FX_ONE - 10_000 {
        // Underdamped: oscillatory decay.
        let omega_d: i64 = fx_mul(omega0, fx_sqrt(fx_sub(FX_ONE, fx_mul(zeta, zeta))));
        let zo: i64 = fx_mul(zeta, omega0);
        let decay: i64 = fx_exp_neg(fx_max(fx_mul(zo, t), 0));
        let ang: i64 = fx_mul(omega_d, t);
        let cos_term: i64 = fx_cos(ang);
        let sin_term: i64 = fx_sin(ang);

        let a: i64 = displacement;
        let den: i64 = fx_max(omega_d, 100);
        let b: i64 = fx_div(fx_add(velocity, fx_mul(displacement, zo)), den);

        let new_disp: i64 = fx_mul(decay, fx_add(fx_mul(a, cos_term), fx_mul(b, sin_term)));
        let new_vel: i64 = fx_mul(
            decay,
            fx_sub(
                fx_mul(fx_sub(fx_mul(b, omega_d), fx_mul(a, zo)), cos_term),
                fx_mul(fx_add(fx_mul(a, omega_d), fx_mul(b, zo)), sin_term),
            ),
        );
        proof {
            if from_equilibrium {
                lemma_fx_mul_zero(zo as int);
                lemma_fx_div_zero(den as int);
                assert(b == 0);
                lemma_fx_mul_zero(cos_term as int);
                lemma_fx_mul_zero(sin_term as int);
                lemma_fx_mul_zero(omega_d as int);
                lemma_fx_mul_zero(decay as int);
                assert(new_disp == 0);
                assert(new_vel == 0);
            }
        }
        (new_disp, new_vel)
    } else if zeta > FX_ONE + 10_000 {
        // Overdamped: two real exponential roots.
        let sqrt_term: i64 = fx_sqrt(fx_sub(fx_mul(zeta, zeta), FX_ONE));
        let s1: i64 = fx_neg(fx_mul(omega0, fx_sub(zeta, sqrt_term)));
        let s2: i64 = fx_neg(fx_mul(omega0, fx_add(zeta, sqrt_term)));
        let denom: i64 = fx_sub(s1, s2);

        if denom == 0 {
            // Roots coincide on the grid: first-order correction around the
            // mean root avoids dividing by their vanishing difference.
            let s_avg: i64 = fx_divi(fx_add(s1, s2), 2);
            let decay: i64 = fx_exp_neg(fx_max(fx_neg(fx_mul(s_avg, t)), 0));
            let slope: i64 = fx_sub(velocity, fx_mul(displacement, s_avg));
            let lin: i64 = fx_add(displacement, fx_mul(slope, t));
            let new_disp: i64 = fx_mul(decay, lin);
            let new_vel: i64 = fx_mul(decay, fx_add(slope, fx_mul(s_avg, lin)));
            proof {
                if from_equilibrium {
                    lemma_fx_mul_zero(s_avg as int);
                    lemma_fx_mul_zero(t as int);
                    assert(slope == 0 && lin == 0);
                    lemma_fx_mul_zero(decay as int);
                    assert(new_disp == 0 && new_vel == 0);
                }
            }
            (new_disp, new_vel)
        } else {
            let c1: i64 = fx_div(fx_sub(velocity, fx_mul(displacement, s2)), denom);
            let c2: i64 = fx_sub(displacement, c1);

            let e1: i64 = fx_exp_neg(fx_max(fx_neg(fx_mul(s1, t)), 0));
            let e2: i64 = fx_exp_neg(fx_max(fx_neg(fx_mul(s2, t)), 0));

            let new_disp: i64 = fx_add(fx_mul(c1, e1), fx_mul(c2, e2));
            let new_vel: i64 = fx_add(
                fx_mul(fx_mul(c1, s1), e1),
                fx_mul(fx_mul(c2, s2), e2),
            );
            proof {
                if from_equilibrium {
                    lemma_fx_mul_zero(s2 as int);
                    lemma_fx_div_zero(denom as int);
                    assert(c1 == 0 && c2 == 0);
                    lemma_fx_mul_zero(e1 as int);
                    lemma_fx_mul_zero(e2 as int);
                    lemma_fx_mul_zero(s1 as int);
                    assert(new_disp == 0 && new_vel == 0);
                }
            }
            (new_disp, new_vel)
        }
    } else {
        // Critically damped: fastest non-oscillatory response.
        let decay: i64 = fx_exp_neg(fx_max(fx_mul(omega0, t), 0));
        let a: i64 = displacement;
        let b: i64 = fx_add(velocity, fx_mul(displacement, omega0));
        let lin: i64 = fx_add(a, fx_mul(b, t));
        let new_disp: i64 = fx_mul(decay, lin);
        let new_vel: i64 = fx_mul(decay, fx_sub(b, fx_mul(omega0, lin)));
        proof {
            if from_equilibrium {
                lemma_fx_mul_zero(omega0 as int);
                lemma_fx_mul_zero(t as int);
                assert(b == 0 && lin == 0);
                lemma_fx_mul_zero(decay as int);
                assert(new_disp == 0 && new_vel == 0);
            }
        }
        (new_disp, new_vel)
    }
}

/// The shared easing envelope as a value: `1 - decay * envelope` over
/// the exact kernels, in the underdamped and the non-oscillatory form.
pub open spec fn ease_curve_s(t: int, omega0: int, zeta: int) -> int {
    if zeta < FX_ONE as int {
        let omega_d = fx_mul_s(omega0, fx_sqrt_s(fx_sub_s(FX_ONE as int, fx_mul_s(zeta, zeta))));
        let arg0 = fx_mul_s(fx_mul_s(zeta, omega0), t);
        let decay = exp_neg_s(
            if arg0 >= 0 {
                arg0
            } else {
                0
            },
        );
        let den = if omega_d >= 1 {
            omega_d
        } else {
            1
        };
        let ratio = fx_div_s(fx_mul_s(zeta, omega0), den);
        let ang = fx_mul_s(omega_d, t);
        fx_sub_s(
            FX_ONE as int,
            fx_mul_s(decay, fx_add_s(cos_s(ang), fx_mul_s(ratio, sin_s(ang)))),
        )
    } else {
        let arg0 = fx_mul_s(omega0, t);
        let decay = exp_neg_s(
            if arg0 >= 0 {
                arg0
            } else {
                0
            },
        );
        fx_sub_s(FX_ONE as int, fx_mul_s(decay, fx_add_s(FX_ONE as int, fx_mul_s(omega0, t))))
    }
}

/// The zoom-in easing as a value: pinned at the endpoints, the spring
/// envelope in between.
pub open spec fn spring_ease_s(t: int, stiffness: int, damping: int, mass: int) -> int {
    if t <= 0 {
        0
    } else if t >= FX_ONE as int {
        FX_ONE as int
    } else {
        let m = if mass >= 1 {
            mass
        } else {
            1
        };
        let omega0 = fx_sqrt_s(fx_div_s(stiffness, m));
        let sq = fx_sqrt_s(fx_mul_s(stiffness, mass));
        let den = if fx_add_s(sq, sq) >= 1 {
            fx_add_s(sq, sq)
        } else {
            1
        };
        let zeta = fx_div_s(damping, den);
        ease_curve_s(t, omega0, zeta)
    }
}

/// The zoom-out easing as a value: the same envelope on a frequency
/// softened by 0.9 and a damping ratio raised by 1.15 — the intentional
/// asymmetry against the zoom-in curve.
pub open spec fn spring_ease_out_s(t: int, stiffness: int, damping: int, mass: int) -> int {
    if t <= 0 {
        0
    } else if t >= FX_ONE as int {
        FX_ONE as int
    } else {
        let m = if mass >= 1 {
            mass
        } else {
            1
        };
        let omega0 = fx_mul_s(fx_sqrt_s(fx_div_s(stiffness, m)), 900_000);
        let sq = fx_sqrt_s(fx_mul_s(stiffness, mass));
        let den = if fx_add_s(sq, sq) >= 1 {
            fx_add_s(sq, sq)
        } else {
            1
        };
        let zeta = fx_mul_s(fx_div_s(damping, den), 1_150_000);
        ease_curve_s(t, omega0, zeta)
    }
}

/// Exact value of the instant (non-spring) easing curve.
pub open spec fn instant_ease_s(t: int) -> int {
    if t <= 0 {
        0int
    } else if t >= FX_ONE as int {
        FX_ONE as int
    } else {
        smoothstep_s(t)
    }
}

/// Spring-based easing for zoom-in transitions: a scalar progress curve
/// from 0 to 1, slightly bouncy when underdamped. Pinned at the endpoints.
pub fn spring_ease(t: i64, stiffness: i64, damping: i64, mass: i64) -> (r: i64)
    ensures
        r == spring_ease_s(t as int, stiffness as int, damping as int, mass as int),
        t <= 0 ==> r == 0,
        t >= FX_ONE ==> r == FX_ONE,
{
    if t <= 0 {
        return 0;
    }
    if t >= FX_ONE {
        return FX_ONE;
    }
    let omega0: i64 = fx_sqrt(fx_div(stiffness, fx_max(mass, 1)));
    let sq: i64 = fx_sqrt(fx_mul(stiffness, mass));
    let zeta: i64 = fx_div(damping, fx_max(fx_add(sq, sq), 1));
    ease_curve(t, omega0, zeta)
}

/// Spring-based easing for zoom-out transitions: the release curve runs on
/// a softened frequency (scaled by 0.9) and a raised damping ratio (scaled
/// by 1.15), which is intentional asymmetry against the zoom-in curve.
pub fn spring_ease_out(t: i64, stiffness: i64, damping: i64, mass: i64) -> (r: i64)
    ensures
        r == spring_ease_out_s(t as int, stiffness as int, damping as int, mass as int),
        t <= 0 ==> r == 0,
        t >= FX_ONE ==> r == FX_ONE,
{
    if t <= 0 {
        return 0;
    }
    if t >= FX_ONE {
        return FX_ONE;
    }
    let omega0: i64 = fx_mul(fx_sqrt(fx_div(stiffness, fx_max(mass, 1))), 900_000);
    let sq: i64 = fx_sqrt(fx_mul(stiffness, mass));
    let zeta: i64 = fx_mul(fx_div(damping, fx_max(fx_add(sq, sq), 1)), 1_150_000);
    ease_curve(t, omega0, zeta)
}

/// Shared body of the two spring easings: `1 - decay * envelope`.
fn ease_curve(t: i64, omega0: i64, zeta: i64) -> (r: i64)
    ensures
        r == ease_curve_s(t as int, omega0 as int, zeta as int),
{
    if zeta < FX_ONE {
        let omega_d: i64 = fx_mul(omega0, fx_sqrt(fx_sub(FX_ONE, fx_mul(zeta, zeta))));
        let decay: i64 = fx_exp_neg(fx_max(fx_mul(fx_mul(zeta, omega0), t), 0));
        let ratio: i64 = fx_div(fx_mul(zeta, omega0), fx_max(omega_d, 1));
        let ang: i64 = fx_mul(omega_d, t);
        fx_sub(FX_ONE, fx_mul(decay, fx_add(fx_cos(ang), fx_mul(ratio, fx_sin(ang)))))
    } else {
        let decay: i64 = fx_exp_neg(fx_max(fx_mul(omega0, t), 0));
        fx_sub(FX_ONE, fx_mul(decay, fx_add(FX_ONE, fx_mul(omega0, t))))
    }
}

/// Instant (non-spring) easing: a clamped cubic hermite blend.
pub fn instant_ease(t: i64) -> (r: i64)
    ensures
        r == instant_ease_s(t as int),
{
    if t <= 0 {
        return 0;
    }
    if t >= FX_ONE {
        return FX_ONE;
    }
    fx_smoothstep(t)
}

} // verus!
