//! Time-driven eased interpolation.
//!
//! Time is kept in whole milliseconds and the easing curves are evaluated
//! exactly as rationals with denominator `duration^3`, so every contract
//! pins the interpolated value to one integer.

use vstd::prelude::*;

verus! {

/// The easing curves: the identity and the standard cubic variants.
#[derive(Clone, Copy, Debug, PartialEq, Eq, Structural)]
pub enum Ease {
    Linear,
    CubicIn,
    CubicOut,
    CubicInOut,
}

#[derive(Clone, Copy, Debug, PartialEq, Eq, Structural)]
pub enum Direction {
    Forward,
    Reverse,
}

/// Longest representable animation, in milliseconds. The bound keeps
/// `duration^3` comfortably inside the machine arithmetic below.
pub const MAX_DURATION_MS: u64 = 1_000_000;

/// An eased scalar animation: a time cursor walking `[0, duration]` in
/// one of two directions, or idle.
#[derive(Clone, Copy, Debug, PartialEq, Eq)]
pub struct Animation {
    /// Total run time in milliseconds.
    pub duration: u64,
    pub ease: Ease,
    /// While running, the timestamp of the last `advance`.
    pub running: Option<u64>,
    pub direction: Direction,
    /// Time cursor, always within `[0, duration]`.
    pub time: u64,
}

/// Numerator of the eased progress at time `t` of `d`, over the common
/// denominator `d * d * d`. For `t` in `[0, d]` this stays in `[0, d^3]`,
/// is `0` at `t == 0` and `d^3` at `t == d`, for every curve.
pub open spec fn spec_ease_num(ease: Ease, t: int, d: int) -> int {
    match ease {
        Ease::Linear => t * d * d,
        Ease::CubicIn => t * t * t,
        Ease::CubicOut => d * d * d - (d - t) * (d - t) * (d - t),
        Ease::CubicInOut => if 2 * t < d {
            4 * (t * t * t)
        } else {
            d * d * d - 4 * ((d - t) * (d - t) * (d - t))
        },
    }
}

pub open spec fn spec_denom(d: int) -> int {
    d * d * d
}

impl Animation {
    /// Validity: a positive bounded duration and a clamped time cursor.
    pub open spec fn spec_wf(self) -> bool {
        &&& 1 <= self.duration <= MAX_DURATION_MS
        &&& self.time <= self.duration
    }

    pub open spec fn spec_is_running(self) -> bool {
        self.running is Some
    }

    /// The exact interpolated value: `start` plus the eased fraction of
    /// the distance to `end`, with the integer division truncating the
    /// magnitude of the offset.
    pub open spec fn spec_interpolate(self, start: i64, end: i64) -> int {
        let num = spec_ease_num(self.ease, self.time as int, self.duration as int);
        let den = spec_denom(self.duration as int);
        if end >= start {
            start + (end - start) * num / den
        } else {
            start - (start - end) * num / den
        }
    }

    /// The state after integrating wall-clock time up to `now`: elapsed
    /// time (never negative) moves the cursor in the current direction,
    /// clamped at the bound, and reaching either bound stops the run.
    pub open spec fn spec_advance(self, now: u64) -> Animation {
        match self.running {
            Option::None => self,
            Option::Some(last) => {
                let dt = if now >= last {
                    now - last
                } else {
                    0
                };
                match self.direction {
                    Direction::Forward => {
                        if dt >= self.duration - self.time {
                            Animation { time: self.duration, running: Option::None, ..self }
                        } else {
                            Animation {
                                time: (self.time + dt) as u64,
                                running: Option::Some(now),
                                ..self
                            }
                        }
                    },
                    Direction::Reverse => {
                        if dt >= self.time {
                            Animation { time: 0, running: Option::None, ..self }
                        } else {
                            Animation {
                                time: (self.time - dt) as u64,
                                running: Option::Some(now),
                                ..self
                            }
                        }
                    },
                }
            },
        }
    }

    fn with_ease(duration: u64, ease: Ease) -> (r: Animation)
        requires
            1 <= duration <= MAX_DURATION_MS,
        ensures
            r == (Animation {
                duration,
                ease,
                running: Option::<u64>::None,
                direction: Direction::Forward,
                time: 0,
            }),
    {
        Animation { duration, ease, running: Option::None, direction: Direction::Forward, time: 0 }
    }

    pub fn linear(duration: u64) -> (r: Animation)
        requires
            1 <= duration <= MAX_DURATION_MS,
        ensures
            r.spec_wf(),
            r.ease == Ease::Linear,
            r.duration == duration,
            r.time == 0,
            !r.spec_is_running(),
    {
        Self::with_ease(duration, Ease::Linear)
    }

    pub fn ease_in(duration: u64) -> (r: Animation)
        requires
            1 <= duration <= MAX_DURATION_MS,
        ensures
            r.spec_wf(),
            r.ease == Ease::CubicIn,
            r.duration == duration,
            r.time == 0,
            !r.spec_is_running(),
    {
        Self::with_ease(duration, Ease::CubicIn)
    }

    pub fn ease_out(duration: u64) -> (r: Animation)
        requires
            1 <= duration <= MAX_DURATION_MS,
        ensures
            r.spec_wf(),
            r.ease == Ease::CubicOut,
            r.duration == duration,
            r.time == 0,
            !r.spec_is_running(),
    {
        Self::with_ease(duration, Ease::CubicOut)
    }

    pub fn ease_in_out(duration: u64) -> (r: Animation)
        requires
            1 <= duration <= MAX_DURATION_MS,
        ensures
            r.spec_wf(),
            r.ease == Ease::CubicInOut,
            r.duration == duration,
            r.time == 0,
            !r.spec_is_running(),
    {
        Self::with_ease(duration, Ease::CubicInOut)
    }

    pub fn is_running(&self) -> (r: bool)
        ensures
            r == self.spec_is_running(),
    {
        self.running.is_some()
    }

    /// Resumes in the requested direction without resetting the cursor,
    /// so hover-in and hover-out animations meet where they left off.
    pub fn run(&mut self, forward: bool, now: u64)
        ensures
            *final(self) == (Animation {
                running: Option::Some(now),
                direction: if forward {
                    Direction::Forward
                } else {
                    Direction::Reverse
                },
                ..*old(self)
            }),
    {
        self.running = Option::Some(now);
        self.direction = if forward {
            Direction::Forward
        } else {
            Direction::Reverse
        };
    }

    /// Starts from the beginning, running forward.
    pub fn start(&mut self, now: u64)
        ensures
            *final(self) == (Animation {
                running: Option::Some(now),
                direction: Direction::Forward,
                time: 0,
                ..*old(self)
            }),
    {
        self.running = Option::Some(now);
        self.time = 0;
        self.direction = Direction::Forward;
    }

    /// Starts from the end, running backward.
    pub fn start_reverse(&mut self, now: u64)
        ensures
            *final(self) == (Animation {
                running: Option::Some(now),
                direction: Direction::Reverse,
                time: old(self).duration,
                ..*old(self)
            }),
    {
        self.running = Option::Some(now);
        self.time = self.duration;
        self.direction = Direction::Reverse;
    }

    /// Integrates elapsed time since the previous `advance` into the
    /// cursor; see [`Animation::spec_advance`] for the exact effect.
    pub fn advance(&mut self, now: u64)
        requires
            old(self).spec_wf(),
        ensures
            *final(self) == old(self).spec_advance(now),
            final(self).spec_wf(),
    {
        let last = match self.running {
            Option::Some(last) => last,
            Option::None => {
                return ;
            },
        };
        let dt = if now >= last {
            now - last
        } else {
            0
        };
        match self.direction {
            Direction::Forward => {
                if dt >= self.duration - self.time {
                    self.time = self.duration;
                    self.running = Option::None;
                } else {
                    self.time = self.time + dt;
                    self.running = Option::Some(now);
                }
            },
            Direction::Reverse => {
                if dt >= self.time {
                    self.time = 0;
                    self.running = Option::None;
                } else {
                    self.time = self.time - dt;
                    self.running = Option::Some(now);
                }
            },
        }
    }

    /// Applies the easing curve to the cursor and blends `start..end`.
    /// Callable in any state; at the bounds it returns the boundary
    /// value exactly.
    pub fn interpolate(&self, start: i64, end: i64) -> (r: i64)
        requires
            self.spec_wf(),
        ensures
            r == self.spec_interpolate(start, end),
            start <= end ==> start <= r <= end,
            end <= start ==> end <= r <= start,
    {
        proof {
            lemma_ease_num_bounds(self.ease, self.time as int, self.duration as int);
            lemma_cube_in_range(self.duration as int);
        }
        let d = self.duration as u128;
        let den: u128 = d * d * d;
        let num: u128 = ease_num(self.ease, self.time, self.duration);
        proof {
            lemma_frac_le(
                if start <= end {
                    end - start
                } else {
                    start - end
                },
                num as int,
                den as int,
            );
        }
        if end >= start {
            let delta = (end as i128 - start as i128) as u128;
            proof {
                assert(delta * num <= delta * den <= 0xffff_ffff_ffff_ffff as int
                    * 1_000_000_000_000_000_000) by (nonlinear_arith)
                    requires
                        num <= den <= 1_000_000_000_000_000_000,
                        0 <= delta <= 0xffff_ffff_ffff_ffff,
                ;
            }
            let off = delta * num / den;
            let r = start as i128 + off as i128;
            r as i64
        } else {
            let delta = (start as i128 - end as i128) as u128;
            proof {
                assert(delta * num <= delta * den <= 0xffff_ffff_ffff_ffff as int
                    * 1_000_000_000_000_000_000) by (nonlinear_arith)
                    requires
                        num <= den <= 1_000_000_000_000_000_000,
                        0 <= delta <= 0xffff_ffff_ffff_ffff,
                ;
            }
            let off = delta * num / den;
            let r = start as i128 - off as i128;
            r as i64
        }
    }
}

/// Products of three factors below the duration bound stay small.
proof fn lemma_cube_in_range(d: int)
    requires
        1 <= d <= MAX_DURATION_MS,
    ensures
        1 <= d * d <= 1_000_000_000_000,
        1 <= spec_denom(d) <= 1_000_000_000_000_000_000,
{
    assert(1 <= d * d <= 1_000_000_000_000 && 1 <= d * d * d <= 1_000_000_000_000_000_000)
        by (nonlinear_arith)
        requires
            1 <= d <= 1_000_000,
    ;
}

proof fn lemma_small_products(t: int, d: int)
    requires
        0 <= t <= d,
        1 <= d <= MAX_DURATION_MS,
    ensures
        0 <= t * d <= 1_000_000_000_000,
        0 <= t * t <= 1_000_000_000_000,
        0 <= (d - t) * (d - t) <= 1_000_000_000_000,
        0 <= t * d * d <= 1_000_000_000_000_000_000,
        0 <= t * t * t <= 1_000_000_000_000_000_000,
        0 <= (d - t) * (d - t) * (d - t) <= 1_000_000_000_000_000_000,
{
    assert(0 <= t * d <= 1_000_000_000_000 && 0 <= t * t <= 1_000_000_000_000 && 0 <= (d - t) * (d
        - t) <= 1_000_000_000_000 && 0 <= t * d * d <= 1_000_000_000_000_000_000 && 0 <= t * t * t
        <= 1_000_000_000_000_000_000 && 0 <= (d - t) * (d - t) * (d - t)
        <= 1_000_000_000_000_000_000) by (nonlinear_arith)
        requires
            0 <= t <= d,
            1 <= d <= 1_000_000,
    ;
}

/// Exact numerator of the eased progress, as `spec_ease_num` states it.
fn ease_num(ease: Ease, t: u64, d: u64) -> (r: u128)
    requires
        t <= d,
        1 <= d <= MAX_DURATION_MS,
    ensures
        r == spec_ease_num(ease, t as int, d as int),
{
    proof {
        lemma_ease_num_bounds(ease, t as int, d as int);
        lemma_small_products(t as int, d as int);
        lemma_cube_in_range(d as int);
    }
    let t = t as u128;
    let d = d as u128;
    match ease {
        Ease::Linear => t * d * d,
        Ease::CubicIn => t * t * t,
        Ease::CubicOut => d * d * d - (d - t) * (d - t) * (d - t),
        Ease::CubicInOut => {
            if 2 * t < d {
                4 * (t * t * t)
            } else {
                d * d * d - 4 * ((d - t) * (d - t) * (d - t))
            }
        },
    }
}

/// Cubes grow with their argument.
proof fn lemma_cube_monotone(a: int, b: int)
    requires
        0 <= a <= b,
    ensures
        a * a * a <= b * b * b,
{
    assert(a * a * a <= b * b * b) by (nonlinear_arith)
        requires
            0 <= a <= b,
    ;
}

/// For `t` in `[0, d]` every numerator lies in `[0, d^3]`, vanishes at
/// `t == 0` and reaches `d^3` at `t == d`.
pub proof fn lemma_ease_num_bounds(ease: Ease, t: int, d: int)
    requires
        0 <= t <= d,
        1 <= d,
    ensures
        0 <= spec_ease_num(ease, t, d) <= spec_denom(d),
        t == 0 ==> spec_ease_num(ease, t, d) == 0,
        t == d ==> spec_ease_num(ease, t, d) == spec_denom(d),
{
    match ease {
        Ease::Linear => {
            assert(0 <= t * d * d <= d * d * d) by (nonlinear_arith)
                requires
                    0 <= t <= d,
                    1 <= d,
            ;
            if t == 0 {
                assert(t * d * d == 0) by (nonlinear_arith)
                    requires
                        t == 0,
                ;
            }
            if t == d {
                assert(t * d * d == d * d * d);
            }
        },
        Ease::CubicIn => {
            lemma_cube_monotone(t, d);
            assert(0 <= t * t * t) by (nonlinear_arith)
                requires
                    0 <= t,
            ;
            if t == 0 {
                assert(t * t * t == 0) by (nonlinear_arith)
                    requires
                        t == 0,
                ;
            }
        },
        Ease::CubicOut => {
            lemma_cube_monotone(d - t, d);
            assert(0 <= (d - t) * (d - t) * (d - t)) by (nonlinear_arith)
                requires
                    0 <= d - t,
            ;
            if t == d {
                assert((d - t) * (d - t) * (d - t) == 0) by (nonlinear_arith)
                    requires
                        d - t == 0,
                ;
            }
        },
        Ease::CubicInOut => {
            if 2 * t < d {
                lemma_cube_monotone(2 * t, d);
                assert((2 * t) * (2 * t) * (2 * t) == 8 * (t * t * t)) by (nonlinear_arith);
                assert(0 <= t * t * t) by (nonlinear_arith)
                    requires
                        0 <= t,
                ;
                if t == 0 {
                    assert(t * t * t == 0) by (nonlinear_arith)
                        requires
                            t == 0,
                    ;
                }
            } else {
                lemma_cube_monotone(2 * (d - t), d);
                assert((2 * (d - t)) * (2 * (d - t)) * (2 * (d - t)) == 8 * ((d - t) * (d - t) * (d
                    - t))) by (nonlinear_arith);
                assert(0 <= (d - t) * (d - t) * (d - t)) by (nonlinear_arith)
                    requires
                        0 <= d - t,
                ;
                if t == d {
                    assert((d - t) * (d - t) * (d - t) == 0) by (nonlinear_arith)
                        requires
                            d - t == 0,
                    ;
                }
            }
        },
    }
}

/// A truncated fraction of `delta` with `num <= den` never exceeds
/// `delta`.
proof fn lemma_frac_le(delta: int, num: int, den: int)
    requires
        0 <= delta,
        0 <= num <= den,
        1 <= den,
    ensures
        0 <= delta * num / den <= delta,
{
    assert(delta * num <= delta * den) by (nonlinear_arith)
        requires
            0 <= delta,
            num <= den,
    ;
    assert(0 <= delta * num) by (nonlinear_arith)
        requires
            0 <= delta,
            0 <= num,
    ;
    assert(delta * den / den == delta) by (nonlinear_arith)
        requires
            1 <= den,
    ;
    vstd::arithmetic::div_mod::lemma_div_is_ordered(delta * num, delta * den, den);
}

/// Advancing with no elapsed time never moves the time cursor, and an
/// idle animation is left entirely unchanged.
pub proof fn lemma_advance_zero_elapsed(a: Animation, now: u64)
    requires
        a.spec_wf(),
        a.running matches Option::Some(last) ==> last == now,
    ensures
        a.spec_advance(now).time == a.time,
        !a.spec_is_running() ==> a.spec_advance(now) == a,
{
}

/// At the start of its run an animation interpolates to `start` exactly,
/// and at the end of its run to `end` exactly, for every easing curve.
pub proof fn lemma_interpolate_endpoints(a: Animation, start: i64, end: i64)
    requires
        a.spec_wf(),
    ensures
        a.time == 0 ==> a.spec_interpolate(start, end) == start,
        a.time == a.duration ==> a.spec_interpolate(start, end) == end,
{
    let d = a.duration as int;
    let num = spec_ease_num(a.ease, a.time as int, d);
    let den = spec_denom(d);
    lemma_ease_num_bounds(a.ease, a.time as int, d);
    lemma_cube_in_range(d);
    if a.time == 0 {
        assert(num == 0);
        if end >= start {
            assert((end - start) * 0 == 0) by (nonlinear_arith);
        } else {
            assert((start - end) * 0 == 0) by (nonlinear_arith);
        }
    }
    if a.time == a.duration {
        assert(num == den);
        if end >= start {
            assert((end - start) * den / den == end - start) by (nonlinear_arith)
                requires
                    1 <= den,
            ;
        } else {
            assert((start - end) * den / den == start - end) by (nonlinear_arith)
                requires
                    1 <= den,
            ;
        }
    }
}

} // verus!
