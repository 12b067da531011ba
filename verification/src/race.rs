//! The race state machine: modes, start and finish detection, and race times.
use vstd::prelude::*;

use crate::display::DISPLAY_BYTES;
use crate::effect::Effect;
use crate::motion::{Accel, Axis};
use crate::websocket::Command;

verus! {

// At a range of 2 g the sensor reads 16384 for 1 g.
/// Ticks that the car settles before start detection, about three seconds
pub const READY_DELAY_TICKS: u16 = 38;

/// Deviations up to this size are sensor noise
pub const VELOCITY_NOISE_FLOOR: i32 = 200;

/// Summed deviation beyond which the race has started
pub const RACE_START_VELOCITY: i32 = 4000;

/// Ticks that a race lasts at least, about half a second
pub const MIN_RACE_TICKS: u16 = 6;

/// Change between two readings beyond which the car has hit the end stop
pub const IMPACT_DELTA: i32 = 5000;

/// What the racer is doing.
#[derive(Clone, Copy, Debug, PartialEq, Eq, Structural)]
pub enum RaceMode {
    Display,
    RaceReady,
    Racing,
    RaceOver,
}

impl RaceMode {
    /// The name shown for this mode.
    pub open spec fn name(self) -> Seq<char> {
        match self {
            RaceMode::Display => "Display"@,
            RaceMode::RaceReady => "Race Ready"@,
            RaceMode::Racing => "Racing"@,
            RaceMode::RaceOver => "Race Over"@,
        }
    }

    /// The name shown for this mode.
    pub fn as_str(self) -> (name: &'static str)
        ensures
            name@ == self.name(),
    {
        match self {
            RaceMode::Display => "Display",
            RaceMode::RaceReady => "Race Ready",
            RaceMode::Racing => "Racing",
            RaceMode::RaceOver => "Race Over",
        }
    }

    /// The mode that follows this one when the button is pressed.
    pub open spec fn next(self) -> RaceMode {
        match self {
            RaceMode::Display => RaceMode::RaceReady,
            RaceMode::RaceReady => RaceMode::Racing,
            RaceMode::Racing => RaceMode::RaceOver,
            RaceMode::RaceOver => RaceMode::Display,
        }
    }

    /// The light effect of this mode.
    pub open spec fn effect(self) -> Effect {
        match self {
            RaceMode::Display => Effect::WaveChase,
            RaceMode::RaceReady => Effect::PulsingGreen,
            RaceMode::Racing => Effect::RacingChase,
            RaceMode::RaceOver => Effect::CheckerPulse,
        }
    }
}

/// The light effect of `mode`.
pub fn mode_effect(mode: RaceMode) -> (effect: Effect)
    ensures
        effect == mode.effect(),
{
    match mode {
        RaceMode::Display => Effect::WaveChase,
        RaceMode::RaceReady => Effect::PulsingGreen,
        RaceMode::Racing => Effect::RacingChase,
        RaceMode::RaceOver => Effect::CheckerPulse,
    }
}

/// `a / b` rounded toward zero.
pub open spec fn toward_zero(a: int, b: int) -> int {
    if a >= 0 {
        a / b
    } else {
        -((-a) / b)
    }
}

/// The incline baseline after one more reading, `count` readings having gone into it.
pub open spec fn settled(baseline: int, count: int, x: int) -> int {
    toward_zero(baseline * count + x, count + 1)
}

/// A deviation from the baseline, with noise taken as standstill.
pub open spec fn denoised(deviation: int) -> int {
    if crate::motion::magnitude(deviation) > VELOCITY_NOISE_FLOOR {
        deviation
    } else {
        0
    }
}

/// The better of the best race time so far and a new one; zero stands for none.
pub open spec fn better(best: u64, elapsed: u64) -> u64 {
    if elapsed > 0 && (best == 0 || elapsed < best) {
        elapsed
    } else {
        best
    }
}

/// `n` kept within the range of `i32`.
pub open spec fn saturated(n: int) -> int {
    if n > i32::MAX {
        i32::MAX as int
    } else if n < i32::MIN {
        i32::MIN as int
    } else {
        n
    }
}

/// One more tick, up to the largest count.
pub open spec fn ticked(ticks: u16) -> u16 {
    if ticks < u16::MAX {
        (ticks + 1) as u16
    } else {
        ticks
    }
}

/// Everything the racer knows of itself.
#[derive(Clone, Copy)]
pub struct Racer {
    pub mode: RaceMode,
    pub orientation: Axis,
    pub accel: Accel,
    /// The frame that the display shows.
    pub display: [u8; DISPLAY_BYTES],
    pub race_start_ms: u64,
    pub race_elapsed_ms: u64,
    /// Shortest race time of this session; zero stands for none.
    pub best_race_ms: u64,
    /// X reading while stationary on the incline.
    pub x_incline_baseline: i32,
    /// Summed deviation from the baseline, a proxy for motion onset.
    pub velocity_est: i32,
    /// Ticks spent settling.
    pub ready_ticks: u16,
    /// Ticks since the race started.
    pub race_ticks: u16,
    /// X component of the reading before.
    pub prev_x: i16,
}

impl Racer {
    /// What holds of the racer between any two steps.
    pub open spec fn wf(self) -> bool {
        &&& i16::MIN <= self.x_incline_baseline <= i16::MAX
        &&& self.ready_ticks <= READY_DELAY_TICKS
        &&& self.mode == RaceMode::RaceReady ==> -RACE_START_VELOCITY <= self.velocity_est
            <= RACE_START_VELOCITY
    }

    /// The clock has not gone back since the race started.
    pub open spec fn clock_ok(self, now: u64) -> bool {
        self.mode == RaceMode::Racing ==> self.race_start_ms <= now
    }

    /// The racer after entering `mode` at time `now`.
    pub open spec fn entered(self, mode: RaceMode, now: u64) -> Racer {
        match mode {
            RaceMode::Display => Racer { mode, ..self },
            RaceMode::RaceReady => Racer {
                mode,
                x_incline_baseline: 0,
                velocity_est: 0,
                ready_ticks: 0,
                ..self
            },
            RaceMode::Racing => Racer {
                mode,
                race_start_ms: now,
                race_elapsed_ms: 0,
                race_ticks: 0,
                ..self
            },
            RaceMode::RaceOver => if self.mode == RaceMode::Racing {
                let elapsed = (now - self.race_start_ms) as u64;
                Racer {
                    mode,
                    race_elapsed_ms: elapsed,
                    best_race_ms: better(self.best_race_ms, elapsed),
                    ..self
                }
            } else {
                Racer { mode, ..self }
            },
        }
    }

    /// The racer after one reading while it settles or waits for the start.
    pub open spec fn ready_step(self, x: i16, now: u64) -> Racer {
        if self.ready_ticks < READY_DELAY_TICKS {
            Racer {
                x_incline_baseline: settled(
                    self.x_incline_baseline as int,
                    self.ready_ticks as int,
                    x as int,
                ) as i32,
                ready_ticks: ticked(self.ready_ticks),
                ..self
            }
        } else {
            let velocity = saturated(self.velocity_est + denoised(x - self.x_incline_baseline));
            let moved = Racer { velocity_est: velocity as i32, ..self };
            if crate::motion::magnitude(velocity) > RACE_START_VELOCITY {
                moved.entered(RaceMode::Racing, now)
            } else {
                moved
            }
        }
    }

    /// A reading this different from the one before ends the race.
    pub open spec fn hit_by(self, x: i16) -> bool {
        self.race_ticks > MIN_RACE_TICKS && crate::motion::magnitude(x - self.prev_x)
            > IMPACT_DELTA
    }

    /// The racer after one reading during a race.
    pub open spec fn racing_step(self, x: i16, now: u64) -> Racer {
        let timed = Racer {
            race_ticks: ticked(self.race_ticks),
            race_elapsed_ms: (now - self.race_start_ms) as u64,
            ..self
        };
        if timed.hit_by(x) {
            timed.entered(RaceMode::RaceOver, now)
        } else {
            timed
        }
    }

    /// The racer after the reading of a tick.
    pub open spec fn sampled(self, accel: Accel, now: u64) -> Racer {
        let turned = Racer { orientation: accel.dominant(), ..self };
        let stepped = match self.mode {
            RaceMode::RaceReady => turned.ready_step(accel.x, now),
            RaceMode::Racing => turned.racing_step(accel.x, now),
            _ => turned,
        };
        Racer { prev_x: accel.x, accel, ..stepped }
    }

    /// The racer after a reading between two ticks.
    pub open spec fn quick_sampled(self, x: i16, now: u64) -> Racer {
        let stepped = if self.hit_by(x) {
            self.entered(RaceMode::RaceOver, now)
        } else {
            self
        };
        Racer { prev_x: x, ..stepped }
    }

    /// The mode that a command asks for.
    pub open spec fn mode_of(command: Command) -> Option<RaceMode> {
        match command {
            Command::Display => Some(RaceMode::Display),
            Command::RaceReady => Some(RaceMode::RaceReady),
            Command::Racing => Some(RaceMode::Racing),
            Command::RaceOver => Some(RaceMode::RaceOver),
            Command::Reboot => None,
        }
    }

    /// The light effect shown: solid green once the car has settled, and otherwise that
    /// of the mode.
    pub open spec fn shown_effect(self) -> Effect {
        if self.mode == RaceMode::RaceReady && self.ready_ticks >= READY_DELAY_TICKS {
            Effect::SolidGreen
        } else {
            self.mode.effect()
        }
    }

    /// A racer that was just switched on.
    pub fn new() -> (racer: Self)
        ensures
            racer.wf(),
            racer.mode == RaceMode::Display,
            racer.orientation == Axis::X,
            racer.accel == (Accel { x: 0, y: 0, z: 0 }),
            racer.display@ == Seq::new(DISPLAY_BYTES as nat, |i: int| 0u8),
            racer.race_start_ms == 0,
            racer.race_elapsed_ms == 0,
            racer.best_race_ms == 0,
            racer.x_incline_baseline == 0,
            racer.velocity_est == 0,
            racer.ready_ticks == 0,
            racer.race_ticks == 0,
            racer.prev_x == 0,
    {
        let racer = Racer {
            mode: RaceMode::Display,
            orientation: Axis::X,
            accel: Accel { x: 0, y: 0, z: 0 },
            display: [0u8; DISPLAY_BYTES],
            race_start_ms: 0,
            race_elapsed_ms: 0,
            best_race_ms: 0,
            x_incline_baseline: 0,
            velocity_est: 0,
            ready_ticks: 0,
            race_ticks: 0,
            prev_x: 0,
        };
        assert(racer.display@ =~= Seq::new(DISPLAY_BYTES as nat, |i: int| 0u8));
        racer
    }

    /// Enters `mode` at time `now`.
    pub fn enter_mode(&mut self, mode: RaceMode, now: u64)
        requires
            mode == RaceMode::RaceOver ==> old(self).clock_ok(now),
        ensures
            *final(self) == old(self).entered(mode, now),
            old(self).wf() ==> final(self).wf(),
    {
        match mode {
            RaceMode::RaceReady => {
                self.x_incline_baseline = 0;
                self.velocity_est = 0;
                self.ready_ticks = 0;
            },
            RaceMode::Racing => {
                self.race_start_ms = now;
                self.race_elapsed_ms = 0;
                self.race_ticks = 0;
            },
            RaceMode::RaceOver => {
                // Only meaningful when coming from a race; otherwise the last time stays.
                if self.mode == RaceMode::Racing {
                    let elapsed: u64 = now - self.race_start_ms;
                    self.race_elapsed_ms = elapsed;
                    if elapsed > 0 && (self.best_race_ms == 0 || elapsed < self.best_race_ms) {
                        self.best_race_ms = elapsed;
                    }
                }
            },
            RaceMode::Display => {},
        }
        self.mode = mode;
    }

    /// Enters the next mode at time `now`.
    pub fn cycle_mode(&mut self, now: u64)
        requires
            old(self).clock_ok(now),
        ensures
            *final(self) == old(self).entered(old(self).mode.next(), now),
            old(self).wf() ==> final(self).wf(),
    {
        let next = match self.mode {
            RaceMode::Display => RaceMode::RaceReady,
            RaceMode::RaceReady => RaceMode::Racing,
            RaceMode::Racing => RaceMode::RaceOver,
            RaceMode::RaceOver => RaceMode::Display,
        };
        self.enter_mode(next, now);
    }

    /// Adds `d` to the summed deviation, within the range of `i32`.
    pub fn add_velocity(&mut self, d: i32)
        ensures
            *final(self) == (Racer {
                velocity_est: saturated(old(self).velocity_est + d) as i32,
                ..*old(self)
            }),
    {
        let sum: i64 = self.velocity_est as i64 + d as i64;
        self.velocity_est = if sum > i32::MAX as i64 {
            i32::MAX
        } else if sum < i32::MIN as i64 {
            i32::MIN
        } else {
            sum as i32
        };
    }

    /// Counts a tick spent settling.
    pub fn inc_ready_ticks(&mut self)
        ensures
            *final(self) == (Racer { ready_ticks: ticked(old(self).ready_ticks), ..*old(self) }),
    {
        self.ready_ticks = self.ready_ticks.saturating_add(1);
    }

    /// Counts a tick of the race.
    pub fn inc_race_ticks(&mut self)
        ensures
            *final(self) == (Racer { race_ticks: ticked(old(self).race_ticks), ..*old(self) }),
    {
        self.race_ticks = self.race_ticks.saturating_add(1);
    }

    /// Whether a reading of `x` ends the race.
    fn is_hit_by(&self, x: i16) -> (hit: bool)
        ensures
            hit == self.hit_by(x),
    {
        let delta: i32 = x as i32 - self.prev_x as i32;
        self.race_ticks > MIN_RACE_TICKS && (delta > IMPACT_DELTA || delta < -IMPACT_DELTA)
    }

    /// Takes in a reading while the car settles or waits for the start.
    fn step_ready(&mut self, x: i16, now: u64)
        requires
            old(self).wf(),
            old(self).mode == RaceMode::RaceReady,
        ensures
            *final(self) == old(self).ready_step(x, now),
            final(self).wf(),
    {
        let rt: u16 = self.ready_ticks;
        if rt < READY_DELAY_TICKS {
            // The baseline starts at 0, so the first reading gets full weight.
            proof {
                lemma_settled_in_range(
                    self.x_incline_baseline as int,
                    rt as int,
                    x as int,
                    i16::MIN as int,
                    i16::MAX as int,
                );
            }
            let count: i32 = rt as i32;
            let weighted: i32 = self.x_incline_baseline * count + x as i32;
            self.x_incline_baseline = if weighted >= 0 {
                weighted / (count + 1)
            } else {
                -((-weighted) / (count + 1))
            };
            self.inc_ready_ticks();
        } else {
            // Integrate deviation from the incline baseline to estimate motion.
            let dev: i32 = x as i32 - self.x_incline_baseline;
            let step: i32 = if dev > VELOCITY_NOISE_FLOOR || dev < -VELOCITY_NOISE_FLOOR {
                dev
            } else {
                0
            };
            self.add_velocity(step);
            if self.velocity_est > RACE_START_VELOCITY || self.velocity_est < -RACE_START_VELOCITY {
                self.enter_mode(RaceMode::Racing, now);
            }
        }
    }

    /// Takes in a reading during a race.
    fn step_racing(&mut self, x: i16, now: u64)
        requires
            old(self).wf(),
            old(self).mode == RaceMode::Racing,
            old(self).race_start_ms <= now,
        ensures
            *final(self) == old(self).racing_step(x, now),
            final(self).wf(),
    {
        self.inc_race_ticks();
        self.race_elapsed_ms = now - self.race_start_ms;
        // End-stop impact: a large spike in either direction.
        if self.is_hit_by(x) {
            self.enter_mode(RaceMode::RaceOver, now);
        }
    }

    /// Takes in the reading of a tick at time `now`.
    pub fn sample(&mut self, accel: Accel, now: u64)
        requires
            old(self).wf(),
            old(self).clock_ok(now),
            accel.measurable(),
        ensures
            *final(self) == old(self).sampled(accel, now),
            final(self).wf(),
    {
        self.orientation = accel.dominant_axis();
        match self.mode {
            RaceMode::RaceReady => {
                self.step_ready(accel.x, now);
            },
            RaceMode::Racing => {
                self.step_racing(accel.x, now);
            },
            _ => {},
        }
        self.prev_x = accel.x;
        self.accel = accel;
    }

    /// Takes in a reading between two ticks of a race; returns whether it ended the race.
    pub fn quick_sample(&mut self, x: i16, now: u64) -> (hit: bool)
        requires
            old(self).hit_by(x) ==> old(self).clock_ok(now),
        ensures
            hit == old(self).hit_by(x),
            *final(self) == old(self).quick_sampled(x, now),
            old(self).wf() ==> final(self).wf(),
    {
        let hit = self.is_hit_by(x);
        self.prev_x = x;
        if hit {
            self.enter_mode(RaceMode::RaceOver, now);
        }
        hit
    }

    /// Carries out a browser's command at time `now`; returns whether to reboot.
    pub fn obey(&mut self, command: Command, now: u64) -> (reboot: bool)
        requires
            command == Command::RaceOver ==> old(self).clock_ok(now),
        ensures
            reboot == (command == Command::Reboot),
            *final(self) == match Racer::mode_of(command) {
                Some(mode) => old(self).entered(mode, now),
                None => *old(self),
            },
            old(self).wf() ==> final(self).wf(),
    {
        match command {
            Command::Display => self.enter_mode(RaceMode::Display, now),
            Command::RaceReady => self.enter_mode(RaceMode::RaceReady, now),
            Command::Racing => self.enter_mode(RaceMode::Racing, now),
            Command::RaceOver => self.enter_mode(RaceMode::RaceOver, now),
            Command::Reboot => {
                return true;
            },
        }
        false
    }

    /// The light effect shown.
    pub fn led_effect(&self) -> (effect: Effect)
        ensures
            effect == self.shown_effect(),
    {
        if self.mode == RaceMode::RaceReady && self.ready_ticks >= READY_DELAY_TICKS {
            Effect::SolidGreen
        } else {
            mode_effect(self.mode)
        }
    }
}

/// Rounding toward zero keeps a quotient between whole bounds.
proof fn lemma_toward_zero_in_range(a: int, b: int, low: int, high: int)
    requires
        b > 0,
        low * b <= a <= high * b,
    ensures
        low <= toward_zero(a, b) <= high,
{
    if a >= 0 {
        assert(high >= 0) by (nonlinear_arith)
            requires
                b > 0,
                0 <= high * b,
        ;
        vstd::arithmetic::div_mod::lemma_div_is_ordered(a, high * b, b);
        vstd::arithmetic::div_mod::lemma_div_by_multiple(high, b);
        if low > 0 {
            vstd::arithmetic::div_mod::lemma_div_is_ordered(low * b, a, b);
            vstd::arithmetic::div_mod::lemma_div_by_multiple(low, b);
        } else {
            vstd::arithmetic::div_mod::lemma_div_pos_is_pos(a, b);
        }
    } else {
        assert(-low >= 0) by (nonlinear_arith)
            requires
                b > 0,
                low * b <= 0,
        ;
        assert((-low) * b == -(low * b) && (-high) * b == -(high * b)) by (nonlinear_arith);
        vstd::arithmetic::div_mod::lemma_div_is_ordered(-a, (-low) * b, b);
        vstd::arithmetic::div_mod::lemma_div_by_multiple(-low, b);
        if high < 0 {
            vstd::arithmetic::div_mod::lemma_div_is_ordered((-high) * b, -a, b);
            vstd::arithmetic::div_mod::lemma_div_by_multiple(-high, b);
        } else {
            vstd::arithmetic::div_mod::lemma_div_pos_is_pos(-a, b);
        }
    }
}

/// The settled baseline stays within any bounds that hold of the baseline before and of
/// the reading.
proof fn lemma_settled_in_range(baseline: int, count: int, x: int, low: int, high: int)
    requires
        0 <= count,
        low <= baseline <= high,
        low <= x <= high,
    ensures
        low <= settled(baseline, count, x) <= high,
        low * (count + 1) <= baseline * count + x <= high * (count + 1),
        low * count <= baseline * count <= high * count,
{
    assert(low * count <= baseline * count <= high * count) by (nonlinear_arith)
        requires
            0 <= count,
            low <= baseline <= high,
    ;
    assert(low * (count + 1) == low * count + low) by (nonlinear_arith);
    assert(high * (count + 1) == high * count + high) by (nonlinear_arith);
    lemma_toward_zero_in_range(baseline * count + x, count + 1, low, high);
}

/// Pressing the button four times comes back to the same mode.
pub proof fn law_modes_cycle(mode: RaceMode)
    ensures
        mode.next().next().next().next() == mode,
        mode.next() != mode,
        mode.next().next() != mode,
{
}

/// Entering the final mode from anywhere but a race keeps the last race time and the
/// best one.
pub proof fn law_manual_finish_keeps_times(racer: Racer, now: u64)
    requires
        racer.mode != RaceMode::Racing,
    ensures
        racer.entered(RaceMode::RaceOver, now) == (Racer { mode: RaceMode::RaceOver, ..racer }),
{
}

/// The best race time never gets worse, whatever the racer goes through, and it is no
/// longer than any race that has just ended.
pub proof fn law_best_time_never_worsens(racer: Racer, mode: RaceMode, accel: Accel, now: u64)
    requires
        racer.clock_ok(now),
    ensures
        racer.best_race_ms > 0 ==> {
            &&& 0 < racer.entered(mode, now).best_race_ms <= racer.best_race_ms
            &&& 0 < racer.sampled(accel, now).best_race_ms <= racer.best_race_ms
            &&& 0 < racer.quick_sampled(accel.x, now).best_race_ms <= racer.best_race_ms
        },
        racer.mode == RaceMode::Racing && racer.race_start_ms < now ==> 0 < racer.entered(
            RaceMode::RaceOver,
            now,
        ).best_race_ms <= racer.entered(RaceMode::RaceOver, now).race_elapsed_ms,
{
}

/// A reading ends a race only after the minimum number of ticks and only by a change
/// beyond the impact threshold; then the time stands as the race time.
pub proof fn law_races_end_by_impact(racer: Racer, accel: Accel, now: u64)
    requires
        racer.mode == RaceMode::Racing,
        racer.clock_ok(now),
    ensures
        ({
            let after = racer.sampled(accel, now);
            &&& after.mode == RaceMode::Racing || after.mode == RaceMode::RaceOver
            &&& after.mode == RaceMode::RaceOver <==> {
                &&& racer.race_ticks >= MIN_RACE_TICKS
                &&& crate::motion::magnitude(accel.x - racer.prev_x) > IMPACT_DELTA
            }
            &&& after.race_elapsed_ms == now - racer.race_start_ms
        }),
{
}

/// Noise never starts a race: a settled car whose readings stay within the noise floor
/// of the baseline keeps waiting, its summed deviation unchanged.
pub proof fn law_noise_never_starts_a_race(racer: Racer, accel: Accel, now: u64)
    requires
        racer.wf(),
        racer.mode == RaceMode::RaceReady,
        racer.ready_ticks == READY_DELAY_TICKS,
        crate::motion::magnitude(accel.x - racer.x_incline_baseline) <= VELOCITY_NOISE_FLOOR,
    ensures
        racer.sampled(accel, now).mode == RaceMode::RaceReady,
        racer.sampled(accel, now).velocity_est == racer.velocity_est,
{
}

/// The racer after a row of readings at their times.
pub open spec fn after_readings(racer: Racer, readings: Seq<Accel>, times: Seq<u64>) -> Racer
    decreases readings.len(),
{
    if readings.len() == 0 {
        racer
    } else {
        after_readings(racer, readings.drop_last(), times.drop_last()).sampled(
            readings.last(),
            times.last(),
        )
    }
}

/// The running average of the X components of a row of readings, rounded toward zero at
/// every step.
pub open spec fn average_x(readings: Seq<Accel>) -> int
    decreases readings.len(),
{
    if readings.len() == 0 {
        0
    } else {
        settled(
            average_x(readings.drop_last()),
            readings.len() - 1,
            readings.last().x as int,
        )
    }
}

/// The average of some readings lies between the smallest and the largest of them.
pub proof fn law_average_lies_between(readings: Seq<Accel>, low: int, high: int)
    requires
        readings.len() > 0,
        forall|i: int| 0 <= i < readings.len() ==> low <= (#[trigger] readings[i]).x <= high,
    ensures
        low <= average_x(readings) <= high,
    decreases readings.len(),
{
    let rest = readings.drop_last();
    let last: int = readings.last().x as int;
    assert(low <= last <= high);
    if rest.len() == 0 {
        assert(average_x(rest) == 0);
        assert(average_x(readings) == toward_zero(last, 1));
    } else {
        assert forall|i: int| 0 <= i < rest.len() implies low <= (#[trigger] rest[i]).x <= high by {
            assert(rest[i] == readings[i]);
        }
        law_average_lies_between(rest, low, high);
        lemma_settled_in_range(average_x(rest), rest.len() as int, last, low, high);
    }
}

/// While the car settles nothing starts a race: through the first readings after the
/// racer is made ready it stays ready, and the baseline is the average of just these.
pub proof fn law_settling_averages_and_waits(
    racer: Racer,
    start: u64,
    readings: Seq<Accel>,
    times: Seq<u64>,
)
    requires
        racer.wf(),
        readings.len() <= READY_DELAY_TICKS,
        times.len() == readings.len(),
        forall|i: int| 0 <= i < readings.len() ==> (#[trigger] readings[i]).measurable(),
    ensures
        ({
            let after = after_readings(racer.entered(RaceMode::RaceReady, start), readings, times);
            &&& after.wf()
            &&& after.mode == RaceMode::RaceReady
            &&& after.ready_ticks == readings.len()
            &&& after.velocity_est == 0
            &&& after.x_incline_baseline == average_x(readings)
        }),
    decreases readings.len(),
{
    if readings.len() > 0 {
        let rest = readings.drop_last();
        assert forall|i: int| 0 <= i < rest.len() implies (#[trigger] rest[i]).measurable() by {
            assert(rest[i] == readings[i]);
        }
        law_settling_averages_and_waits(racer, start, rest, times.drop_last());
        assert forall|i: int| 0 <= i < readings.len() implies i16::MIN <= (#[trigger] readings[i]).x
            <= i16::MAX by {}
        law_average_lies_between(readings, i16::MIN as int, i16::MAX as int);
        assert(readings.last().measurable());
    }
}

/// Start detection: once the car has settled, a reading that deviates from the baseline
/// by more than 200, forward or backward, adds its deviation to the sum. The race starts
/// at that very moment exactly when the sum passes 4000 in either direction; otherwise
/// the racer keeps waiting with the new sum.
pub proof fn law_motion_starts_a_race(racer: Racer, accel: Accel, now: u64)
    requires
        racer.wf(),
        racer.mode == RaceMode::RaceReady,
        racer.ready_ticks >= 38,
        accel.x - racer.x_incline_baseline > 200 || accel.x - racer.x_incline_baseline < -200,
    ensures
        ({
            let sum = racer.velocity_est + accel.x - racer.x_incline_baseline;
            let after = racer.sampled(accel, now);
            &&& after.velocity_est == sum
            &&& (sum > 4000 || sum < -4000) <==> after.mode == RaceMode::Racing
            &&& -4000 <= sum <= 4000 <==> after.mode == RaceMode::RaceReady
            &&& after.mode == RaceMode::Racing ==> after.race_start_ms == now
                && after.race_elapsed_ms == 0 && after.race_ticks == 0
            &&& after.mode == RaceMode::RaceReady ==> after.race_start_ms == racer.race_start_ms
                && after.race_elapsed_ms == racer.race_elapsed_ms && after.race_ticks
                == racer.race_ticks
            &&& after.x_incline_baseline == racer.x_incline_baseline
            &&& after.ready_ticks == racer.ready_ticks
            &&& after.best_race_ms == racer.best_race_ms
        }),
{
}

/// A settled car at rest: a reading within 200 of the baseline changes nothing but what
/// was read last.
pub proof fn law_rest_changes_nothing(racer: Racer, accel: Accel, now: u64)
    requires
        racer.wf(),
        racer.mode == RaceMode::RaceReady,
        racer.ready_ticks >= 38,
        -200 <= accel.x - racer.x_incline_baseline <= 200,
    ensures
        racer.sampled(accel, now) == (Racer {
            orientation: accel.dominant(),
            accel,
            prev_x: accel.x,
            ..racer
        }),
{
}

/// Settling: each of the first 38 readings goes into the baseline with equal weight. The
/// new baseline times the number of readings is the weighted sum of the old baseline and
/// the reading, but for a remainder smaller than that number which rounding toward zero
/// leaves; nothing else of the race changes.
#[verifier::rlimit(50)]
pub proof fn law_readings_weigh_equally(racer: Racer, accel: Accel, now: u64)
    requires
        racer.wf(),
        racer.mode == RaceMode::RaceReady,
        racer.ready_ticks < 38,
    ensures
        ({
            let count = racer.ready_ticks + 1;
            let sum = racer.x_incline_baseline * racer.ready_ticks + accel.x;
            let after = racer.sampled(accel, now);
            &&& sum >= 0 ==> 0 <= sum - after.x_incline_baseline * count < count
            &&& sum <= 0 ==> -count < sum - after.x_incline_baseline * count <= 0
            &&& after.ready_ticks == count
            &&& after == (Racer {
                orientation: accel.dominant(),
                accel,
                prev_x: accel.x,
                x_incline_baseline: after.x_incline_baseline,
                ready_ticks: after.ready_ticks,
                ..racer
            })
        }),
{
    let count: int = racer.ready_ticks + 1;
    let sum: int = racer.x_incline_baseline * racer.ready_ticks + accel.x;
    lemma_settled_in_range(
        racer.x_incline_baseline as int,
        racer.ready_ticks as int,
        accel.x as int,
        i16::MIN as int,
        i16::MAX as int,
    );
    let after = racer.sampled(accel, now);
    let next: int = after.x_incline_baseline as int;
    assert(next == toward_zero(sum, count));
    if sum >= 0 {
        vstd::arithmetic::div_mod::lemma_fundamental_div_mod(sum, count);
        vstd::arithmetic::div_mod::lemma_mod_bound(sum, count);
        assert(next * count == count * (sum / count)) by (nonlinear_arith)
            requires
                next == sum / count,
        ;
    } else {
        vstd::arithmetic::div_mod::lemma_fundamental_div_mod(-sum, count);
        vstd::arithmetic::div_mod::lemma_mod_bound(-sum, count);
        assert(next * count == -(count * ((-sum) / count))) by (nonlinear_arith)
            requires
                next == -((-sum) / count),
        ;
    }
}

/// Finish detection: a reading of a tick during a race counts the tick and takes the
/// time. The race is over exactly when six ticks went before and the reading differs
/// from the one before by more than 5000, in either direction; only then can the best
/// time change.
pub proof fn law_impact_finishes_a_race(racer: Racer, accel: Accel, now: u64)
    requires
        racer.mode == RaceMode::Racing,
        racer.race_start_ms <= now,
    ensures
        ({
            let elapsed = now - racer.race_start_ms;
            let hit = racer.race_ticks >= 6 && (accel.x - racer.prev_x > 5000 || accel.x
                - racer.prev_x < -5000);
            let after = racer.sampled(accel, now);
            &&& after.race_elapsed_ms == elapsed
            &&& racer.race_ticks < u16::MAX ==> after.race_ticks == racer.race_ticks + 1
            &&& racer.race_ticks == u16::MAX ==> after.race_ticks == racer.race_ticks
            &&& hit ==> after.mode == RaceMode::RaceOver
            &&& !hit ==> after.mode == RaceMode::Racing
            &&& after.best_race_ms == if hit && elapsed > 0 && (racer.best_race_ms == 0 || elapsed
                < racer.best_race_ms) {
                elapsed
            } else {
                racer.best_race_ms as int
            }
            &&& after == (Racer {
                mode: after.mode,
                orientation: accel.dominant(),
                accel,
                prev_x: accel.x,
                race_elapsed_ms: after.race_elapsed_ms,
                race_ticks: after.race_ticks,
                best_race_ms: after.best_race_ms,
                ..racer
            })
        }),
{
}

/// A reading between two ticks ends the race exactly when more than six ticks went
/// before and it differs from the one before by more than 5000, in either direction; it
/// takes the time only then, and counts no tick.
pub proof fn law_quick_impact_finishes_a_race(racer: Racer, x: i16, now: u64)
    requires
        racer.mode == RaceMode::Racing,
        racer.race_ticks > 6 && (x - racer.prev_x > 5000 || x - racer.prev_x < -5000)
            ==> racer.race_start_ms <= now,
    ensures
        ({
            let elapsed = now - racer.race_start_ms;
            let hit = racer.race_ticks > 6 && (x - racer.prev_x > 5000 || x - racer.prev_x < -5000);
            let after = racer.quick_sampled(x, now);
            &&& racer.hit_by(x) == hit
            &&& hit ==> after.mode == RaceMode::RaceOver && after.race_elapsed_ms == elapsed
            &&& !hit ==> after == (Racer { prev_x: x, ..racer })
            &&& after.best_race_ms == if hit && elapsed > 0 && (racer.best_race_ms == 0 || elapsed
                < racer.best_race_ms) {
                elapsed
            } else {
                racer.best_race_ms as int
            }
            &&& after == (Racer {
                mode: after.mode,
                prev_x: x,
                race_elapsed_ms: after.race_elapsed_ms,
                best_race_ms: after.best_race_ms,
                ..racer
            })
        }),
{
}

/// A reading between two ticks that comes when the race was ended by other means still
/// follows the same rule, and then keeps the times.
pub proof fn law_late_quick_readings_keep_times(racer: Racer, x: i16, now: u64)
    requires
        racer.mode != RaceMode::Racing,
    ensures
        racer.quick_sampled(x, now) == (Racer {
            mode: if racer.race_ticks > 6 && (x - racer.prev_x > 5000 || x - racer.prev_x < -5000) {
                RaceMode::RaceOver
            } else {
                racer.mode
            },
            prev_x: x,
            ..racer
        }),
{
}

/// Outside of getting ready and racing, a reading is only remembered.
pub proof fn law_idle_readings_are_only_remembered(racer: Racer, accel: Accel, now: u64)
    requires
        racer.mode == RaceMode::Display || racer.mode == RaceMode::RaceOver,
    ensures
        racer.sampled(accel, now) == (Racer {
            orientation: accel.dominant(),
            accel,
            prev_x: accel.x,
            ..racer
        }),
{
}

/// What entering a mode does, and nothing else: getting ready forgets the baseline, the
/// sum and the count of settling; a race starts the clock at zero; finishing a race
/// takes its time, and makes it the best if it is not zero and there was none or a longer
/// one.
pub proof fn law_entering_a_mode(racer: Racer, now: u64)
    ensures
        racer.entered(RaceMode::Display, now) == (Racer { mode: RaceMode::Display, ..racer }),
        racer.entered(RaceMode::RaceReady, now) == (Racer {
            mode: RaceMode::RaceReady,
            x_incline_baseline: 0,
            velocity_est: 0,
            ready_ticks: 0,
            ..racer
        }),
        racer.entered(RaceMode::Racing, now) == (Racer {
            mode: RaceMode::Racing,
            race_start_ms: now,
            race_elapsed_ms: 0,
            race_ticks: 0,
            ..racer
        }),
        (racer.mode == RaceMode::Racing ==> racer.race_start_ms <= now) ==> ({
            let over = racer.entered(RaceMode::RaceOver, now);
            let elapsed = now - racer.race_start_ms;
            &&& over == (Racer {
                mode: RaceMode::RaceOver,
                race_elapsed_ms: over.race_elapsed_ms,
                best_race_ms: over.best_race_ms,
                ..racer
            })
            &&& racer.mode != RaceMode::Racing ==> over.race_elapsed_ms == racer.race_elapsed_ms
                && over.best_race_ms == racer.best_race_ms
            &&& racer.mode == RaceMode::Racing ==> over.race_elapsed_ms == elapsed
            &&& racer.mode == RaceMode::Racing ==> {
                ||| over.best_race_ms == elapsed && elapsed > 0 && (racer.best_race_ms == 0
                    || elapsed < racer.best_race_ms)
                ||| over.best_race_ms == racer.best_race_ms && (elapsed == 0 || 0
                    < racer.best_race_ms <= elapsed)
            }
        }),
{
}

/// The lights follow the mode alone, whatever else the racer remembers; only a racer
/// that gets ready also goes by how long it has been settling.
pub proof fn law_lights_follow_the_mode(racer: Racer)
    ensures
        racer.mode == RaceMode::Display ==> racer.shown_effect() == Effect::WaveChase,
        racer.mode == RaceMode::Racing ==> racer.shown_effect() == Effect::RacingChase,
        racer.mode == RaceMode::RaceOver ==> racer.shown_effect() == Effect::CheckerPulse,
        racer.mode == RaceMode::RaceReady && racer.ready_ticks < 38 ==> racer.shown_effect()
            == Effect::PulsingGreen,
        racer.mode == RaceMode::RaceReady && racer.ready_ticks >= 38 ==> racer.shown_effect()
            == Effect::SolidGreen,
{
}

/// The button leads from showing to getting ready, on to racing, to the end of the race,
/// and back; a command leads straight to the mode it names.
pub proof fn law_modes_are_reached_in_order(command: Command)
    ensures
        RaceMode::Display.next() == RaceMode::RaceReady,
        RaceMode::RaceReady.next() == RaceMode::Racing,
        RaceMode::Racing.next() == RaceMode::RaceOver,
        RaceMode::RaceOver.next() == RaceMode::Display,
        Racer::mode_of(command) == match command {
            Command::Display => Some(RaceMode::Display),
            Command::RaceReady => Some(RaceMode::RaceReady),
            Command::Racing => Some(RaceMode::Racing),
            Command::RaceOver => Some(RaceMode::RaceOver),
            Command::Reboot => None,
        },
{
}

/// A whole race, from the button to the finish: however the race was entered, the time
/// at which an impact ends it, counted from the start, is the race time.
pub proof fn law_race_time_is_measured_from_the_start(
    racer: Racer,
    start: u64,
    accel: Accel,
    tick: u64,
    end: u64,
)
    requires
        start <= tick <= end,
    ensures
        ({
            let racing = racer.entered(RaceMode::Racing, start);
            let later = racing.sampled(accel, tick);
            &&& later.mode == RaceMode::Racing
            &&& later.race_elapsed_ms == tick - start
            &&& later.entered(RaceMode::RaceOver, end).race_elapsed_ms == end - start
        }),
{
}

} // verus!
