//! The tick of the main loop: reading the sensor, drawing, reading the button, resting.
use vstd::prelude::*;

use crate::button::{Button, ButtonEvent};
use crate::display::DisplayBuffer;
use crate::frame::draw_screen;
use crate::motion::Accel;
use crate::race::{RaceMode, Racer};

verus! {

/// Milliseconds between two ticks
pub const TICK_PAUSE_MS: u64 = 80;

/// Milliseconds between two readings during a race
pub const QUICK_PAUSE_MS: u64 = 20;

/// Readings between two ticks of a race
pub const QUICK_READS: u8 = 3;

/// How the time to the next tick is spent: some readings, with a pause before each, and
/// a last pause.
#[derive(Clone, Copy, Debug, PartialEq, Eq, Structural)]
pub struct Rest {
    pub reads: u8,
    pub pause_ms: u64,
}

impl Rest {
    /// The time that the rest takes.
    pub open spec fn total_ms(self) -> int {
        (self.reads + 1) * self.pause_ms
    }

    /// What is left of the rest after one of its readings: no more readings once one of
    /// them has ended the race.
    pub fn after_read(self, hit: bool) -> (rest: Rest)
        requires
            self.reads > 0,
        ensures
            rest == (Rest {
                reads: if hit {
                    0
                } else {
                    (self.reads - 1) as u8
                },
                ..self
            }),
    {
        Rest {
            reads: if hit {
                0
            } else {
                self.reads - 1
            },
            pause_ms: self.pause_ms,
        }
    }
}

impl Racer {
    /// The racer after carrying out what the button asks for.
    pub open spec fn pressed(self, event: ButtonEvent, now: u64) -> Racer {
        if event == ButtonEvent::CycleMode {
            self.entered(self.mode.next(), now)
        } else {
            self
        }
    }

    /// How the time to the next tick is spent in this mode.
    pub open spec fn resting(self) -> Rest {
        if self.mode == RaceMode::Racing {
            Rest { reads: QUICK_READS, pause_ms: QUICK_PAUSE_MS }
        } else {
            Rest { reads: 0, pause_ms: TICK_PAUSE_MS }
        }
    }

    /// Takes in the reading of a tick at time `now`, draws the display, and remembers
    /// what it shows.
    pub fn tick(&mut self, accel: Accel, now: u64, frame: &mut DisplayBuffer)
        requires
            old(self).wf(),
            old(self).clock_ok(now),
            accel.measurable(),
            old(self).sampled(accel, now).time_fits(),
        ensures
            *final(self) == (Racer {
                display: final(frame).buffer,
                ..old(self).sampled(accel, now)
            }),
            final(self).wf(),
            forall|px: int, py: int|
                crate::display::on_display(px, py) ==> #[trigger] final(frame).lit(px, py)
                    == old(self).sampled(accel, now).shows(px, py),
    {
        self.sample(accel, now);
        draw_screen(self, frame);
        self.display = frame.buffer;
    }

    /// Takes in the button's reading at time `now` and cycles the mode where that is
    /// asked for; returns whether to reboot.
    pub fn read_button(&mut self, button: &mut Button, pressed: bool, now: u64) -> (reboot: bool)
        requires
            old(self).clock_ok(now),
        ensures
            reboot == (old(button).event(pressed) == ButtonEvent::Reboot),
            *final(button) == old(button).after(pressed),
            *final(self) == old(self).pressed(old(button).event(pressed), now),
            old(self).wf() ==> final(self).wf(),
    {
        match button.tick(pressed) {
            ButtonEvent::Nothing => false,
            ButtonEvent::CycleMode => {
                self.cycle_mode(now);
                false
            },
            ButtonEvent::Reboot => true,
        }
    }

    /// How to spend the time to the next tick.
    pub fn rest(&self) -> (rest: Rest)
        ensures
            rest == self.resting(),
    {
        if self.mode == RaceMode::Racing {
            // Brief impacts at the end stop need a shorter sampling period.
            Rest { reads: QUICK_READS, pause_ms: QUICK_PAUSE_MS }
        } else {
            Rest { reads: 0, pause_ms: TICK_PAUSE_MS }
        }
    }
}

/// In every mode a tick rests equally long, and a race is sampled four times as often.
pub proof fn law_ticks_rest_equally_long(racer: Racer)
    ensures
        racer.resting().total_ms() == TICK_PAUSE_MS,
        racer.mode == RaceMode::Racing ==> 4 * racer.resting().pause_ms == TICK_PAUSE_MS,
{
}

/// From a released button, a press of any length that ends before the reboot cycles the
/// mode at most once, on release.
pub proof fn law_a_press_cycles_once(racer: Racer, button: Button, n: nat, now: u64)
    requires
        button.wf(),
        !button.last_state,
        n < crate::button::REBOOT_HOLD_TICKS - 1,
    ensures
        ({
            let held = crate::button::after_readings(button, crate::button::held(n));
            &&& racer.pressed(held.event(true), now) == racer
            &&& racer.pressed(held.event(false), now).mode == racer.mode || racer.pressed(
                held.event(false),
                now,
            ).mode == racer.mode.next()
            &&& racer.pressed(held.after(false).event(false), now) == racer
        }),
{
    crate::button::law_long_hold_only_reboots(button, n);
}

/// The pace of the main loop: during a race three readings twenty milliseconds apart
/// come between ticks, and otherwise there is one pause of eighty.
pub proof fn law_races_are_sampled_quickly(racer: Racer)
    ensures
        racer.mode == RaceMode::Racing ==> racer.resting() == (Rest { reads: 3, pause_ms: 20 }),
        racer.mode != RaceMode::Racing ==> racer.resting() == (Rest { reads: 0, pause_ms: 80 }),
{
}

/// What the button does to the racer: it enters the mode after its own, or nothing.
pub proof fn law_the_button_moves_on_by_one_mode(racer: Racer, event: ButtonEvent, now: u64)
    requires
        racer.clock_ok(now),
    ensures
        ({
            let after = racer.pressed(event, now);
            &&& event != ButtonEvent::CycleMode ==> after == racer
            &&& event == ButtonEvent::CycleMode ==> after == racer.entered(after.mode, now)
            &&& event == ButtonEvent::CycleMode ==> {
                ||| racer.mode == RaceMode::Display && after.mode == RaceMode::RaceReady
                ||| racer.mode == RaceMode::RaceReady && after.mode == RaceMode::Racing
                ||| racer.mode == RaceMode::Racing && after.mode == RaceMode::RaceOver
                ||| racer.mode == RaceMode::RaceOver && after.mode == RaceMode::Display
            }
        }),
{
}

} // verus!
