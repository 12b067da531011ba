//! The push button: a short press cycles the mode, a long hold reboots.
use vstd::prelude::*;

verus! {

/// Ticks that the button is held to reboot, about five seconds
pub const REBOOT_HOLD_TICKS: u8 = 63;

/// Ticks counted down after a press before the next one counts
pub const COOLDOWN_TICKS: u8 = 5;

/// What a tick of the button asks for.
#[derive(Clone, Copy, Debug, PartialEq, Eq, Structural)]
pub enum ButtonEvent {
    Nothing,
    CycleMode,
    Reboot,
}

/// What is remembered of the button from tick to tick.
#[derive(Clone, Copy, Debug, PartialEq, Eq, Structural)]
pub struct Button {
    pub last_state: bool,
    pub cooldown: u8,
    pub hold_ticks: u8,
}

impl Button {
    /// What holds between any two ticks until a reboot is asked for.
    pub open spec fn wf(self) -> bool {
        &&& self.last_state == (self.hold_ticks > 0)
        &&& self.hold_ticks < REBOOT_HOLD_TICKS
        &&& self.cooldown < COOLDOWN_TICKS
    }

    /// What a tick asks for when the button reads `pressed`.
    pub open spec fn event(self, pressed: bool) -> ButtonEvent {
        if pressed {
            if self.hold_ticks + 1 >= REBOOT_HOLD_TICKS {
                ButtonEvent::Reboot
            } else {
                ButtonEvent::Nothing
            }
        } else if self.last_state && self.hold_ticks > 0 && self.cooldown == 0 {
            ButtonEvent::CycleMode
        } else {
            ButtonEvent::Nothing
        }
    }

    /// The button after a tick on which it read `pressed`.
    pub open spec fn after(self, pressed: bool) -> Button {
        let cooldown = if self.event(pressed) == ButtonEvent::CycleMode {
            COOLDOWN_TICKS
        } else {
            self.cooldown
        };
        Button {
            last_state: pressed,
            cooldown: if cooldown > 0 {
                (cooldown - 1) as u8
            } else {
                0
            },
            hold_ticks: if !pressed {
                0
            } else if self.hold_ticks < u8::MAX {
                (self.hold_ticks + 1) as u8
            } else {
                u8::MAX
            },
        }
    }

    /// A button that has not been pressed.
    pub fn new() -> (button: Self)
        ensures
            button == (Button { last_state: false, cooldown: 0, hold_ticks: 0 }),
            button.wf(),
    {
        Button { last_state: false, cooldown: 0, hold_ticks: 0 }
    }

    /// Takes in the reading of a tick.
    pub fn tick(&mut self, pressed: bool) -> (event: ButtonEvent)
        ensures
            event == old(self).event(pressed),
            *final(self) == old(self).after(pressed),
            old(self).wf() && event != ButtonEvent::Reboot ==> final(self).wf(),
    {
        let mut event = ButtonEvent::Nothing;
        if pressed {
            self.hold_ticks = self.hold_ticks.saturating_add(1);
            if self.hold_ticks >= REBOOT_HOLD_TICKS {
                event = ButtonEvent::Reboot;
            }
        } else {
            // Fire on release so a long hold never also cycles the mode.
            if self.last_state && self.hold_ticks > 0 && self.cooldown == 0 {
                event = ButtonEvent::CycleMode;
                self.cooldown = COOLDOWN_TICKS;
            }
            self.hold_ticks = 0;
        }
        self.last_state = pressed;
        if self.cooldown > 0 {
            self.cooldown = self.cooldown - 1;
        }
        event
    }
}

/// The button after a row of readings.
pub open spec fn after_readings(button: Button, readings: Seq<bool>) -> Button
    decreases readings.len(),
{
    if readings.len() == 0 {
        button
    } else {
        after_readings(button, readings.drop_last()).after(readings.last())
    }
}

/// The readings of a button held for `n` ticks.
pub open spec fn held(n: nat) -> Seq<bool> {
    Seq::new(n, |i: int| true)
}

/// A long hold never cycles the mode: from a released button, a hold asks for nothing
/// until its last tick and then for a reboot, while a release before that ends the hold.
pub proof fn law_long_hold_only_reboots(button: Button, n: nat)
    requires
        button.wf(),
        !button.last_state,
        n < REBOOT_HOLD_TICKS,
    ensures
        after_readings(button, held(n)).hold_ticks == n,
        after_readings(button, held(n)).wf(),
        after_readings(button, held(n)).event(true) == if n + 1 == REBOOT_HOLD_TICKS {
            ButtonEvent::Reboot
        } else {
            ButtonEvent::Nothing
        },
        after_readings(button, held(n)).event(false) != ButtonEvent::Reboot,
        after_readings(button, held(n)).after(false).hold_ticks == 0,
    decreases n,
{
    if n > 0 {
        assert(held(n).drop_last() =~= held((n - 1) as nat));
        law_long_hold_only_reboots(button, (n - 1) as nat);
    }
}

/// A short press cycles the mode exactly when the button has cooled down, which it has
/// five ticks after the press before at the latest.
pub proof fn law_short_press_cycles(button: Button, n: nat)
    requires
        button.wf(),
        !button.last_state,
        0 < n < REBOOT_HOLD_TICKS,
    ensures
        after_readings(button, held(n)).event(false) == ButtonEvent::CycleMode <==> n
            >= button.cooldown,
    decreases n,
{
    law_long_hold_only_reboots(button, n);
    lemma_cooldown_counts_down(button, n);
}

/// Holding the button counts the cooldown down.
proof fn lemma_cooldown_counts_down(button: Button, n: nat)
    requires
        button.wf(),
        !button.last_state,
        n < REBOOT_HOLD_TICKS,
    ensures
        after_readings(button, held(n)).cooldown == if n >= button.cooldown {
            0
        } else {
            button.cooldown - n
        },
    decreases n,
{
    if n > 0 {
        assert(held(n).drop_last() =~= held((n - 1) as nat));
        lemma_cooldown_counts_down(button, (n - 1) as nat);
    }
}

/// Two presses never cycle the mode less than five ticks apart, whatever the readings
/// between them.
pub proof fn law_presses_are_apart(button: Button, between: Seq<bool>, pressed: bool)
    requires
        button.event(false) == ButtonEvent::CycleMode,
        between.len() + 1 < COOLDOWN_TICKS,
    ensures
        after_readings(button.after(false), between).event(pressed) != ButtonEvent::CycleMode,
        after_readings(button.after(false), between).cooldown == COOLDOWN_TICKS - 1 - between.len(),
    decreases between.len(),
{
    if between.len() > 0 {
        law_presses_are_apart(button, between.drop_last(), between.last());
    }
}

/// A tick of the button, told plainly: a reboot is asked for from the 63rd tick of a hold
/// in a row on, a change of mode on the first tick of a release, unless one was made in
/// the five ticks up to this one.
pub proof fn law_button_ticks(button: Button, pressed: bool)
    ensures
        button.event(pressed) == ButtonEvent::Reboot <==> pressed && button.hold_ticks >= 62,
        button.event(pressed) == ButtonEvent::CycleMode <==> !pressed && button.last_state
            && button.hold_ticks > 0 && button.cooldown == 0,
        button.after(pressed).last_state == pressed,
        button.after(pressed).hold_ticks == if !pressed {
            0
        } else if button.hold_ticks < 255 {
            button.hold_ticks + 1
        } else {
            255
        },
        button.after(pressed).cooldown == if button.event(pressed) == ButtonEvent::CycleMode {
            4
        } else if button.cooldown > 0 {
            button.cooldown - 1
        } else {
            0
        },
{
}

} // verus!
