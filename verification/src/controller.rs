use vstd::prelude::*;
use std::time::Duration;
use std::time::Instant;
use crate::display::Display;
use crate::display::draw_byte_screen;
use crate::display::turns_off;
use crate::display::blank_screen;
use crate::display::SCREEN_SIZE;
use crate::display::is_binary;
use crate::keyboard::Keyboard;
use crate::ram::Ram;
use crate::ram::MEMORY_SIZE;
use crate::ram::initial_memory;

verus! {

#[verifier::external_type_specification]
#[verifier::external_body]
pub struct ExInstant(std::time::Instant);

/// `std::time::Instant::now`: a reading of the monotonic clock. What it
/// reads depends on the time of the call, so nothing is claimed of it.
#[verifier::external_body]
fn instant_now() -> Instant {
    Instant::now()
}

/// `<Instant as Sub>::sub`: the time that passed from `earlier` to
/// `later`. It depends on the clock readings, so nothing is claimed of it.
#[verifier::external_body]
fn time_between(later: &Instant, earlier: &Instant) -> Duration {
    *later - *earlier
}

/// `Duration::as_secs`: the whole seconds of a duration; nothing is
/// claimed of the value.
pub assume_specification[ Duration::as_secs ](d: &Duration) -> u64;

/// `Duration::subsec_nanos`: the fractional part of a duration in
/// nanoseconds, which std documents to be less than one billion.
pub assume_specification[ Duration::subsec_nanos ](d: &Duration) -> (nanos: u32)
    ensures
        nanos < 1_000_000_000,
;

/// Length of one tick of the delay timer, in milliseconds.
pub const TICK_MILLIS: u64 = 16;

/// Whole milliseconds in a duration of `secs` seconds and `nanos`
/// nanoseconds.
pub open spec fn millis_of(secs: u64, nanos: u32) -> int {
    (1_000_000_000 * secs + nanos) / 1_000_000
}

/// What the delay timer shows `ms` milliseconds after it was set to
/// `delay`: it counts down one per tick and stops at zero.
pub open spec fn delay_remaining(delay: u8, ms: int) -> u8 {
    let ticks = ms / (TICK_MILLIS as int);
    if ticks >= delay {
        0u8
    } else {
        (delay - ticks) as u8
    }
}

/// The delay timer never shows more than it was set to, never goes up
/// as time passes, shows its full value during the first tick and has
/// run out once `16 * delay` milliseconds have passed.
pub proof fn lemma_delay_counts_down(delay: u8, ms1: int, ms2: int)
    requires
        0 <= ms1 <= ms2,
    ensures
        delay_remaining(delay, ms1) <= delay,
        delay_remaining(delay, ms2) <= delay_remaining(delay, ms1),
        ms1 < TICK_MILLIS ==> delay_remaining(delay, ms1) == delay,
        ms2 >= TICK_MILLIS * delay ==> delay_remaining(delay, ms2) == 0,
{
    assert(ms1 / 16 <= ms2 / 16) by (nonlinear_arith)
        requires
            0 <= ms1 <= ms2,
    ;
    assert(ms2 >= 16 * delay ==> ms2 / 16 >= delay) by (nonlinear_arith)
        requires
            0 <= ms2,
    ;
}

/// A duration of `secs` seconds and `nanos` nanoseconds (`nanos` below
/// one second) holds `1000 * secs` milliseconds plus the whole
/// milliseconds in `nanos`.
pub proof fn lemma_millis_of(secs: u64, nanos: u32)
    requires
        nanos < 1_000_000_000,
    ensures
        millis_of(secs, nanos) == 1000 * secs + nanos / 1_000_000,
{
    assert((1_000_000_000 * secs + nanos) / 1_000_000 == 1000 * secs + nanos / 1_000_000)
        by (nonlinear_arith)
        requires
            0 <= nanos < 1_000_000_000,
            0 <= secs,
    ;
}

/// The value of a timer set to `delay` after `secs` seconds and `nanos`
/// nanoseconds: one less for every whole 16 ms, where each second counts
/// 1000 ms, and never below zero.
pub proof fn lemma_timer_after(delay: u8, secs: u64, nanos: u32)
    requires
        nanos < 1_000_000_000,
    ensures
        ({
            let ticks = (1000 * secs + nanos / 1_000_000) / 16;
            delay_remaining(delay, millis_of(secs, nanos)) == if ticks >= delay {
                0
            } else {
                delay - ticks
            }
        }),
{
    lemma_millis_of(secs, nanos);
}

/// What the delay timer shows `secs` seconds and `nanos` nanoseconds after
/// it was set to `delay`. A duration too long for a `u64` of nanoseconds
/// is far past every tick, so the timer shows 0.
pub fn delay_timer_value(delay: u8, secs: u64, nanos: u32) -> (value: u8)
    requires
        nanos < 1_000_000_000,
    ensures
        value == if 1_000_000_000 * secs + nanos > u64::MAX {
            0
        } else {
            delay_remaining(delay, millis_of(secs, nanos))
        },
{
    if secs > (u64::MAX - nanos as u64) / 1_000_000_000 {
        return 0;
    }
    let ms = get_millis(secs, nanos);
    remaining_delay(delay, ms)
}

/// Whole milliseconds in `secs` seconds and `nanos` nanoseconds.
pub fn get_millis(secs: u64, nanos: u32) -> (ms: u64)
    requires
        1_000_000_000 * secs + nanos <= u64::MAX,
    ensures
        ms == millis_of(secs, nanos),
{
    let nanos = nanos as u64;
    let ms = (1000 * 1000 * 1000 * secs + nanos) / (1000 * 1000);
    ms
}

/// The value the delay timer shows `ms` milliseconds after it was set to
/// `delay`.
pub fn remaining_delay(delay: u8, ms: u64) -> (value: u8)
    ensures
        value == delay_remaining(delay, ms as int),
{
    let ticks = ms / TICK_MILLIS;
    if ticks >= delay as u64 {
        0
    } else {
        delay - ticks as u8
    }
}

/// What the CPU sees of the machine around it.
pub struct ControllerState {
    /// The 4096 bytes of memory.
    pub ram: Seq<u8>,
    /// The 2048 pixels of the screen, row by row.
    pub screen: Seq<u8>,
    /// The key being held, if any.
    pub key: Option<u8>,
    /// The value the delay timer was last set to.
    pub delay_timer: u8,
}

/// Memory, display, keypad and delay timer, as the CPU reaches them.
pub struct Controller {
    ram: Ram,
    keyboard: Keyboard,
    display: Display,
    delay_timer: u8,
    delay_timer_set_time: Instant,
}

impl View for Controller {
    type V = ControllerState;

    closed spec fn view(&self) -> ControllerState {
        ControllerState {
            ram: self.ram@,
            screen: self.display@,
            key: self.keyboard@,
            delay_timer: self.delay_timer,
        }
    }
}

impl Controller {
    /// The instant from which the delay timer counts down.
    pub closed spec fn timer_started(&self) -> Instant {
        self.delay_timer_set_time
    }

    /// Memory always holds `MEMORY_SIZE` bytes and the screen
    /// `SCREEN_SIZE` pixels.
    pub proof fn lemma_sizes(&self)
        ensures
            self@.ram.len() == MEMORY_SIZE,
            self@.screen.len() == SCREEN_SIZE,
    {
        self.display.lemma_size();
    }

    /// Memory with the font loaded, a blank screen, no key held and the
    /// delay timer at zero.
    pub fn new() -> (c: Controller)
        ensures
            c@ == (ControllerState {
                ram: initial_memory(),
                screen: blank_screen(),
                key: None,
                delay_timer: 0,
            }),
    {
        Controller {
            keyboard: Keyboard::new(),
            ram: Ram::new(),
            display: Display::new(),
            delay_timer: 0,
            delay_timer_set_time: instant_now(),
        }
    }

    /// XORs a sprite row onto the screen; see `Display::draw_byte`.
    pub fn draw_byte(&mut self, byte: u8, x: u8, y: u8) -> (erased: bool)
        ensures
            final(self)@ == (ControllerState {
                screen: draw_byte_screen(old(self)@.screen, byte, x, y),
                ..old(self)@
            }),
            erased == turns_off(old(self)@.screen, final(self)@.screen),
            final(self).timer_started() == old(self).timer_started(),
    {
        self.display.draw_byte(byte, x, y)
    }

    /// Stores `value` in memory at `position`.
    pub fn write_byte(&mut self, position: usize, value: u8)
        requires
            position < MEMORY_SIZE,
        ensures
            final(self)@ == (ControllerState {
                ram: old(self)@.ram.update(position as int, value),
                ..old(self)@
            }),
            final(self).timer_started() == old(self).timer_started(),
    {
        self.ram.write_byte(position, value);
    }

    /// The byte in memory at `position`.
    pub fn read_byte(&self, position: usize) -> (value: u8)
        requires
            position < MEMORY_SIZE,
        ensures
            value == self@.ram[position as int],
    {
        self.ram.read_byte(position)
    }

    /// Switches every pixel off.
    pub fn clr_scr(&mut self)
        ensures
            final(self)@ == (ControllerState { screen: blank_screen(), ..old(self)@ }),
            final(self).timer_started() == old(self).timer_started(),
    {
        self.display.clear();
    }

    /// Sets the delay timer to `value`; it counts down from now.
    pub fn set_delay_timer(&mut self, value: u8)
        ensures
            final(self)@ == (ControllerState { delay_timer: value, ..old(self)@ }),
    {
        self.delay_timer_set_time = instant_now();
        self.delay_timer = value;
    }

    /// The value the delay timer shows now: what it was set to, less one
    /// for every 16 ms since then, and never below zero.
    pub fn get_delay_timer(&self) -> (value: u8)
        ensures
            exists|ms: u64| value == delay_remaining(self@.delay_timer, ms as int),
    {
        let now = instant_now();
        let diff = time_between(&now, &self.delay_timer_set_time);
        let secs = diff.as_secs();
        let nanos = diff.subsec_nanos();
        let value = delay_timer_value(self.delay_timer, secs, nanos);
        proof {
            if 1_000_000_000 * secs + nanos > u64::MAX {
                let witness: u64 = u64::MAX;
                assert(value == delay_remaining(self@.delay_timer, witness as int));
            } else {
                let witness: u64 = millis_of(secs, nanos) as u64;
                assert(0 <= millis_of(secs, nanos) <= u64::MAX) by (nonlinear_arith)
                    requires
                        1_000_000_000 * secs + nanos <= u64::MAX,
                        0 <= secs,
                        0 <= nanos,
                ;
                assert(value == delay_remaining(self@.delay_timer, witness as int));
            }
        }
        value
    }

    /// Records `key` as the key being held (`None`: no key).
    pub fn set_key_pressed(&mut self, key: Option<u8>)
        ensures
            final(self)@ == (ControllerState { key: key, ..old(self)@ }),
            final(self).timer_started() == old(self).timer_started(),
    {
        self.keyboard.set_key_pressed(key);
    }

    /// The key being held, if any.
    pub fn get_key_pressed(&self) -> (key: Option<u8>)
        ensures
            key == self@.key,
    {
        self.keyboard.get_key_pressed()
    }

    /// Whether `key_code` is the key being held.
    pub fn is_key_pressed(&self, key_code: u8) -> (pressed: bool)
        ensures
            pressed == (self@.key == Some(key_code)),
    {
        self.keyboard.is_key_pressed(key_code)
    }

    /// The frame buffer, row by row.
    pub fn get_display_buffer(&self) -> (buffer: &[u8])
        ensures
            buffer@ == self@.screen,
            is_binary(buffer@),
    {
        self.display.get_display_buffer()
    }
}

} // verus!
