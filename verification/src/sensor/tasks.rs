//! Decisions of the firmware's periodic and interrupt tasks.
use vstd::prelude::*;

verus! {

/// The LED's blink period in milliseconds: fast while light is detected.
pub open spec fn spec_blink_delay(speedy: bool) -> u32 {
    if speedy {
        100
    } else {
        1000
    }
}

/// One step of the blink task: the LED level to set, the new state and the delay.
pub open spec fn spec_blink_step(state: bool, speedy: bool) -> (bool, bool, u32) {
    (state, !state, spec_blink_delay(speedy))
}

/// One step of the blink task: the LED level to set (high exactly when `state` is
/// set), the new state (flipped), and the delay before the next step. The task starts
/// with the LED high and `state` clear, so the LED stays high exactly while `state` is
/// clear after every step.
pub fn blink_step(state: bool, speedy: bool) -> (r: (bool, bool, u32))
    ensures
        r == spec_blink_step(state, speedy),
{
    let delay: u32 = if speedy {
        100
    } else {
        1000
    };
    if state {
        (true, false, delay)
    } else {
        (false, true, delay)
    }
}

/// The pace of the blink depends only on whether light is detected: 100 ms between
/// steps while it is, 1000 ms otherwise, whatever the LED's state.
pub proof fn lemma_blink_pace(state: bool, speedy: bool)
    ensures
        spec_blink_step(state, speedy).2 == spec_blink_step(!state, speedy).2,
        speedy ==> spec_blink_step(state, speedy).2 == 100,
        !speedy ==> spec_blink_step(state, speedy).2 == 1000,
        spec_blink_step(state, speedy).1 == !state,
{
}

/// The blink task keeps the LED high exactly while `state` is clear (as it starts: LED
/// high, `state` clear), and each step toggles the LED.
pub proof fn lemma_blink_keeps_led_opposite_state(led_high: bool, state: bool, speedy: bool)
    requires
        led_high == !state,
    ensures
        spec_blink_step(state, speedy).0 == !spec_blink_step(state, speedy).1,
        spec_blink_step(state, speedy).0 != led_high,
{
}

/// Seconds of silence on the serial line after which a partly received frame is
/// dropped.
pub const UART_SILENCE_RESET: u32 = 3;

/// Whether the receive buffer must be cleared: more than three seconds passed since the
/// last byte, which drops a corrupted frame that never got its terminating zero. The
/// clock must not have gone backwards.
pub fn uart_must_clear(now: u32, last_timestamp: u32) -> (r: bool)
    requires
        now >= last_timestamp,
    ensures
        r == (now - last_timestamp > UART_SILENCE_RESET),
        r == (now - last_timestamp > 3),
{
    let delta_time = now - last_timestamp;
    delta_time > UART_SILENCE_RESET
}

} // verus!
