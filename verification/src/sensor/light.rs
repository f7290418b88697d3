//! The light thresholds of the OPT3001 sensor and what the firmware does when the
//! sensor signals that the light crossed one.
//!
//! The sensor raises its interrupt when the light leaves a window given by a low and a
//! high limit, each written raw as an exponent and a mantissa. Waiting for light
//! means a window from nothing up to the threshold; waiting for dark a window from the
//! threshold up to the most the sensor measures.
use vstd::prelude::*;
use crate::sensor::storage::event::Event;
use crate::link::event::{Event as LinkEvent, EventType};

verus! {

/// The largest raw mantissa.
pub const MANTISSA_MAX: u16 = 0xFFF;

/// The smallest raw mantissa.
pub const MANTISSA_MIN: u16 = 0;

/// The largest raw exponent.
pub const EXPONENT_MAX: u8 = 0b1011;

/// The smallest raw exponent.
pub const EXPONENT_MIN: u8 = 0;

/// Raw exponent of the light threshold.
pub const EXPONENT_THRESHOLD: u8 = 0b1001u8;

/// Raw mantissa of the light threshold.
pub const MANTISSA_THRESHOLD: u16 = 488u16;

/// A raw limit of the sensor: an exponent and a mantissa.
#[derive(PartialEq, Eq, Structural, Clone, Copy)]
pub struct RawLimit {
    pub exponent: u8,
    pub mantissa: u16,
}

/// The limits written to the sensor: its interrupt fires when the light leaves the
/// window between them.
#[derive(PartialEq, Eq, Structural, Clone, Copy)]
pub struct LimitWindow {
    pub high: RawLimit,
    pub low: RawLimit,
}

/// A raw limit the sensor accepts: exponent and mantissa within their ranges (the
/// driver refuses others).
pub open spec fn raw_limit_valid(l: RawLimit) -> bool {
    l.exponent <= EXPONENT_MAX && l.mantissa <= MANTISSA_MAX
}

/// The window that waits for dark: from the threshold up to the most the sensor
/// measures.
pub open spec fn spec_dark_window(mantissa: u16, exponent: u8) -> LimitWindow {
    LimitWindow {
        high: RawLimit { exponent: EXPONENT_MAX, mantissa: MANTISSA_MAX },
        low: RawLimit { exponent, mantissa },
    }
}

/// The window that waits for light: from nothing up to the threshold.
pub open spec fn spec_light_window(mantissa: u16, exponent: u8) -> LimitWindow {
    LimitWindow {
        high: RawLimit { exponent, mantissa },
        low: RawLimit { exponent: EXPONENT_MIN, mantissa: MANTISSA_MIN },
    }
}

/// The limits that make the sensor wait for the light to fall below a threshold.
pub fn wait_for_dark(mantissa: u16, exponent: u8) -> (r: LimitWindow)
    ensures
        r == spec_dark_window(mantissa, exponent),
{
    LimitWindow {
        high: RawLimit { exponent: EXPONENT_MAX, mantissa: MANTISSA_MAX },
        low: RawLimit { exponent, mantissa },
    }
}

/// The limits that make the sensor wait for the light to rise above a threshold.
pub fn wait_for_light(mantissa: u16, exponent: u8) -> (r: LimitWindow)
    ensures
        r == spec_light_window(mantissa, exponent),
{
    LimitWindow {
        high: RawLimit { exponent, mantissa },
        low: RawLimit { exponent: EXPONENT_MIN, mantissa: MANTISSA_MIN },
    }
}

/// The window the sensor starts with: waiting for light at the threshold.
pub fn setup_window() -> (r: LimitWindow)
    ensures
        r == spec_light_window(MANTISSA_THRESHOLD, EXPONENT_THRESHOLD),
{
    wait_for_light(MANTISSA_THRESHOLD, EXPONENT_THRESHOLD)
}

/// The operation on the event log that follows a light interrupt.
#[derive(Debug, PartialEq, Eq, Structural, Clone, Copy)]
pub enum LogAction {
    /// `add_or_overwrite_event` with the event and the longest dark period, in
    /// seconds, that is dropped to fuse two light periods.
    AddOrOverwrite(Event, u32),
    /// `add_new_event` with the event.
    AddNew(Event),
}

/// What the firmware does on a light interrupt: after light that was too high, wait
/// for dark and log a high event, fusing it with the previous light period when the
/// dark between them lasted at most `min_off_time`; after light that was too low, wait
/// for light and append a low event; otherwise nothing. A failure of the log operation
/// stops the firmware.
pub open spec fn spec_light_interrupt(
    was_too_high: bool,
    was_too_low: bool,
    now: i64,
    min_off_time: u32,
) -> Option<(LimitWindow, LogAction)> {
    if was_too_high {
        Some(
            (
                spec_dark_window(MANTISSA_THRESHOLD, EXPONENT_THRESHOLD),
                LogAction::AddOrOverwrite(Event::High(now), min_off_time),
            ),
        )
    } else if was_too_low {
        Some(
            (
                spec_light_window(MANTISSA_THRESHOLD, EXPONENT_THRESHOLD),
                LogAction::AddNew(Event::Low(now)),
            ),
        )
    } else {
        None
    }
}

/// Decides, from the flags of the sensor's status, the limits to write next and the
/// operation on the event log.
pub fn light_interrupt(was_too_high: bool, was_too_low: bool, now: i64, min_off_time: u32) -> (r:
    Option<(LimitWindow, LogAction)>)
    ensures
        r == spec_light_interrupt(was_too_high, was_too_low, now, min_off_time),
{
    if was_too_high {
        Some(
            (
                wait_for_dark(MANTISSA_THRESHOLD, EXPONENT_THRESHOLD),
                LogAction::AddOrOverwrite(Event::High(now), min_off_time),
            ),
        )
    } else if was_too_low {
        Some((wait_for_light(MANTISSA_THRESHOLD, EXPONENT_THRESHOLD), LogAction::AddNew(Event::Low(now))))
    } else {
        None
    }
}

/// What the first firmware does on a light interrupt at `timestamp`: the limits to
/// write and the event to store, as `light_interrupt` decides them, and the new value
/// of the flag that makes the LED blink fast: set exactly when the light was too high.
pub open spec fn spec_exti0_1(was_too_high: bool, was_too_low: bool, timestamp: u32) -> (
    Option<(LimitWindow, LinkEvent)>,
    bool,
) {
    if was_too_high {
        (
            Some(
                (
                    spec_dark_window(MANTISSA_THRESHOLD, EXPONENT_THRESHOLD),
                    LinkEvent { timestamp, event_type: EventType::High },
                ),
            ),
            true,
        )
    } else if was_too_low {
        (
            Some(
                (
                    spec_light_window(MANTISSA_THRESHOLD, EXPONENT_THRESHOLD),
                    LinkEvent { timestamp, event_type: EventType::Low },
                ),
            ),
            false,
        )
    } else {
        (None, false)
    }
}

/// Decides the first firmware's light interrupt: the limits to write, the event to
/// store, and whether light is now detected (the blink task's fast flag).
pub fn exti0_1(was_too_high: bool, was_too_low: bool, timestamp: u32) -> (r: (
    Option<(LimitWindow, LinkEvent)>,
    bool,
))
    ensures
        r == spec_exti0_1(was_too_high, was_too_low, timestamp),
{
    let mut light_detected: bool = false;
    let mut stored: Option<(LimitWindow, LinkEvent)> = None;
    if was_too_high {
        light_detected = true;
        stored = Some(
            (
                wait_for_dark(MANTISSA_THRESHOLD, EXPONENT_THRESHOLD),
                LinkEvent { timestamp, event_type: EventType::High },
            ),
        );
    } else if was_too_low {
        light_detected = false;
        stored = Some(
            (
                wait_for_light(MANTISSA_THRESHOLD, EXPONENT_THRESHOLD),
                LinkEvent { timestamp, event_type: EventType::Low },
            ),
        );
    }
    (stored, light_detected)
}

/// Each window keeps the threshold as the limit the light must cross next: a high
/// event (fused or not) is always followed by a window that waits for dark, a low one
/// by a window that waits for light; every limit written is one the sensor accepts.
pub proof fn lemma_interrupt_windows(
    was_too_high: bool,
    was_too_low: bool,
    now: i64,
    min_off_time: u32,
)
    ensures
        spec_light_interrupt(was_too_high, was_too_low, now, min_off_time) matches Some((w, a))
            ==> raw_limit_valid(w.high) && raw_limit_valid(w.low),
        spec_light_interrupt(was_too_high, was_too_low, now, min_off_time) matches Some((w, a))
            ==> (a matches LogAction::AddOrOverwrite(Event::High(_), _) ==> w.low == RawLimit {
            exponent: EXPONENT_THRESHOLD,
            mantissa: MANTISSA_THRESHOLD,
        }) && (a matches LogAction::AddNew(Event::Low(_)) ==> w.high == RawLimit {
            exponent: EXPONENT_THRESHOLD,
            mantissa: MANTISSA_THRESHOLD,
        }),
{
}

/// On a light interrupt, light that was too high is logged as a high event at `now`
/// that may fuse with the previous light period (within `min_off_time`) and the sensor
/// then waits for the light to fall below 488 at exponent 9; otherwise light that was
/// too low is appended as a low event at `now` and the sensor waits for the light to
/// rise above that threshold; with neither flag nothing happens.
pub proof fn lemma_light_interrupt_actions(
    was_too_high: bool,
    was_too_low: bool,
    now: i64,
    min_off_time: u32,
)
    ensures
        was_too_high ==> spec_light_interrupt(was_too_high, was_too_low, now, min_off_time)
            == Some(
            (
                LimitWindow {
                    high: RawLimit { exponent: 0b1011, mantissa: 0xFFF },
                    low: RawLimit { exponent: 0b1001, mantissa: 488 },
                },
                LogAction::AddOrOverwrite(Event::High(now), min_off_time),
            ),
        ),
        !was_too_high && was_too_low ==> spec_light_interrupt(
            was_too_high,
            was_too_low,
            now,
            min_off_time,
        ) == Some(
            (
                LimitWindow {
                    high: RawLimit { exponent: 0b1001, mantissa: 488 },
                    low: RawLimit { exponent: 0, mantissa: 0 },
                },
                LogAction::AddNew(Event::Low(now)),
            ),
        ),
        !was_too_high && !was_too_low ==> spec_light_interrupt(
            was_too_high,
            was_too_low,
            now,
            min_off_time,
        ) is None,
{
}

/// The first firmware blinks fast exactly while the light was last too high, and
/// stores a high event at `timestamp` with it, a low event when the light was too low.
pub proof fn lemma_exti0_1_flag(was_too_high: bool, was_too_low: bool, timestamp: u32)
    ensures
        spec_exti0_1(was_too_high, was_too_low, timestamp).1 == was_too_high,
        was_too_high ==> (spec_exti0_1(was_too_high, was_too_low, timestamp).0 matches Some((_, e))
            && e == (LinkEvent { timestamp, event_type: EventType::High })),
        !was_too_high && was_too_low ==> (spec_exti0_1(was_too_high, was_too_low, timestamp).0 matches Some(
            (_, e),
        ) && e == (LinkEvent { timestamp, event_type: EventType::Low })),
        !was_too_high && !was_too_low ==> spec_exti0_1(was_too_high, was_too_low, timestamp).0 is None,
        spec_exti0_1(was_too_high, was_too_low, timestamp).0 matches Some((w, _))
            ==> (spec_light_interrupt(was_too_high, was_too_low, timestamp as i64, 0) matches Some(
            (w2, _),
        ) && w == w2),
{
}

} // verus!
