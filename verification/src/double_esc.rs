//! Telling a double Esc press from a single one by the time between them.
use vstd::prelude::*;
use std::time::{Duration, Instant};
use crate::keys::{KeyCode, KeyEvent};

verus! {

#[verifier::external_type_specification]
#[verifier::external_body]
pub struct ExInstant(std::time::Instant);

/// Calls `Instant::now`.  Nothing is claimed of the result (it is the time).
#[verifier::external_body]
fn instant_now() -> Instant {
    Instant::now()
}

/// Calls `Instant::elapsed`: the time since `origin`.  Nothing is claimed
/// of the result (it depends on the time).
#[verifier::external_body]
fn elapsed_since(origin: &Instant) -> Duration {
    origin.elapsed()
}

/// Calls `Duration::as_nanos`: the whole nanoseconds of `d`.  Nothing is
/// claimed of the result here: its only caller reads a clock, and every
/// value is handled.
#[verifier::external_body]
fn duration_nanos(d: &Duration) -> u128 {
    d.as_nanos()
}

/// The duration that `Duration::from_nanos` makes of `ns` nanoseconds.
pub uninterp spec fn duration_of_nanos(ns: u64) -> Duration;

/// Calls `Duration::from_nanos`: the duration of `ns` nanoseconds.
#[verifier::external_body]
fn duration_from_nanos(ns: u64) -> (d: Duration)
    ensures
        d == duration_of_nanos(ns),
{
    Duration::from_nanos(ns)
}

/// Nanoseconds in a millisecond.
pub const NANOS_PER_MILLI: u64 = 1_000_000;

/// What an Esc key press means.
pub enum EscResult {
    /// Not a plain Esc.
    Ignored,
    /// A first Esc: a second one may follow.
    First,
    /// A second Esc within the threshold.
    Double,
}

/// How long `remaining_timeout` reports when no Esc is pending (one day, in
/// nanoseconds).
pub const NO_PENDING_TIMEOUT_NS: u64 = 86_400_000_000_000;

/// A threshold of `ms` milliseconds in nanoseconds (capped at `u64::MAX`,
/// over 584 years).
pub open spec fn threshold_nanos(ms: u64) -> int {
    if ms * NANOS_PER_MILLI <= u64::MAX { ms * NANOS_PER_MILLI } else { u64::MAX as int }
}

/// Detects two Esc presses within a threshold.  Times are nanoseconds since
/// the detector was made.
pub struct DoubleEscDetector {
    origin: Instant,
    last_press: Option<u64>,
    threshold_ns: u64,
}

impl DoubleEscDetector {
    /// The time of the pending first Esc, if any.
    pub closed spec fn pending(&self) -> Option<u64> {
        self.last_press
    }

    /// The threshold in nanoseconds.
    pub closed spec fn threshold(&self) -> u64 {
        self.threshold_ns
    }

    /// A detector with nothing pending and a threshold of `threshold_ms`
    /// milliseconds.
    pub fn new(threshold_ms: u64) -> (d: Self)
        ensures
            d.pending() is None,
            d.threshold() == threshold_nanos(threshold_ms),
    {
        let threshold_ns = match threshold_ms.checked_mul(NANOS_PER_MILLI) {
            Some(ns) => ns,
            None => u64::MAX,
        };
        DoubleEscDetector { origin: instant_now(), last_press: None, threshold_ns }
    }

    /// Nanoseconds since the detector was made (capped at `u64::MAX`).
    fn now_nanos(&self) -> u64 {
        let ns = duration_nanos(&elapsed_since(&self.origin));
        if ns > 0xffff_ffff_ffff_ffff { u64::MAX } else { ns as u64 }
    }

    /// Process a key at time `now`: a key other than a plain Esc clears a
    /// pending Esc; an Esc within the threshold of a pending one is a double
    /// press (and clears it); any other Esc becomes the pending one.
    pub fn process_key_at(&mut self, key: &KeyEvent, now: u64) -> (r: EscResult)
        ensures
            final(self).threshold() == old(self).threshold(),
            !(key.code == KeyCode::Esc && !key.modifiers.shift && !key.modifiers.control && !key.modifiers.alt)
                ==> r is Ignored && final(self).pending() is None,
            (key.code == KeyCode::Esc && !key.modifiers.shift && !key.modifiers.control && !key.modifiers.alt) ==> match old(self).pending() {
                Some(prev) if sat_elapsed(now, prev) <= old(self).threshold() => r is Double && final(self).pending() is None,
                _ => r is First && final(self).pending() == Some(now),
            },
    {
        if key.code != KeyCode::Esc || !key.modifiers.is_empty() {
            self.last_press = None;
            return EscResult::Ignored;
        }
        match self.last_press {
            Some(prev) => {
                let elapsed = if now >= prev { now - prev } else { 0 };
                if elapsed <= self.threshold_ns {
                    self.last_press = None;
                    EscResult::Double
                } else {
                    self.last_press = Some(now);
                    EscResult::First
                }
            },
            None => {
                self.last_press = Some(now);
                EscResult::First
            },
        }
    }

    /// Process a key now (see `process_key_at`).
    pub fn process_key(&mut self, key: &KeyEvent) -> (r: EscResult)
        ensures
            final(self).threshold() == old(self).threshold(),
            !(key.code == KeyCode::Esc && !key.modifiers.shift && !key.modifiers.control && !key.modifiers.alt)
                ==> r is Ignored && final(self).pending() is None,
            (key.code == KeyCode::Esc && !key.modifiers.shift && !key.modifiers.control && !key.modifiers.alt)
                ==> !(r is Ignored) && (r is Double <==> final(self).pending() is None),
            r is Double ==> old(self).pending() is Some,
    {
        let now = self.now_nanos();
        self.process_key_at(key, now)
    }

    /// Whether a pending Esc has waited at least the threshold at time `now`.
    pub fn timed_out_at(&self, now: u64) -> (b: bool)
        ensures
            b == match self.pending() {
                Some(prev) => sat_elapsed(now, prev) >= self.threshold(),
                None => false,
            },
    {
        match self.last_press {
            Some(prev) => {
                let elapsed = if now >= prev { now - prev } else { 0 };
                elapsed >= self.threshold_ns
            },
            None => false,
        }
    }

    /// Whether a pending Esc has timed out at time `now` (nanoseconds since
    /// the detector was made): at least the threshold has passed since it.
    pub open spec fn timed_out_by(&self, now: u64) -> bool {
        match self.pending() {
            Some(prev) => sat_elapsed(now, prev) >= self.threshold(),
            None => false,
        }
    }

    /// Whether a pending Esc has timed out by now (never when none is
    /// pending): `timed_out_by` at the clock's reading, which only the clock
    /// decides.
    pub fn timed_out(&self) -> (b: bool)
        ensures
            exists|now: u64| b == #[trigger] self.timed_out_by(now),
            self.pending() is None ==> !b,
    {
        let now = self.now_nanos();
        let b = self.timed_out_at(now);
        assert(b == self.timed_out_by(now));
        b
    }

    /// Forget a pending Esc.
    pub fn clear(&mut self)
        ensures
            final(self).pending() is None,
            final(self).threshold() == old(self).threshold(),
    {
        self.last_press = None;
    }

    /// Nanoseconds until a pending Esc times out at time `now` (0 once it
    /// has), or a day when none is pending.
    pub fn remaining_nanos_at(&self, now: u64) -> (r: u64)
        ensures
            r == match self.pending() {
                Some(prev) => if sat_elapsed(now, prev) >= self.threshold() { 0 } else { self.threshold() - sat_elapsed(now, prev) },
                None => NO_PENDING_TIMEOUT_NS as int,
            },
    {
        match self.last_press {
            Some(prev) => {
                let elapsed = if now >= prev { now - prev } else { 0 };
                if elapsed >= self.threshold_ns { 0 } else { self.threshold_ns - elapsed }
            },
            None => NO_PENDING_TIMEOUT_NS,
        }
    }

    /// Time to wait for the next event so that a pending Esc's timeout is not
    /// missed (see `remaining_nanos_at`).
    pub fn remaining_timeout(&self) -> (d: Duration)
        ensures
            exists|ns: u64| #[trigger] duration_of_nanos(ns) == d
                && (self.pending() is None ==> ns == NO_PENDING_TIMEOUT_NS)
                && (self.pending() is Some ==> ns <= self.threshold()),
    {
        let now = self.now_nanos();
        let ns = self.remaining_nanos_at(now);
        duration_from_nanos(ns)
    }
}

/// Time from `prev` to `now`, 0 if `now` is earlier.
pub open spec fn sat_elapsed(now: u64, prev: u64) -> int {
    if now >= prev { now - prev } else { 0 }
}

} // verus!
