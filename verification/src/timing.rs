//! Frame-rate limiting: the frame budget derived from the requested frame
//! rate, and when the last draw and paint request happened.

use vstd::prelude::*;

use std::time::{Duration, Instant};

verus! {

/// `std::time::Instant`, carried through opaquely.
#[verifier::external_type_specification]
#[verifier::external_body]
pub struct ExInstant(Instant);

/// What `Duration::as_nanos` gives: the length of a duration in
/// nanoseconds.
pub uninterp spec fn nanos_of(d: Duration) -> u128;

/// `Duration::from_millis`: a duration of `ms` milliseconds.
#[verifier::external_body]
fn duration_from_millis(ms: u64) -> (d: Duration)
    ensures
        nanos_of(d) == ms * 1_000_000,
{
    Duration::from_millis(ms)
}

/// `Duration >= Duration` (`PartialOrd`): compares the lengths.
#[verifier::external_body]
fn duration_ge(a: &Duration, b: &Duration) -> (r: bool)
    ensures
        r == (nanos_of(*a) >= nanos_of(*b)),
{
    *a >= *b
}

/// `Instant::now`: the current time; nothing is known of its value.
#[verifier::external_body]
fn instant_now() -> Instant {
    Instant::now()
}

/// `Instant::elapsed`: the time since `i`, which depends on the clock.
#[verifier::external_body]
fn instant_elapsed(i: &Instant) -> Duration {
    i.elapsed()
}

/// What `Instant::checked_sub` gives: the instant `d` before `i`, or `None`
/// where that point cannot be represented. It is computed from the two
/// values alone.
pub uninterp spec fn instant_sub_of(i: Instant, d: Duration) -> Option<Instant>;

/// `Instant::checked_sub`: `i` moved back by `d`, or `None` when the clock
/// cannot represent that point; the result is the one the name
/// `instant_sub_of` gives.
#[verifier::external_body]
fn instant_checked_sub(i: &Instant, d: Duration) -> (r: Option<Instant>)
    ensures
        r == instant_sub_of(*i, d),
{
    i.checked_sub(d)
}

/// Rendering parameters fixed at startup.
#[derive(Clone, Copy)]
pub struct RenderConfig {
    pub true_color: bool,
    pub frame_budget: Duration,
}

/// Milliseconds per frame for a frame rate (0 counts as 1 frame per second).
pub open spec fn frame_budget_millis(fps: u16) -> int {
    1000int / (if fps == 0 { 1int } else { fps as int })
}

impl RenderConfig {
    /// The frame budget is 1000 / fps milliseconds, rounded down.
    pub fn new(true_color: bool, fps: u16) -> (c: Self)
        ensures
            c.true_color == true_color,
            nanos_of(c.frame_budget) == frame_budget_millis(fps) * 1_000_000,
    {
        let fps = if fps < 1 { 1 } else { fps };
        RenderConfig { true_color, frame_budget: duration_from_millis(1000 / fps as u64) }
    }
}

/// Shortest time between two text extractions, in milliseconds.
pub const EXTRACT_DEBOUNCE_MILLIS: u64 = 300;

/// When the last draw, paint request and text extraction happened.
pub struct TimingState {
    pub last_draw: Instant,
    pub last_paint_cmd: Instant,
    pub last_extract: Instant,
}

/// The instant `d` before `now`, or `now` itself where that point cannot be
/// represented.
pub open spec fn moved_back(now: Instant, d: Duration) -> Instant {
    match instant_sub_of(now, d) {
        Some(p) => p,
        None => now,
    }
}

/// The current time moved back by `d` (or the current time, where the clock
/// cannot go back that far). Which instant "now" is depends on the clock.
fn before_now(d: Duration) -> (r: Instant)
    ensures
        exists|now: Instant| r == #[trigger] moved_back(now, d),
{
    let now = instant_now();
    let r = match instant_checked_sub(&now, d) {
        Some(p) => p,
        None => now,
    };
    assert(r == moved_back(now, d));
    r
}

impl TimingState {
    /// Both times start one frame budget in the past, so the first draw and
    /// paint request are due at once (or now, where the clock cannot go back
    /// that far).
    pub fn new(frame_budget: Duration) -> (t: Self)
        ensures
            t.last_draw == t.last_paint_cmd,
            exists|now: Instant| t.last_draw == #[trigger] moved_back(now, frame_budget),
            exists|now: Instant, d: Duration|
                nanos_of(d) == EXTRACT_DEBOUNCE_MILLIS * 1_000_000 && t.last_extract
                    == #[trigger] moved_back(now, d),
    {
        let past = before_now(frame_budget);
        let extract_past = before_now(duration_from_millis(EXTRACT_DEBOUNCE_MILLIS));
        TimingState { last_draw: past, last_paint_cmd: past, last_extract: extract_past }
    }

    /// Whether `elapsed` has used up `budget`.
    pub fn due(elapsed: &Duration, budget: &Duration) -> (r: bool)
        ensures
            r == (nanos_of(*elapsed) >= nanos_of(*budget)),
    {
        duration_ge(elapsed, budget)
    }

    /// Whether at least `budget` has passed since the last draw; always so
    /// for an empty budget, otherwise up to the clock.
    pub fn draw_due(&self, budget: Duration) -> (r: bool)
        ensures
            nanos_of(budget) == 0 ==> r,
    {
        let elapsed = instant_elapsed(&self.last_draw);
        Self::due(&elapsed, &budget)
    }

    /// Whether at least `budget` has passed since the last paint request;
    /// always so for an empty budget, otherwise up to the clock.
    pub fn paint_cmd_due(&self, budget: Duration) -> (r: bool)
        ensures
            nanos_of(budget) == 0 ==> r,
    {
        let elapsed = instant_elapsed(&self.last_paint_cmd);
        Self::due(&elapsed, &budget)
    }

    /// Record a draw now.
    pub fn mark_drawn(&mut self)
        ensures
            final(self).last_paint_cmd == old(self).last_paint_cmd,
            final(self).last_extract == old(self).last_extract,
    {
        self.last_draw = instant_now();
    }

    /// Record a paint request now.
    pub fn mark_paint_cmd(&mut self)
        ensures
            final(self).last_draw == old(self).last_draw,
            final(self).last_extract == old(self).last_extract,
    {
        self.last_paint_cmd = instant_now();
    }

    /// Whether the extraction debounce has passed since the last text
    /// extraction.
    pub fn extract_due(&self) -> bool {
        let elapsed = instant_elapsed(&self.last_extract);
        let debounce = duration_from_millis(EXTRACT_DEBOUNCE_MILLIS);
        Self::due(&elapsed, &debounce)
    }

    /// Record a text extraction now.
    pub fn mark_extracted(&mut self)
        ensures
            final(self).last_draw == old(self).last_draw,
            final(self).last_paint_cmd == old(self).last_paint_cmd,
    {
        self.last_extract = instant_now();
    }

    /// Make the next extraction due at once (the page changed).
    pub fn invalidate_extract(&mut self)
        ensures
            final(self).last_draw == old(self).last_draw,
            final(self).last_paint_cmd == old(self).last_paint_cmd,
            exists|now: Instant, d: Duration|
                nanos_of(d) == EXTRACT_DEBOUNCE_MILLIS * 1_000_000 && final(self).last_extract
                    == #[trigger] moved_back(now, d),
    {
        self.last_extract = before_now(duration_from_millis(EXTRACT_DEBOUNCE_MILLIS));
    }
}

} // verus!
