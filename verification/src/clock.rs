//! Time as the shell sees it: instants on one steady clock, and the spans
//! between them.

use vstd::prelude::*;

verus! {

/// Nanoseconds in a millisecond.
pub const NANOS_PER_MILLI: u64 = 1_000_000;

/// A span of time.
#[derive(Copy, Clone, Debug, PartialEq, Eq, Structural)]
pub struct Duration {
    pub nanos: u64,
}

impl Duration {
    /// No time at all.
    pub fn zero() -> (r: Self)
        ensures
            r.nanos == 0,
    {
        Duration { nanos: 0 }
    }

    /// This many milliseconds.
    pub fn from_millis(millis: u64) -> (r: Self)
        requires
            millis * NANOS_PER_MILLI <= u64::MAX,
        ensures
            r.nanos == millis * NANOS_PER_MILLI,
    {
        Duration { nanos: millis * NANOS_PER_MILLI }
    }
}

/// A point on the shell's clock, counted from when it was started.
#[derive(Copy, Clone, Debug, PartialEq, Eq, Structural)]
pub struct Instant {
    pub nanos: u64,
}

/// `at` plus `nanos`, or the clock's last instant when that is past it.
pub open spec fn later(at: Instant, nanos: int) -> Instant {
    Instant { nanos: if at.nanos + nanos <= u64::MAX { (at.nanos + nanos) as u64 } else { u64::MAX } }
}

/// How long after `earlier` the instant `now` is; nothing when it is before.
pub open spec fn span(earlier: Instant, now: Instant) -> int {
    if now.nanos >= earlier.nanos {
        now.nanos - earlier.nanos
    } else {
        0
    }
}

impl Instant {
    /// The instant this long after, or the clock's last one.
    pub fn plus(self, by: Duration) -> (r: Self)
        ensures
            r == later(self, by.nanos as int),
    {
        if by.nanos <= u64::MAX - self.nanos {
            Instant { nanos: self.nanos + by.nanos }
        } else {
            Instant { nanos: u64::MAX }
        }
    }

    /// How long it is since `earlier`; nothing when that is still to come.
    pub fn since(self, earlier: Instant) -> (r: Duration)
        ensures
            r.nanos == span(earlier, self),
    {
        if self.nanos >= earlier.nanos {
            Duration { nanos: self.nanos - earlier.nanos }
        } else {
            Duration { nanos: 0 }
        }
    }
}

/// How long a load has to still be running before its tab is shown, in
/// milliseconds. A load that fails or succeeds inside it never flashes a tab.
pub const LOADING_TAB_GRACE: u64 = 120;

/// Whether a still-loading tab has been running long enough to show.
pub open spec fn shows_loading_tab(started: Instant, now: Instant) -> bool {
    span(started, now) >= LOADING_TAB_GRACE * NANOS_PER_MILLI
}

/// Whether a still-loading tab has been running long enough to actually show,
/// rather than flash and vanish.
pub fn should_show_loading_tab(started: Instant, now: Instant) -> (r: bool)
    ensures
        r == shows_loading_tab(started, now),
{
    now.since(started).nanos >= LOADING_TAB_GRACE * NANOS_PER_MILLI
}

/// Half a blink cycle of the caret, in milliseconds.
pub const CARET_BLINK: u64 = 500;

/// The caret: whether it is drawn, and when that next changes.
#[derive(Copy, Clone, Debug, PartialEq, Eq, Structural)]
pub struct Caret {
    pub visible: bool,
    pub deadline: Instant,
}

/// A solid caret whose next blink is half a cycle away.
pub open spec fn woken(now: Instant) -> Caret {
    Caret { visible: true, deadline: later(now, (CARET_BLINK * NANOS_PER_MILLI) as int) }
}

/// The caret at `now`: flipped when its deadline has come, and as it was
/// otherwise.
pub open spec fn ticked(caret: Caret, now: Instant) -> Caret {
    if now.nanos < caret.deadline.nanos {
        caret
    } else {
        Caret {
            visible: !caret.visible,
            deadline: later(now, (CARET_BLINK * NANOS_PER_MILLI) as int),
        }
    }
}

impl Caret {
    /// A caret that has just been woken.
    pub fn new(now: Instant) -> (r: Self)
        ensures
            r == woken(now),
    {
        Caret { visible: true, deadline: now.plus(Duration { nanos: CARET_BLINK * NANOS_PER_MILLI }) }
    }

    /// Makes the caret solid and pushes the next blink out: typing and moving
    /// never blink mid-gesture.
    pub fn wake(&mut self, now: Instant)
        ensures
            *final(self) == woken(now),
    {
        *self = Caret::new(now);
    }

    /// Flips the caret if its time has come, and says whether it did.
    pub fn tick(&mut self, now: Instant) -> (changed: bool)
        ensures
            *final(self) == ticked(*old(self), now),
            changed == (now.nanos >= old(self).deadline.nanos),
    {
        if now.nanos < self.deadline.nanos {
            return false;
        }
        self.visible = !self.visible;
        self.deadline = now.plus(Duration { nanos: CARET_BLINK * NANOS_PER_MILLI });
        true
    }
}

/// The earlier of two deadlines, either of which may be missing.
pub open spec fn sooner(a: Option<Instant>, b: Option<Instant>) -> Option<Instant> {
    match (a, b) {
        (Some(x), Some(y)) => if x.nanos <= y.nanos {
            Some(x)
        } else {
            Some(y)
        },
        (Some(x), None) => Some(x),
        (None, y) => y,
    }
}

/// The earlier of two deadlines, either of which may be missing.
pub fn earliest(a: Option<Instant>, b: Option<Instant>) -> (r: Option<Instant>)
    ensures
        r == sooner(a, b),
{
    match (a, b) {
        (Some(x), Some(y)) => if x.nanos <= y.nanos {
            Some(x)
        } else {
            Some(y)
        },
        (Some(x), None) => Some(x),
        (None, y) => y,
    }
}

/// Between two flips of the caret lies at least half a cycle, however often
/// the clock is looked at: a second of idling costs two flips and no more.
pub proof fn the_caret_flips_at_most_every_half_cycle(caret: Caret, first: Instant, second: Instant)
    requires
        first.nanos >= caret.deadline.nanos,
        first.nanos <= second.nanos,
        second.nanos - first.nanos < CARET_BLINK * NANOS_PER_MILLI,
        first.nanos + CARET_BLINK * NANOS_PER_MILLI <= u64::MAX,
    ensures
        ticked(caret, first).visible != caret.visible,
        ticked(ticked(caret, first), second) == ticked(caret, first),
{
}

/// Time is added and taken back: what lies so long after an instant is so long
/// from it, until the clock ends. Backwards there is no time between two
/// instants.
pub proof fn time_adds_up(at: Instant, nanos: int)
    requires
        0 <= nanos,
    ensures
        at.nanos + nanos <= u64::MAX ==> later(at, nanos).nanos == at.nanos + nanos,
        at.nanos + nanos <= u64::MAX ==> span(at, later(at, nanos)) == nanos,
        at.nanos + nanos > u64::MAX ==> later(at, nanos).nanos == u64::MAX,
        span(later(at, nanos), at) == 0,
{
}

/// A caret that was woken is drawn, for half a second at least.
pub proof fn a_woken_caret_is_drawn(at: Instant, now: Instant)
    requires
        at.nanos <= now.nanos,
        now.nanos - at.nanos < 500_000_000,
        at.nanos + 500_000_000 <= u64::MAX,
    ensures
        woken(at).visible,
        ticked(woken(at), now).visible,
        ticked(woken(at), later(at, 500_000_000)).visible == false,
{
}

/// A load's tab is shown once the load has run for 120 milliseconds, and from
/// then on.
pub proof fn a_long_load_shows_its_tab(started: Instant, now: Instant)
    ensures
        shows_loading_tab(started, now) == (now.nanos - started.nanos >= 120_000_000),
{
}

/// The sooner of two deadlines is one of them and not after either.
pub proof fn the_sooner_deadline_comes_first(a: Instant, b: Instant)
    ensures
        sooner(Some(a), Some(b)) is Some,
        sooner(Some(a), Some(b))->0.nanos <= a.nanos,
        sooner(Some(a), Some(b))->0.nanos <= b.nanos,
        sooner(Some(a), Some(b)) == Some(a) || sooner(Some(a), Some(b)) == Some(b),
        sooner(Some(a), None) == Some(a),
        sooner(None, Some(b)) == Some(b),
        sooner(None, None) is None,
{
}

} // verus!
