//! Readings of the system clock.
use vstd::prelude::*;

verus! {

/// A look at the system clock. Nothing but a look at the clock makes one.
pub struct ClockReading {
    seconds: Option<u64>,
}

impl ClockReading {
    /// The whole seconds since the Unix epoch that the clock showed; nothing where it
    /// stood before it.
    pub closed spec fn shown(self) -> Option<u64> {
        self.seconds
    }

    /// The time that the reading stands for.
    pub fn time(&self) -> (seconds: u64)
        ensures
            seconds == unix_time(self.shown()),
    {
        unix_time_of(self.seconds)
    }
}

/// `SystemTime::elapsed` of the Unix epoch: the whole seconds since then, or nothing
/// where the system clock stands before it. The time is not known beforehand, so
/// nothing is claimed of it.
#[verifier::external_body]
pub(crate) fn seconds_since_epoch() -> (reading: ClockReading) {
    ClockReading { seconds: std::time::UNIX_EPOCH.elapsed().ok().map(|since| since.as_secs()) }
}

/// The time that a clock reading stands for: that of the epoch where the clock stands
/// before it.
pub open spec fn unix_time(reading: Option<u64>) -> u64 {
    match reading {
        Some(seconds) => seconds,
        None => 0,
    }
}

/// The time that a clock reading stands for.
pub fn unix_time_of(reading: Option<u64>) -> (seconds: u64)
    ensures
        seconds == unix_time(reading),
{
    reading.unwrap_or(0)
}

/// A reading shows what the clock gave, and nothing is done to it.
proof fn reading_is_what_the_clock_gave(reading: ClockReading)
    ensures
        reading.shown() == reading.seconds,
        reading.seconds is Some ==> unix_time(reading.shown()) == reading.seconds->Some_0,
        reading.seconds is None ==> unix_time(reading.shown()) == 0,
{
}

} // verus!
