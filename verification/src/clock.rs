//! Points in time, as the system clock gives them.
use vstd::prelude::*;

verus! {

/// The number of nanoseconds in a second.
pub const NANOS_PER_SEC: u128 = 1_000_000_000;

/// A point in time, given by its distance from the Unix epoch.
#[derive(Debug, Clone, Copy, PartialEq, Eq, Structural)]
pub struct Timestamp {
    /// Whether the point lies before the epoch.
    pub before_epoch: bool,
    /// Whole seconds between the epoch and the point.
    pub secs: u64,
    /// Nanoseconds on top of the whole seconds.
    pub nanos: u32,
}

impl Timestamp {
    /// The point's position on the time line: nanoseconds after the epoch,
    /// negative for a point before it.
    pub open spec fn position(self) -> int {
        let distance = self.secs * NANOS_PER_SEC + self.nanos;
        if self.before_epoch {
            -distance
        } else {
            distance
        }
    }

    /// Whole seconds from `self` to `later`, rounded down.
    pub open spec fn whole_secs_until(self, later: Timestamp) -> int {
        (later.position() - self.position()) / (NANOS_PER_SEC as int)
    }

    /// The current time of the system clock.
    pub fn now() -> (now: Timestamp)
        ensures
            now.nanos < NANOS_PER_SEC,
    {
        read_system_clock()
    }

    /// Nanoseconds that have passed from `earlier` to `self`, or `None` where
    /// `earlier` is the later of the two.
    pub fn nanos_since(&self, earlier: &Timestamp) -> (elapsed: Option<u128>)
        ensures
            elapsed is Some <==> earlier.position() <= self.position(),
            elapsed matches Some(n) ==> n == self.position() - earlier.position(),
    {
        let to: u128 = self.secs as u128 * NANOS_PER_SEC + self.nanos as u128;
        let from: u128 = earlier.secs as u128 * NANOS_PER_SEC + earlier.nanos as u128;
        if earlier.before_epoch {
            if !self.before_epoch {
                Some(from + to)
            } else if to <= from {
                Some(from - to)
            } else {
                None
            }
        } else if self.before_epoch {
            if to == 0 && from == 0 {
                Some(0)
            } else {
                None
            }
        } else if from <= to {
            Some(to - from)
        } else {
            None
        }
    }
}

/// Calls [`std::time::SystemTime::now`] and takes the distance of the time it
/// gives from the Unix epoch apart. What the clock shows is left open. The only
/// claim is that the part below a second is less than a second, which
/// [`std::time::Duration::subsec_nanos`] documents.
#[verifier::external_body]
fn read_system_clock() -> (now: Timestamp)
    ensures
        now.nanos < NANOS_PER_SEC,
{
    match std::time::SystemTime::now().duration_since(std::time::SystemTime::UNIX_EPOCH) {
        Ok(d) => Timestamp { before_epoch: false, secs: d.as_secs(), nanos: d.subsec_nanos() },
        Err(e) => Timestamp {
            before_epoch: true,
            secs: e.duration().as_secs(),
            nanos: e.duration().subsec_nanos(),
        },
    }
}

/// Points lie on one time line: the epoch at zero, a point with one more second a
/// thousand million nanoseconds further from it, one with one more nanosecond one
/// further, and a point before the epoch as far from it as its mirror image after it.
pub proof fn law_time_line(point: Timestamp)
    ensures
        (Timestamp { secs: 0, nanos: 0, ..point }).position() == 0,
        !point.before_epoch && point.secs < u64::MAX ==> (Timestamp {
            secs: (point.secs + 1) as u64,
            ..point
        }).position() == point.position() + 1_000_000_000,
        !point.before_epoch && point.nanos < u32::MAX ==> (Timestamp {
            nanos: (point.nanos + 1) as u32,
            ..point
        }).position() == point.position() + 1,
        (Timestamp { before_epoch: !point.before_epoch, ..point }).position() == -point.position(),
{
}

/// At least `secs` whole seconds lie between two points if and only if as many
/// thousand million nanoseconds do.
pub proof fn law_whole_secs(earlier: Timestamp, later: Timestamp, secs: int)
    ensures
        earlier.whole_secs_until(later) >= secs <==> later.position() - earlier.position() >= secs
            * 1_000_000_000,
{
}

} // verus!
