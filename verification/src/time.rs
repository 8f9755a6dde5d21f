use vstd::prelude::*;

verus! {

/// Earliest point in time the library represents, in milliseconds since
/// the Unix epoch (roughly 253,000 years before it).
pub const MIN_EPOCH_MILLIS: i64 = -8_000_000_000_000_000;

/// Latest point in time the library represents, in milliseconds since
/// the Unix epoch.
pub const MAX_EPOCH_MILLIS: i64 = 8_000_000_000_000_000;

/// A point in time with millisecond resolution, held as a bounded count
/// of milliseconds since the Unix epoch.
#[derive(Clone, Copy, Debug, PartialEq, Eq, Structural, Hash)]
pub struct Timestamp {
    millis: i64,
}

impl Timestamp {
    /// The milliseconds since the epoch, as a mathematical integer.
    pub closed spec fn spec_millis(self) -> int {
        self.millis as int
    }

    /// Every constructed timestamp lies within the representable range.
    pub open spec fn wf(self) -> bool {
        MIN_EPOCH_MILLIS <= self.spec_millis() <= MAX_EPOCH_MILLIS
    }

    /// The timestamp at the given milliseconds since the epoch, when the
    /// value lies within the representable range.
    pub fn from_epoch_millis(epoch_millis: i64) -> (r: Option<Timestamp>)
        ensures
            match r {
                Some(t) => MIN_EPOCH_MILLIS <= epoch_millis <= MAX_EPOCH_MILLIS
                    && t.wf() && t.spec_millis() == epoch_millis,
                None => !(MIN_EPOCH_MILLIS <= epoch_millis <= MAX_EPOCH_MILLIS),
            },
    {
        if MIN_EPOCH_MILLIS <= epoch_millis && epoch_millis <= MAX_EPOCH_MILLIS {
            Some(Timestamp { millis: epoch_millis })
        } else {
            None
        }
    }

    /// The timestamp at the given whole seconds since the epoch, when the
    /// value lies within the representable range.
    pub fn from_epoch_secs(epoch_secs: i64) -> (r: Option<Timestamp>)
        ensures
            match r {
                Some(t) => MIN_EPOCH_MILLIS <= epoch_secs * 1000 <= MAX_EPOCH_MILLIS
                    && t.wf() && t.spec_millis() == epoch_secs * 1000,
                None => !(MIN_EPOCH_MILLIS <= epoch_secs * 1000 <= MAX_EPOCH_MILLIS),
            },
    {
        if -8_000_000_000_000 <= epoch_secs && epoch_secs <= 8_000_000_000_000 {
            Some(Timestamp { millis: epoch_secs * 1000 })
        } else {
            None
        }
    }

    /// The milliseconds since the epoch.
    pub fn as_epoch_millis(self) -> (r: i64)
        ensures
            r == self.spec_millis(),
    {
        self.millis
    }

    /// The whole seconds since the epoch, rounded toward negative infinity.
    pub fn as_epoch_secs(self) -> (r: i64)
        requires
            self.wf(),
        ensures
            r == self.spec_millis() / 1000,
    {
        let q: i64 = self.millis / 1000;
        let rem: i64 = self.millis % 1000;
        if rem < 0 {
            q - 1
        } else {
            q
        }
    }

    /// The timestamp later by the given milliseconds, when it stays within
    /// the representable range.
    pub fn checked_add_millis(self, millis: u64) -> (r: Option<Timestamp>)
        requires
            self.wf(),
        ensures
            match r {
                Some(t) => t.wf() && t.spec_millis() == self.spec_millis() + millis,
                None => self.spec_millis() + millis > MAX_EPOCH_MILLIS,
            },
    {
        if millis > (MAX_EPOCH_MILLIS - MIN_EPOCH_MILLIS) as u64 {
            return None;
        }
        let sum: i64 = self.millis + millis as i64;
        if sum > MAX_EPOCH_MILLIS {
            None
        } else {
            Some(Timestamp { millis: sum })
        }
    }

    /// The signed difference in milliseconds between this timestamp and an
    /// earlier one (negative when this one comes first).
    pub fn millis_since(self, earlier: Timestamp) -> (r: i64)
        requires
            self.wf(),
            earlier.wf(),
        ensures
            r == self.spec_millis() - earlier.spec_millis(),
    {
        self.millis - earlier.millis
    }

    /// Whether this timestamp is at or before the other.
    pub fn le(self, other: Timestamp) -> (r: bool)
        ensures
            r == (self.spec_millis() <= other.spec_millis()),
    {
        self.millis <= other.millis
    }
}

} // verus!

verus! {

/// Relies on `std::time::SystemTime::now` measured against the Unix epoch:
/// the wall clock as whole milliseconds since the epoch, or `None` when
/// the clock reads before the epoch or beyond what an `i64` holds.
#[verifier::external_body]
fn system_now_millis() -> (r: Option<i64>)
    ensures
        match r {
            Some(v) => v >= 0,
            None => true,
        },
{
    std::time::SystemTime::now()
        .duration_since(std::time::UNIX_EPOCH)
        .ok()
        .and_then(|d| i64::try_from(d.as_millis()).ok())
}

impl Timestamp {
    /// The wall clock now, when it reads within the representable range.
    pub fn now() -> (r: Option<Timestamp>)
        ensures
            match r {
                Some(t) => t.wf() && t.spec_millis() >= 0,
                None => true,
            },
    {
        match system_now_millis() {
            Some(ms) => Timestamp::from_epoch_millis(ms),
            None => None,
        }
    }
}

} // verus!
