use vstd::prelude::*;

verus! {

/// Nanoseconds in one second, the resolution of a block timestamp.
pub const NANOS_PER_SECOND: u64 = 1000000000;

/// The part of a block header the lottery reads: the chain height and the
/// block time in nanoseconds since the epoch.
#[derive(Debug, Clone, Copy, PartialEq, Eq, Structural)]
pub struct BlockInfo {
    pub height: u64,
    pub time: u64,
}

/// The host environment handed to every operation.
#[derive(Debug, Clone, Copy, PartialEq, Eq, Structural)]
pub struct Env {
    pub block: BlockInfo,
}

/// A span of blocks or of seconds, measured from the current block.
#[derive(Debug, Clone, Copy, PartialEq, Eq, Structural)]
pub enum Duration {
    Height(u64),
    /// Time in seconds.
    Time(u64),
}

/// An absolute point after which the purchase window is closed.
#[derive(Debug, Clone, Copy, PartialEq, Eq, Structural)]
pub enum Expiration {
    /// Expires once `block.height >= height`.
    AtHeight(u64),
    /// Expires once `block.time >= time`, in nanoseconds.
    AtTime(u64),
    /// Never expires.
    Never,
}

/// Whether `duration.after(block)` can be computed without overflowing.
pub open spec fn duration_fits(duration: Duration, block: BlockInfo) -> bool {
    match duration {
        Duration::Height(h) => block.height + h <= u64::MAX,
        Duration::Time(t) => block.time + t * NANOS_PER_SECOND <= u64::MAX,
    }
}

/// The deadline reached by waiting `duration` from `block`.
pub open spec fn spec_after(duration: Duration, block: BlockInfo) -> Expiration {
    match duration {
        Duration::Height(h) => Expiration::AtHeight((block.height + h) as u64),
        Duration::Time(t) => Expiration::AtTime((block.time + t * NANOS_PER_SECOND) as u64),
    }
}

/// Whether `expiration` has elapsed at `block`.
pub open spec fn spec_is_expired(expiration: Expiration, block: BlockInfo) -> bool {
    match expiration {
        Expiration::AtHeight(height) => block.height >= height,
        Expiration::AtTime(time) => block.time >= time,
        Expiration::Never => false,
    }
}

impl Duration {
    /// The expiration reached by waiting this duration from `block`.
    pub fn after(&self, block: &BlockInfo) -> (r: Expiration)
        requires
            duration_fits(*self, *block),
        ensures
            r == spec_after(*self, *block),
    {
        match self {
            Duration::Height(h) => Expiration::AtHeight(block.height + *h),
            Duration::Time(t) => Expiration::AtTime(block.time + *t * NANOS_PER_SECOND),
        }
    }
}

impl Expiration {
    /// Polling check of the deadline against the current block.
    pub fn is_expired(&self, block: &BlockInfo) -> (r: bool)
        ensures
            r == spec_is_expired(*self, *block),
    {
        match self {
            Expiration::AtHeight(height) => block.height >= *height,
            Expiration::AtTime(time) => block.time >= *time,
            Expiration::Never => false,
        }
    }
}

} // verus!
