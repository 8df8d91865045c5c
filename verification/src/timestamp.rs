//! Unix timestamps and the monotonic "last observed time" cell that metric
//! state machines attach to.

use vstd::prelude::*;

verus! {

/// A Unix timestamp, represented in seconds since the Unix epoch.
#[derive(Copy, Clone, Debug, Hash, PartialEq, Eq, Structural)]
pub struct UnixTimestamp(u64);

/// `std::time::SystemTime`, declared so that a wall-clock reading can be
/// turned into a [`UnixTimestamp`].
#[verifier::external_type_specification]
#[verifier::external_body]
pub struct ExSystemTime(std::time::SystemTime);

impl UnixTimestamp {
    /// The seconds this timestamp holds.
    pub closed spec fn secs_spec(&self) -> u64 {
        self.0
    }

    /// Returns the timestamp `secs` seconds after the Unix epoch.
    pub fn from_secs(secs: u64) -> (t: Self)
        ensures
            t.secs_spec() == secs,
    {
        UnixTimestamp(secs)
    }

    /// The seconds this timestamp holds.
    pub fn as_secs(self) -> (secs: u64)
        ensures
            secs == self.secs_spec(),
    {
        self.0
    }

    /// Relies on `SystemTime::duration_since`: the reading of `time`,
    /// counted in whole seconds since the Unix epoch, or `None` when the
    /// clock reads from before the epoch, which its error reports. Which
    /// seconds a given `SystemTime` holds cannot be stated here, so the
    /// returned value is unspecified.
    #[verifier::external_body]
    pub fn from_std(time: std::time::SystemTime) -> (t: Option<Self>)
    {
        match time.duration_since(std::time::UNIX_EPOCH) {
            Ok(d) => Some(UnixTimestamp(d.as_secs())),
            Err(_) => None,
        }
    }

    /// Relies on `SystemTime::now`: the current wall clock, about which
    /// nothing can be promised; `None` when it reads from before the Unix
    /// epoch.
    #[verifier::external_body]
    pub fn now() -> (t: Option<Self>)
    {
        Self::from_std(std::time::SystemTime::now())
    }
}

impl Default for UnixTimestamp {
    /// The epoch itself.
    fn default() -> (t: Self)
        ensures
            t.secs_spec() == 0,
    {
        UnixTimestamp(0)
    }
}

/// An atomic-in-spirit "most recently accepted time" cell: its value only
/// ever advances, whatever order updates arrive in.
#[derive(Copy, Clone, Debug, PartialEq, Eq, Structural)]
pub struct TimestampCell {
    now: u64,
}

impl TimestampCell {
    /// The seconds of the most recently accepted update, zero before any.
    pub closed spec fn now_spec(&self) -> u64 {
        self.now
    }

    /// The cell [`TimestampCell::new`] returns: one that has accepted no
    /// update yet.
    pub closed spec fn new_spec() -> TimestampCell {
        TimestampCell { now: 0 }
    }

    /// A fresh cell reads as time zero.
    pub proof fn lemma_new_spec()
        ensures
            Self::new_spec().now_spec() == 0,
    {
    }

    /// Returns a cell that has accepted no update yet.
    pub fn new() -> (c: Self)
        ensures
            c == Self::new_spec(),
            c.now_spec() == 0,
    {
        TimestampCell { now: 0 }
    }

    /// Raise the stored value to `now` if that is an advance; used by
    /// counters, where only-increasing semantics are correct whatever the
    /// race order.
    pub fn update_max(&mut self, now: u64)
        ensures
            final(self).now_spec() == if now > old(self).now_spec() {
                now
            } else {
                old(self).now_spec()
            },
    {
        if now > self.now {
            self.now = now;
        }
    }

    /// Replace the stored value with `now` only when `now` is strictly
    /// ahead of it, reporting whether the replacement happened; used by
    /// gauges, whose guarded update must be discarded whole when the
    /// timestamp does not advance. A tie counts as no advance: the first
    /// writer at a given time wins.
    pub fn update_if_ahead(&mut self, now: u64) -> (advanced: bool)
        ensures
            advanced == (now > old(self).now_spec()),
            final(self).now_spec() == if now > old(self).now_spec() {
                now
            } else {
                old(self).now_spec()
            },
            !advanced ==> *final(self) == *old(self),
    {
        if now > self.now {
            self.now = now;
            true
        } else {
            false
        }
    }

    /// The most recently accepted time, as a timestamp.
    pub fn timestamp(&self) -> (t: UnixTimestamp)
        ensures
            t.secs_spec() == self.now_spec(),
    {
        UnixTimestamp::from_secs(self.now)
    }
}

/// The cell's value after a whole sequence of `update_if_ahead` calls with
/// the given times, applied in order to a cell holding `t0`.
pub open spec fn run_updates(t0: u64, times: Seq<u64>) -> u64
    decreases times.len(),
{
    if times.len() == 0 {
        t0
    } else {
        run_updates(
            if times[0] > t0 {
                times[0]
            } else {
                t0
            },
            times.drop_first(),
        )
    }
}

/// Monotonic timestamps: after any sequence of `update_if_ahead` calls the
/// cell holds the maximum of its starting value and every offered time —
/// it never regresses, every offered time is covered, and the result is
/// nothing other than one of those values.
pub proof fn lemma_final_timestamp_is_max(t0: u64, times: Seq<u64>)
    ensures
        run_updates(t0, times) >= t0,
        forall|i: int| 0 <= i < times.len() ==> run_updates(t0, times) >= times[i],
        run_updates(t0, times) == t0 || exists|i: int|
            0 <= i < times.len() && run_updates(t0, times) == times[i],
    decreases times.len(),
{
    if times.len() > 0 {
        let t1 = if times[0] > t0 {
            times[0]
        } else {
            t0
        };
        lemma_final_timestamp_is_max(t1, times.drop_first());
        assert(forall|i: int|
            1 <= i < times.len() ==> times.drop_first()[i - 1] == (#[trigger] times[i]));
    }
}

} // verus!
