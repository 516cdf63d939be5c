//! Keeping count of work that takes long: how much is done, how much was
//! expected, and when it is time to say so again.
//!
//! The timer reads no clock. Its caller does, and hands it the reading in
//! milliseconds, from a clock that does not go back.

use vstd::prelude::*;

verus! {

/// The silence, in milliseconds, after which progress is told again.
pub const REPORT_INTERVAL_MILLIS: u64 = 5000;

/// The time from `then` to `now`, and none if the clock went back.
pub open spec fn elapsed(then: u64, now: u64) -> u64 {
    if now >= then {
        (now - then) as u64
    } else {
        0
    }
}

/// What is left of `expected_total` after `total`, and nothing if more was
/// done than expected.
pub open spec fn remaining(expected_total: usize, total: usize) -> usize {
    if expected_total >= total {
        (expected_total - total) as usize
    } else {
        0
    }
}

/// How far the work is, to be told.
#[derive(Clone, Copy, PartialEq, Eq, Debug)]
pub struct Progress {
    pub total: usize,
    pub expected_total: usize,
    /// What is still to do, if the expectation holds.
    pub remaining: usize,
    /// The milliseconds since the work began.
    pub elapsed: u64,
}

/// The end of the work, to be told.
#[derive(Clone, Copy, PartialEq, Eq, Debug)]
pub struct Finished {
    pub total: usize,
    /// The milliseconds since the work began.
    pub elapsed: u64,
}

/// The count of one piece of work.
#[derive(Debug)]
pub struct WorkTimer {
    pub name: String,
    /// The reading of the clock when the work began.
    pub start: u64,
    /// The reading of the clock when progress was last told.
    pub last_report_time: u64,
    pub total: usize,
    pub expected_total: usize,
}

impl WorkTimer {
    /// Whether progress is to be told at `now`.
    pub open spec fn due(&self, now: u64) -> bool {
        elapsed(self.last_report_time, now) > REPORT_INTERVAL_MILLIS
    }

    /// The timer of work that begins at `now`.
    pub fn new(name: String, expected_total: usize, now: u64) -> (timer: Self)
        ensures
            timer.name == name,
            timer.start == now,
            timer.last_report_time == now,
            timer.total == 0,
            timer.expected_total == expected_total,
    {
        Self { name, start: now, last_report_time: now, total: 0, expected_total }
    }

    /// Counts `processed` more, and tells the progress if none was told for
    /// longer than the interval.
    pub fn add_processed(&mut self, processed: usize, now: u64) -> (report: Option<Progress>)
        requires
            old(self).total + processed <= usize::MAX,
        ensures
            final(self).name == old(self).name,
            final(self).start == old(self).start,
            final(self).expected_total == old(self).expected_total,
            final(self).total == old(self).total + processed,
            final(self).last_report_time == if old(self).due(now) {
                now
            } else {
                old(self).last_report_time
            },
            report == if old(self).due(now) {
                Some(
                    Progress {
                        total: (old(self).total + processed) as usize,
                        expected_total: old(self).expected_total,
                        remaining: remaining(
                            old(self).expected_total,
                            (old(self).total + processed) as usize,
                        ),
                        elapsed: elapsed(old(self).start, now),
                    },
                )
            } else {
                None
            },
    {
        self.total = self.total + processed;
        if now.saturating_sub(self.last_report_time) > REPORT_INTERVAL_MILLIS {
            self.last_report_time = now;
            Some(
                Progress {
                    total: self.total,
                    expected_total: self.expected_total,
                    remaining: self.expected_total.saturating_sub(self.total),
                    elapsed: now.saturating_sub(self.start),
                },
            )
        } else {
            None
        }
    }

    /// What there is to tell when the work ends at `now`.
    pub fn finish(&self, now: u64) -> (end: Finished)
        ensures
            end == (Finished { total: self.total, elapsed: elapsed(self.start, now) }),
    {
        Finished { total: self.total, elapsed: now.saturating_sub(self.start) }
    }
}

} // verus!
