//! Running statistics of a session: shakes, reels, catches and bite durations.
use vstd::prelude::*;

verus! {

/// Counters of a session and the durations of its bites, in seconds.
pub struct Stats {
    pub enabled: bool,
    /// Shake count.
    pub shakes: u64,
    /// Reel count.
    pub reels: u64,
    fishes: u64,
    total_fishing_time: u64,
    max_fishing_time: u64,
    min_fishing_time: u64,
}

/// Bite durations: shortest (of those over zero seconds), longest and mean.
#[derive(Clone, Copy, Debug, PartialEq, Eq, Structural)]
pub struct FishingTimes {
    pub average: u64,
    pub maximum: u64,
    pub minimum: u64,
}

/// What a session's statistics report.
#[derive(Clone, Copy, Debug, PartialEq, Eq, Structural)]
pub struct StatsSummary {
    pub shakes: u64,
    pub reels: u64,
    /// Reels that caught nothing.
    pub missed_reels: u64,
    pub fishes: u64,
    /// Present once a bite of at least one second was recorded.
    pub times: Option<FishingTimes>,
}

pub open spec fn sat_add(a: int, b: int) -> int {
    if a + b > u64::MAX {
        u64::MAX as int
    } else {
        a + b
    }
}

pub open spec fn max_of(a: int, b: int) -> int {
    if a >= b {
        a
    } else {
        b
    }
}

pub open spec fn min_of(a: int, b: int) -> int {
    if a <= b {
        a
    } else {
        b
    }
}

impl Stats {
    pub closed spec fn spec_shakes(&self) -> int {
        self.shakes as int
    }

    pub closed spec fn spec_reels(&self) -> int {
        self.reels as int
    }

    pub closed spec fn spec_fishes(&self) -> int {
        self.fishes as int
    }

    pub closed spec fn spec_total(&self) -> int {
        self.total_fishing_time as int
    }

    pub closed spec fn spec_max(&self) -> int {
        self.max_fishing_time as int
    }

    pub closed spec fn spec_min(&self) -> int {
        self.min_fishing_time as int
    }

    pub closed spec fn spec_enabled(&self) -> bool {
        self.enabled
    }

    pub fn new(enabled: bool) -> (r: Stats)
        ensures
            r.spec_enabled() == enabled,
            r.spec_shakes() == 0,
            r.spec_reels() == 0,
            r.spec_fishes() == 0,
            r.spec_total() == 0,
            r.spec_max() == 0,
            r.spec_min() == u64::MAX,
    {
        Stats {
            enabled,
            reels: 0,
            shakes: 0,
            fishes: 0,
            total_fishing_time: 0,
            max_fishing_time: u64::MIN,
            min_fishing_time: u64::MAX,
        }
    }

    /// Counts one shake.
    pub fn add_shake(&mut self)
        ensures
            final(self).spec_shakes() == sat_add(old(self).spec_shakes(), 1),
            final(self).spec_reels() == old(self).spec_reels(),
            final(self).spec_fishes() == old(self).spec_fishes(),
            final(self).spec_total() == old(self).spec_total(),
            final(self).spec_max() == old(self).spec_max(),
            final(self).spec_min() == old(self).spec_min(),
            final(self).spec_enabled() == old(self).spec_enabled(),
    {
        self.shakes = self.shakes.saturating_add(1);
    }

    /// Counts one reel.
    pub fn add_reel(&mut self)
        ensures
            final(self).spec_reels() == sat_add(old(self).spec_reels(), 1),
            final(self).spec_shakes() == old(self).spec_shakes(),
            final(self).spec_fishes() == old(self).spec_fishes(),
            final(self).spec_total() == old(self).spec_total(),
            final(self).spec_max() == old(self).spec_max(),
            final(self).spec_min() == old(self).spec_min(),
            final(self).spec_enabled() == old(self).spec_enabled(),
    {
        self.reels = self.reels.saturating_add(1);
    }

    /// Records a catch whose bite lasted `time` seconds; a bite under one second
    /// does not count towards the minimum.
    pub fn add_fishing_time(&mut self, time: u64)
        ensures
            final(self).spec_fishes() == sat_add(old(self).spec_fishes(), 1),
            final(self).spec_total() == sat_add(old(self).spec_total(), time as int),
            final(self).spec_max() == max_of(old(self).spec_max(), time as int),
            final(self).spec_min() == if time > 0 {
                min_of(old(self).spec_min(), time as int)
            } else {
                old(self).spec_min()
            },
            final(self).spec_shakes() == old(self).spec_shakes(),
            final(self).spec_reels() == old(self).spec_reels(),
            final(self).spec_enabled() == old(self).spec_enabled(),
    {
        self.fishes = self.fishes.saturating_add(1);
        self.total_fishing_time = self.total_fishing_time.saturating_add(time);
        if time > self.max_fishing_time {
            self.max_fishing_time = time;
        }
        if time > 0 && time < self.min_fishing_time {
            self.min_fishing_time = time;
        }
    }

    /// What `summary` reports.
    pub open spec fn spec_summary(&self) -> StatsSummary {
        StatsSummary {
            shakes: self.spec_shakes() as u64,
            reels: self.spec_reels() as u64,
            missed_reels: if self.spec_reels() >= self.spec_fishes() {
                (self.spec_reels() - self.spec_fishes()) as u64
            } else {
                0
            },
            fishes: self.spec_fishes() as u64,
            times: if self.spec_max() > 0 && self.spec_fishes() > 0 {
                Some(
                    FishingTimes {
                        average: (self.spec_total() / self.spec_fishes()) as u64,
                        maximum: self.spec_max() as u64,
                        minimum: self.spec_min() as u64,
                    },
                )
            } else {
                None
            },
        }
    }

    /// The report: counters, reels that caught nothing, and the bite durations once
    /// a bite of at least one second was recorded (the mean over all catches).
    pub fn summary(&self) -> (r: StatsSummary)
        ensures
            r.shakes == self.spec_shakes(),
            r.reels == self.spec_reels(),
            r.fishes == self.spec_fishes(),
            r.missed_reels == if self.spec_reels() >= self.spec_fishes() {
                self.spec_reels() - self.spec_fishes()
            } else {
                0
            },
            r.times is Some <==> self.spec_max() > 0 && self.spec_fishes() > 0,
            r.times matches Some(t) ==> t.maximum == self.spec_max() && t.minimum == self.spec_min()
                && t.average == self.spec_total() / self.spec_fishes(),
            r == self.spec_summary(),
    {
        let times = if self.max_fishing_time > 0 && self.fishes > 0 {
            Some(
                FishingTimes {
                    average: self.total_fishing_time / self.fishes,
                    maximum: self.max_fishing_time,
                    minimum: self.min_fishing_time,
                },
            )
        } else {
            None
        };
        StatsSummary {
            shakes: self.shakes,
            reels: self.reels,
            missed_reels: self.reels.saturating_sub(self.fishes),
            fishes: self.fishes,
            times,
        }
    }

    /// The report, when statistics are enabled.
    pub fn report(&self) -> (r: Option<StatsSummary>)
        ensures
            r == if self.spec_enabled() {
                Some(self.spec_summary())
            } else {
                None
            },
    {
        if self.enabled {
            Some(self.summary())
        } else {
            None
        }
    }
}

} // verus!
