//! The resident-set budget of a conversion.
//!
//! A guard records the resident set size (RSS) at the moment it is made
//! and, at each checkpoint, compares the growth since then against a limit.
//! The RSS itself is read by the caller (reading it is I/O; [`crate::rss`]
//! turns the text the operating system reports it in into a number); a reading of
//! `None` stands for a platform where RSS cannot be read, and the guard
//! then lets the conversion go on (fail-open).

use vstd::prelude::*;

use crate::config::MIB;
use crate::error::{Error, ErrorKind};

verus! {

/// Enforces a limit on the growth of the resident set.
pub struct MemoryGuard {
    limit_bytes: u64,
    /// RSS recorded when the guard was made: the baseline of the growth.
    baseline_bytes: u64,
}

/// Growth of the resident set from `baseline` to `rss`, saturating at 0.
pub open spec fn rss_growth(rss: u64, baseline: u64) -> u64 {
    if rss >= baseline {
        (rss - baseline) as u64
    } else {
        0
    }
}

/// The baseline that a guard takes from an RSS reading: the reading, or 0
/// when it is unknown.
pub open spec fn baseline_of(rss: Option<u64>) -> u64 {
    match rss {
        Some(b) => b,
        None => 0,
    }
}

/// What a guard with limit `limit` and baseline `baseline` says of the
/// reading `rss`: `Ok(())` when the reading is unknown or the growth is
/// below the limit, else `MemoryExceeded` with the growth and the limit in MiB.
pub open spec fn guard_verdict(limit: u64, baseline: u64, rss: Option<u64>) -> Result<(), ErrorKind> {
    match rss {
        None => Ok(()),
        Some(r) => {
            let delta = rss_growth(r, baseline);
            if delta >= limit {
                Err(ErrorKind::MemoryExceeded {
                    used_mb: (delta / MIB) as u64,
                    limit_mb: (limit / MIB) as u64,
                })
            } else {
                Ok(())
            }
        },
    }
}

impl MemoryGuard {
    /// The configured limit in bytes.
    pub closed spec fn limit(&self) -> u64 {
        self.limit_bytes
    }

    /// The RSS baseline in bytes.
    pub closed spec fn baseline(&self) -> u64 {
        self.baseline_bytes
    }

    /// The guard that `new` makes from a limit and an RSS reading.
    pub open spec fn made_from(&self, limit_bytes: u64, rss: Option<u64>) -> bool {
        &&& self.limit() == limit_bytes
        &&& self.baseline() == baseline_of(rss)
    }

    /// What a check against the reading `rss` gives.
    pub open spec fn spec_check(&self, rss: Option<u64>) -> Result<(), ErrorKind> {
        guard_verdict(self.limit(), self.baseline(), rss)
    }

    /// Make a guard with the given limit (`u64::MAX` disables it) whose
    /// baseline is the RSS reading `current_rss` (0 when it is unknown).
    pub fn new(limit_bytes: u64, current_rss: Option<u64>) -> (g: Self)
        ensures
            g.made_from(limit_bytes, current_rss),
    {
        let baseline_bytes = match current_rss {
            Some(b) => b,
            None => 0,
        };
        MemoryGuard { limit_bytes, baseline_bytes }
    }

    /// Check the RSS reading `current_rss` against the guard: `Ok(())` when
    /// the growth since the baseline is below the limit or the reading is
    /// unknown, [`Error::MemoryExceeded`] when `current − baseline ≥ limit`.
    /// A limit of `0` therefore fails on every known reading.
    pub fn check(&self, current_rss: Option<u64>) -> (r: Result<(), Error>)
        ensures
            outcome_unit(&r) == self.spec_check(current_rss),
    {
        match current_rss {
            None => Ok(()),
            Some(rss) => {
                let delta = if rss >= self.baseline_bytes {
                    rss - self.baseline_bytes
                } else {
                    0
                };
                if delta >= self.limit_bytes {
                    Err(Error::MemoryExceeded {
                        used_mb: delta / MIB,
                        limit_mb: self.limit_bytes / MIB,
                    })
                } else {
                    Ok(())
                }
            },
        }
    }
}

/// The outcome of a check: `Ok(())`, or the kind of its error.
pub open spec fn outcome_unit(r: &Result<(), Error>) -> Result<(), ErrorKind> {
    match r {
        Ok(_) => Ok(()),
        Err(e) => Err(e.kind()),
    }
}

/// A guard whose limit is `u64::MAX` never fails while the growth stays
/// below `u64::MAX` bytes.
pub proof fn lemma_unlimited_guard_passes(g: MemoryGuard, rss: Option<u64>)
    requires
        g.limit() == u64::MAX,
        rss matches Some(r) ==> rss_growth(r, g.baseline()) < u64::MAX,
    ensures
        g.spec_check(rss) == Ok::<(), ErrorKind>(()),
{
}

/// A guard whose limit is `0` fails on every known reading.
pub proof fn lemma_zero_limit_guard_fails(g: MemoryGuard, rss: u64)
    requires
        g.limit() == 0,
    ensures
        g.spec_check(Some(rss)) is Err,
{
}

/// A reading at or below the baseline never fails a guard with a positive
/// limit: only growth counts, not the RSS the process already had.
pub proof fn lemma_no_growth_passes(g: MemoryGuard, rss: u64)
    requires
        g.limit() > 0,
        rss <= g.baseline(),
    ensures
        g.spec_check(Some(rss)) == Ok::<(), ErrorKind>(()),
{
}

/// A guard's verdict on a reading: an unknown reading passes; a known one
/// fails, with the growth and the limit in whole MiB, exactly when the
/// growth over the baseline (0 when the reading is below it) reaches the
/// limit.
pub proof fn lemma_guard_fails_when_growth_reaches_limit(limit: u64, baseline: u64, rss: Option<u64>)
    ensures
        guard_verdict(limit, baseline, rss) == match rss {
            None => Ok(()),
            Some(r) => {
                let growth: int = if r >= baseline {
                    r - baseline
                } else {
                    0
                };
                if growth >= limit {
                    Err(
                        ErrorKind::MemoryExceeded {
                            used_mb: (growth / 1048576) as u64,
                            limit_mb: (limit / 1048576) as u64,
                        },
                    )
                } else {
                    Ok(())
                }
            },
        },
{
}

} // verus!
