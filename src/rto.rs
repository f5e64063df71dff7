use vstd::prelude::*;

verus! {

/// Smallest retransmission timeout: 100 ms, in nanoseconds.
pub const MIN_RTO: u64 = 100_000_000;
/// Largest retransmission timeout: 60 s, in nanoseconds.
pub const MAX_RTO: u64 = 60_000_000_000;
/// Timeout before the first round-trip sample: 1 s, in nanoseconds.
pub const INITIAL_RTO: u64 = 1_000_000_000;
/// Clock granularity added to the variance term: 1 ms, in nanoseconds.
pub const CLOCK_GRANULARITY: u64 = 1_000_000;

/// The timeout for a smoothed round-trip time and variance (RFC 6298, section 2):
/// `srtt + max(G, 4 * rttvar)`, clamped into `[MIN_RTO, MAX_RTO]`.
pub open spec fn rto_of(srtt: int, rttvar: int) -> int {
    let v = if 4 * rttvar > CLOCK_GRANULARITY { 4 * rttvar } else { CLOCK_GRANULARITY as int };
    let t = srtt + v;
    if t < MIN_RTO {
        MIN_RTO as int
    } else if t > MAX_RTO {
        MAX_RTO as int
    } else {
        t
    }
}

/// Absolute difference.
pub open spec fn abs_diff(a: int, b: int) -> int {
    if a >= b {
        a - b
    } else {
        b - a
    }
}

/// Retransmission-timeout estimator (Jacobson/Karn, RFC 6298) on nanosecond integers,
/// with gains 1/8 for the mean and 1/4 for the variance.
#[derive(Clone, Copy, Debug)]
pub struct RtoCalculator {
    srtt: u64,
    rttvar: u64,
    rto: u64,
    received_sample: bool,
}

impl RtoCalculator {
    pub closed spec fn srtt_spec(&self) -> u64 {
        self.srtt
    }

    pub closed spec fn rttvar_spec(&self) -> u64 {
        self.rttvar
    }

    pub closed spec fn rto_spec(&self) -> u64 {
        self.rto
    }

    pub closed spec fn sampled_spec(&self) -> bool {
        self.received_sample
    }

    /// Every quantity stays within `MAX_RTO` and the timeout within its clamps.
    pub open spec fn wf(&self) -> bool {
        &&& self.srtt_spec() <= MAX_RTO
        &&& self.rttvar_spec() <= MAX_RTO
        &&& MIN_RTO <= self.rto_spec() <= MAX_RTO
    }

    /// An estimator with no sample yet: the timeout is `INITIAL_RTO`.
    pub fn new() -> (r: Self)
        ensures
            r.wf(),
            r.rto_spec() == INITIAL_RTO,
            !r.sampled_spec(),
    {
        RtoCalculator { srtt: INITIAL_RTO, rttvar: 0, rto: INITIAL_RTO, received_sample: false }
    }

    /// The current timeout.
    pub fn rto(&self) -> (r: u64)
        ensures
            r == self.rto_spec(),
    {
        self.rto
    }

    /// Folds in one round-trip measurement, capped at `MAX_RTO`. The first sets the mean
    /// to it and the variance to half of it; later ones move the variance a quarter of
    /// the way toward the distance between mean and sample, then the mean an eighth of
    /// the way toward the sample. The timeout is then recomputed.
    pub fn add_sample(&mut self, rtt: u64)
        requires
            old(self).wf(),
        ensures
            final(self).wf(),
            final(self).sampled_spec(),
            ({
                let r = if rtt > MAX_RTO { MAX_RTO as int } else { rtt as int };
                let s = old(self).srtt_spec() as int;
                let v = old(self).rttvar_spec() as int;
                &&& !old(self).sampled_spec() ==> final(self).srtt_spec() == r
                    && final(self).rttvar_spec() == r / 2
                &&& old(self).sampled_spec() ==> final(self).rttvar_spec() == v - v / 4
                    + abs_diff(s, r) / 4 && final(self).srtt_spec() == s - s / 8 + r / 8
            }),
            final(self).rto_spec() == rto_of(
                final(self).srtt_spec() as int,
                final(self).rttvar_spec() as int,
            ),
    {
        let r: u64 = if rtt > MAX_RTO {
            MAX_RTO
        } else {
            rtt
        };
        if !self.received_sample {
            self.srtt = r;
            self.rttvar = r / 2;
            self.received_sample = true;
        } else {
            let diff: u64 = if self.srtt >= r {
                self.srtt - r
            } else {
                r - self.srtt
            };
            self.rttvar = self.rttvar - self.rttvar / 4 + diff / 4;
            self.srtt = self.srtt - self.srtt / 8 + r / 8;
        }
        self.rto = compute_rto(self.srtt, self.rttvar);
    }

    /// Doubles the timeout after a retransmission, up to `MAX_RTO`.
    pub fn back_off(&mut self)
        requires
            old(self).wf(),
        ensures
            final(self).wf(),
            final(self).rto_spec() as int == if 2 * old(self).rto_spec() > MAX_RTO {
                MAX_RTO as int
            } else {
                2 * old(self).rto_spec()
            },
            final(self).srtt_spec() == old(self).srtt_spec(),
            final(self).rttvar_spec() == old(self).rttvar_spec(),
            final(self).sampled_spec() == old(self).sampled_spec(),
    {
        self.rto = if self.rto > MAX_RTO / 2 {
            MAX_RTO
        } else {
            self.rto * 2
        };
    }
}

fn compute_rto(srtt: u64, rttvar: u64) -> (r: u64)
    requires
        srtt <= MAX_RTO,
        rttvar <= MAX_RTO,
    ensures
        r as int == rto_of(srtt as int, rttvar as int),
        MIN_RTO <= r <= MAX_RTO,
{
    let v: u64 = if 4 * rttvar > CLOCK_GRANULARITY {
        4 * rttvar
    } else {
        CLOCK_GRANULARITY
    };
    let t: u64 = srtt + v;
    if t < MIN_RTO {
        MIN_RTO
    } else if t > MAX_RTO {
        MAX_RTO
    } else {
        t
    }
}

} // verus!
