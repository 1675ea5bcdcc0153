//! Congestion estimation and adaptive bitrate control.
//!
//! The estimator consumes `ReceiverReport` data from the media control
//! channel and produces `QualityRecommendation`s that pipelines use to adjust
//! encoder bitrates. The loss rate and the scaled bitrates are floating-point
//! products computed by the caller from its configured thresholds and
//! factors; this module keeps the state and makes every decision on them.

use vstd::prelude::*;

verus! {

/// Quality recommendation produced by the congestion estimator.
#[derive(Debug, Clone, PartialEq, Eq)]
pub struct QualityRecommendation {
    /// Target bitrate in bits per second.
    pub target_bitrate_bps: u32,
}

/// How a report's loss rate compares with the configured thresholds.
#[derive(Debug, Clone, Copy, PartialEq, Eq)]
pub enum LossLevel {
    /// Above the reduce threshold: cut the bitrate to `reduced_bps`.
    High { reduced_bps: u32 },
    /// Below the increase threshold: after a sustained period, raise the
    /// bitrate to `increased_bps`.
    Low { increased_bps: u32 },
    /// Between the thresholds: hold steady.
    Moderate,
}

/// `x` clamped to `[lo, hi]`.
pub open spec fn clamp_spec(x: u32, lo: u32, hi: u32) -> u32 {
    if x < lo {
        lo
    } else if x > hi {
        hi
    } else {
        x
    }
}

/// Mathematical state of a [`CongestionController`].
pub struct CongestionView {
    pub current_bitrate_bps: u32,
    pub min_bitrate_bps: u32,
    pub max_bitrate_bps: u32,
    pub increase_delay_nanos: u128,
    pub rtt_ms: u16,
    pub jitter_ms: u32,
    pub low_loss_since: Option<u128>,
    pub reports_received: u64,
}

/// The low-loss timer started at `since` has run for `delay` at `now`
/// (a clock reading before `since` counts as no time elapsed).
pub open spec fn delay_elapsed(since: u128, now: u128, delay: u128) -> bool {
    now >= since && now - since >= delay || (now < since && delay == 0)
}

/// The report sets a new bitrate, clamped to `[min, max]`: high loss always
/// does, low loss once the timer has run for the increase delay.
pub open spec fn report_clamps(v: CongestionView, now: u128, level: LossLevel) -> bool {
    match level {
        LossLevel::High { .. } => true,
        LossLevel::Low { .. } => match v.low_loss_since {
            Some(since) => delay_elapsed(since, now, v.increase_delay_nanos),
            None => false,
        },
        LossLevel::Moderate => false,
    }
}

/// One report: the state after it and the recommendation it returns.
pub open spec fn on_report_spec(
    v: CongestionView,
    jitter: u32,
    rtt_estimate_ms: u16,
    now: u128,
    level: LossLevel,
) -> (CongestionView, Option<QualityRecommendation>) {
    let base = CongestionView {
        reports_received: (v.reports_received + 1) as u64,
        rtt_ms: rtt_estimate_ms,
        jitter_ms: jitter,
        ..v
    };
    let next = match level {
        LossLevel::High { reduced_bps } => CongestionView {
            low_loss_since: None,
            current_bitrate_bps: clamp_spec(reduced_bps, v.min_bitrate_bps, v.max_bitrate_bps),
            ..base
        },
        LossLevel::Low { increased_bps } => match v.low_loss_since {
            None => CongestionView { low_loss_since: Some(now), ..base },
            Some(since) => if delay_elapsed(since, now, v.increase_delay_nanos) {
                CongestionView {
                    current_bitrate_bps: clamp_spec(increased_bps, v.min_bitrate_bps, v.max_bitrate_bps),
                    low_loss_since: Some(now),
                    ..base
                }
            } else {
                base
            },
        },
        LossLevel::Moderate => CongestionView { low_loss_since: None, ..base },
    };
    (
        next,
        if next.current_bitrate_bps != v.current_bitrate_bps {
            Some(QualityRecommendation { target_bitrate_bps: next.current_bitrate_bps })
        } else {
            None
        },
    )
}

/// Tracks network conditions and decides bitrate adjustments.
pub struct CongestionController {
    current_bitrate_bps: u32,
    min_bitrate_bps: u32,
    max_bitrate_bps: u32,
    increase_delay_nanos: u128,
    rtt_ms: u16,
    jitter_ms: u32,
    low_loss_since: Option<u128>,
    reports_received: u64,
}

impl CongestionController {
    pub closed spec fn view(&self) -> CongestionView {
        CongestionView {
            current_bitrate_bps: self.current_bitrate_bps,
            min_bitrate_bps: self.min_bitrate_bps,
            max_bitrate_bps: self.max_bitrate_bps,
            increase_delay_nanos: self.increase_delay_nanos,
            rtt_ms: self.rtt_ms,
            jitter_ms: self.jitter_ms,
            low_loss_since: self.low_loss_since,
            reports_received: self.reports_received,
        }
    }

    /// Create a controller starting at `initial_bitrate_bps`.
    pub fn new(
        initial_bitrate_bps: u32,
        min_bitrate_bps: u32,
        max_bitrate_bps: u32,
        increase_delay_nanos: u128,
    ) -> (c: Self)
        ensures
            c.view() == (CongestionView {
                current_bitrate_bps: initial_bitrate_bps,
                min_bitrate_bps,
                max_bitrate_bps,
                increase_delay_nanos,
                rtt_ms: 0,
                jitter_ms: 0,
                low_loss_since: None,
                reports_received: 0,
            }),
    {
        CongestionController {
            current_bitrate_bps: initial_bitrate_bps,
            min_bitrate_bps,
            max_bitrate_bps,
            increase_delay_nanos,
            rtt_ms: 0,
            jitter_ms: 0,
            low_loss_since: None,
            reports_received: 0,
        }
    }

    /// Process a receiver report at time `now` (nanoseconds of the caller's
    /// clock) and return a recommendation if the bitrate changed.
    ///
    /// High loss cuts the bitrate at once and resets the low-loss timer; low
    /// loss starts the timer, and once it has run for the increase delay the
    /// bitrate is raised and the timer restarts; moderate loss resets the
    /// timer. New bitrates are clamped to `[min, max]`.
    pub fn on_report_at(
        &mut self,
        jitter: u32,
        rtt_estimate_ms: u16,
        now: u128,
        level: LossLevel,
    ) -> (r: Option<QualityRecommendation>)
        requires
            report_clamps(old(self).view(), now, level) ==> old(self).view().min_bitrate_bps
                <= old(self).view().max_bitrate_bps,
            old(self).view().reports_received < u64::MAX,
        ensures
            (final(self).view(), r) == on_report_spec(old(self).view(), jitter, rtt_estimate_ms, now, level),
    {
        self.reports_received = self.reports_received + 1;
        self.rtt_ms = rtt_estimate_ms;
        self.jitter_ms = jitter;
        let old_bitrate = self.current_bitrate_bps;
        match level {
            LossLevel::High { reduced_bps } => {
                self.low_loss_since = None;
                self.current_bitrate_bps = Self::clamp(reduced_bps, self.min_bitrate_bps, self.max_bitrate_bps);
            },
            LossLevel::Low { increased_bps } => {
                match self.low_loss_since {
                    None => {
                        self.low_loss_since = Some(now);
                    },
                    Some(since) => {
                        let elapsed = if now >= since {
                            now - since
                        } else {
                            0
                        };
                        if elapsed >= self.increase_delay_nanos {
                            self.current_bitrate_bps = Self::clamp(
                                increased_bps,
                                self.min_bitrate_bps,
                                self.max_bitrate_bps,
                            );
                            self.low_loss_since = Some(now);
                        }
                    },
                }
            },
            LossLevel::Moderate => {
                self.low_loss_since = None;
            },
        }
        if self.current_bitrate_bps != old_bitrate {
            Some(QualityRecommendation { target_bitrate_bps: self.current_bitrate_bps })
        } else {
            None
        }
    }

    /// Whether a report of `level` at `now` would set a new, clamped
    /// bitrate (see [`report_clamps`]).
    pub fn clamps_on(&self, now: u128, level: LossLevel) -> (b: bool)
        ensures
            b == report_clamps(self.view(), now, level),
    {
        match level {
            LossLevel::High { .. } => true,
            LossLevel::Low { .. } => match self.low_loss_since {
                Some(since) => {
                    let elapsed = if now >= since {
                        now - since
                    } else {
                        0
                    };
                    elapsed >= self.increase_delay_nanos
                },
                None => false,
            },
            LossLevel::Moderate => false,
        }
    }

    /// `x` clamped to `[lo, hi]`.
    pub fn clamp(x: u32, lo: u32, hi: u32) -> (r: u32)
        requires
            lo <= hi,
        ensures
            r == clamp_spec(x, lo, hi),
    {
        if x < lo {
            lo
        } else if x > hi {
            hi
        } else {
            x
        }
    }

    /// Get the current recommended bitrate.
    pub fn current_bitrate_bps(&self) -> (r: u32)
        ensures
            r == self.view().current_bitrate_bps,
    {
        self.current_bitrate_bps
    }

    /// Get the last measured RTT in milliseconds.
    pub fn rtt_ms(&self) -> (r: u16)
        ensures
            r == self.view().rtt_ms,
    {
        self.rtt_ms
    }

    /// Get the last measured jitter in milliseconds.
    pub fn jitter_ms(&self) -> (r: u32)
        ensures
            r == self.view().jitter_ms,
    {
        self.jitter_ms
    }

    /// Total number of reports processed.
    pub fn reports_received(&self) -> (r: u64)
        ensures
            r == self.view().reports_received,
    {
        self.reports_received
    }
}

/// The bitrate never leaves `[min, max]` once inside it, and a recommendation
/// is returned exactly when the bitrate changes, carrying the new bitrate.
pub proof fn law_bitrate_stays_in_bounds(
    v: CongestionView,
    jitter: u32,
    rtt: u16,
    now: u128,
    level: LossLevel,
)
    requires
        v.min_bitrate_bps <= v.current_bitrate_bps <= v.max_bitrate_bps,
    ensures
        ({
            let (w, r) = on_report_spec(v, jitter, rtt, now, level);
            &&& w.min_bitrate_bps <= w.current_bitrate_bps <= w.max_bitrate_bps
            &&& (r is Some <==> w.current_bitrate_bps != v.current_bitrate_bps)
            &&& (r matches Some(q) ==> q.target_bitrate_bps == w.current_bitrate_bps)
        }),
{
}

/// A report with moderate or high loss always stops the low-loss timer, so
/// an increase needs a full delay of uninterrupted low loss after it.
pub proof fn law_loss_resets_increase_timer(
    v: CongestionView,
    jitter: u32,
    rtt: u16,
    now: u128,
    level: LossLevel,
)
    requires
        !(level is Low),
    ensures
        on_report_spec(v, jitter, rtt, now, level).0.low_loss_since is None,
{
}

/// The first low-loss report only starts the timer: it never raises the
/// bitrate.
pub proof fn law_first_low_loss_report_holds(
    v: CongestionView,
    jitter: u32,
    rtt: u16,
    now: u128,
    increased_bps: u32,
)
    requires
        v.low_loss_since is None,
    ensures
        on_report_spec(v, jitter, rtt, now, LossLevel::Low { increased_bps }).1 is None,
        on_report_spec(v, jitter, rtt, now, LossLevel::Low { increased_bps }).0.low_loss_since == Some(now),
{
}

/// Every report is counted and records the reported RTT and jitter,
/// whatever its loss.
pub proof fn law_report_records_conditions(v: CongestionView, jitter: u32, rtt: u16, now: u128, level: LossLevel)
    requires
        v.reports_received < u64::MAX,
    ensures
        on_report_spec(v, jitter, rtt, now, level).0.reports_received == v.reports_received + 1,
        on_report_spec(v, jitter, rtt, now, level).0.rtt_ms == rtt,
        on_report_spec(v, jitter, rtt, now, level).0.jitter_ms == jitter,
{
}

/// A low-loss report that comes once the timer has run for the increase
/// delay raises the bitrate to the increased value (clamped) and restarts the
/// timer at this report's time.
pub proof fn law_increase_restarts_timer(
    v: CongestionView,
    jitter: u32,
    rtt: u16,
    now: u128,
    since: u128,
    increased_bps: u32,
)
    requires
        v.low_loss_since == Some(since),
        since <= now,
        now - since >= v.increase_delay_nanos,
    ensures
        on_report_spec(v, jitter, rtt, now, LossLevel::Low { increased_bps }).0.low_loss_since == Some(now),
        on_report_spec(v, jitter, rtt, now, LossLevel::Low { increased_bps }).0.current_bitrate_bps == clamp_spec(
            increased_bps,
            v.min_bitrate_bps,
            v.max_bitrate_bps,
        ),
{
}

/// Two bitrate changes on low loss are at least the increase delay apart:
/// after a low-loss report at `t1` that changes the bitrate, a low-loss
/// report at a later `t2` less than the delay after it changes nothing and
/// recommends nothing.
pub proof fn law_increases_spaced_by_delay(
    v: CongestionView,
    jitter: u32,
    rtt: u16,
    t1: u128,
    t2: u128,
    inc1: u32,
    inc2: u32,
)
    requires
        on_report_spec(v, jitter, rtt, t1, LossLevel::Low { increased_bps: inc1 }).1 is Some,
        t1 <= t2,
        t2 - t1 < v.increase_delay_nanos,
    ensures
        ({
            let w = on_report_spec(v, jitter, rtt, t1, LossLevel::Low { increased_bps: inc1 }).0;
            let (x, r) = on_report_spec(w, jitter, rtt, t2, LossLevel::Low { increased_bps: inc2 });
            &&& r is None
            &&& x.current_bitrate_bps == w.current_bitrate_bps
        }),
{
}

/// A low-loss report before the timer has run for the increase delay keeps
/// the bitrate and the timer, and recommends nothing.
pub proof fn law_no_increase_before_delay(
    v: CongestionView,
    jitter: u32,
    rtt: u16,
    now: u128,
    since: u128,
    increased_bps: u32,
)
    requires
        v.low_loss_since == Some(since),
        since <= now,
        now - since < v.increase_delay_nanos,
    ensures
        on_report_spec(v, jitter, rtt, now, LossLevel::Low { increased_bps }).0.low_loss_since == Some(since),
        on_report_spec(v, jitter, rtt, now, LossLevel::Low { increased_bps }).0.current_bitrate_bps
            == v.current_bitrate_bps,
        on_report_spec(v, jitter, rtt, now, LossLevel::Low { increased_bps }).1 is None,
{
}

/// A high-loss report sets the reduced bitrate at once, clamped to the
/// bounds, whatever the timer.
pub proof fn law_high_loss_reduces_at_once(v: CongestionView, jitter: u32, rtt: u16, now: u128, reduced_bps: u32)
    ensures
        on_report_spec(v, jitter, rtt, now, LossLevel::High { reduced_bps }).0.current_bitrate_bps == clamp_spec(
            reduced_bps,
            v.min_bitrate_bps,
            v.max_bitrate_bps,
        ),
{
}

} // verus!
