//! Per-request outcome counters and the snapshot-and-reset aggregator.
//!
//! `RequestStats` accumulates outcome counters for one reporting window.
//! `to_stats_and_reset` turns the counters into an immutable `Stats`
//! report and swaps in a fresh, zeroed window in one step, so no caller
//! ever observes a half-reset counter set.  Rates are reported in
//! thousandths (the wire format carries three decimal places).

use vstd::prelude::*;
use std::collections::HashMap;
use crate::probe::HostLatency;

verus! {

broadcast use vstd::std_specs::hash::group_hash_axioms;

/// Outcome of one completed request.  Exactly one outcome is recorded
/// per request; `SuccessfulAndCache` counts as a success that was also
/// served from a cache.
#[derive(Clone, Copy, Debug, PartialEq, Eq, Structural)]
pub enum RequestResult {
    Successful,
    SuccessfulAndCache,
    ParseError,
    TimeoutError,
    ConnectionError,
}

/// Used/total amounts for one resource, in megabytes.
#[derive(Clone, Copy, Debug, PartialEq, Eq, Structural)]
pub struct Usage {
    pub used: u64,
    pub total: u64,
}

/// System resource sample supplied by the caller when a snapshot is built.
pub struct SystemResources {
    pub cpu_usage: String,
    pub memory_usage: Usage,
    pub disk_usage: Usage,
}

/// Error counters of one window, split by kind.
#[derive(Clone, Copy, Debug, PartialEq, Eq, Structural)]
pub struct ExceptionTypes {
    pub connection_error: u64,
    pub timeout_error: u64,
    pub parse_error: u64,
}

/// Start and end of one reporting window, in milliseconds.
#[derive(Clone, Copy, Debug, PartialEq, Eq, Structural)]
pub struct TimePeriod {
    pub start: i64,
    pub end: i64,
}

/// Report fields that identify the agent; supplied externally and
/// copied into every snapshot unchanged.
pub struct StatsBase {
    pub server_name: String,
    pub scraper_name: String,
    pub project_code: String,
    pub scraper_type: String,
    pub request_frequency: i64,
}

/// Mathematical model of one window's counters.
#[verifier::ext_equal]
pub ghost struct CountersModel {
    pub init_time: i64,
    pub start_time: i64,
    pub total_requests: u64,
    pub successful_requests: u64,
    pub cache_hit: u64,
    pub parse_errors: u64,
    pub timeout_errors: u64,
    pub connection_errors: u64,
    pub http_status_codes: Map<u16, u64>,
    pub total_latency: i64,
}

/// `a + b` clamped to the `i64` range.
pub open spec fn sat_add_i64(a: i64, b: i64) -> i64 {
    if a + b > i64::MAX {
        i64::MAX
    } else if a + b < i64::MIN {
        i64::MIN
    } else {
        (a + b) as i64
    }
}

/// `a - b` clamped to the `i64` range.
pub open spec fn sat_sub_i64(a: i64, b: i64) -> i64 {
    if a - b > i64::MAX {
        i64::MAX
    } else if a - b < i64::MIN {
        i64::MIN
    } else {
        (a - b) as i64
    }
}

/// Truncating division (the `/` of Rust's signed integers), defined for
/// a positive divisor.
pub open spec fn div_trunc(n: int, d: int) -> int
    recommends
        d > 0,
{
    if n >= 0 {
        n / d
    } else {
        -((-n) / d)
    }
}

/// `num / den` in thousandths, rounded half away from zero, for
/// non-negative `num` and positive `den`.
pub open spec fn milli_round_nonneg(num: int, den: int) -> int
    recommends
        num >= 0,
        den > 0,
{
    (2000 * num + den) / (2 * den)
}

/// `num / den` in thousandths, rounded half away from zero, for a
/// positive `den`.
pub open spec fn milli_round(num: int, den: int) -> int
    recommends
        den > 0,
{
    if num >= 0 {
        milli_round_nonneg(num, den)
    } else {
        -milli_round_nonneg(-num, den)
    }
}

impl CountersModel {
    /// Counter invariant: the total is exactly the sum of the four
    /// outcome counters, cache hits never exceed successes, the
    /// histogram never counts more than the total and never holds the
    /// sentinel code `0`.
    pub open spec fn wf(self) -> bool {
        &&& self.total_requests == self.successful_requests + self.parse_errors
            + self.timeout_errors + self.connection_errors
        &&& self.cache_hit <= self.successful_requests
        &&& forall|c: u16|
            self.http_status_codes.contains_key(c) ==> self.http_status_codes[c]
                <= self.total_requests
        &&& !self.http_status_codes.contains_key(0u16)
    }

    /// A zeroed counter set for a window starting at `start`, belonging
    /// to a process started at `init`.
    pub open spec fn fresh(init: i64, start: i64) -> CountersModel {
        CountersModel {
            init_time: init,
            start_time: start,
            total_requests: 0,
            successful_requests: 0,
            cache_hit: 0,
            parse_errors: 0,
            timeout_errors: 0,
            connection_errors: 0,
            http_status_codes: Map::empty(),
            total_latency: 0,
        }
    }

    /// The counters after one outcome is recorded.  Once the total hits
    /// `u64::MAX`, further records are ignored rather than overflowing.
    pub open spec fn recorded(
        self,
        request_time: i64,
        response_time: i64,
        status_code: u16,
        result: RequestResult,
    ) -> CountersModel {
        if self.total_requests == u64::MAX {
            self
        } else {
            CountersModel {
                total_requests: (self.total_requests + 1) as u64,
                total_latency: sat_add_i64(
                    self.total_latency,
                    sat_sub_i64(response_time, request_time),
                ),
                http_status_codes: if status_code == 0 {
                    self.http_status_codes
                } else {
                    self.http_status_codes.insert(
                        status_code,
                        (self.count_for(status_code) + 1) as u64,
                    )
                },
                successful_requests: if result is Successful || result is SuccessfulAndCache {
                    (self.successful_requests + 1) as u64
                } else {
                    self.successful_requests
                },
                cache_hit: if result is SuccessfulAndCache {
                    (self.cache_hit + 1) as u64
                } else {
                    self.cache_hit
                },
                parse_errors: if result is ParseError {
                    (self.parse_errors + 1) as u64
                } else {
                    self.parse_errors
                },
                timeout_errors: if result is TimeoutError {
                    (self.timeout_errors + 1) as u64
                } else {
                    self.timeout_errors
                },
                connection_errors: if result is ConnectionError {
                    (self.connection_errors + 1) as u64
                } else {
                    self.connection_errors
                },
                ..self
            }
        }
    }

    /// Histogram count for one status code, `0` when the code is absent.
    pub open spec fn count_for(self, status_code: u16) -> u64 {
        if self.http_status_codes.contains_key(status_code) {
            self.http_status_codes[status_code]
        } else {
            0u64
        }
    }

    /// The counters after a snapshot is taken at `end`: everything is
    /// zeroed, the new window starts at `end`, and the process start
    /// time is carried over unchanged.
    pub open spec fn reset(self, end: i64) -> CountersModel {
        CountersModel::fresh(self.init_time, end)
    }

    /// Failed requests of the window.
    pub open spec fn error_count(self) -> int {
        self.parse_errors + self.timeout_errors + self.connection_errors
    }

    /// Error rate in thousandths; `0` for an empty window.
    pub open spec fn error_rate_milli(self) -> int {
        if self.total_requests == 0 {
            0
        } else {
            milli_round_nonneg(self.error_count(), self.total_requests as int)
        }
    }

    /// Cache hit rate in thousandths; `0` when nothing succeeded.
    pub open spec fn cache_hit_rate_milli(self) -> int {
        if self.successful_requests == 0 {
            0
        } else {
            milli_round_nonneg(self.cache_hit as int, self.successful_requests as int)
        }
    }

    /// Average request latency in thousandths of a millisecond; `0` for
    /// an empty window.
    pub open spec fn average_latency_milli(self) -> int {
        if self.total_requests == 0 {
            0
        } else {
            milli_round(self.total_latency as int, self.total_requests as int)
        }
    }

    /// Seconds elapsed between the process start and `end`.
    pub open spec fn runtime_duration_secs(self, end: i64) -> int {
        div_trunc(end - self.init_time, 1000)
    }
}

/// Mutable counters of the current reporting window.
pub struct InnerStats {
    pub init_time: i64,
    pub start_time: i64,
    pub total_requests: u64,
    pub successful_requests: u64,
    pub cache_hit: u64,
    pub parse_errors: u64,
    pub timeout_errors: u64,
    pub connection_errors: u64,
    pub http_status_codes: HashMap<u16, u64>,
    pub total_latency: i64,
}

impl View for InnerStats {
    type V = CountersModel;

    open spec fn view(&self) -> CountersModel {
        CountersModel {
            init_time: self.init_time,
            start_time: self.start_time,
            total_requests: self.total_requests,
            successful_requests: self.successful_requests,
            cache_hit: self.cache_hit,
            parse_errors: self.parse_errors,
            timeout_errors: self.timeout_errors,
            connection_errors: self.connection_errors,
            http_status_codes: self.http_status_codes@,
            total_latency: self.total_latency,
        }
    }
}

/// `a + b` with the sum clamped to the `i64` range.
fn add_saturating_i64(a: i64, b: i64) -> (r: i64)
    ensures
        r == sat_add_i64(a, b),
{
    match a.checked_add(b) {
        Some(v) => v,
        None => if b > 0 {
            i64::MAX
        } else {
            i64::MIN
        },
    }
}

/// `a - b` with the difference clamped to the `i64` range.
fn sub_saturating_i64(a: i64, b: i64) -> (r: i64)
    ensures
        r == sat_sub_i64(a, b),
{
    match a.checked_sub(b) {
        Some(v) => v,
        None => if b < 0 {
            i64::MAX
        } else {
            i64::MIN
        },
    }
}

impl InnerStats {
    /// A zeroed counter set whose process and window both start now.
    pub fn new(now_millis: i64) -> (s: Self)
        ensures
            s@ == CountersModel::fresh(now_millis, now_millis),
            s@.wf(),
    {
        let s = InnerStats {
            init_time: now_millis,
            start_time: now_millis,
            total_requests: 0,
            successful_requests: 0,
            cache_hit: 0,
            parse_errors: 0,
            timeout_errors: 0,
            connection_errors: 0,
            http_status_codes: HashMap::new(),
            total_latency: 0,
        };
        proof {
            assert(s@ =~= CountersModel::fresh(now_millis, now_millis));
        }
        s
    }

    /// Record one request outcome.  Never fails: the latency sum
    /// saturates, the sentinel status code `0` is skipped, and a full
    /// total leaves the counters unchanged.
    pub fn update_stats(
        &mut self,
        request_time: i64,
        response_time: i64,
        status_code: u16,
        result: RequestResult,
    )
        requires
            old(self)@.wf(),
        ensures
            final(self)@ == old(self)@.recorded(request_time, response_time, status_code, result),
            final(self)@.wf(),
    {
        if self.total_requests == u64::MAX {
            return ;
        }
        let ghost pre = self@;
        self.total_requests = self.total_requests + 1;
        let latency = sub_saturating_i64(response_time, request_time);
        self.total_latency = add_saturating_i64(self.total_latency, latency);
        if status_code != 0 {
            let prev = match self.http_status_codes.get(&status_code) {
                Some(v) => *v,
                None => 0,
            };
            assert(prev == pre.count_for(status_code));
            assert(prev <= pre.total_requests);
            self.http_status_codes.insert(status_code, prev + 1);
        }
        match result {
            RequestResult::Successful => {
                self.successful_requests = self.successful_requests + 1;
            },
            RequestResult::SuccessfulAndCache => {
                self.successful_requests = self.successful_requests + 1;
                self.cache_hit = self.cache_hit + 1;
            },
            RequestResult::ParseError => {
                self.parse_errors = self.parse_errors + 1;
            },
            RequestResult::TimeoutError => {
                self.timeout_errors = self.timeout_errors + 1;
            },
            RequestResult::ConnectionError => {
                self.connection_errors = self.connection_errors + 1;
            },
        }
        proof {
            let post = pre.recorded(request_time, response_time, status_code, result);
            assert(self@ =~= post);
            assert forall|c: u16| post.http_status_codes.contains_key(c) implies post
                .http_status_codes[c] <= post.total_requests by {
                if status_code != 0 && c == status_code {
                } else {
                    assert(pre.http_status_codes.contains_key(c));
                }
            }
        }
    }

    /// Build the report for the window that just ended and start a
    /// fresh window in the same step.  Every report field is a function
    /// of the counters as they stood before the reset, so nothing
    /// recorded later can leak into this report.
    pub fn to_stats_and_reset(
        &mut self,
        base: StatsBase,
        hosts_ping_delay: Vec<HostLatency>,
        system_resources: SystemResources,
        end_time: i64,
    ) -> (stats: Stats)
        requires
            old(self)@.wf(),
        ensures
            stats.base == base,
            stats.time_period == (TimePeriod { start: old(self).start_time, end: end_time }),
            stats.error_rate_milli == old(self)@.error_rate_milli(),
            stats.exception_types == (ExceptionTypes {
                connection_error: old(self).connection_errors,
                timeout_error: old(self).timeout_errors,
                parse_error: old(self).parse_errors,
            }),
            stats.runtime_duration == old(self)@.runtime_duration_secs(end_time),
            stats.total_requests == old(self).total_requests,
            stats.cache_hit_rate_milli == old(self)@.cache_hit_rate_milli(),
            stats.cache_hit == old(self).cache_hit,
            stats.http_status_codes@ == old(self)@.http_status_codes,
            stats.average_request_latency_milli == old(self)@.average_latency_milli(),
            stats.hosts_ping_delay == hosts_ping_delay,
            stats.system_resources == system_resources,
            final(self)@ == old(self)@.reset(end_time),
            final(self)@.wf(),
    {
        let error_rate_milli: u64 = if self.total_requests == 0 {
            0
        } else {
            let errors = self.parse_errors + self.timeout_errors + self.connection_errors;
            rate_milli_u64(errors, self.total_requests)
        };
        let cache_hit_rate_milli: u64 = if self.successful_requests == 0 {
            0
        } else {
            rate_milli_u64(self.cache_hit, self.successful_requests)
        };
        let average_request_latency_milli: i128 = if self.total_requests == 0 {
            0
        } else {
            avg_latency_milli(self.total_latency, self.total_requests)
        };
        let runtime_duration = runtime_secs(self.init_time, end_time);
        let mut codes: HashMap<u16, u64> = HashMap::new();
        core::mem::swap(&mut self.http_status_codes, &mut codes);
        let stats = Stats {
            base,
            time_period: TimePeriod { start: self.start_time, end: end_time },
            error_rate_milli,
            exception_types: ExceptionTypes {
                connection_error: self.connection_errors,
                timeout_error: self.timeout_errors,
                parse_error: self.parse_errors,
            },
            runtime_duration,
            total_requests: self.total_requests,
            cache_hit_rate_milli,
            cache_hit: self.cache_hit,
            http_status_codes: codes,
            average_request_latency_milli,
            hosts_ping_delay,
            system_resources,
        };
        self.start_time = end_time;
        self.total_requests = 0;
        self.successful_requests = 0;
        self.cache_hit = 0;
        self.parse_errors = 0;
        self.timeout_errors = 0;
        self.connection_errors = 0;
        self.total_latency = 0;
        proof {
            assert(self@ =~= old(self)@.reset(end_time));
        }
        stats
    }
}

/// Immutable snapshot report for one reporting window.  Rate fields
/// carry thousandths; `average_request_latency_milli` carries
/// thousandths of a millisecond; `hosts_ping_delay` carries
/// microseconds.
pub struct Stats {
    pub base: StatsBase,
    pub time_period: TimePeriod,
    pub error_rate_milli: u64,
    pub exception_types: ExceptionTypes,
    pub runtime_duration: i64,
    pub total_requests: u64,
    pub cache_hit_rate_milli: u64,
    pub cache_hit: u64,
    pub http_status_codes: HashMap<u16, u64>,
    pub average_request_latency_milli: i128,
    pub hosts_ping_delay: Vec<HostLatency>,
    pub system_resources: SystemResources,
}

/// `num / den` in thousandths, rounded half up.  For a ratio of at
/// most one the result never exceeds `1000`.
fn rate_milli_u64(num: u64, den: u64) -> (r: u64)
    requires
        0 < den,
        num <= den,
    ensures
        r == milli_round_nonneg(num as int, den as int),
        r <= 1000,
{
    let n = num as u128;
    let d = den as u128;
    let q = (2000 * n + d) / (2 * d);
    proof {
        assert(2 * (den as int) * 1001 == 2002 * (den as int)) by (nonlinear_arith);
        vstd::arithmetic::div_mod::lemma_multiply_divide_lt(
            2000 * (num as int) + den as int,
            2 * (den as int),
            1001,
        );
    }
    q as u64
}

/// Average latency in thousandths of a millisecond, rounded half away
/// from zero.
fn avg_latency_milli(total_latency: i64, total_requests: u64) -> (r: i128)
    requires
        0 < total_requests,
    ensures
        r == milli_round(total_latency as int, total_requests as int),
{
    let d = total_requests as u128;
    if total_latency >= 0 {
        let n = total_latency as u128;
        let q = (2000 * n + d) / (2 * d);
        proof {
            vstd::arithmetic::div_mod::lemma_div_nonincreasing(
                2000 * (total_latency as int) + total_requests as int,
                2 * (total_requests as int),
            );
        }
        q as i128
    } else {
        let magnitude = (-(total_latency as i128)) as u128;
        let q = (2000 * magnitude + d) / (2 * d);
        proof {
            vstd::arithmetic::div_mod::lemma_div_nonincreasing(
                2000 * (magnitude as int) + total_requests as int,
                2 * (total_requests as int),
            );
        }
        -(q as i128)
    }
}

/// The stats aggregator: owns the counters of the current reporting
/// window for the lifetime of the process.  Callers that share it
/// across threads keep it behind a lock held only for the in-memory
/// counter arithmetic; latency probing and resource sampling happen
/// outside and their results are passed in.
pub struct RequestStats {
    inner: InnerStats,
}

impl View for RequestStats {
    type V = CountersModel;

    closed spec fn view(&self) -> CountersModel {
        self.inner@
    }
}

impl RequestStats {
    /// A fresh aggregator whose process and first window start now.
    pub fn new(now_millis: i64) -> (s: Self)
        ensures
            s@ == CountersModel::fresh(now_millis, now_millis),
            s@.wf(),
    {
        RequestStats { inner: InnerStats::new(now_millis) }
    }

    /// Record one request outcome.
    ///
    /// Laws kept by this update: the total request count always equals
    /// the sum of the four outcome counters, cache hits never exceed
    /// successes (both part of `wf`), and `SuccessfulAndCache`
    /// increments the success and the cache-hit counter together.
    pub fn update_stats(
        &mut self,
        request_time: i64,
        response_time: i64,
        status_code: u16,
        result: RequestResult,
    )
        requires
            old(self)@.wf(),
        ensures
            final(self)@ == old(self)@.recorded(request_time, response_time, status_code, result),
            final(self)@.wf(),
    {
        self.inner.update_stats(request_time, response_time, status_code, result);
    }

    /// Snapshot the current window into a `Stats` report and atomically
    /// swap in a zeroed window starting at `end_time`.
    pub fn to_stats_and_reset(
        &mut self,
        base: StatsBase,
        hosts_ping_delay: Vec<HostLatency>,
        system_resources: SystemResources,
        end_time: i64,
    ) -> (stats: Stats)
        requires
            old(self)@.wf(),
        ensures
            stats.base == base,
            stats.time_period == (TimePeriod { start: old(self)@.start_time, end: end_time }),
            stats.error_rate_milli == old(self)@.error_rate_milli(),
            stats.exception_types == (ExceptionTypes {
                connection_error: old(self)@.connection_errors,
                timeout_error: old(self)@.timeout_errors,
                parse_error: old(self)@.parse_errors,
            }),
            stats.runtime_duration == old(self)@.runtime_duration_secs(end_time),
            stats.total_requests == old(self)@.total_requests,
            stats.cache_hit_rate_milli == old(self)@.cache_hit_rate_milli(),
            stats.cache_hit == old(self)@.cache_hit,
            stats.http_status_codes@ == old(self)@.http_status_codes,
            stats.average_request_latency_milli == old(self)@.average_latency_milli(),
            stats.hosts_ping_delay == hosts_ping_delay,
            stats.system_resources == system_resources,
            final(self)@ == old(self)@.reset(end_time),
            final(self)@.wf(),
    {
        self.inner.to_stats_and_reset(base, hosts_ping_delay, system_resources, end_time)
    }
}

/// Record one request outcome on a shared aggregator; the counterpart
/// of `RequestStats::update_stats` for callers that hold the
/// aggregator inside a wider context object.
pub fn update_stats(
    stats: &mut RequestStats,
    request_time: i64,
    response_time: i64,
    status_code: u16,
    result: RequestResult,
)
    requires
        old(stats)@.wf(),
    ensures
        final(stats)@ == old(stats)@.recorded(request_time, response_time, status_code, result),
        final(stats)@.wf(),
{
    stats.update_stats(request_time, response_time, status_code, result);
}

/// Law: whatever outcome is recorded, the total request count equals
/// the sum of the four outcome counters afterwards.
pub proof fn lemma_total_is_outcome_sum(
    c: CountersModel,
    request_time: i64,
    response_time: i64,
    status_code: u16,
    result: RequestResult,
)
    requires
        c.wf(),
    ensures
        ({
            let after = c.recorded(request_time, response_time, status_code, result);
            after.total_requests == after.successful_requests + after.parse_errors
                + after.timeout_errors + after.connection_errors
        }),
{
}

/// Law: recording a cached success increments the success and the
/// cache-hit counters together, and cache hits never exceed successes.
pub proof fn lemma_cached_success_counts_both(
    c: CountersModel,
    request_time: i64,
    response_time: i64,
    status_code: u16,
)
    requires
        c.wf(),
        c.total_requests < u64::MAX,
    ensures
        ({
            let after = c.recorded(
                request_time,
                response_time,
                status_code,
                RequestResult::SuccessfulAndCache,
            );
            &&& after.successful_requests == c.successful_requests + 1
            &&& after.cache_hit == c.cache_hit + 1
            &&& after.cache_hit <= after.successful_requests
        }),
{
}

/// Law: a reporting window in which nothing was recorded reports a
/// zero total and zero rates -- dividing by an empty window never
/// produces an artifact.  Two back-to-back snapshots therefore give a
/// second report with `total_requests == 0` and all rates zero.
pub proof fn lemma_empty_window_rates_zero(c: CountersModel)
    requires
        c.wf(),
        c.total_requests == 0,
    ensures
        c.error_rate_milli() == 0,
        c.cache_hit_rate_milli() == 0,
        c.average_latency_milli() == 0,
{
}

/// Law: a record made after a snapshot-and-reset lands in the next
/// window only.  Whatever was counted before the reset, the next
/// window starts from the same zeroed counters, and one record in it
/// counts exactly one request.
pub proof fn lemma_record_counts_in_next_window(
    c: CountersModel,
    end_time: i64,
    request_time: i64,
    response_time: i64,
    status_code: u16,
    result: RequestResult,
)
    ensures
        c.reset(end_time).recorded(request_time, response_time, status_code, result)
            == CountersModel::fresh(c.init_time, end_time).recorded(
            request_time,
            response_time,
            status_code,
            result,
        ),
        c.reset(end_time).recorded(
            request_time,
            response_time,
            status_code,
            result,
        ).total_requests == 1,
{
}

/// Whole seconds between the process start and the window end,
/// truncated toward zero as the wire format expects.
fn runtime_secs(init_time: i64, end_time: i64) -> (r: i64)
    ensures
        r == div_trunc(end_time - init_time, 1000),
{
    let diff = (end_time as i128) - (init_time as i128);
    if diff >= 0 {
        let q = (diff as u128) / 1000;
        proof {
            vstd::arithmetic::div_mod::lemma_multiply_divide_lt(
                diff as int,
                1000,
                0x80000000000000,
            );
        }
        q as i64
    } else {
        let magnitude = (-diff) as u128;
        let q = magnitude / 1000;
        proof {
            vstd::arithmetic::div_mod::lemma_multiply_divide_lt(
                magnitude as int,
                1000,
                0x80000000000000,
            );
        }
        -(q as i64)
    }
}

} // verus!
