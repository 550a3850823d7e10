//! Host latency readings for snapshot reports.
//!
//! The caller dials each host with a bounded connect timeout and hands
//! the measured times over; a host that could not be reached within the
//! timeout is reported with the timeout itself as a latency ceiling, so
//! every probed host appears in the report with a finite value.

use vstd::prelude::*;

verus! {

/// Measured (or substituted) dial time for one host, in microseconds.
pub struct HostLatency {
    pub host: String,
    pub micros: u64,
}

/// The latency reported for one probe reading: the measured time when
/// the dial succeeded, the configured ceiling when it did not.
pub open spec fn latency_or_ceiling_spec(elapsed_micros: Option<u64>, ceiling_micros: u64) -> u64 {
    match elapsed_micros {
        Some(d) => d,
        None => ceiling_micros,
    }
}

/// Substitute the timeout ceiling for a failed probe reading.
pub fn latency_or_ceiling(elapsed_micros: Option<u64>, ceiling_micros: u64) -> (r: u64)
    ensures
        r == latency_or_ceiling_spec(elapsed_micros, ceiling_micros),
        elapsed_micros is None ==> r == ceiling_micros,
{
    match elapsed_micros {
        Some(d) => d,
        None => ceiling_micros,
    }
}

/// Turn raw probe readings into report entries.  Every probed host gets
/// exactly one entry, in probe order; an unreachable host is reported
/// with the ceiling, never omitted.
pub fn collect_host_latencies(readings: Vec<(String, Option<u64>)>, ceiling_micros: u64) -> (r:
    Vec<HostLatency>)
    ensures
        r@.len() == readings@.len(),
        forall|i: int|
            0 <= i < r@.len() ==> {
                &&& (#[trigger] r@[i]).host == readings@[i].0
                &&& r@[i].micros == latency_or_ceiling_spec(readings@[i].1, ceiling_micros)
            },
{
    let mut rest = readings;
    let ghost all = rest@;
    let mut out: Vec<HostLatency> = Vec::new();
    while rest.len() > 0
        invariant
            out@.len() + rest@.len() == all.len(),
            rest@ == all.subrange(out@.len() as int, all.len() as int),
            forall|i: int|
                0 <= i < out@.len() ==> {
                    &&& (#[trigger] out@[i]).host == all[i].0
                    &&& out@[i].micros == latency_or_ceiling_spec(all[i].1, ceiling_micros)
                },
        decreases rest.len(),
    {
        let (host, elapsed) = rest.remove(0);
        let micros = latency_or_ceiling(elapsed, ceiling_micros);
        out.push(HostLatency { host, micros });
        proof {
            assert(rest@ =~= all.subrange(out@.len() as int, all.len() as int));
        }
    }
    out
}

} // verus!
