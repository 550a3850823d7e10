//! Per-target report pushing: the Connect -> Stream -> Reconnect state
//! machine and the publish/subscribe fan-out log.
//!
//! Every push target runs one instance of this state machine for the
//! process lifetime.  The machine only decides; the caller performs the
//! dials, sends and waits it asks for and feeds the outcome back as the
//! next event.  Failures never escape a target: every one of them maps
//! to a retry or a reconnect with a bounded wait.

use vstd::prelude::*;

verus! {

/// Timing configuration of one target's connection state machine.
/// All values are milliseconds.
#[derive(Clone, Copy, Debug, PartialEq, Eq, Structural)]
pub struct PushConfig {
    /// Bound on one dial attempt.
    pub connect_timeout_ms: u64,
    /// Wait between a failed dial and the next attempt.
    pub reconnect_delay_ms: u64,
    /// Wait between losing a live connection and dialing again.
    pub cooldown_ms: u64,
    /// Interval between liveness probe frames.
    pub heartbeat_interval_ms: u64,
    /// Bound on sending one frame.
    pub send_timeout_ms: u64,
}

/// The stock timings: two-second dials and sends, a three-second
/// reconnect delay, a half-second cooldown and thirty-second
/// heartbeats.
pub open spec fn standard_push_config() -> PushConfig {
    PushConfig {
        connect_timeout_ms: 2000,
        reconnect_delay_ms: 3000,
        cooldown_ms: 500,
        heartbeat_interval_ms: 30000,
        send_timeout_ms: 2000,
    }
}

impl PushConfig {
    /// The standard timings as an executable value.
    pub fn standard() -> (c: PushConfig)
        ensures
            c == standard_push_config(),
    {
        PushConfig {
            connect_timeout_ms: 2000,
            reconnect_delay_ms: 3000,
            cooldown_ms: 500,
            heartbeat_interval_ms: 30000,
            send_timeout_ms: 2000,
        }
    }
}

/// State of one target's connection.  Timestamps are milliseconds on
/// the caller's monotonic clock.
#[derive(Clone, Copy, Debug, PartialEq, Eq, Structural)]
pub enum ConnState {
    /// No live connection; dialing, or waiting to dial again.
    Connecting,
    /// The connection is up; `last_heartbeat_ms` is the time of the
    /// most recent inbound activity.
    Streaming { last_heartbeat_ms: u64 },
}

/// One thing that happened while driving a target's connection.
#[derive(Clone, Copy, Debug, PartialEq, Eq, Structural)]
pub enum ConnEvent {
    /// A dial finished within the connect timeout.
    ConnectSucceeded { now_ms: u64 },
    /// A dial failed or timed out.
    ConnectFailed,
    /// An inbound frame arrived.
    InboundFrame { now_ms: u64 },
    /// The peer closed the connection cleanly.
    InboundClosed,
    /// The transport reported a receive error.
    InboundError,
    /// The heartbeat timer fired.
    HeartbeatDue { now_ms: u64 },
    /// The liveness probe frame went out within the send timeout.
    PingSent { now_ms: u64 },
    /// The liveness probe frame failed or timed out.
    PingFailed,
    /// A report arrived on this target's subscription.
    ReportReady,
    /// The report frame went out within the send timeout.
    ReportSent,
    /// The report frame failed or timed out.
    ReportFailed,
}

/// What the caller must do after a step.
#[derive(Clone, Copy, Debug, PartialEq, Eq, Structural)]
pub enum ConnAction {
    /// Wait `delay_ms`, then dial the target again.
    Retry { delay_ms: u64 },
    /// Drop the connection, wait `delay_ms`, then dial again.
    Reconnect { delay_ms: u64 },
    /// Send a liveness probe frame, bounded by the send timeout.
    SendPing,
    /// Send the pending report as one text frame, bounded by the send
    /// timeout.
    SendReport,
    /// Nothing to do; keep waiting for the next event.
    Idle,
}

/// Whether inbound silence has outlived the liveness window of two
/// heartbeat intervals.
pub open spec fn liveness_expired(last_heartbeat_ms: u64, now_ms: u64, cfg: PushConfig) -> bool {
    now_ms >= last_heartbeat_ms + 2 * cfg.heartbeat_interval_ms
}

/// The transition relation of one target's connection state machine.
///
/// While `Connecting`, a failed dial waits one reconnect delay and
/// tries again, forever; there is no terminal state and no backoff
/// growth.  While `Streaming`, any inbound activity refreshes the
/// heartbeat; the heartbeat timer enforces the liveness window both
/// before and after each probe frame; any send or receive failure, a
/// liveness violation or a clean remote close tears the connection
/// down and goes back to `Connecting` after the cooldown.  A report
/// that arrives while the target is not streaming is skipped: delivery
/// is best effort and never blocks other targets.  Events that cannot
/// occur in a state leave it unchanged.
pub open spec fn step_spec(s: ConnState, e: ConnEvent, cfg: PushConfig) -> (ConnState, ConnAction) {
    match s {
        ConnState::Connecting => match e {
            ConnEvent::ConnectSucceeded { now_ms } => (
                ConnState::Streaming { last_heartbeat_ms: now_ms },
                ConnAction::Idle,
            ),
            ConnEvent::ConnectFailed => (s, ConnAction::Retry { delay_ms: cfg.reconnect_delay_ms }),
            _ => (s, ConnAction::Idle),
        },
        ConnState::Streaming { last_heartbeat_ms } => match e {
            ConnEvent::InboundFrame { now_ms } => (
                ConnState::Streaming { last_heartbeat_ms: now_ms },
                ConnAction::Idle,
            ),
            ConnEvent::InboundClosed => (
                ConnState::Connecting,
                ConnAction::Reconnect { delay_ms: cfg.cooldown_ms },
            ),
            ConnEvent::InboundError => (
                ConnState::Connecting,
                ConnAction::Reconnect { delay_ms: cfg.cooldown_ms },
            ),
            ConnEvent::HeartbeatDue { now_ms } => if liveness_expired(
                last_heartbeat_ms,
                now_ms,
                cfg,
            ) {
                (ConnState::Connecting, ConnAction::Reconnect { delay_ms: cfg.cooldown_ms })
            } else {
                (s, ConnAction::SendPing)
            },
            ConnEvent::PingSent { now_ms } => if liveness_expired(last_heartbeat_ms, now_ms, cfg) {
                (ConnState::Connecting, ConnAction::Reconnect { delay_ms: cfg.cooldown_ms })
            } else {
                (s, ConnAction::Idle)
            },
            ConnEvent::PingFailed => (
                ConnState::Connecting,
                ConnAction::Reconnect { delay_ms: cfg.cooldown_ms },
            ),
            ConnEvent::ReportReady => (s, ConnAction::SendReport),
            ConnEvent::ReportSent => (s, ConnAction::Idle),
            ConnEvent::ReportFailed => (
                ConnState::Connecting,
                ConnAction::Reconnect { delay_ms: cfg.cooldown_ms },
            ),
            _ => (s, ConnAction::Idle),
        },
    }
}

/// Advance one target's connection state machine by one event.
pub fn step(s: ConnState, e: ConnEvent, cfg: &PushConfig) -> (r: (ConnState, ConnAction))
    ensures
        r == step_spec(s, e, *cfg),
{
    match s {
        ConnState::Connecting => match e {
            ConnEvent::ConnectSucceeded { now_ms } => (
                ConnState::Streaming { last_heartbeat_ms: now_ms },
                ConnAction::Idle,
            ),
            ConnEvent::ConnectFailed => (s, ConnAction::Retry { delay_ms: cfg.reconnect_delay_ms }),
            _ => (s, ConnAction::Idle),
        },
        ConnState::Streaming { last_heartbeat_ms } => match e {
            ConnEvent::InboundFrame { now_ms } => (
                ConnState::Streaming { last_heartbeat_ms: now_ms },
                ConnAction::Idle,
            ),
            ConnEvent::InboundClosed => (
                ConnState::Connecting,
                ConnAction::Reconnect { delay_ms: cfg.cooldown_ms },
            ),
            ConnEvent::InboundError => (
                ConnState::Connecting,
                ConnAction::Reconnect { delay_ms: cfg.cooldown_ms },
            ),
            ConnEvent::HeartbeatDue { now_ms } => if silence_outlived_window(
                last_heartbeat_ms,
                now_ms,
                cfg,
            ) {
                (ConnState::Connecting, ConnAction::Reconnect { delay_ms: cfg.cooldown_ms })
            } else {
                (s, ConnAction::SendPing)
            },
            ConnEvent::PingSent { now_ms } => if silence_outlived_window(
                last_heartbeat_ms,
                now_ms,
                cfg,
            ) {
                (ConnState::Connecting, ConnAction::Reconnect { delay_ms: cfg.cooldown_ms })
            } else {
                (s, ConnAction::Idle)
            },
            ConnEvent::PingFailed => (
                ConnState::Connecting,
                ConnAction::Reconnect { delay_ms: cfg.cooldown_ms },
            ),
            ConnEvent::ReportReady => (s, ConnAction::SendReport),
            ConnEvent::ReportSent => (s, ConnAction::Idle),
            ConnEvent::ReportFailed => (
                ConnState::Connecting,
                ConnAction::Reconnect { delay_ms: cfg.cooldown_ms },
            ),
            _ => (s, ConnAction::Idle),
        },
    }
}

/// Executable liveness check, free of overflow for any timestamps.
fn silence_outlived_window(last_heartbeat_ms: u64, now_ms: u64, cfg: &PushConfig) -> (r: bool)
    ensures
        r == liveness_expired(last_heartbeat_ms, now_ms, *cfg),
{
    (now_ms as u128) >= (last_heartbeat_ms as u128) + 2 * (cfg.heartbeat_interval_ms as u128)
}

/// The state after feeding a sequence of events to the machine.
pub open spec fn run_spec(s: ConnState, events: Seq<ConnEvent>, cfg: PushConfig) -> ConnState
    decreases events.len(),
{
    if events.len() == 0 {
        s
    } else {
        run_spec(step_spec(s, events[0], cfg).0, events.subrange(1, events.len() as int), cfg)
    }
}

/// The waiting a sequence of events asks the caller to do, summed over
/// the `Retry` and `Reconnect` actions it produces.
pub open spec fn wait_of(a: ConnAction) -> int {
    match a {
        ConnAction::Retry { delay_ms } => delay_ms as int,
        ConnAction::Reconnect { delay_ms } => delay_ms as int,
        _ => 0,
    }
}

/// Total requested waiting over a sequence of events.
pub open spec fn total_wait_spec(s: ConnState, events: Seq<ConnEvent>, cfg: PushConfig) -> int
    decreases events.len(),
{
    if events.len() == 0 {
        0
    } else {
        wait_of(step_spec(s, events[0], cfg).1) + total_wait_spec(
            step_spec(s, events[0], cfg).0,
            events.subrange(1, events.len() as int),
            cfg,
        )
    }
}

/// Law: a target that is unreachable for `failures` dial attempts and
/// then reachable ends up `Streaming`, and the machine asks for exactly
/// `failures` reconnect delays of waiting along the way -- it heals by
/// itself, with no backoff growth and no giving up.
pub proof fn lemma_streams_after_failed_dials(failures: nat, connect_ms: u64, cfg: PushConfig)
    ensures
        ({
            let events = Seq::new(failures, |i: int| ConnEvent::ConnectFailed).push(
                ConnEvent::ConnectSucceeded { now_ms: connect_ms },
            );
            &&& run_spec(ConnState::Connecting, events, cfg) == (ConnState::Streaming {
                last_heartbeat_ms: connect_ms,
            })
            &&& total_wait_spec(ConnState::Connecting, events, cfg) == failures
                * cfg.reconnect_delay_ms
        }),
    decreases failures,
{
    let events = Seq::new(failures, |i: int| ConnEvent::ConnectFailed).push(
        ConnEvent::ConnectSucceeded { now_ms: connect_ms },
    );
    if failures == 0 {
        assert(events.len() == 1);
        assert(events[0] == (ConnEvent::ConnectSucceeded { now_ms: connect_ms }));
        let after = step_spec(ConnState::Connecting, events[0], cfg).0;
        assert(after == (ConnState::Streaming { last_heartbeat_ms: connect_ms }));
        let rest = events.subrange(1, 1);
        assert(rest.len() == 0);
        assert(run_spec(after, rest, cfg) == after);
        assert(total_wait_spec(after, rest, cfg) == 0);
        assert(failures * cfg.reconnect_delay_ms == 0) by (nonlinear_arith)
            requires
                failures == 0,
        ;
    } else {
        let tail = Seq::new((failures - 1) as nat, |i: int| ConnEvent::ConnectFailed).push(
            ConnEvent::ConnectSucceeded { now_ms: connect_ms },
        );
        assert(events[0] == ConnEvent::ConnectFailed);
        assert(step_spec(ConnState::Connecting, events[0], cfg).0 == ConnState::Connecting);
        assert(wait_of(step_spec(ConnState::Connecting, events[0], cfg).1)
            == cfg.reconnect_delay_ms as int);
        assert(events.subrange(1, events.len() as int) =~= tail);
        lemma_streams_after_failed_dials((failures - 1) as nat, connect_ms, cfg);
        assert(run_spec(ConnState::Connecting, events, cfg) == run_spec(
            ConnState::Connecting,
            tail,
            cfg,
        ));
        assert(total_wait_spec(ConnState::Connecting, events, cfg) == cfg.reconnect_delay_ms
            + total_wait_spec(ConnState::Connecting, tail, cfg));
        assert(failures * cfg.reconnect_delay_ms == cfg.reconnect_delay_ms + (failures - 1)
            * cfg.reconnect_delay_ms) by (nonlinear_arith);
    }
}

/// Law: once streaming, two heartbeat intervals with no inbound
/// activity make the next heartbeat check detect the liveness timeout
/// and fall back to `Connecting`.
pub proof fn lemma_silence_breaks_liveness(last_heartbeat_ms: u64, now_ms: u64, cfg: PushConfig)
    requires
        now_ms >= last_heartbeat_ms + 2 * cfg.heartbeat_interval_ms,
    ensures
        step_spec(
            ConnState::Streaming { last_heartbeat_ms },
            ConnEvent::HeartbeatDue { now_ms },
            cfg,
        ) == (ConnState::Connecting, ConnAction::Reconnect { delay_ms: cfg.cooldown_ms }),
{
}

/// The port a push connection dials: an explicit port wins; without
/// one, a secure stream uses 443 and an insecure one 80.
pub open spec fn effective_port_spec(secure: bool, explicit_port: Option<u16>) -> u16 {
    match explicit_port {
        Some(p) => p,
        None => if secure {
            443u16
        } else {
            80u16
        },
    }
}

/// Resolve the port of a push target URL from its explicit port and
/// whether its scheme is the secure one.
pub fn effective_port(secure: bool, explicit_port: Option<u16>) -> (p: u16)
    ensures
        p == effective_port_spec(secure, explicit_port),
{
    match explicit_port {
        Some(p) => p,
        None => if secure {
            443
        } else {
            80
        },
    }
}

/// The fan-out point reports are published through: a broadcast log
/// with independent read cursors.  The publisher appends; every target
/// owns one cursor and reads forward at its own pace, so a slow target
/// never delays another, and a late subscriber starts past everything
/// already published (no replay).
pub struct ReportLog {
    entries: Vec<String>,
}

impl View for ReportLog {
    type V = Seq<Seq<char>>;

    closed spec fn view(&self) -> Seq<Seq<char>> {
        self.entries@.map_values(|s: String| s@)
    }
}

impl ReportLog {
    /// An empty log.
    pub fn new() -> (log: ReportLog)
        ensures
            log@ == Seq::<Seq<char>>::empty(),
    {
        let log = ReportLog { entries: Vec::new() };
        proof {
            assert(log@ =~= Seq::<Seq<char>>::empty());
        }
        log
    }

    /// Append one report.  Every existing entry keeps its position, so
    /// no cursor is ever invalidated or reordered.
    pub fn publish(&mut self, report: String)
        ensures
            final(self)@ == old(self)@.push(report@),
    {
        self.entries.push(report);
        proof {
            assert(self@ =~= old(self)@.push(report@));
        }
    }

    /// A cursor for a new subscriber: it starts at the end of the log,
    /// so only reports published after this call will be seen.
    pub fn subscribe(&self) -> (cursor: usize)
        ensures
            cursor == self@.len(),
    {
        self.entries.len()
    }

    /// The entry under `cursor`, or `None` when the subscriber has
    /// seen everything published so far.  Advancing the cursor by one
    /// after each read yields the published reports in publish order.
    pub fn read_at<'a>(&'a self, cursor: usize) -> (r: Option<&'a String>)
        ensures
            cursor < self@.len() ==> r is Some && r->Some_0@ == self@[cursor as int],
            cursor >= self@.len() ==> r is None,
    {
        if cursor < self.entries.len() {
            Some(&self.entries[cursor])
        } else {
            None
        }
    }
}

} // verus!
