use telemetry_core::push::{
    effective_port, step, ConnAction, ConnEvent, ConnState, PushConfig, ReportLog,
};

#[test]
fn scheme_default_ports() {
    assert_eq!(effective_port(false, None), 80);
    assert_eq!(effective_port(true, None), 443);
    assert_eq!(effective_port(true, Some(9001)), 9001);
    assert_eq!(effective_port(false, Some(9001)), 9001);
}

#[test]
fn three_failed_dials_then_streaming() {
    let cfg = PushConfig::standard();
    let mut state = ConnState::Connecting;
    let mut waited: u64 = 0;

    for _ in 0..3 {
        let (next, action) = step(state, ConnEvent::ConnectFailed, &cfg);
        assert_eq!(next, ConnState::Connecting);
        match action {
            ConnAction::Retry { delay_ms } => waited += delay_ms,
            other => panic!("expected a retry, got {:?}", other),
        }
        state = next;
    }
    // Three failed attempts cost exactly three reconnect delays.
    assert_eq!(waited, 3 * cfg.reconnect_delay_ms);

    let (state, action) = step(state, ConnEvent::ConnectSucceeded { now_ms: 9500 }, &cfg);
    assert_eq!(state, ConnState::Streaming { last_heartbeat_ms: 9500 });
    assert_eq!(action, ConnAction::Idle);

    // The next published report goes out without further intervention.
    let (state, action) = step(state, ConnEvent::ReportReady, &cfg);
    assert_eq!(action, ConnAction::SendReport);
    let (state, action) = step(state, ConnEvent::ReportSent, &cfg);
    assert_eq!(state, ConnState::Streaming { last_heartbeat_ms: 9500 });
    assert_eq!(action, ConnAction::Idle);
}

#[test]
fn silence_for_two_intervals_reconnects() {
    let cfg = PushConfig::standard();
    let state = ConnState::Streaming { last_heartbeat_ms: 1000 };

    // Just inside the window: the probe frame goes out.
    let (next, action) = step(state, ConnEvent::HeartbeatDue { now_ms: 60_999 }, &cfg);
    assert_eq!(next, state);
    assert_eq!(action, ConnAction::SendPing);

    // At exactly two heartbeat intervals of silence: liveness timeout.
    let (next, action) = step(state, ConnEvent::HeartbeatDue { now_ms: 61_000 }, &cfg);
    assert_eq!(next, ConnState::Connecting);
    assert_eq!(action, ConnAction::Reconnect { delay_ms: cfg.cooldown_ms });

    // The check also runs after the probe frame was sent.
    let (next, action) = step(state, ConnEvent::PingSent { now_ms: 61_000 }, &cfg);
    assert_eq!(next, ConnState::Connecting);
    assert_eq!(action, ConnAction::Reconnect { delay_ms: cfg.cooldown_ms });
}

#[test]
fn inbound_activity_refreshes_the_heartbeat() {
    let cfg = PushConfig::standard();
    let state = ConnState::Streaming { last_heartbeat_ms: 1000 };
    let (state, _) = step(state, ConnEvent::InboundFrame { now_ms: 50_000 }, &cfg);
    assert_eq!(state, ConnState::Streaming { last_heartbeat_ms: 50_000 });

    // The refreshed heartbeat keeps the old deadline from firing.
    let (state, action) = step(state, ConnEvent::HeartbeatDue { now_ms: 61_000 }, &cfg);
    assert_eq!(state, ConnState::Streaming { last_heartbeat_ms: 50_000 });
    assert_eq!(action, ConnAction::SendPing);
}

#[test]
fn every_streaming_failure_reconnects_after_cooldown() {
    let cfg = PushConfig::standard();
    let state = ConnState::Streaming { last_heartbeat_ms: 0 };
    for event in [
        ConnEvent::InboundClosed,
        ConnEvent::InboundError,
        ConnEvent::PingFailed,
        ConnEvent::ReportFailed,
    ] {
        let (next, action) = step(state, event, &cfg);
        assert_eq!(next, ConnState::Connecting);
        assert_eq!(action, ConnAction::Reconnect { delay_ms: cfg.cooldown_ms });
    }
}

#[test]
fn late_subscriber_sees_no_replay() {
    let mut log = ReportLog::new();
    log.publish("report-1".to_string());

    // Subscribing after the first report: it is never replayed.
    let cursor = log.subscribe();
    assert_eq!(log.read_at(cursor), None);

    log.publish("report-2".to_string());
    log.publish("report-3".to_string());

    // The subscriber reads exactly what was published after it joined,
    // in publish order.
    assert_eq!(log.read_at(cursor).map(String::as_str), Some("report-2"));
    assert_eq!(log.read_at(cursor + 1).map(String::as_str), Some("report-3"));
    assert_eq!(log.read_at(cursor + 2), None);

    // An early subscriber still sees everything, in order.
    assert_eq!(log.read_at(0).map(String::as_str), Some("report-1"));
}
