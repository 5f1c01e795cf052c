use portal_server_agent::run::{
    after_send, on_event, AfterSend, Backoff, LinkAction, LinkEvent, Outgoing, RunConfig,
    MAX_BACKOFF_SECS,
};

fn config(portal_url: &str, rcon_password: &str) -> RunConfig {
    RunConfig {
        portal_url: portal_url.to_string(),
        cert_path: None,
        key_path: None,
        ca_path: None,
        rcon_addr: "127.0.0.1:27015".to_string(),
        rcon_password: rcon_password.to_string(),
        heartbeat_secs: 30,
        dev_server_id: None,
    }
}

#[test]
fn startup_needs_a_url_and_a_password() {
    assert_eq!(
        config("", "").startup_refusal(),
        Some("PORTAL_AGENT_URL is required".to_string())
    );
    assert_eq!(
        config("wss://x", "").startup_refusal(),
        Some("RCON_PASSWORD is required (start the CS2 server with -usercon)".to_string())
    );
    assert_eq!(config("wss://x", "p").startup_refusal(), None);
}

#[test]
fn backoff_doubles_up_to_a_minute() {
    let mut backoff = Backoff::new();
    for expected in [1, 2, 4, 8, 16, 32, 60, 60, 60] {
        assert_eq!(backoff.max_jitter(false), expected);
        assert_eq!(backoff.pause(false, expected), 2 * expected);
    }
}

#[test]
fn closed_connections_start_the_backoff_over() {
    let mut backoff = Backoff::new();
    for _ in 0..5 {
        backoff.pause(false, 0);
    }
    assert_eq!(backoff.max_jitter(true), 1);
    assert_eq!(backoff.pause(true, 0), 1);
    assert_eq!(backoff.pause(false, 0), 2);
    assert_eq!(backoff.pause(true, 1), 2);
    assert_eq!(backoff.pause(true, 0), 1);
}

#[test]
fn waits_are_jittered_within_their_bounds() {
    let mut seen = Vec::new();
    for _ in 0..200 {
        let mut backoff = Backoff::new();
        for _ in 0..6 {
            backoff.pause(false, 0);
        }
        let wait = backoff.reconnect_wait(false);
        assert!((MAX_BACKOFF_SECS..=2 * MAX_BACKOFF_SECS).contains(&wait));
        if !seen.contains(&wait) {
            seen.push(wait);
        }
    }
    assert!(seen.len() > 1);
    let mut backoff = Backoff::new();
    for _ in 0..50 {
        assert!((1..=2).contains(&backoff.reconnect_wait(true)));
    }
    assert_eq!(backoff.max_jitter(false), 2);
}

#[test]
fn events_lead_to_actions() {
    assert!(matches!(on_event(LinkEvent::HeartbeatDue), LinkAction::Heartbeat));
    match on_event(LinkEvent::Text("{}".to_string())) {
        LinkAction::Handle(text) => assert_eq!(text, "{}"),
        _ => panic!("not handled"),
    }
    match on_event(LinkEvent::Ping(vec![1, 2])) {
        LinkAction::Pong(payload) => assert_eq!(payload, vec![1, 2]),
        _ => panic!("no pong"),
    }
    assert!(matches!(on_event(LinkEvent::Closed), LinkAction::Finish));
    assert!(matches!(on_event(LinkEvent::Other), LinkAction::Wait));
    assert!(matches!(on_event(LinkEvent::ReadFailed), LinkAction::Fail));
}

#[test]
fn undelivered_frames_end_the_connection() {
    assert_eq!(after_send(Outgoing::Heartbeat, true), AfterSend::CountHeartbeat);
    assert_eq!(after_send(Outgoing::Heartbeat, false), AfterSend::Finish);
    assert_eq!(after_send(Outgoing::Reply, true), AfterSend::Wait);
    assert_eq!(after_send(Outgoing::Reply, false), AfterSend::Finish);
    assert_eq!(after_send(Outgoing::Pong, true), AfterSend::Wait);
    assert_eq!(after_send(Outgoing::Pong, false), AfterSend::Wait);
}
