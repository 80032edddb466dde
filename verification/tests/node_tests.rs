use grokchat::node::{
    kad_progress_event, last_p2p_peer, listening_event, plan_bootstrap_address,
    publish_failed_event, received_envelope_event, serialize_failed_event, started_event,
    BootstrapStep, BridgeCommand, CoreError, CoreEvent, MobileCore, NodeConfig, WireEnvelope,
};

const PEER: &str = "12D3KooWDpJ7As7BWAwRMfu1VU2WCqNjvq387JEYKDBj4kx6nXTN";

fn core_with(username: &str, peers: Vec<String>) -> MobileCore {
    MobileCore::new(NodeConfig {
        username: username.to_string(),
        bootstrap_peers: peers,
        topic: "grok-chat".to_string(),
    })
    .unwrap()
}

#[test]
fn default_node_config() {
    let c = NodeConfig::default();
    assert_eq!(c.username, "mobile-user");
    assert_eq!(c.topic, "grok-chat");
    assert!(c.bootstrap_peers.is_empty());
}

#[test]
fn new_refuses_blank_topic() {
    let mut c = NodeConfig::default();
    c.topic = " \t ".to_string();
    match MobileCore::new(c) {
        Err(CoreError::InvalidConfig(m)) => assert_eq!(m, "topic must not be empty"),
        _ => panic!("blank topic accepted"),
    }
    let core = MobileCore::new(NodeConfig::default()).unwrap();
    assert_eq!(core.config().topic, "grok-chat");
}

#[test]
fn core_error_messages() {
    assert_eq!(CoreError::InvalidConfig("x".to_string()).message(), "invalid config: x");
    assert_eq!(CoreError::Runtime("y".to_string()).message(), "runtime error: y");
}

#[test]
fn send_chat_publishes_unless_blank() {
    let core = core_with("alice", Vec::new());
    let out = core.handle_command(BridgeCommand::SendChat { text: "привет".to_string() }, "me", 7);
    match out.publish {
        Some(WireEnvelope::Chat { username, text }) => {
            assert_eq!(username, "alice");
            assert_eq!(text, "привет");
        }
        other => panic!("unexpected {:?}", other),
    }
    assert!(out.event.is_none());
    assert!(out.report_failure);
    assert!(!out.shutdown);
    let out = core.handle_command(BridgeCommand::SendChat { text: "  \n".to_string() }, "me", 7);
    assert!(out.publish.is_none() && !out.report_failure && !out.shutdown);
    match out.event {
        Some(CoreEvent::Error { message }) => assert_eq!(message, "chat text must not be empty"),
        other => panic!("unexpected {:?}", other),
    }
}

#[test]
fn update_profile_publishes_and_reports() {
    let core = core_with("alice", Vec::new());
    let out = core.handle_command(BridgeCommand::UpdateProfile { username: "alice-new".to_string() }, "me", 7);
    match out.publish {
        Some(WireEnvelope::Profile { username }) => assert_eq!(username, "alice-new"),
        other => panic!("unexpected {:?}", other),
    }
    match out.event {
        Some(CoreEvent::Profile { from, username }) => {
            assert_eq!(from, "me");
            assert_eq!(username, "alice-new");
        }
        other => panic!("unexpected {:?}", other),
    }
    // the name used for chat stays the configured one
    let out = core.handle_command(BridgeCommand::SendChat { text: "x".to_string() }, "me", 7);
    match out.publish {
        Some(WireEnvelope::Chat { username, .. }) => assert_eq!(username, "alice"),
        other => panic!("unexpected {:?}", other),
    }
}

#[test]
fn presence_and_shutdown() {
    let core = core_with("alice", Vec::new());
    let out = core.handle_command(BridgeCommand::RequestPresence, "me", 1234);
    match out.publish {
        Some(WireEnvelope::Presence { username, status, ts }) => {
            assert_eq!((username.as_str(), status.as_str(), ts), ("alice", "online", 1234));
        }
        other => panic!("unexpected {:?}", other),
    }
    assert!(!out.report_failure);
    let out = core.handle_command(BridgeCommand::Shutdown, "me", 0);
    assert!(out.shutdown && out.publish.is_none() && out.event.is_none());
    match core.startup_profile() {
        WireEnvelope::Profile { username } => assert_eq!(username, "alice"),
        other => panic!("unexpected {:?}", other),
    }
}

#[test]
fn received_envelopes_become_events() {
    let e = received_envelope_event(WireEnvelope::Chat { username: "bob".into(), text: "hi".into() }, "src");
    match e {
        CoreEvent::ChatMessage { from, text } => assert_eq!((from.as_str(), text.as_str()), ("bob", "hi")),
        other => panic!("unexpected {:?}", other),
    }
    let e = received_envelope_event(
        WireEnvelope::Presence { username: "bob".into(), status: "online".into(), ts: 9 },
        "src",
    );
    match e {
        CoreEvent::Presence { from, status, ts } => {
            assert_eq!((from.as_str(), status.as_str(), ts), ("bob", "online", 9))
        }
        other => panic!("unexpected {:?}", other),
    }
    let e = received_envelope_event(WireEnvelope::Profile { username: "bob".into() }, "src");
    match e {
        CoreEvent::Profile { from, username } => assert_eq!((from.as_str(), username.as_str()), ("src", "bob")),
        other => panic!("unexpected {:?}", other),
    }
}

#[test]
fn status_and_error_events() {
    match listening_event("me", "/ip4/0.0.0.0/tcp/1", 3) {
        CoreEvent::Presence { from, status, ts } => {
            assert_eq!((from.as_str(), status.as_str(), ts), ("me", "listening:/ip4/0.0.0.0/tcp/1", 3))
        }
        other => panic!("unexpected {:?}", other),
    }
    match kad_progress_event("me", "Bootstrap(Ok)", 4) {
        CoreEvent::Presence { status, .. } => assert_eq!(status, "kad:Bootstrap(Ok)"),
        other => panic!("unexpected {:?}", other),
    }
    match publish_failed_event("InsufficientPeers") {
        CoreEvent::Error { message } => assert_eq!(message, "publish failed: InsufficientPeers"),
        other => panic!("unexpected {:?}", other),
    }
    match serialize_failed_event("boom") {
        CoreEvent::Error { message } => assert_eq!(message, "serialize chat failed: boom"),
        other => panic!("unexpected {:?}", other),
    }
    match started_event(PEER) {
        CoreEvent::Started { peer_id } => assert_eq!(peer_id, PEER),
        other => panic!("unexpected {:?}", other),
    }
}

#[test]
fn last_peer_of_parts() {
    assert_eq!(last_p2p_peer(&vec![None, Some("a".to_string()), None, Some("b".to_string()), None]), Some("b".to_string()));
    assert_eq!(last_p2p_peer(&vec![None, None]), None);
    assert_eq!(last_p2p_peer(&Vec::new()), None);
}

#[test]
fn bootstrap_step_from_parts() {
    match plan_bootstrap_address("junk", None) {
        BootstrapStep::Invalid(CoreEvent::Error { message }) => {
            assert_eq!(message, "invalid bootstrap address: junk")
        }
        other => panic!("unexpected {:?}", other),
    }
    match plan_bootstrap_address("/x", Some(vec![None, Some("p".to_string())])) {
        BootstrapStep::Dial { address, peer } => {
            assert_eq!(address, "/x");
            assert_eq!(peer, Some("p".to_string()));
        }
        other => panic!("unexpected {:?}", other),
    }
}

#[test]
fn bootstrap_plan_parses_multiaddrs() {
    let with_peer = format!("/ip4/192.168.1.10/tcp/4001/p2p/{}", PEER);
    let core = core_with(
        "alice",
        vec![with_peer.clone(), "/ip4/10.0.0.1/tcp/4001".to_string(), "not-an-address".to_string()],
    );
    let plan = core.bootstrap_plan();
    assert_eq!(plan.len(), 3);
    match &plan[0] {
        BootstrapStep::Dial { address, peer } => {
            assert_eq!(address, &with_peer);
            assert_eq!(peer.as_deref(), Some(PEER));
        }
        other => panic!("unexpected {:?}", other),
    }
    match &plan[1] {
        BootstrapStep::Dial { peer, .. } => assert_eq!(peer, &None),
        other => panic!("unexpected {:?}", other),
    }
    match &plan[2] {
        BootstrapStep::Invalid(CoreEvent::Error { message }) => {
            assert_eq!(message, "invalid bootstrap address: not-an-address")
        }
        other => panic!("unexpected {:?}", other),
    }
}
