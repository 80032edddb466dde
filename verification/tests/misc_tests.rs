use grokchat::dial::{after_publish, wait_before_publish, warn_empty_mesh, DialDecision, DialState, PublishFollowUp, PublishOutcome};
use grokchat::logging::{log_line, terminate_line};
use grokchat::sync::{chat_envelope, presence_envelope, profile_envelope, SyncEnvelope};
use grokchat::text::{decimal_string, parse_u16_str, str_eq, trim_str};

#[test]
fn trim_matches_std() {
    for s in ["", "   ", " a ", "\u{2003}x y\u{85}", "\r\nline\r\n", "no-space"] {
        assert_eq!(trim_str(s), s.trim());
    }
}

#[test]
fn decimal_and_parse() {
    assert_eq!(decimal_string(0), "0");
    assert_eq!(decimal_string(1234567890123), "1234567890123");
    assert_eq!(decimal_string(u64::MAX), u64::MAX.to_string());
    for s in ["0", "65535", "65536", "+1", "-1", "", "+", "1a", " 1", "00000000000000000007", "99999999999999999999"] {
        assert_eq!(parse_u16_str(s), s.parse::<u16>().ok(), "{}", s);
    }
}

#[test]
fn str_eq_compares_characters() {
    assert!(str_eq("abc", "abc"));
    assert!(!str_eq("abc", "abd"));
    assert!(!str_eq("ab", "abc"));
}

#[test]
fn dial_decisions() {
    let mut d = DialState::new();
    assert_eq!(d.peer_discovered("p", true, 0), DialDecision::AlreadyConnected);
    assert_eq!(d.peer_discovered("p", false, 1000), DialDecision::Dial);
    assert_eq!(d.peer_discovered("p", false, 1001), DialDecision::DialInProgress);
    d.outgoing_connection_failed(Some("p"));
    assert_eq!(d.peer_discovered("p", false, 5000), DialDecision::RecentlyTried { elapsed_ms: 4000 });
    assert_eq!(d.peer_discovered("p", false, 11000), DialDecision::Dial);
    d.connection_established("p");
    d.peer_expired("p");
    assert_eq!(d.peer_discovered("p", false, 11001), DialDecision::Dial);
    d.dial_failed("p");
    assert_eq!(d.peer_discovered("q", false, 11001), DialDecision::Dial);
    d.outgoing_connection_failed(None);
    assert_eq!(d.peer_discovered("q", false, 11002), DialDecision::DialInProgress);
}

#[test]
fn publish_decisions() {
    assert!(wait_before_publish(0, 3));
    assert!(!wait_before_publish(0, 0));
    assert!(!wait_before_publish(1, 3));
    assert!(warn_empty_mesh(0));
    assert!(!warn_empty_mesh(2));
    assert_eq!(after_publish(PublishOutcome::Published, false), PublishFollowUp::Sent);
    assert_eq!(after_publish(PublishOutcome::InsufficientPeers, false), PublishFollowUp::RetryWithExplicitPeers);
    assert_eq!(after_publish(PublishOutcome::InsufficientPeers, true), PublishFollowUp::ReportFailure);
    assert_eq!(after_publish(PublishOutcome::Failed, false), PublishFollowUp::ReportFailure);
}

#[test]
fn log_lines() {
    assert_eq!(log_line(1700000000, 5, "hello"), "[1700000000.005] hello");
    assert_eq!(log_line(1, 42, "x"), "[1.042] x");
    assert_eq!(log_line(1, 999, ""), "[1.999] ");
    assert_eq!(terminate_line("a".to_string()), "a\n");
    assert_eq!(terminate_line("a\n".to_string()), "a\n");
    assert_eq!(terminate_line(String::new()), "\n");
}

#[test]
fn sync_envelopes() {
    match chat_envelope("hi", Some("bob")) {
        SyncEnvelope::Chat { username, text } => {
            assert_eq!(username, Some("bob".to_string()));
            assert_eq!(text, "hi");
        }
        other => panic!("unexpected {:?}", other),
    }
    match presence_envelope(None, "online", 5) {
        SyncEnvelope::Presence { username, status, ts } => {
            assert_eq!((username, status.as_str(), ts), (None, "online", 5))
        }
        other => panic!("unexpected {:?}", other),
    }
    match profile_envelope("bob") {
        SyncEnvelope::Profile { username } => assert_eq!(username, "bob"),
        other => panic!("unexpected {:?}", other),
    }
}
