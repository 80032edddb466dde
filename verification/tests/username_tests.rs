use grokchat::api_types::{UiClientMessage, UiCommand, UiEvent};
use grokchat::gateway::{handle_client_text, hello_event, WsAction, WsSession};
use grokchat::username::{
    build_username_status, check_username, normalize_username, observe_event,
    validate_username_format, UsernameRegistry, USERNAME_TTL_MS,
};

fn status(e: &UiEvent) -> (String, bool, bool, String) {
    match e {
        UiEvent::UsernameStatus { username, available, applied, message } => {
            (username.clone(), *available, *applied, message.clone())
        }
        other => panic!("not a status: {:?}", other),
    }
}

#[test]
fn normalize_trims_and_lowercases() {
    assert_eq!(normalize_username("  User "), "user");
    assert_eq!(normalize_username("User"), normalize_username(" user "));
    assert_eq!(normalize_username("\u{3000}ALICE.B\t"), "alice.b");
}

#[test]
fn validate_each_rule() {
    assert_eq!(validate_username_format(""), Err("Ник не должен быть пустым".to_string()));
    assert_eq!(validate_username_format("ab"), Err("Минимум 3 символа".to_string()));
    assert_eq!(
        validate_username_format("abcdefghijklmnopqrstuvwxy"),
        Err("Максимум 24 символа".to_string())
    );
    assert_eq!(
        validate_username_format("ab c"),
        Err("Разрешены только a-z, 0-9, '.', '_' и '-'".to_string())
    );
    assert_eq!(validate_username_format("abc"), Ok(()));
    assert_eq!(
        validate_username_format("ABC"),
        Err("Разрешены только a-z, 0-9, '.', '_' и '-'".to_string())
    );
    assert_eq!(
        validate_username_format("alicE"),
        Err("Разрешены только a-z, 0-9, '.', '_' и '-'".to_string())
    );
    assert_eq!(validate_username_format("a_b-c.9"), Ok(()));
    assert_eq!(validate_username_format("abcdefghijklmnopqrstuvwx"), Ok(()));
}

#[test]
fn validate_counts_bytes_not_chars() {
    // two Cyrillic letters are four bytes: long enough, but not allowed
    assert_eq!(
        validate_username_format("жж"),
        Err("Разрешены только a-z, 0-9, '.', '_' и '-'".to_string())
    );
    // thirteen Cyrillic letters are 26 bytes: too long
    assert_eq!(validate_username_format("жжжжжжжжжжжжж"), Err("Максимум 24 символа".to_string()));
    // one Cyrillic letter is two bytes: too short
    assert_eq!(validate_username_format("ж"), Err("Минимум 3 символа".to_string()));
}

#[test]
fn status_free_taken_and_own() {
    let mut reg = UsernameRegistry::new();
    let free = build_username_status("alice", &mut reg, None, false, 1000);
    assert_eq!(status(&free), ("alice".to_string(), true, false, "Ник свободен".to_string()));
    let applied = build_username_status("alice", &mut reg, None, true, 1000);
    assert_eq!(status(&applied).3, "Ник свободен и сохранён");

    reg.insert("alice".to_string(), 1000);
    let taken = build_username_status("alice", &mut reg, None, false, 2000);
    assert_eq!(status(&taken), ("alice".to_string(), false, false, "Этот ник уже занят".to_string()));
    let own = build_username_status("alice", &mut reg, Some("alice"), false, 2000);
    assert!(status(&own).1);
    let other = build_username_status("alice", &mut reg, Some("bob"), false, 2000);
    assert!(!status(&other).1);
}

#[test]
fn status_of_malformed_name() {
    let mut reg = UsernameRegistry::new();
    let st = build_username_status("x", &mut reg, None, true, 0);
    assert_eq!(status(&st), ("x".to_string(), false, true, "Минимум 3 символа".to_string()));
}

#[test]
fn names_expire_after_ttl() {
    let mut reg = UsernameRegistry::new();
    reg.insert("alice".to_string(), 0);
    assert!(!status(&build_username_status("alice", &mut reg, None, false, USERNAME_TTL_MS)).1);
    assert!(reg.contains("alice"));
    assert!(status(&build_username_status("alice", &mut reg, None, false, USERNAME_TTL_MS + 1)).1);
    assert!(!reg.contains("alice"));
}

#[test]
fn http_check_normalizes_both_names() {
    let mut reg = UsernameRegistry::new();
    reg.insert("alice".to_string(), 10);
    let r = check_username(&mut reg, " ALICE ", None, 20);
    assert_eq!(r.username, "alice");
    assert!(!r.available);
    assert_eq!(r.message, "Этот ник уже занят");
    let r = check_username(&mut reg, " ALICE ", Some("Alice"), 20);
    assert!(r.available);
    assert_eq!(r.message, "Ник свободен");
}

#[test]
fn observed_names_are_recorded_normalized() {
    let mut reg = UsernameRegistry::new();
    observe_event(&mut reg, &UiEvent::UsernameObserved { username: "  Bob ".to_string() }, 5);
    assert!(reg.contains("bob"));
    observe_event(&mut reg, &UiEvent::UsernameObserved { username: "   ".to_string() }, 5);
    assert!(!reg.contains(""));
    observe_event(&mut reg, &UiEvent::System { message: "carol".to_string() }, 5);
    assert!(!reg.contains("carol"));
}

#[test]
fn hello_names_the_peer() {
    match hello_event("12D3KooWabc") {
        UiEvent::System { message } => assert_eq!(message, "connected_to_peer:12D3KooWabc"),
        other => panic!("unexpected {:?}", other),
    }
}

#[test]
fn ws_set_username_then_other_client_sees_it_taken() {
    let mut reg = UsernameRegistry::new();
    let mut a = WsSession::new();
    let mut b = WsSession::new();
    let acts = handle_client_text(
        &mut a,
        &mut reg,
        Some(UiClientMessage::SetUsername { username: " Alice ".to_string() }),
        "",
        100,
    );
    assert_eq!(a.current_username, Some("alice".to_string()));
    assert_eq!(acts.len(), 2);
    match &acts[0] {
        WsAction::Broadcast(UiEvent::UsernameObserved { username }) => assert_eq!(username, "alice"),
        other => panic!("unexpected {:?}", other),
    }
    match &acts[1] {
        WsAction::Broadcast(e) => {
            assert_eq!(status(e), ("alice".to_string(), true, true, "Ник свободен и сохранён".to_string()))
        }
        other => panic!("unexpected {:?}", other),
    }
    let acts = handle_client_text(
        &mut b,
        &mut reg,
        Some(UiClientMessage::SetUsername { username: "alice".to_string() }),
        "",
        200,
    );
    assert_eq!(b.current_username, None);
    assert_eq!(acts.len(), 1);
    match &acts[0] {
        WsAction::Broadcast(e) => assert_eq!(status(e).3, "Этот ник уже занят"),
        other => panic!("unexpected {:?}", other),
    }
    let acts = handle_client_text(
        &mut b,
        &mut reg,
        Some(UiClientMessage::CheckUsername { username: "ALICE".to_string() }),
        "",
        200,
    );
    match &acts[0] {
        WsAction::Broadcast(e) => assert!(!status(e).1),
        other => panic!("unexpected {:?}", other),
    }
}

#[test]
fn ws_chat_messages_carry_the_name() {
    let mut reg = UsernameRegistry::new();
    let mut s = WsSession { current_username: Some("carol".to_string()) };
    let acts = handle_client_text(
        &mut s,
        &mut reg,
        Some(UiClientMessage::SendMessage { text: "hi".to_string() }),
        "{...}",
        0,
    );
    match &acts[0] {
        WsAction::Command(UiCommand::SendMessage { text, username }) => {
            assert_eq!(text, "hi");
            assert_eq!(username, &Some("carol".to_string()));
        }
        other => panic!("unexpected {:?}", other),
    }
    let acts = handle_client_text(&mut s, &mut reg, None, "  plain text \n", 0);
    match &acts[0] {
        WsAction::Command(UiCommand::SendMessage { text, .. }) => assert_eq!(text, "plain text"),
        other => panic!("unexpected {:?}", other),
    }
    assert!(handle_client_text(&mut s, &mut reg, None, "   ", 0).is_empty());
    assert!(handle_client_text(&mut s, &mut reg, Some(UiClientMessage::Ping), "", 0).is_empty());
}
