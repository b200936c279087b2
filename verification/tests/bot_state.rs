use wechatbot::bot::{
    credentials_from_status, decide_qr_status, BotState, PollErrorAction, QrDecision, QrStatus,
    RetryBackoff, MAX_RETRY_DELAY_SECS,
};
use wechatbot::clock::{chrono_now, format_timestamp};
use wechatbot::error::WeChatBotError;
use wechatbot::message::parse_message;
use wechatbot::types::{Credentials, MessageState, MessageType, WireMessage};

fn creds() -> Credentials {
    Credentials {
        token: "tok".to_string(),
        base_url: "https://api.example".to_string(),
        account_id: "acc".to_string(),
        user_id: "me".to_string(),
        saved_at: None,
    }
}

fn wire(message_type: MessageType, from: &str, to: &str, ctx: &str) -> WireMessage {
    WireMessage {
        from_user_id: from.to_string(),
        to_user_id: to.to_string(),
        client_id: String::new(),
        create_time_ms: 1,
        message_type,
        message_state: MessageState::New,
        context_token: ctx.to_string(),
        item_list: vec![],
    }
}

fn state() -> BotState {
    BotState::new(None, "https://default.example".to_string())
}

#[test]
fn new_state_uses_given_or_default_endpoint() {
    assert_eq!(state().base_url(), "https://default.example");
    let s = BotState::new(Some("https://mine".to_string()), "https://default.example".to_string());
    assert_eq!(s.base_url(), "https://mine");
    assert!(s.credentials().is_none());
    assert!(!s.is_stopped());
}

#[test]
fn not_logged_in_is_an_auth_error() {
    match state().get_auth() {
        Err(WeChatBotError::Auth(m)) => assert_eq!(m, "not logged in"),
        other => panic!("unexpected {:?}", other),
    }
}

#[test]
fn adopted_credentials_authenticate() {
    let mut s = state();
    s.adopt_credentials(creds());
    assert_eq!(s.base_url(), "https://api.example");
    let (u, t) = s.get_auth().unwrap();
    assert_eq!(u, "https://api.example");
    assert_eq!(t, "tok");
    assert_eq!(s.credentials().unwrap().account_id, "acc");
}

#[test]
fn unknown_user_has_no_context() {
    match state().context_for("bob") {
        Err(WeChatBotError::NoContext(u)) => assert_eq!(u, "bob"),
        other => panic!("unexpected {:?}", other),
    }
}

#[test]
fn user_message_context_is_remembered_for_sender() {
    let mut s = state();
    let w = wire(MessageType::User, "alice", "bot", "ctx-a");
    let parsed = s.receive(&w);
    assert!(parsed.is_some());
    assert_eq!(s.context_for("alice").unwrap(), "ctx-a");
    assert!(s.context_for("bot").is_err());
}

#[test]
fn bot_message_context_is_remembered_for_recipient() {
    let mut s = state();
    let w = wire(MessageType::Bot, "bot", "carol", "ctx-c");
    assert!(s.receive(&w).is_none());
    assert_eq!(s.context_for("carol").unwrap(), "ctx-c");
}

#[test]
fn empty_user_or_token_is_ignored() {
    let mut s = state();
    s.remember_context(&wire(MessageType::User, "", "bot", "ctx"));
    s.remember_context(&wire(MessageType::User, "dave", "bot", ""));
    assert!(s.context_for("").is_err());
    assert!(s.context_for("dave").is_err());
}

#[test]
fn newer_context_replaces_older() {
    let mut s = state();
    s.remember_context(&wire(MessageType::User, "alice", "bot", "old"));
    s.remember_context(&wire(MessageType::User, "alice", "bot", "new"));
    assert_eq!(s.context_for("alice").unwrap(), "new");
}

#[test]
fn reply_keeps_message_context() {
    let mut s = state();
    let msg = parse_message(&wire(MessageType::User, "erin", "bot", "ctx-e")).unwrap();
    s.remember_reply_context(&msg);
    assert_eq!(s.context_for("erin").unwrap(), "ctx-e");
}

#[test]
fn poll_steps() {
    let mut s = state();
    s.start_run();
    assert!(matches!(s.next_poll(), Err(WeChatBotError::Auth(_))));
    s.adopt_credentials(creds());
    let p = s.next_poll().unwrap().unwrap();
    assert_eq!(p.base_url, "https://api.example");
    assert_eq!(p.token, "tok");
    assert_eq!(p.cursor, "");
    let mut b = RetryBackoff::new();
    s.accept_updates(&mut b, "cursor-1".to_string());
    assert_eq!(s.next_poll().unwrap().unwrap().cursor, "cursor-1");
    s.accept_updates(&mut b, String::new());
    assert_eq!(s.next_poll().unwrap().unwrap().cursor, "cursor-1");
    s.stop();
    assert!(s.is_stopped());
    assert!(s.next_poll().unwrap().is_none());
    s.start_run();
    assert!(s.next_poll().unwrap().is_some());
}

#[test]
fn backoff_doubles_up_to_ten_seconds_and_resets() {
    let mut s = state();
    let mut b = RetryBackoff::new();
    let mut waits = Vec::new();
    for _ in 0..7 {
        match s.handle_poll_error(&mut b, false) {
            PollErrorAction::Backoff { delay_secs } => waits.push(delay_secs),
            PollErrorAction::Relogin => panic!("unexpected relogin"),
        }
    }
    assert_eq!(waits, vec![1, 2, 4, 8, 10, 10, 10]);
    assert_eq!(b.delay_secs(), MAX_RETRY_DELAY_SECS);
    s.accept_updates(&mut b, String::new());
    assert_eq!(b.delay_secs(), 1);
}

#[test]
fn expired_session_forgets_contexts_and_cursor() {
    let mut s = state();
    s.adopt_credentials(creds());
    let mut b = RetryBackoff::new();
    s.accept_updates(&mut b, "cur".to_string());
    s.remember_context(&wire(MessageType::User, "alice", "bot", "ctx"));
    b.advance();
    assert!(matches!(s.handle_poll_error(&mut b, true), PollErrorAction::Relogin));
    assert!(s.context_for("alice").is_err());
    assert_eq!(s.next_poll().unwrap().unwrap().cursor, "");
    assert_eq!(b.delay_secs(), 2);
    assert!(s.credentials().is_some());
}

fn status(s: &str, token: Option<&str>) -> QrStatus {
    QrStatus {
        status: s.to_string(),
        bot_token: token.map(|t| t.to_string()),
        baseurl: None,
        ilink_bot_id: Some("bot-1".to_string()),
        ilink_user_id: None,
    }
}

#[test]
fn confirmed_login_builds_credentials() {
    let base = "https://base".to_string();
    let c = credentials_from_status(&status("confirmed", Some("t1")), &base, Some("5Z".to_string())).unwrap();
    assert_eq!(c.token, "t1");
    assert_eq!(c.base_url, "https://base");
    assert_eq!(c.account_id, "bot-1");
    assert_eq!(c.user_id, "");
    assert_eq!(c.saved_at.as_deref(), Some("5Z"));
    let mut st = status("confirmed", Some("t1"));
    st.baseurl = Some("https://other".to_string());
    assert_eq!(credentials_from_status(&st, &base, None).unwrap().base_url, "https://other");
}

#[test]
fn confirmed_login_without_token_fails() {
    let base = "https://base".to_string();
    match credentials_from_status(&status("confirmed", None), &base, None) {
        Err(WeChatBotError::Auth(m)) => assert_eq!(m, "missing bot_token"),
        other => panic!("unexpected {:?}", other),
    }
    assert!(matches!(decide_qr_status(&status("confirmed", None), &base, None), Err(WeChatBotError::Auth(_))));
}

#[test]
fn qr_status_decisions() {
    let base = "https://base".to_string();
    match decide_qr_status(&status("confirmed", Some("t")), &base, chrono_now()) {
        Ok(QrDecision::Confirmed(c)) => {
            assert_eq!(c.token, "t");
            let saved = c.saved_at.unwrap();
            assert!(saved.ends_with('Z'));
            assert!(saved[..saved.len() - 1].chars().all(|ch| ch.is_ascii_digit()));
        }
        _ => panic!("expected confirmation"),
    }
    match decide_qr_status(&status("confirmed", Some("t")), &base, Some("42Z".to_string())) {
        Ok(QrDecision::Confirmed(c)) => assert_eq!(c.saved_at.as_deref(), Some("42Z")),
        _ => panic!("expected confirmation"),
    }
    assert!(matches!(decide_qr_status(&status("expired", Some("t")), &base, None), Ok(QrDecision::Expired)));
    assert!(matches!(decide_qr_status(&status("scaned", None), &base, None), Ok(QrDecision::Pending)));
    assert!(matches!(decide_qr_status(&status("wait", None), &base, None), Ok(QrDecision::Pending)));
}

#[test]
fn cursor_follows_latest_nonempty_buffer_since_expiry() {
    let mut s = state();
    s.adopt_credentials(creds());
    let mut b = RetryBackoff::new();
    s.accept_updates(&mut b, "c1".to_string());
    s.handle_poll_error(&mut b, false);
    assert_eq!(s.next_poll().unwrap().unwrap().cursor, "c1");
    s.accept_updates(&mut b, "c2".to_string());
    s.accept_updates(&mut b, String::new());
    assert_eq!(s.next_poll().unwrap().unwrap().cursor, "c2");
    s.handle_poll_error(&mut b, true);
    s.accept_updates(&mut b, String::new());
    assert_eq!(s.next_poll().unwrap().unwrap().cursor, "");
    s.accept_updates(&mut b, "c3".to_string());
    assert_eq!(s.next_poll().unwrap().unwrap().cursor, "c3");
}

#[test]
fn login_then_poll_uses_new_credentials() {
    let mut s = state();
    let mut b = RetryBackoff::new();
    s.accept_updates(&mut b, "cur".to_string());
    s.adopt_credentials(creds());
    let p = s.next_poll().unwrap().unwrap();
    assert_eq!((p.base_url.as_str(), p.token.as_str(), p.cursor.as_str()), ("https://api.example", "tok", "cur"));
}

#[test]
fn timestamps_are_decimal_seconds_with_z() {
    assert_eq!(format_timestamp(0), "0Z");
    assert_eq!(format_timestamp(7), "7Z");
    assert_eq!(format_timestamp(1_700_000_000), "1700000000Z");
    assert_eq!(format_timestamp(u64::MAX), "18446744073709551615Z");
    let now = chrono_now().unwrap();
    let secs: u64 = now.trim_end_matches('Z').parse().unwrap();
    assert!(secs > 1_600_000_000);
}

#[test]
fn session_expiry_is_errcode_minus_14() {
    let api = |errcode| WeChatBotError::Api { message: "m".to_string(), http_status: 200, errcode };
    assert!(api(-14).is_session_expired());
    assert!(!api(-1).is_session_expired());
    assert!(!WeChatBotError::Auth("x".to_string()).is_session_expired());
    assert!(!WeChatBotError::Other("-14".to_string()).is_session_expired());
}

#[test]
fn wire_codes() {
    assert_eq!(MessageType::User.code(), 1);
    assert_eq!(MessageType::Bot.code(), 2);
    assert_eq!(MessageState::New.code(), 0);
    assert_eq!(MessageState::Finish.code(), 2);
}
