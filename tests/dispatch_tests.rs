use wmtp_core::dispatch::{
    connection_list_response, dispatch, handle_auth, handle_init, handle_logout, handle_resume,
    handle_session_info, handle_session_kill, parse_error_response, process_command,
    session_list_response, status_response, unknown_command_response, Clock, Outcome,
};
use wmtp_core::connection::ConnectionRegistry;
use wmtp_core::protocol::{Command, JsonValue, Request, Response};
use wmtp_core::session::{create_session_store, SessionManager, WmtpSession};
use wmtp_core::token::{generate_identity_token, is_ephemeral_token};

const SECRET: &str = "a-secret-of-sixteen-plus";

fn manager() -> SessionManager {
    SessionManager::new(create_session_store(), 100)
}

fn clock(now: u64) -> Clock {
    Clock { now, unix_secs: 1_700_000_000, uptime_secs: 42 }
}

fn req(cmd: &str, fields: Vec<(&str, &str)>) -> Request {
    let data = if fields.is_empty() {
        None
    } else {
        Some(JsonValue::Object(
            fields
                .into_iter()
                .map(|(k, v)| (k.to_string(), JsonValue::Text(v.to_string())))
                .collect(),
        ))
    };
    Request { cmd: cmd.to_string(), data }
}

fn reply(o: Outcome) -> Response {
    match o {
        Outcome::Reply(r) => r,
        Outcome::Delegate(c, _) => panic!("delegated {:?}", c),
    }
}

#[test]
fn init_returns_fresh_ephemeral_tokens() {
    let mut m = manager();
    let a = reply(process_command(Ok(req("INIT", vec![])), &mut m, &ConnectionRegistry::new(), SECRET, &clock(0)));
    let b = reply(process_command(Ok(req("init", vec![])), &mut m, &ConnectionRegistry::new(), SECRET, &clock(0)));
    assert_eq!(a.status, "OK");
    let ta = a.session_token.unwrap();
    let tb = b.session_token.unwrap();
    assert!(is_ephemeral_token(&ta));
    assert!(is_ephemeral_token(&tb));
    assert_ne!(ta, tb);
    assert_eq!(a.authenticated, Some(false));
    assert_eq!(m.active_count(), 2);
    assert!(!m.get(&ta).unwrap().authenticated);
}

#[test]
fn handle_init_stores_given_token() {
    let mut m = manager();
    let r = handle_init(&mut m, "WMTP-x".to_string(), 3);
    assert_eq!(r.cmd, "INIT");
    assert_eq!(r.session_token, Some("WMTP-x".to_string()));
    assert_eq!(m.get("WMTP-x").unwrap().created_at, Some(3));
}

#[test]
fn auth_missing_or_empty_email_mutates_nothing() {
    let mut m = manager();
    m.insert(WmtpSession::new_ephemeral("keep".to_string(), 0));
    let r = reply(dispatch(Ok(req("AUTH", vec![])), &mut m, &ConnectionRegistry::new(), SECRET, &clock(0), "WMTP-f".to_string()));
    assert_eq!(r.status, "ERR");
    assert_eq!(r.msg, Some("MISSING_EMAIL".to_string()));
    assert_eq!(r.code, Some(1003));
    let r = handle_auth(&mut m, Some("".to_string()), SECRET, 0);
    assert_eq!(r.code, Some(1003));
    assert_eq!(m.active_count(), 1);
    assert!(m.contains("keep"));
}

#[test]
fn auth_rejects_implausible_email() {
    let mut m = manager();
    let r = handle_auth(&mut m, Some("no-at-sign.com".to_string()), SECRET, 0);
    assert_eq!(r.status, "ERR");
    assert_eq!(r.msg, Some("INVALID_EMAIL".to_string()));
    assert_eq!(r.code, Some(1004));
    let r = handle_auth(&mut m, Some("user@nodot".to_string()), SECRET, 0);
    assert_eq!(r.code, Some(1004));
    assert_eq!(m.active_count(), 0);
}

#[test]
fn auth_twice_gives_identical_token() {
    let mut m = manager();
    let r1 = reply(dispatch(
        Ok(req("AUTH", vec![("email", "user@example.com")])),
        &mut m,
        &ConnectionRegistry::new(),
        SECRET,
        &clock(1),
        "WMTP-unused".to_string(),
    ));
    let r2 = reply(dispatch(
        Ok(req("auth", vec![("email", "user@example.com")])),
        &mut m,
        &ConnectionRegistry::new(),
        SECRET,
        &clock(5),
        "WMTP-unused".to_string(),
    ));
    assert_eq!(r1.status, "OK");
    assert_eq!(r1.session_token, r2.session_token);
    let t = r1.session_token.unwrap();
    assert_eq!(t, generate_identity_token("user@example.com", SECRET));
    assert_eq!(r1.username, Some("user".to_string()));
    assert_eq!(r1.email, Some("user@example.com".to_string()));
    assert_eq!(r1.authenticated, Some(true));
    assert_eq!(m.active_count(), 1);
    assert_eq!(m.get(&t).unwrap().last_activity, Some(5));
}

#[test]
fn resume_unknown_token_is_not_found() {
    let mut m = manager();
    let r = reply(dispatch(
        Ok(req("RESUME", vec![("session_token", "nope")])),
        &mut m,
        &ConnectionRegistry::new(),
        SECRET,
        &clock(0),
        "WMTP-f".to_string(),
    ));
    assert_eq!(r.status, "ERR");
    assert_eq!(r.msg, Some("SESSION_NOT_FOUND".to_string()));
    assert_eq!(r.code, Some(2003));
}

#[test]
fn resume_missing_token_is_missing_field() {
    let mut m = manager();
    let r = handle_resume(&mut m, None, 0);
    assert_eq!(r.code, Some(1003));
    assert_eq!(r.msg, Some("MISSING_TOKEN".to_string()));
}

#[test]
fn resume_just_issued_token_echoes_fields() {
    let mut m = manager();
    let a = reply(dispatch(
        Ok(req("AUTH", vec![("email", "alice@example.com")])),
        &mut m,
        &ConnectionRegistry::new(),
        SECRET,
        &clock(10),
        "WMTP-f".to_string(),
    ));
    let t = a.session_token.unwrap();
    let r = reply(dispatch(
        Ok(req("RESUME", vec![("session_token", &t)])),
        &mut m,
        &ConnectionRegistry::new(),
        SECRET,
        &clock(20),
        "WMTP-f".to_string(),
    ));
    assert_eq!(r.status, "OK");
    assert_eq!(r.cmd, "RESUME");
    assert_eq!(r.session_token, Some(t.clone()));
    assert_eq!(r.authenticated, Some(true));
    assert_eq!(r.email, Some("alice@example.com".to_string()));
    assert_eq!(r.username, Some("alice".to_string()));
    assert_eq!(m.get(&t).unwrap().last_activity, Some(20));
}

#[test]
fn resume_expired_session_is_not_found_and_dropped() {
    let mut m = manager();
    handle_init(&mut m, "WMTP-old".to_string(), 0);
    let r = handle_resume(&mut m, Some("WMTP-old".to_string()), 101);
    assert_eq!(r.code, Some(2003));
    assert!(!m.contains("WMTP-old"));
    handle_init(&mut m, "WMTP-edge".to_string(), 0);
    let r = handle_resume(&mut m, Some("WMTP-edge".to_string()), 100);
    assert_eq!(r.status, "OK");
}

#[test]
fn logout_any_token_is_ok() {
    let mut m = manager();
    handle_init(&mut m, "WMTP-a".to_string(), 0);
    let r = reply(dispatch(
        Ok(req("LOGOUT", vec![("session_token", "WMTP-a")])),
        &mut m,
        &ConnectionRegistry::new(),
        SECRET,
        &clock(0),
        "WMTP-f".to_string(),
    ));
    assert_eq!(r.status, "OK");
    assert!(!m.contains("WMTP-a"));
    let r = handle_logout(&mut m, Some("never-issued".to_string()));
    assert_eq!(r.status, "OK");
    let r = handle_logout(&mut m, None);
    assert_eq!(r.status, "OK");
    assert_eq!(r.cmd, "LOGOUT");
}

#[test]
fn unknown_command_names_it() {
    let mut m = manager();
    let r = reply(dispatch(Ok(req("FOO", vec![])), &mut m, &ConnectionRegistry::new(), SECRET, &clock(0), "WMTP-f".to_string()));
    assert_eq!(r.status, "ERR");
    assert_eq!(r.cmd, "UNKNOWN");
    assert_eq!(r.code, Some(1002));
    assert!(r.msg.unwrap().contains("FOO"));
    let r = unknown_command_response("BAR");
    assert_eq!(r.msg, Some("Unknown command: BAR".to_string()));
}

#[test]
fn parse_failure_is_an_error_response() {
    let mut m = manager();
    let r = reply(dispatch(Err("eof".to_string()), &mut m, &ConnectionRegistry::new(), SECRET, &clock(0), "WMTP-f".to_string()));
    assert_eq!(r.cmd, "PARSE");
    assert_eq!(r.code, Some(1001));
    assert_eq!(r.msg, Some("Invalid JSON: eof".to_string()));
    assert_eq!(parse_error_response("x").msg, Some("Invalid JSON: x".to_string()));
    assert_eq!(m.active_count(), 0);
}

#[test]
fn ping_and_liveness_replies() {
    let mut m = manager();
    let r = reply(dispatch(Ok(req("ping", vec![])), &mut m, &ConnectionRegistry::new(), SECRET, &clock(0), "WMTP-f".to_string()));
    assert_eq!(r.status, "OK");
    assert_eq!(r.cmd, "PONG");
    assert_eq!(r.msg, Some("PONG".to_string()));
    assert_eq!(r.uptime, Some(42));
    assert_eq!(r.server_time, Some("2023-11-14T22:13:20+00:00".to_string()));
    let r = reply(dispatch(Ok(req("LATENCY_PING", vec![])), &mut m, &ConnectionRegistry::new(), SECRET, &clock(0), "WMTP-f".to_string()));
    assert_eq!(r.cmd, "LATENCY_PONG");
    let r = reply(dispatch(Ok(req("HB", vec![])), &mut m, &ConnectionRegistry::new(), SECRET, &clock(0), "WMTP-f".to_string()));
    assert_eq!(r.cmd, "HB");
    assert_eq!(r.msg, Some("Heartbeat".to_string()));
}

#[test]
fn status_reports_counts() {
    let mut m = manager();
    handle_init(&mut m, "WMTP-1".to_string(), 0);
    handle_auth(&mut m, Some("u@x.io".to_string()), SECRET, 0);
    let r = status_response("STATUS", &m, &clock(0));
    match r.data {
        Some(JsonValue::Object(fields)) => {
            assert_eq!(fields[0].0, "active_sessions");
            assert!(matches!(fields[0].1, JsonValue::Int(2)));
            assert_eq!(fields[1].0, "authenticated_sessions");
            assert!(matches!(fields[1].1, JsonValue::Int(1)));
        }
        _ => panic!("no counts"),
    }
    let r = reply(dispatch(Ok(req("info", vec![])), &mut m, &ConnectionRegistry::new(), SECRET, &clock(0), "WMTP-f".to_string()));
    assert_eq!(r.cmd, "INFO");
}

#[test]
fn domain_commands_are_delegated() {
    let mut m = manager();
    match dispatch(Ok(req("msg_list", vec![("x", "y")])), &mut m, &ConnectionRegistry::new(), SECRET, &clock(0), "WMTP-f".to_string()) {
        Outcome::Delegate(c, r) => {
            assert_eq!(c, Command::MsgList);
            assert_eq!(r.cmd, "msg_list");
            assert_eq!(r.get_str("x"), Some("y".to_string()));
        }
        Outcome::Reply(_) => panic!("answered"),
    }
    assert!(matches!(
        dispatch(Ok(req("SESSION_SUSPEND", vec![])), &mut m, &ConnectionRegistry::new(), SECRET, &clock(0), "WMTP-f".to_string()),
        Outcome::Delegate(Command::SessionSuspend, _)
    ));
}

#[test]
fn init_extends_token_in_use() {
    let mut m = manager();
    handle_init(&mut m, "WMTP-dup".to_string(), 1);
    let r = handle_init(&mut m, "WMTP-dup".to_string(), 9);
    assert_eq!(r.status, "OK");
    let t = r.session_token.unwrap();
    assert_ne!(t, "WMTP-dup");
    assert!(t.starts_with("WMTP-dup"));
    assert!(is_ephemeral_token(&t));
    assert_eq!(m.get("WMTP-dup").unwrap().created_at, Some(1));
    assert_eq!(m.get(&t).unwrap().created_at, Some(9));
    assert_eq!(m.active_count(), 2);
}

#[test]
fn session_info_and_kill() {
    let mut m = manager();
    handle_auth(&mut m, Some("bob@example.org".to_string()), SECRET, 0);
    let t = generate_identity_token("bob@example.org", SECRET);
    let r = handle_session_info(&m, Some(t.clone()), 10);
    assert_eq!(r.status, "OK");
    assert_eq!(r.cmd, "SESSION_INFO");
    assert_eq!(r.username, Some("bob".to_string()));
    assert_eq!(m.get(&t).unwrap().last_activity, Some(0));
    assert_eq!(handle_session_info(&m, Some(t.clone()), 101).code, Some(2003));
    assert_eq!(handle_session_info(&m, None, 0).code, Some(1003));
    let r = handle_session_kill(&mut m, Some(t.clone()));
    assert_eq!(r.status, "OK");
    assert!(!m.contains(&t));
    assert_eq!(handle_session_kill(&mut m, Some(t)).code, Some(2003));
}

#[test]
fn session_and_connection_lists() {
    let mut m = manager();
    handle_init(&mut m, "WMTP-a".to_string(), 0);
    handle_init(&mut m, "WMTP-b".to_string(), 0);
    let r = session_list_response(&m);
    assert_eq!(r.cmd, "SESSION_LIST");
    match r.data {
        Some(JsonValue::Array(items)) => assert_eq!(items.len(), 2),
        _ => panic!("no list"),
    }
    let mut reg = ConnectionRegistry::new();
    reg.register(Some("1.2.3.4:5".to_string()), 0);
    reg.register(None, 1);
    let r = connection_list_response(&reg);
    match r.data {
        Some(JsonValue::Array(items)) => {
            assert_eq!(items.len(), 2);
            match &items[1] {
                JsonValue::Object(f) => {
                    assert_eq!(f[0].0, "id");
                    assert!(matches!(f[0].1, JsonValue::Int(2)));
                }
                _ => panic!("not an object"),
            }
        }
        _ => panic!("no list"),
    }
    let r = reply(dispatch(
        Ok(req("connection_list", vec![])),
        &mut m,
        &reg,
        SECRET,
        &clock(0),
        "WMTP-f".to_string(),
    ));
    assert_eq!(r.cmd, "CONNECTION_LIST");
}

#[test]
fn status_through_dispatch_carries_counts() {
    let mut m = manager();
    handle_auth(&mut m, Some("s@t.io".to_string()), SECRET, 0);
    let r = reply(dispatch(
        Ok(req("status", vec![])),
        &mut m,
        &ConnectionRegistry::new(),
        SECRET,
        &clock(0),
        "WMTP-f".to_string(),
    ));
    assert_eq!(r.cmd, "STATUS");
    assert_eq!(r.uptime, Some(42));
    match r.data {
        Some(JsonValue::Object(f)) => {
            assert!(matches!(f[0].1, JsonValue::Int(1)));
            assert!(matches!(f[1].1, JsonValue::Int(1)));
        }
        _ => panic!("no counts"),
    }
    let r = reply(dispatch(
        Ok(req("PING", vec![])),
        &mut m,
        &ConnectionRegistry::new(),
        SECRET,
        &clock(0),
        "WMTP-f".to_string(),
    ));
    assert!(r.session_token.is_none() && r.code.is_none() && r.data.is_none());
}
