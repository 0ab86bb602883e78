use wmtp_core::protocol::{classify, Command, Heartbeat, JsonValue, Request, Response};

fn obj(fields: Vec<(&str, JsonValue)>) -> JsonValue {
    JsonValue::Object(fields.into_iter().map(|(k, v)| (k.to_string(), v)).collect())
}

#[test]
fn test_response_builder() {
    let resp = Response::ok("AUTH_OK")
        .with_token("token123".to_string())
        .with_auth(true)
        .with_email("user@example.com".to_string())
        .with_username("user".to_string());

    assert_eq!(resp.status, "OK");
    assert_eq!(resp.cmd, "AUTH_OK");
    assert_eq!(resp.session_token, Some("token123".to_string()));
    assert_eq!(resp.authenticated, Some(true));
    assert_eq!(resp.email, Some("user@example.com".to_string()));
}

#[test]
fn test_error_response() {
    let resp = Response::err("AUTH", "MISSING_EMAIL", 1003);

    assert_eq!(resp.status, "ERR");
    assert_eq!(resp.cmd, "AUTH");
    assert_eq!(resp.msg, Some("MISSING_EMAIL".to_string()));
    assert_eq!(resp.code, Some(1003));
}

#[test]
fn request_field_getters() {
    let req = Request {
        cmd: "AUTH".to_string(),
        data: Some(obj(vec![
            ("email", JsonValue::Text("test@example.com".to_string())),
            ("n", JsonValue::Int(42)),
            ("flag", JsonValue::Bool(true)),
            ("inner", obj(vec![("name", JsonValue::Text("x".to_string()))])),
        ])),
    };
    assert_eq!(req.get_str("email"), Some("test@example.com".to_string()));
    assert_eq!(req.get_int("n"), Some(42));
    assert_eq!(req.get_bool("flag"), Some(true));
    assert_eq!(req.get_nested_str("inner", "name"), Some("x".to_string()));
    assert_eq!(req.get_str("n"), None);
    assert_eq!(req.get_int("email"), None);
    assert_eq!(req.get_nested_str("inner", "other"), None);
    assert_eq!(req.get_str("missing"), None);
}

#[test]
fn request_without_data() {
    let req = Request { cmd: "PING".to_string(), data: None };
    assert!(req.get_str("email").is_none());
    assert!(req.get_bool("x").is_none());
}

#[test]
fn first_duplicate_key_wins() {
    let req = Request {
        cmd: "X".to_string(),
        data: Some(obj(vec![
            ("k", JsonValue::Text("first".to_string())),
            ("k", JsonValue::Text("second".to_string())),
        ])),
    };
    assert_eq!(req.get_str("k"), Some("first".to_string()));
}

#[test]
fn builders_set_each_field() {
    let r = Response::ok("PONG")
        .with_msg("pong")
        .with_uptime(9)
        .with_server_time("t".to_string())
        .with_data(JsonValue::Null);
    assert_eq!(r.msg, Some("pong".to_string()));
    assert_eq!(r.uptime, Some(9));
    assert_eq!(r.server_time, Some("t".to_string()));
    assert!(matches!(r.data, Some(JsonValue::Null)));
    assert!(r.code.is_none());
    assert!(r.username.is_none());
}

#[test]
fn classify_ignores_case() {
    assert_eq!(classify("init").1, Command::Init);
    assert_eq!(classify("Auth").1, Command::Auth);
    assert_eq!(classify("latency_ping").1, Command::LatencyPing);
    assert_eq!(classify("msg_send").1, Command::MsgSend);
    assert_eq!(classify("FOO").1, Command::Unknown);
    assert_eq!(classify("foo").0, "FOO");
    assert!(Command::MsgSend.is_delegated());
    assert!(!Command::Init.is_delegated());
    assert!(!Command::Unknown.is_delegated());
    assert_eq!(Command::from_name("hb"), Command::Unknown);
    assert_eq!(Command::from_name("HB"), Command::Heartbeat);
}

#[test]
fn heartbeat_values() {
    let hb = Heartbeat::at(1234);
    assert_eq!(hb.cmd, "HB");
    assert_eq!(hb.ts, 1234);
    let now = Heartbeat::new();
    assert_eq!(now.cmd, "HB");
    assert!(now.ts > 1_600_000_000);
}
