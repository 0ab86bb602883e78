use wmtp_core::config::{decimal, parse_u64, Config};
use wmtp_core::connection::{connection_step, ConnAction, ConnEvent, ConnPhase, ConnectionRegistry};
use wmtp_core::control::{ControlAction, ControlEvent, ControlLoop};

#[test]
fn control_loop_actions() {
    let mut l = ControlLoop::new();
    assert!(matches!(l.step(&ControlEvent::Tick), ControlAction::SendHeartbeat));
    match l.step(&ControlEvent::Data(b"  {\"cmd\":\"PING\"}\n".to_vec())) {
        ControlAction::Handle(t) => assert_eq!(t, "{\"cmd\":\"PING\"}"),
        other => panic!("{:?}", other),
    }
    assert!(matches!(l.step(&ControlEvent::Data(vec![0xff, 0xfe])), ControlAction::Skip));
    assert!(l.open);
    assert!(matches!(l.step(&ControlEvent::Data(vec![])), ControlAction::Close));
    assert!(!l.open);
    assert!(matches!(l.step(&ControlEvent::Tick), ControlAction::Close));
}

#[test]
fn control_loop_closes_on_failures() {
    for ev in [ControlEvent::Closed, ControlEvent::ReadFailed, ControlEvent::WriteFailed] {
        let mut l = ControlLoop::new();
        assert!(matches!(l.step(&ev), ControlAction::Close));
        assert!(!l.open);
    }
}

#[test]
fn registry_ids_are_fresh() {
    let mut r = ConnectionRegistry::new();
    let a = r.register(Some("10.0.0.1:5000".to_string()), 0).unwrap();
    let b = r.register(None, 1).unwrap();
    assert_eq!(a, 1);
    assert_eq!(b, 2);
    assert_eq!(r.count(), 2);
    assert!(r.remove(a));
    assert!(!r.remove(a));
    let c = r.register(None, 2).unwrap();
    assert_eq!(c, 3);
    let ids: Vec<u64> = r.list().iter().map(|c| c.id).collect();
    assert_eq!(ids, vec![2, 3]);
}

#[test]
fn connection_phases() {
    let (p, a) = connection_step(ConnPhase::Accepting, ConnEvent::ControlOpened);
    assert_eq!((p, a), (ConnPhase::ControlEstablished, ConnAction::Register));
    let (p, a) = connection_step(p, ConnEvent::Registered);
    assert_eq!((p, a), (ConnPhase::Active, ConnAction::Serve));
    let (p, a) = connection_step(p, ConnEvent::StreamOpened);
    assert_eq!((p, a), (ConnPhase::Active, ConnAction::SpawnUpload));
    let (p, a) = connection_step(p, ConnEvent::ControlEnded);
    assert_eq!((p, a), (ConnPhase::Closed, ConnAction::Deregister));
    let (p, a) = connection_step(p, ConnEvent::StreamOpened);
    assert_eq!((p, a), (ConnPhase::Closed, ConnAction::Ignore));
    let (p, a) = connection_step(ConnPhase::Accepting, ConnEvent::ControlFailed);
    assert_eq!((p, a), (ConnPhase::Closed, ConnAction::Abort));
}

#[test]
fn numbers_render_and_parse() {
    assert_eq!(decimal(0), "0");
    assert_eq!(decimal(4433), "4433");
    assert_eq!(decimal(u64::MAX), "18446744073709551615");
    assert_eq!(parse_u64("3600"), Some(3600));
    assert_eq!(parse_u64("+5"), Some(5));
    assert_eq!(parse_u64("18446744073709551615"), Some(u64::MAX));
    assert_eq!(parse_u64("18446744073709551616"), None);
    assert_eq!(parse_u64(""), None);
    assert_eq!(parse_u64("+"), None);
    assert_eq!(parse_u64("12a"), None);
    assert_eq!(parse_u64("-1"), None);
}

#[test]
fn config_defaults_and_overrides() {
    let c = Config::from_settings(None, None, None, None, None, None, None, None);
    assert_eq!(c.host, "0.0.0.0");
    assert_eq!(c.port, 4433);
    assert_eq!(c.domain, "localhost");
    assert_eq!(c.session_timeout, 3600);
    assert_eq!(c.heartbeat_interval, 5);
    assert_eq!(c.bind_addr(), "0.0.0.0:4433");
    let c = Config::from_settings(
        Some("127.0.0.1".to_string()),
        Some("70000".to_string()),
        None,
        Some("short".to_string()),
        None,
        None,
        Some("x".to_string()),
        Some("10".to_string()),
    );
    assert_eq!(c.port, 4433);
    assert_eq!(c.session_timeout, 3600);
    assert_eq!(c.heartbeat_interval, 10);
    assert_eq!(c.bind_addr(), "127.0.0.1:4433");
    let c = Config::from_settings(None, Some("8443".to_string()), None, None, None, None, None, None);
    assert_eq!(c.bind_addr(), "0.0.0.0:8443");
}

#[test]
fn config_validation_order() {
    let c = Config::from_settings(None, None, None, Some("short".to_string()), None, None, None, None);
    assert_eq!(c.validate(false, false), Err("Certificate not found: ../certs/cert.pem".to_string()));
    assert_eq!(c.validate(true, false), Err("Private key not found: ../certs/key.pem".to_string()));
    assert_eq!(
        c.validate(true, true),
        Err("Server secret must be at least 16 characters".to_string())
    );
    let c = Config::from_settings(None, None, None, None, None, None, None, None);
    assert_eq!(c.validate(true, true), Ok(()));
}
