use webol_cli::error::{Error, ParseIntErrorKind};
use webol_cli::requests::start::{
    get_eta, start_request_body, verify_response, ErrorResponse, ResponseType, StartAction,
    StartEvent, StartPhase, StartResponse, StartSession, Verified,
};

#[test]
fn response_type_names() {
    assert!(matches!(ResponseType::from("start"), Ok(ResponseType::Start)));
    assert!(matches!(ResponseType::from("timeout"), Ok(ResponseType::Timeout)));
    assert!(matches!(ResponseType::from("notfound"), Ok(ResponseType::NotFound)));
    assert!(matches!(ResponseType::from("Start"), Err(Error::WsResponse)));
    assert!(matches!(ResponseType::from(""), Err(Error::WsResponse)));
}

#[test]
fn eta_is_formatted_as_clock() {
    assert_eq!(get_eta("eta_3661_abc", "abc").unwrap(), "01:01:01");
    assert_eq!(get_eta("eta_0_abc", "abc").unwrap(), "00:00:00");
    assert_eq!(get_eta("eta_59_abc", "abc").unwrap(), "00:00:59");
    assert_eq!(get_eta("eta_86399_abc", "abc").unwrap(), "23:59:59");
}

#[test]
fn eta_hours_wrap_at_sixty() {
    // 61 hours, 2 minutes, 3 seconds
    assert_eq!(get_eta("eta_219723_u", "u").unwrap(), "01:02:03");
}

#[test]
fn eta_for_another_uuid_is_malformed() {
    assert!(matches!(get_eta("eta_10_other", "abc"), Err(Error::WsResponse)));
}

#[test]
fn eta_with_another_prefix_is_malformed() {
    assert!(matches!(get_eta("start_abc", "abc"), Err(Error::WsResponse)));
    assert!(matches!(get_eta("noise", "abc"), Err(Error::WsResponse)));
}

#[test]
fn eta_with_bad_number_is_a_parse_error() {
    assert!(matches!(
        get_eta("eta_x1_abc", "abc"),
        Err(Error::Parse { kind: ParseIntErrorKind::InvalidDigit })
    ));
    assert!(matches!(
        get_eta("eta__abc", "abc"),
        Err(Error::Parse { kind: ParseIntErrorKind::Empty })
    ));
    assert!(matches!(
        get_eta("eta_99999999999999999999_abc", "abc"),
        Err(Error::Parse { kind: ParseIntErrorKind::PosOverflow })
    ));
}

#[test]
fn verify_response_reads_the_report() {
    assert!(matches!(
        verify_response("start_abc", "abc"),
        Ok(Verified::ResponseType(ResponseType::Start))
    ));
    assert!(matches!(
        verify_response("timeout_abc", "abc"),
        Ok(Verified::ResponseType(ResponseType::Timeout))
    ));
    assert!(matches!(
        verify_response("notfound_abc", "abc"),
        Ok(Verified::ResponseType(ResponseType::NotFound))
    ));
}

#[test]
fn verify_response_other_uuid() {
    assert!(matches!(verify_response("start_xyz", "abc"), Ok(Verified::WrongUuid)));
    // the uuid is checked before the type
    assert!(matches!(verify_response("bogus_xyz", "abc"), Ok(Verified::WrongUuid)));
}

#[test]
fn verify_response_unknown_type() {
    assert!(matches!(verify_response("bogus_abc", "abc"), Err(Error::WsResponse)));
}

#[test]
fn start_body_json() {
    assert_eq!(start_request_body("pc", true), r#"{"id": "pc", "ping": true}"#);
    assert_eq!(start_request_body("pc", false), r#"{"id": "pc", "ping": false}"#);
}

fn accepted(session: &mut StartSession) {
    assert!(matches!(session.step(StartEvent::Status(200)), StartAction::ReadStartBody));
    assert_eq!(session.phase, StartPhase::AwaitStartBody);
}

#[test]
fn session_defaults_to_ping() {
    assert!(StartSession::new("pc".to_string(), None).ping);
    assert!(!StartSession::new("pc".to_string(), Some(false)).ping);
    assert!(StartSession::new("pc".to_string(), Some(true)).ping);
}

#[test]
fn session_full_success() {
    let mut s = StartSession::new("pc".to_string(), None);
    accepted(&mut s);
    let body = StartResponse { boot: true, id: "desktop".to_string(), uuid: "u1".to_string() };
    match s.step(StartEvent::StartBody(body)) {
        StartAction::Accepted { boot, socket } => {
            assert!(boot);
            assert_eq!(socket.as_deref(), Some("u1"));
        }
        _ => panic!("expected Accepted"),
    }
    assert_eq!(s.phase, StartPhase::AwaitEta);
    match s.step(StartEvent::EtaMessage("eta_90_u1".to_string())) {
        StartAction::Eta { eta, overview } => {
            assert_eq!(eta, "00:01:30");
            assert_eq!(overview, "/00:01:30) start pc");
        }
        _ => panic!("expected Eta"),
    }
    assert_eq!(s.phase, StartPhase::AwaitResult);
    match s.step(StartEvent::ResultMessage("start_u1".to_string())) {
        StartAction::Finished { verdict, message, started, overview } => {
            assert_eq!(verdict, Verified::ResponseType(ResponseType::Start));
            assert_eq!(message, "device started");
            assert!(started);
            assert_eq!(overview, "successfully started desktop");
        }
        _ => panic!("expected Finished"),
    }
    assert_eq!(s.phase, StartPhase::Done);
}

#[test]
fn session_timeout_and_wrong_uuid() {
    for (msg, text) in [
        ("timeout_u1", "ping timed out"),
        ("notfound_u1", "unknown uuid"),
        ("start_zz", "returned wrong uuid"),
    ] {
        let mut s = StartSession::new("pc".to_string(), Some(true));
        accepted(&mut s);
        let body = StartResponse { boot: false, id: "pc".to_string(), uuid: "u1".to_string() };
        s.step(StartEvent::StartBody(body));
        s.step(StartEvent::EtaMessage("eta_5_u1".to_string()));
        match s.step(StartEvent::ResultMessage(msg.to_string())) {
            StartAction::Finished { message, started, overview, .. } => {
                assert_eq!(message, text);
                assert!(!started);
                assert_eq!(overview, "error while starting pc");
            }
            _ => panic!("expected Finished"),
        }
    }
}

#[test]
fn session_without_ping_ends_after_body() {
    let mut s = StartSession::new("pc".to_string(), Some(false));
    accepted(&mut s);
    let body = StartResponse { boot: false, id: "pc".to_string(), uuid: "u1".to_string() };
    match s.step(StartEvent::StartBody(body)) {
        StartAction::Accepted { boot, socket } => {
            assert!(!boot);
            assert!(socket.is_none());
        }
        _ => panic!("expected Accepted"),
    }
    assert_eq!(s.phase, StartPhase::Done);
}

#[test]
fn session_refused() {
    let mut s = StartSession::new("pc".to_string(), None);
    assert!(matches!(s.step(StartEvent::Status(404)), StartAction::ReadErrorBody));
    let body = ErrorResponse { error: "unknown device".to_string() };
    match s.step(StartEvent::ErrorBody(body)) {
        StartAction::Refused { message } => assert_eq!(message, "✗ got error: unknown device"),
        _ => panic!("expected Refused"),
    }
    assert_eq!(s.phase, StartPhase::Done);
}

#[test]
fn session_fails_on_bad_eta() {
    let mut s = StartSession::new("pc".to_string(), None);
    accepted(&mut s);
    let body = StartResponse { boot: true, id: "pc".to_string(), uuid: "u1".to_string() };
    s.step(StartEvent::StartBody(body));
    match s.step(StartEvent::EtaMessage("eta_5_u2".to_string())) {
        StartAction::Fail(Error::WsResponse) => {}
        _ => panic!("expected Fail"),
    }
    assert_eq!(s.phase, StartPhase::Done);
}

#[test]
fn session_fails_on_bad_result() {
    let mut s = StartSession::new("pc".to_string(), None);
    accepted(&mut s);
    let body = StartResponse { boot: true, id: "pc".to_string(), uuid: "u1".to_string() };
    s.step(StartEvent::StartBody(body));
    s.step(StartEvent::EtaMessage("eta_5_u1".to_string()));
    match s.step(StartEvent::ResultMessage("weird_u1".to_string())) {
        StartAction::Fail(Error::WsResponse) => {}
        _ => panic!("expected Fail"),
    }
}
