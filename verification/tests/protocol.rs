use rust_geck::cdp::CDPMessage;
use rust_geck::cdp::CdpChannel;
use rust_geck::cdp::bootstrap_messages;
use rust_geck::cdp::cdp_http_commands;
use rust_geck::cdp::classify_frame;
use rust_geck::net::classify_http_response;
use rust_geck::net::request_headers;
use rust_geck::service::SupervisorState;
use rust_geck::service::SupervisorTask;
use rust_geck::service::line_signals_ready;
use rust_geck::service::teardown_plan;
use rust_geck::types::Dict;
use rust_geck::types::DictType;

#[test]
fn test_http_200_returns_body_unmodified() {
    let body = vec![1u8, 2, 3, 255];
    assert_eq!(classify_http_response(200, body.clone()).unwrap(), body);
}

#[test]
fn test_http_404_is_channel_failure() {
    let err = classify_http_response(404, vec![1u8]).unwrap_err();
    assert_eq!(err.display_string(), "Service Error: Response status is 404");
}

#[test]
fn test_request_headers() {
    let headers = request_headers();
    assert_eq!(headers.len(), 2);
    assert_eq!(headers[0].0, "Accept");
    assert_eq!(headers[0].1, "application/json");
    assert_eq!(headers[1].0, "Content-Type");
    assert_eq!(headers[1].1, "application/json;charset=UTF-8");
}

fn success_frame() -> Dict {
    let mut payload = Dict::new();
    payload.insert("userContext", DictType::from("ctx-7"));
    let mut frame = Dict::new();
    frame.insert("type", DictType::from("success"));
    frame.insert("id", DictType::from(3));
    frame.insert("result", DictType::from(payload));
    frame
}

fn error_frame() -> Dict {
    let mut frame = Dict::new();
    frame.insert("type", DictType::from("error"));
    frame.insert("id", DictType::from(3));
    frame.insert("error", DictType::from("invalid argument"));
    frame.insert("message", DictType::from("boom"));
    frame.insert("stacktrace", DictType::from("at line 1"));
    frame
}

#[test]
fn test_classify_success_frame_yields_payload() {
    match classify_frame(&success_frame()) {
        CDPMessage::CDPResponseSuccess(s) => {
            assert_eq!(s.m_type, "success");
            assert_eq!(s.id, 3);
            let payload = s.result.expect("payload");
            assert!(
                matches!(payload.get("userContext"), Some(DictType::Str(v)) if v == "ctx-7")
            );
        }
        CDPMessage::CDPResponseFailure(_) => panic!("classified as failure"),
    }
}

#[test]
fn test_classify_error_frame_carries_diagnostic() {
    match classify_frame(&error_frame()) {
        CDPMessage::CDPResponseFailure(f) => {
            assert_eq!(f.m_type, "error");
            assert_eq!(f.id, 3);
            assert_eq!(f.message.as_deref(), Some("boom"));
            assert_eq!(f.error.as_deref(), Some("invalid argument"));
            assert_eq!(f.stacktrace.as_deref(), Some("at line 1"));
        }
        CDPMessage::CDPResponseSuccess(_) => panic!("classified as success"),
    }
}

#[test]
fn test_accept_frame_success_advances_id() {
    let mut channel = CdpChannel::new();
    assert_eq!(channel.id, 0);
    let frame = channel.accept_frame(success_frame()).unwrap();
    assert_eq!(channel.id, 1);
    assert!(matches!(frame.get("type"), Some(DictType::Str(t)) if t == "success"));
}

#[test]
fn test_accept_frame_error_keeps_id() {
    let mut channel = CdpChannel::new();
    let err = channel.accept_frame(error_frame()).unwrap_err();
    assert_eq!(channel.id, 0);
    assert_eq!(err.display_string(), "Driver Error: boom");
}

#[test]
fn test_build_message_tags_current_id() {
    let mut channel = CdpChannel::new();
    let first = channel.build_message("session.subscribe", "{}");
    assert_eq!(first, "{\"id\": 0, \"method\":\"session.subscribe\", \"params\":{} }");
    channel.accept_frame(success_frame()).unwrap();
    let second = channel.build_message("browser.createUserContext", "{}");
    assert_eq!(second, "{\"id\": 1, \"method\":\"browser.createUserContext\", \"params\":{} }");
}

#[test]
fn test_bootstrap_sequence_is_two_messages_in_order() {
    let msgs = bootstrap_messages();
    assert_eq!(msgs.len(), 2);
    assert_eq!(msgs[0].0, "session.subscribe");
    assert_eq!(msgs[0].1, "{\"events\":[\"browsingContext.domContentLoaded\"]}");
    assert_eq!(msgs[1].0, "browser.createUserContext");
    assert_eq!(msgs[1].1, "{}");
}

#[test]
fn test_cdp_http_commands() {
    let commands = cdp_http_commands();
    assert_eq!(commands.get("json").unwrap().path, "/json");
    assert_eq!(commands.get("activate").unwrap().path, "/json/activate/{id}");
}

#[test]
fn test_readiness_line_matching() {
    assert!(line_signals_ready("Listening on 127.0.0.1:4444"));
    assert!(line_signals_ready("1701 geckodriver INFO Listening on 127.0.0.1:4444"));
    assert!(!line_signals_ready("geckodriver starting up"));
    assert!(!line_signals_ready(""));
}

#[test]
fn test_supervisor_stays_blocked_without_readiness_line() {
    // A driver that never prints the readiness substring inside the test
    // window leaves the supervisor waiting.
    let mut state = SupervisorState::new();
    for line in ["booting", "still booting", "no luck", "INFO something else"] {
        state.observe_line(line);
        assert!(!state.ready());
    }
}

#[test]
fn test_supervisor_readiness_is_one_shot() {
    let mut state = SupervisorState::new();
    state.observe_line("warming up");
    assert!(!state.ready());
    state.observe_line("Listening on 127.0.0.1:4444");
    assert!(state.ready());
    for line in ["more output", "even more", "unrelated"] {
        state.observe_line(line);
        assert!(state.ready());
    }
}

#[test]
fn test_supervisor_exit_classification() {
    let mut state = SupervisorState::new();
    state.observe_exit(0);
    assert!(!state.failed());
    state.observe_exit(1);
    assert!(state.failed());
}

#[test]
fn test_teardown_cancels_all_three_tasks_in_order() {
    let plan = teardown_plan();
    assert_eq!(plan.len(), 3);
    assert!(plan[0] == SupervisorTask::StdoutReader);
    assert!(plan[1] == SupervisorTask::StderrReader);
    assert!(plan[2] == SupervisorTask::ExitWaiter);
}
