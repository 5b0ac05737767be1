use rust_geck::DriverBuilder;
use rust_geck::driver::DriverCore;
use rust_geck::error::ErrorKind;
use rust_geck::error::GeckError;
use rust_geck::options::DesiredCapabilities;
use rust_geck::options::DriverOptions;
use rust_geck::session::Capabilities;
use rust_geck::session::Proxy;
use rust_geck::session::Session;
use rust_geck::session::Timeouts;

#[test]
fn test_options() {
    let mut options = DriverOptions::new();
    options.args(vec!["-headless"]);
    let mut prefs: Vec<(String, String)> = Vec::new();
    prefs.push(("dom.ipc.processCount".to_string(), "8".to_string()));
    options.prefs(&prefs);
}

#[test]
fn test_serialize() {
    let capabilities = DesiredCapabilities::FIREFOX.values();
    let _actual: serde_json::Value = serde_json::from_str(
        r#"{"moz::debuggerAddress":true, "acceptInsecureCerts":true,"browserName":"firefox"}"#,
    )
    .unwrap();
    let _expected: serde_json::Value =
        serde_json::from_str(&capabilities.to_json_string()).unwrap();
}

#[test]
fn test_default_capabilities_content() {
    let capabilities = DesiredCapabilities::FIREFOX.values();
    let parsed: serde_json::Value =
        serde_json::from_str(&capabilities.to_json_string()).unwrap();
    let section = &parsed["capabilities"]["alwaysMatch"];
    assert_eq!(section["browserName"], serde_json::Value::String("firefox".to_string()));
    assert_eq!(section["acceptInsecureCerts"], serde_json::Value::Bool(true));
    assert_eq!(section["moz:debuggerAddress"], serde_json::Value::Bool(true));
}

#[test]
fn test_builder_serialized_capabilities() {
    let mut builder = DriverBuilder::new(None);
    builder.setup_default_capabilities().unwrap();
    builder.options(DriverOptions::new()).unwrap();
    builder.setup_default_options().unwrap();
    let text = builder.serialized_capabilities().unwrap();
    let parsed: serde_json::Value = serde_json::from_str(&text).unwrap();
    let section = &parsed["capabilities"]["alwaysMatch"];
    assert_eq!(section["browserName"], serde_json::Value::String("firefox".to_string()));
    assert_eq!(section["webSocketUrl"], serde_json::Value::Bool(true));
    let firefox_options = &section["moz:firefoxOptions"];
    let args = firefox_options["args"].as_array().unwrap();
    assert!(args.contains(&serde_json::Value::String("-headless".to_string())));
    assert_eq!(firefox_options["log"]["level"], serde_json::Value::String("trace".to_string()));
}

#[test]
fn test_builder_option_dispatch() {
    let mut builder = DriverBuilder::new(None);
    builder.options(DriverOptions::new()).unwrap();
    builder.option("--pref", ("dom.ipc.processCount", "8")).unwrap();
    builder.option("--arg", ("-headless", "")).unwrap();
    builder.setup_default_capabilities().unwrap();
    let text = builder.serialized_capabilities().unwrap();
    let parsed: serde_json::Value = serde_json::from_str(&text).unwrap();
    let firefox_options = &parsed["capabilities"]["alwaysMatch"]["moz:firefoxOptions"];
    assert_eq!(
        firefox_options["prefs"]["dom.ipc.processCount"],
        serde_json::Value::String("8".to_string())
    );
    let args = firefox_options["args"].as_array().unwrap();
    assert!(args.contains(&serde_json::Value::String("-headless".to_string())));
}

#[test]
fn test_error_display_prefixes() {
    let e = GeckError::new(ErrorKind::Service, None, "it broke");
    assert_eq!(e.display_string(), "Service Error: it broke");
    let e = GeckError::new(ErrorKind::Gecko, Some("cause".to_string()), "deeper");
    assert_eq!(e.display_string(), "Gecko Error: deeper");
    let e = GeckError::new(ErrorKind::Other, None, "plain");
    assert_eq!(e.display_string(), "Error: plain");
}

fn stub_session(id: &str) -> Session {
    Session {
        session_id: id.to_string(),
        capabilities: Capabilities {
            accept_insecure_certs: true,
            browser_name: "firefox".to_string(),
            browser_version: "128.0".to_string(),
            moz_accessibility_checks: false,
            moz_build_id: "20240101000000".to_string(),
            moz_debugger_address: String::new(),
            moz_geckodriver_version: "0.34.0".to_string(),
            moz_headless: true,
            moz_platform_version: "6.1".to_string(),
            moz_process_id: 4321,
            moz_profile: "/tmp/profile".to_string(),
            moz_shutdown_timeout: 60000,
            moz_webdriver_click: true,
            moz_windowless: false,
            page_load_strategy: "normal".to_string(),
            platform_name: "linux".to_string(),
            proxy: Proxy {},
            set_window_rect: true,
            strict_file_interactability: false,
            timeouts: Timeouts { implicit: 0, page_load: 300000, script: 30000 },
            unhandled_prompt_behavior: "dismiss and notify".to_string(),
            user_agent: "Mozilla/5.0".to_string(),
            web_socket_url: "ws://127.0.0.1:9222/session/abc".to_string(),
        },
    }
}

#[test]
fn test_session_exchange_end_to_end_shape() {
    // The computing half of the startup scenario: the driver printed its
    // readiness line, NEW_SESSION was prepared, a 200 response came back,
    // and the decoded session with a non-empty identifier was adopted.
    let mut supervisor = rust_geck::service::SupervisorState::new();
    supervisor.observe_line("Listening on 127.0.0.1:4444");
    assert!(supervisor.ready());

    let mut core = DriverCore::new(None, "{}".to_string());
    let prepared = core
        .prepare_command("NEW_SESSION", &rust_geck::types::Dict::new())
        .unwrap();
    assert_eq!(prepared.verb, "POST");
    assert_eq!(prepared.url, "http://127.0.0.1:4444/session/");

    let body = br#"{"value": {"sessionId": "abc-123"}}"#.to_vec();
    let returned = rust_geck::net::classify_http_response(200, body.clone()).unwrap();
    assert_eq!(returned, body);

    core.adopt_session(stub_session("abc-123")).unwrap();
    assert!(core.session.is_some());
}

#[test]
fn test_adopt_session_rejects_empty_identifier() {
    let mut core = DriverCore::new(None, "{}".to_string());
    let err = core.adopt_session(stub_session("")).unwrap_err();
    assert_eq!(err.display_string(), "Driver Error: session has an empty identifier");
    assert!(core.session.is_none());
}
