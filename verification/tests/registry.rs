use rust_geck::constants::Firefox;
use rust_geck::driver::DriverCore;
use rust_geck::driver::screenshot_bytes;
use rust_geck::driver::session_params;
use rust_geck::driver::url_body;
use rust_geck::template::expand;
use rust_geck::template::template_is_wf;
use rust_geck::types::Dict;
use rust_geck::types::DictType;

#[test]
fn driver_test_dict() {
    let firefox = Firefox::new();
    assert_eq!(firefox.get("NEW_SESSION").unwrap().verb, "POST");
}

#[test]
fn test_registry_paths() {
    let firefox = Firefox::new();
    let quit = firefox.get("QUIT").unwrap();
    assert_eq!(quit.verb, "DELETE");
    assert_eq!(quit.path, "/session/{sessionId}");
    assert!(firefox.get("NO_SUCH_COMMAND").is_none());
}

#[test]
fn test_expand_substitutes_session_id() {
    let params = session_params("abc123");
    let expanded = expand("/session/{sessionId}/url", &params).unwrap();
    assert_eq!(expanded, "/session/abc123/url");
    assert!(!expanded.contains('{'));
}

#[test]
fn test_expand_all_registry_templates_resolve() {
    // Every registered template expands once the identifier parameters it
    // names are present, and no placeholder marker survives.
    let firefox = Firefox::new();
    let mut params = Dict::new();
    params.insert("sessionId", DictType::from("s-1"));
    params.insert("id", DictType::from("e-2"));
    params.insert("name", DictType::from("n-3"));
    params.insert("shadowId", DictType::from("sh-4"));
    params.insert("authenticatorId", DictType::from("a-5"));
    params.insert("credentialId", DictType::from("c-6"));
    params.insert("propertyName", DictType::from("p-7"));
    for name in [
        "NEW_SESSION",
        "QUIT",
        "GET",
        "GET_PAGE_SOURCE",
        "SCREENSHOT",
        "ELEMENT_SCREENSHOT",
        "GET_ELEMENT_ATTRIBUTE",
        "FIND_ELEMENT_FROM_SHADOW_ROOT",
        "REMOVE_CREDENTIAL",
        "GET_ELEMENT_VALUE_OF_CSS_PROPERTY",
    ] {
        let cmd = firefox.get(name).unwrap();
        let expanded = expand(&cmd.path, &params).unwrap();
        assert!(!expanded.contains('{'), "unresolved marker in {}", expanded);
        assert!(!expanded.contains('}'), "unresolved marker in {}", expanded);
    }
}

#[test]
fn test_registry_templates_are_well_formed() {
    // Discharges, for every registered template, the well-formedness the
    // expansion law assumes.
    let firefox = Firefox::new();
    for (_, cmd) in &firefox.command_dict {
        assert!(template_is_wf(&cmd.path), "ill-formed template {}", cmd.path);
    }
    assert!(!template_is_wf("/session/{sessionId"));
    assert!(template_is_wf("plain/path"));
}

#[test]
fn test_expand_missing_parameter_fails() {
    let params = Dict::new();
    let r = expand("/session/{sessionId}/url", &params);
    let err = r.unwrap_err();
    assert_eq!(err.display_string(), "Driver Error: path template names a missing parameter");
}

#[test]
fn test_expand_unclosed_placeholder_fails() {
    let params = session_params("abc");
    assert!(expand("/session/{sessionId", &params).is_err());
}

#[test]
fn test_expand_container_parameter_fails() {
    let mut params = Dict::new();
    params.insert("sessionId", DictType::from(Dict::new()));
    assert!(expand("/session/{sessionId}", &params).is_err());
}

#[test]
fn test_expand_renders_scalars_plainly() {
    let mut params = Dict::new();
    params.insert("port", DictType::from(4444));
    params.insert("fresh", DictType::from(true));
    let expanded = expand("p={port}&f={fresh}", &params).unwrap();
    assert_eq!(expanded, "p=4444&f=true");
}

#[test]
fn test_driver_core_default_url() {
    let core = DriverCore::new(None, "{}".to_string());
    assert_eq!(core.driver_url, "http://127.0.0.1:4444");
    let remote = DriverCore::new(Some("http://10.0.0.1:9999".to_string()), "{}".to_string());
    assert_eq!(remote.driver_url, "http://10.0.0.1:9999");
}

#[test]
fn test_prepare_new_session() {
    let core = DriverCore::new(None, "{}".to_string());
    let prepared = core.prepare_command("NEW_SESSION", &Dict::new()).unwrap();
    assert_eq!(prepared.verb, "POST");
    assert_eq!(prepared.url, "http://127.0.0.1:4444/session/");
}

#[test]
fn test_prepare_session_scoped_command() {
    let core = DriverCore::new(None, "{}".to_string());
    let params = session_params("abc");
    let prepared = core.prepare_command("GET_PAGE_SOURCE", &params).unwrap();
    assert_eq!(prepared.verb, "GET");
    assert_eq!(prepared.url, "http://127.0.0.1:4444/session/abc/source");
}

#[test]
fn test_prepare_full_page_screenshot() {
    let core = DriverCore::new(None, "{}".to_string());
    let params = session_params("abc");
    let prepared = core.prepare_command("FULL_PAGE_SCREENSHOT", &params).unwrap();
    assert_eq!(prepared.verb, "GET");
    assert_eq!(prepared.url, "http://127.0.0.1:4444/session/abc/moz/screenshot/full");
}

#[test]
fn test_prepare_unknown_command_fails() {
    let core = DriverCore::new(None, "{}".to_string());
    let r = core.prepare_command("NOT_A_COMMAND", &Dict::new());
    assert_eq!(
        r.unwrap_err().display_string(),
        "Driver Error: command name is not registered"
    );
}

#[test]
fn test_url_body() {
    let body = url_body("https://example.org/");
    let parsed: serde_json::Value = serde_json::from_str(&body).unwrap();
    assert_eq!(parsed["url"], serde_json::Value::String("https://example.org/".to_string()));
}

#[test]
fn test_screenshot_bytes_decodes() {
    assert_eq!(screenshot_bytes("aGVsbG8=").unwrap(), b"hello".to_vec());
    assert_eq!(screenshot_bytes("").unwrap(), Vec::<u8>::new());
}

#[test]
fn test_screenshot_bytes_rejects_garbage() {
    assert!(screenshot_bytes("%%%not-base64%%%").is_err());
}
