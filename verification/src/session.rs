//! The session schema: the typed shape of the driver's "new session"
//! response, as the dispatch layer consumes it.
use vstd::prelude::*;

verus! {

/// Decodes raw response bodies into the typed schemas of this module; the
/// decoding itself is data-layer work done outside the library core.
pub struct SchemaParser {}

/// A proxy configuration; the driver negotiates none by default.
pub struct Proxy {}

/// The session's negotiated timeouts, in milliseconds.
pub struct Timeouts {
    pub implicit: i64,
    pub page_load: i64,
    pub script: i64,
}

/// The default text of an absent capability field.
pub fn none() -> (r: String)
    ensures
        r@ == Seq::<char>::empty(),
{
    String::new()
}

/// The capabilities a created session reports back.
pub struct Capabilities {
    pub accept_insecure_certs: bool,
    pub browser_name: String,
    pub browser_version: String,
    pub moz_accessibility_checks: bool,
    pub moz_build_id: String,
    pub moz_debugger_address: String,
    pub moz_geckodriver_version: String,
    pub moz_headless: bool,
    pub moz_platform_version: String,
    pub moz_process_id: i64,
    pub moz_profile: String,
    pub moz_shutdown_timeout: i64,
    pub moz_webdriver_click: bool,
    pub moz_windowless: bool,
    pub page_load_strategy: String,
    pub platform_name: String,
    pub proxy: Proxy,
    pub set_window_rect: bool,
    pub strict_file_interactability: bool,
    pub timeouts: Timeouts,
    pub unhandled_prompt_behavior: String,
    pub user_agent: String,
    pub web_socket_url: String,
}

/// One browser-automation context: its opaque identifier and the
/// capabilities negotiated for it.
pub struct Session {
    pub session_id: String,
    pub capabilities: Capabilities,
}

/// The body of a successful "new session" exchange.
pub struct SessionResponse {
    pub value: Session,
}

/// The generic body of any other successful exchange.
pub struct Response<T> {
    pub value: Option<T>,
}

} // verus!
