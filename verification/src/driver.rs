//! The driver core: turning a symbolic command into the concrete wire
//! request, adopting the session a successful "new session" exchange
//! reports, and decoding screenshot payloads.
//!
//! Everything here computes; the channel that performs the exchange hands
//! plain values in and takes plain values back.
use vstd::prelude::*;

use base64::Engine;

use crate::constants::Firefox;
use crate::constants::firefox_command_table;
use crate::constants::spec_lookup;
use crate::constants::table_view;
use crate::error::ErrorKind;
use crate::error::GeckError;
use crate::json::json_of;
use crate::session::Session;
use crate::template::expand;
use crate::template::spec_expand;
use crate::types::Dict;
use crate::types::DictType;
use crate::types::DictVal;

verus! {

/// The commands this library adds beyond the driver's published surface:
/// the vendor extensions it relies on, the full-page screenshot first.
pub open spec fn moz_command_table() -> Seq<(Seq<char>, Seq<char>, Seq<char>)> {
    seq![
        ("GET_CONTEXT"@, "GET"@, "/session/{sessionId}/moz/context"@),
        ("SET_CONTEXT"@, "POST"@, "/session/{sessionId}/moz/context"@),
        ("INSTALL_ADDON"@, "POST"@, "/session/{sessionId}/moz/addon/install"@),
        ("UNINSTALL_ADDON"@, "POST"@, "/session/{sessionId}/moz/addon/uninstall"@),
        ("FULL_PAGE_SCREENSHOT"@, "GET"@, "/session/{sessionId}/moz/screenshot/full"@),
    ]
}

/// The default endpoint of a locally supervised driver.
pub open spec fn default_driver_url() -> Seq<char> {
    "http://127.0.0.1"@ + ":"@ + "4444"@
}

/// One concrete wire request: the verb and the fully expanded URL.
#[derive(Debug)]
pub struct PreparedRequest {
    pub verb: String,
    pub url: String,
}

/// The computing half of a driver instance: its command registry, its
/// endpoint, the serialized capabilities it creates sessions with, and the
/// session it has adopted.
pub struct DriverCore {
    pub firefox: Firefox,
    pub driver_url: String,
    pub capabilities: String,
    pub session: Option<Session>,
    pub open_page: Option<String>,
}

impl DriverCore {
    /// The command registry this driver dispatches against.
    pub open spec fn commands(&self) -> Seq<(Seq<char>, Seq<char>, Seq<char>)> {
        table_view(self.firefox.command_dict@)
    }

    /// A core for a driver reached at `remote_url`, or at the default local
    /// endpoint: no session yet, and the published commands extended with
    /// the vendor ones.
    pub fn new(remote_url: Option<String>, capabilities: String) -> (r: DriverCore)
        ensures
            r.commands() == firefox_command_table() + moz_command_table(),
            r.driver_url@ == (match remote_url {
                Some(u) => u@,
                None => default_driver_url(),
            }),
            r.capabilities == capabilities,
            r.session is None,
            r.open_page is None,
    {
        let mut firefox = Firefox::new();
        firefox.insert("GET_CONTEXT", "GET", "/session/{sessionId}/moz/context");
        firefox.insert("SET_CONTEXT", "POST", "/session/{sessionId}/moz/context");
        firefox.insert("INSTALL_ADDON", "POST", "/session/{sessionId}/moz/addon/install");
        firefox.insert("UNINSTALL_ADDON", "POST", "/session/{sessionId}/moz/addon/uninstall");
        firefox.insert("FULL_PAGE_SCREENSHOT", "GET", "/session/{sessionId}/moz/screenshot/full");
        proof {
            assert(table_view(firefox.command_dict@) =~= firefox_command_table()
                + moz_command_table());
        }
        let driver_url: String = match remote_url {
            Some(u) => u,
            None => {
                let mut base = crate::constants::driver_host().to_owned();
                base.append(":");
                base.append(crate::constants::driver_port());
                base
            }
        };
        DriverCore { firefox, driver_url, capabilities, session: None, open_page: None }
    }

    /// The concrete request for command `cmd` with the given parameters:
    /// the registered verb, and the registered path template expanded
    /// against `params` and appended to the driver's endpoint.  An
    /// unregistered command name is a programming error, reported as a
    /// driver-classified failure, as is a template that does not expand.
    pub fn prepare_command(&self, cmd: &str, params: &Dict) -> (r: Result<
        PreparedRequest,
        GeckError,
    >)
        requires
            params.wf(),
        ensures
            match spec_lookup(self.commands(), cmd@) {
                None => r matches Err(e) && e.kind() == ErrorKind::Driver,
                Some((verb, path)) => match spec_expand(path, params.entries()) {
                    Some(p) => r matches Ok(pr) && pr.verb@ == verb && pr.url@ == self.driver_url@
                        + p,
                    None => r matches Err(e) && e.kind() == ErrorKind::Driver,
                },
            },
    {
        match self.firefox.get(cmd) {
            None => Err(
                GeckError::new(ErrorKind::Driver, None, "command name is not registered"),
            ),
            Some(command) => {
                match expand(command.path.as_str(), params) {
                    Ok(expanded) => {
                        let mut url = self.driver_url.clone();
                        url.append(expanded.as_str());
                        Ok(PreparedRequest { verb: command.verb.clone(), url })
                    }
                    Err(e) => Err(e),
                }
            }
        }
    }

    /// Adopts the session a successful "new session" exchange reported.
    /// An empty identifier is rejected, and the driver keeps whatever
    /// session it had.
    pub fn adopt_session(&mut self, s: Session) -> (r: Result<(), GeckError>)
        ensures
            s.session_id@.len() > 0 ==> (r is Ok && final(self).session == Some(s)),
            s.session_id@.len() == 0 ==> (r matches Err(e) && e.kind() == ErrorKind::Driver
                && final(self).session == old(self).session),
            final(self).driver_url == old(self).driver_url,
            final(self).capabilities == old(self).capabilities,
            final(self).commands() == old(self).commands(),
            final(self).open_page == old(self).open_page,
    {
        if s.session_id.as_str().unicode_len() == 0 {
            Err(GeckError::new(ErrorKind::Driver, None, "session has an empty identifier"))
        } else {
            self.session = Some(s);
            Ok(())
        }
    }

    /// Records the page the driver has navigated to.
    pub fn record_open_page(&mut self, url: &str)
        ensures
            final(self).open_page matches Some(p) && p@ == url@,
            final(self).driver_url == old(self).driver_url,
            final(self).capabilities == old(self).capabilities,
            final(self).commands() == old(self).commands(),
            final(self).session == old(self).session,
    {
        self.open_page = Some(url.to_owned());
    }
}

/// The parameter object naming one session: `{"sessionId": id}`.
pub fn session_params(session_id: &str) -> (r: Dict)
    ensures
        r.wf(),
        r.entries() == seq![("sessionId"@, DictVal::Str(session_id@))],
{
    let mut d = Dict::new();
    d.insert("sessionId", DictType::from(session_id));
    proof {
        assert(d.entries() =~= seq![("sessionId"@, DictVal::Str(session_id@))]);
    }
    d
}

/// The body of a navigation command: `{"url": url}`, as JSON text.
pub fn url_body(url: &str) -> (r: String)
    ensures
        r@ == json_of(DictVal::Obj(seq![("url"@, DictVal::Str(url@))])),
{
    let mut d = Dict::new();
    d.insert("url", DictType::from(url));
    proof {
        assert(d.entries() =~= seq![("url"@, DictVal::Str(url@))]);
        crate::types::lemma_dict_wf(&d);
    }
    d.to_json_string()
}

/// The text of a script-execution body: the script quoted as given, the
/// caller's argument array spliced in as JSON.
pub open spec fn script_body_text(script: Seq<char>, args: Seq<char>) -> Seq<char> {
    "{\"script\": \""@ + script + "\", \"args\": "@ + args + "}"@
}

/// The body of a script-execution command.
pub fn script_body(script: &str, args: &str) -> (r: String)
    ensures
        r@ == script_body_text(script@, args@),
{
    let mut out = "{\"script\": \"".to_owned();
    out.append(script);
    out.append("\", \"args\": ");
    out.append(args);
    out.append("}");
    proof {
        assert(out@ =~= script_body_text(script@, args@));
    }
    out
}

/// What base64 decoding of `s` yields: the bytes, or nothing when `s` is
/// not valid standard base64.  The result is a function of the text alone.
pub uninterp spec fn base64_decoded(s: Seq<char>) -> Option<Seq<u8>>;

/// Relies on base64's `Engine::decode` with the `STANDARD` engine: it
/// decodes or rejects by the text alone.
#[verifier::external_body]
fn base64_decode(payload: &str) -> (r: Option<Vec<u8>>)
    ensures
        match r {
            Some(b) => base64_decoded(payload@) == Some(b@),
            None => base64_decoded(payload@) is None,
        },
{
    base64::engine::general_purpose::STANDARD.decode(payload).ok()
}

/// The raw image bytes of a screenshot payload: the driver sends the image
/// base64-encoded, and a payload that does not decode is a driver-
/// classified failure.
pub fn screenshot_bytes(payload: &str) -> (r: Result<Vec<u8>, GeckError>)
    ensures
        match r {
            Ok(b) => base64_decoded(payload@) == Some(b@),
            Err(e) => base64_decoded(payload@) is None && e.kind() == ErrorKind::Driver,
        },
{
    match base64_decode(payload) {
        Some(b) => Ok(b),
        None => Err(
            GeckError::new(ErrorKind::Driver, None, "screenshot payload is not valid base64"),
        ),
    }
}

} // verus!
