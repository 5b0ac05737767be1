//! A synchronous client library for driving a browser through an external
//! WebDriver process: a command registry, a path-template expander, a
//! dynamic capability dictionary, response-envelope classification for the
//! HTTP and WebSocket channels, and a supervisor state machine for the
//! driver process.
use vstd::prelude::*;

pub mod cdp;
pub mod constants;
pub mod driver;
pub mod error;
pub mod json;
pub mod net;
pub mod options;
pub mod service;
pub mod session;
pub mod template;
pub mod types;

use crate::error::GeckError;
use crate::options::Capabilities;
use crate::options::DesiredCapabilities;
use crate::options::DriverOptions;
use crate::options::firefox_default_entries;
use crate::types::DictType;
use crate::types::DictVal;
use crate::types::obj_insert1;
use crate::types::obj_merge;

verus! {

/// Assembles the options and capabilities a driver instance starts with.
pub struct DriverBuilder {
    pub options: Option<DriverOptions>,
    pub capabilities: Option<Capabilities>,
}

impl DriverBuilder {
    /// A builder holding the given capabilities, with no options chosen.
    pub fn new(capabilities: Option<Capabilities>) -> (r: DriverBuilder)
        ensures
            r.options is None,
            r.capabilities == capabilities,
    {
        DriverBuilder { options: None, capabilities }
    }

    /// Replaces the options wholesale.
    pub fn options(&mut self, options: DriverOptions) -> (r: Result<(), GeckError>)
        ensures
            r is Ok,
            final(self).options == Some(options),
            final(self).capabilities == old(self).capabilities,
    {
        self.options = Some(options);
        Ok(())
    }

    /// Dispatches one option into the chosen options, under its group.
    pub fn option(&mut self, option_type: &str, option: (&str, &str)) -> (r: Result<
        (),
        GeckError,
    >)
        requires
            old(self).options matches Some(o) && o.wf(),
            option_type@ == "--arg"@ || option_type@ == "--pref"@ || option_type@ == "--log"@,
        ensures
            r is Ok,
            final(self).capabilities == old(self).capabilities,
            final(self).options matches Some(o2) && o2.wf() && o2.profile_view() == old(self).options->0.profile_view(),
            option_type@ == "--arg"@ ==> (final(self).options->0.args_view() == Some(
                old(self).options->0.args_view()->0.push(DictVal::Str(option.0@)),
            ) && final(self).options->0.prefs_view() == old(self).options->0.prefs_view() && final(self).options->0.log_view() == old(self).options->0.log_view()),
            option_type@ == "--pref"@ ==> (final(self).options->0.prefs_view() == Some(
                obj_insert1(
                    old(self).options->0.prefs_view()->0,
                    option.0@,
                    DictVal::Str(option.1@),
                ),
            ) && final(self).options->0.args_view() == old(self).options->0.args_view() && final(self).options->0.log_view() == old(self).options->0.log_view()),
            option_type@ == "--log"@ ==> (final(self).options->0.log_view() == Some(
                obj_insert1(
                    old(self).options->0.log_view()->0,
                    option.0@,
                    DictVal::Str(option.1@),
                ),
            ) && final(self).options->0.args_view() == old(self).options->0.args_view() && final(self).options->0.prefs_view() == old(self).options->0.prefs_view()),
    {
        let mut opts: Option<DriverOptions> = None;
        core::mem::swap(&mut self.options, &mut opts);
        match opts {
            Some(mut o) => {
                o.insert(option_type, option);
                self.options = Some(o);
                Ok(())
            }
            None => unreached(),
        }
    }

    /// Chooses the default options — a headless browser tracing to its
    /// log — and merges the capability object they stand for into the
    /// chosen capabilities.
    pub fn setup_default_options(&mut self) -> (r: Result<(), GeckError>)
        requires
            old(self).options matches Some(o) && o.wf(),
            old(self).capabilities matches Some(c) && c.wf(),
        ensures
            r is Ok,
            final(self).options matches Some(o2) && o2.wf() && o2.args_view() == Some(
                old(self).options->0.args_view()->0.push(DictVal::Str("-headless"@)),
            ) && o2.log_view() == Some(
                obj_insert1(old(self).options->0.log_view()->0, "level"@, DictVal::Str("trace"@)),
            ) && o2.prefs_view() == old(self).options->0.prefs_view() && o2.profile_view() == old(self).options->0.profile_view(),
            final(self).capabilities matches Some(c2) && c2.wf() && c2.entries() == obj_merge(
                old(self).capabilities->0.entries(),
                obj_insert1(
                    Seq::<(Seq<char>, DictVal)>::empty(),
                    "alwaysMatch"@,
                    DictVal::Obj(
                        seq![
                            (
                                "moz:firefoxOptions"@,
                                DictVal::Obj(final(self).options->0.option_object_entries()),
                            ),
                        ],
                    ),
                ),
            ),
    {
        let mut opts: Option<DriverOptions> = None;
        core::mem::swap(&mut self.options, &mut opts);
        match opts {
            Some(mut o) => {
                o.insert("--arg", ("-headless", ""));
                o.insert("--log", ("level", "trace"));
                let from_options = match o.to_capabilities() {
                    Ok(c) => c,
                    Err(e) => {
                        return Err(e);
                    }
                };
                let mut caps: Option<Capabilities> = None;
                core::mem::swap(&mut self.capabilities, &mut caps);
                match caps {
                    Some(mut c) => {
                        c.extend(from_options);
                        self.capabilities = Some(c);
                    }
                    None => unreached(),
                }
                self.options = Some(o);
                Ok(())
            }
            None => unreached(),
        }
    }

    /// Replaces the capabilities with the browser's fixed defaults, plus a
    /// request for a session-scoped WebSocket endpoint.
    pub fn setup_default_capabilities(&mut self) -> (r: Result<(), GeckError>)
        ensures
            r is Ok,
            final(self).options == old(self).options,
            final(self).capabilities matches Some(c) && c.wf() && c.entries() == obj_insert1(
                firefox_default_entries(),
                "alwaysMatch"@,
                DictVal::Obj(seq![("webSocketUrl"@, DictVal::Flag(true))]),
            ),
    {
        let mut c = DesiredCapabilities::FIREFOX.values();
        c.insert("alwaysMatch", "webSocketUrl", DictType::from(true));
        self.capabilities = Some(c);
        Ok(())
    }

    /// Merges the capability object of the chosen options into the chosen
    /// capabilities and renders the result as JSON text — the body the
    /// "new session" command sends.
    pub fn serialized_capabilities(&mut self) -> (r: Result<String, GeckError>)
        requires
            old(self).options matches Some(o) && o.wf(),
            old(self).capabilities matches Some(c) && c.wf(),
        ensures
            final(self).options == old(self).options,
            final(self).capabilities matches Some(c2) && c2.wf() && c2.entries() == obj_merge(
                old(self).capabilities->0.entries(),
                obj_insert1(
                    Seq::<(Seq<char>, DictVal)>::empty(),
                    "alwaysMatch"@,
                    DictVal::Obj(
                        seq![
                            (
                                "moz:firefoxOptions"@,
                                DictVal::Obj(old(self).options->0.option_object_entries()),
                            ),
                        ],
                    ),
                ),
            ),
            r matches Ok(s) && s@ == crate::json::json_of(
                DictVal::Obj(
                    seq![
                        ("capabilities"@, DictVal::Obj(final(self).capabilities->0.entries())),
                    ],
                ),
            ),
    {
        let from_options = match &self.options {
            Some(o) => match o.to_capabilities() {
                Ok(c) => c,
                Err(e) => {
                    return Err(e);
                }
            },
            None => unreached(),
        };
        let mut caps: Option<Capabilities> = None;
        core::mem::swap(&mut self.capabilities, &mut caps);
        match caps {
            Some(mut c) => {
                c.extend(from_options);
                let text = c.to_json_string();
                self.capabilities = Some(c);
                Ok(text)
            }
            None => unreached(),
        }
    }
}

} // verus!
