//! The fixed command registry: the mapping from a symbolic command name
//! to the HTTP verb and URL path template the driver publishes for it.
//!
//! The registry is constant data built once; looking up a name that was
//! never registered is a programming error at the caller, surfaced as
//! `None`.
use vstd::prelude::*;

verus! {

/// First-match lookup of `name` in a command table.
pub open spec fn spec_lookup(
    t: Seq<(Seq<char>, Seq<char>, Seq<char>)>,
    name: Seq<char>,
) -> Option<(Seq<char>, Seq<char>)>
    decreases t.len(),
{
    if t.len() == 0 {
        None
    } else if t[0].0 == name {
        Some((t[0].1, t[0].2))
    } else {
        spec_lookup(t.drop_first(), name)
    }
}

/// The address the driver listens on by default.
pub fn driver_host() -> (r: &'static str)
    ensures
        r@ == "http://127.0.0.1"@,
{
    "http://127.0.0.1"
}

/// The port the driver listens on by default.
pub fn driver_port() -> (r: &'static str)
    ensures
        r@ == "4444"@,
{
    "4444"
}

/// The flag that hands the driver its listening port.
pub fn args_port() -> (r: &'static str)
    ensures
        r@ == "-p"@,
{
    "-p"
}

/// The flag that raises the driver's verbosity.
pub fn args_verbosity() -> (r: &'static str)
    ensures
        r@ == "-v"@,
{
    "-v"
}

/// One wire-level command: an HTTP verb and a URL path template.
pub struct WebdriverCmd {
    pub verb: String,
    pub path: String,
}

/// The registered commands of the driver, in registration order.
pub struct Firefox {
    pub command_dict: Vec<(String, WebdriverCmd)>,
}

/// The mathematical triples (name, verb, path template) of a command list.
pub open spec fn table_view(s: Seq<(String, WebdriverCmd)>) -> Seq<(Seq<char>, Seq<char>, Seq<char>)>
    decreases s,
{
    if s.len() == 0 {
        Seq::empty()
    } else {
        seq![(s[0].0@, s[0].1.verb@, s[0].1.path@)] + table_view(s.drop_first())
    }
}

/// Pointwise reading of [`table_view`].
pub proof fn lemma_table_view(s: Seq<(String, WebdriverCmd)>)
    ensures
        table_view(s).len() == s.len(),
        forall|i: int|
            0 <= i < s.len() ==> table_view(s)[i] == ((#[trigger] s[i]).0@, s[i].1.verb@, s[i].1.path@),
    decreases s.len(),
{
    if s.len() > 0 {
        lemma_table_view(s.drop_first());
        assert forall|i: int|
            0 <= i < s.len() implies table_view(s)[i] == ((#[trigger] s[i]).0@, s[i].1.verb@, s[i].1.path@) by {
            if i > 0 {
                assert(s.drop_first()[i - 1] == s[i]);
            }
        }
    }
}

/// Viewing one more registered command appends its triple.
pub proof fn lemma_table_view_push(s: Seq<(String, WebdriverCmd)>, e: (String, WebdriverCmd))
    ensures
        table_view(s.push(e)) == table_view(s).push((e.0@, e.1.verb@, e.1.path@)),
{
    lemma_table_view(s);
    lemma_table_view(s.push(e));
    let lhs = table_view(s.push(e));
    let rhs = table_view(s).push((e.0@, e.1.verb@, e.1.path@));
    assert forall|i: int| 0 <= i < lhs.len() implies lhs[i] == rhs[i] by {
        if i < s.len() {
            assert(s.push(e)[i] == s[i]);
        } else {
            assert(s.push(e)[i] == e);
        }
    }
    assert(lhs =~= rhs);
}

/// The driver's published command surface.
pub open spec fn firefox_command_table() -> Seq<(Seq<char>, Seq<char>, Seq<char>)> {
    firefox_table_a() + firefox_table_b() + firefox_table_c() + firefox_table_d()
        + firefox_table_e()
}

/// One stretch of the driver's published command surface.
pub open spec fn firefox_table_a() -> Seq<(Seq<char>, Seq<char>, Seq<char>)> {
    seq![
        ("NEW_SESSION"@, "POST"@, "/session/"@),
        ("QUIT"@, "DELETE"@, "/session/{sessionId}"@),
        ("W3C_GET_CURRENT_WINDOW_HANDLE"@, "GET"@, "/session/{sessionId}/window"@),
        ("W3C_GET_WINDOW_HANDLES"@, "GET"@, "/session/{sessionId}/window/handles"@),
        ("GET"@, "POST"@, "/session/{sessionId}/url"@),
        ("GO_FORWARD"@, "POST"@, "/session/{sessionId}/forward"@),
        ("GO_BACK"@, "POST"@, "/session/{sessionId}/back"@),
        ("REFRESH"@, "POST"@, "/session/{sessionId}/refresh"@),
        ("W3C_EXECUTE_SCRIPT"@, "POST"@, "/session/{sessionId}/execute/sync"@),
        ("W3C_EXECUTE_SCRIPT_ASYNC"@, "POST"@, "/session/{sessionId}/execute/async"@),
        ("GET_CURRENT_URL"@, "GET"@, "/session/{sessionId}/url"@),
        ("GET_TITLE"@, "GET"@, "/session/{sessionId}/title"@),
        ("GET_PAGE_SOURCE"@, "GET"@, "/session/{sessionId}/source"@),
        ("SCREENSHOT"@, "GET"@, "/session/{sessionId}/screenshot"@),
        ("ELEMENT_SCREENSHOT"@, "GET"@, "/session/{sessionId}/element/{id}/screenshot"@),
        ("FIND_ELEMENT"@, "POST"@, "/session/{sessionId}/element"@),
        ("FIND_ELEMENTS"@, "POST"@, "/session/{sessionId}/elements"@)
    ]
}

/// One stretch of the driver's published command surface.
pub open spec fn firefox_table_b() -> Seq<(Seq<char>, Seq<char>, Seq<char>)> {
    seq![
        ("W3C_GET_ACTIVE_ELEMENT"@, "GET"@, "/session/{sessionId}/element/active"@),
        ("FIND_CHILD_ELEMENT"@, "POST"@, "/session/{sessionId}/element/{id}/element"@),
        ("FIND_CHILD_ELEMENTS"@, "POST"@, "/session/{sessionId}/element/{id}/elements"@),
        ("CLICK_ELEMENT"@, "POST"@, "/session/{sessionId}/element/{id}/click"@),
        ("CLEAR_ELEMENT"@, "POST"@, "/session/{sessionId}/element/{id}/clear"@),
        ("GET_ELEMENT_TEXT"@, "GET"@, "/session/{sessionId}/element/{id}/text"@),
        ("SEND_KEYS_TO_ELEMENT"@, "POST"@, "/session/{sessionId}/element/{id}/value"@),
        ("GET_ELEMENT_TAG_NAME"@, "GET"@, "/session/{sessionId}/element/{id}/name"@),
        ("IS_ELEMENT_SELECTED"@, "GET"@, "/session/{sessionId}/element/{id}/selected"@),
        ("IS_ELEMENT_ENABLED"@, "GET"@, "/session/{sessionId}/element/{id}/enabled"@),
        ("GET_ELEMENT_RECT"@, "GET"@, "/session/{sessionId}/element/{id}/rect"@),
        ("GET_ELEMENT_ATTRIBUTE"@, "GET"@, "/session/{sessionId}/element/{id}/attribute/{name}"@),
        ("GET_ELEMENT_PROPERTY"@, "GET"@, "/session/{sessionId}/element/{id}/property/{name}"@),
        ("GET_ELEMENT_ARIA_ROLE"@, "GET"@, "/session/{sessionId}/element/{id}/computedrole"@),
        ("GET_ELEMENT_ARIA_LABEL"@, "GET"@, "/session/{sessionId}/element/{id}/computedlabel"@),
        ("GET_SHADOW_ROOT"@, "GET"@, "/session/{sessionId}/element/{id}/shadow"@),
        ("FIND_ELEMENT_FROM_SHADOW_ROOT"@, "POST"@, "/session/{sessionId}/shadow/{shadowId}/element"@)
    ]
}

/// One stretch of the driver's published command surface.
pub open spec fn firefox_table_c() -> Seq<(Seq<char>, Seq<char>, Seq<char>)> {
    seq![
        ("FIND_ELEMENTS_FROM_SHADOW_ROOT"@, "POST"@, "/session/{sessionId}/shadow/{shadowId}/elements"@),
        ("GET_ALL_COOKIES"@, "GET"@, "/session/{sessionId}/cookie"@),
        ("ADD_COOKIE"@, "POST"@, "/session/{sessionId}/cookie"@),
        ("GET_COOKIE"@, "GET"@, "/session/{sessionId}/cookie/{name}"@),
        ("DELETE_ALL_COOKIES"@, "DELETE"@, "/session/{sessionId}/cookie"@),
        ("DELETE_COOKIE"@, "DELETE"@, "/session/{sessionId}/cookie/{name}"@),
        ("SWITCH_TO_FRAME"@, "POST"@, "/session/{sessionId}/frame"@),
        ("SWITCH_TO_PARENT_FRAME"@, "POST"@, "/session/{sessionId}/frame/parent"@),
        ("SWITCH_TO_WINDOW"@, "POST"@, "/session/{sessionId}/window"@),
        ("NEW_WINDOW"@, "POST"@, "/session/{sessionId}/window/new"@),
        ("CLOSE"@, "DELETE"@, "/session/{sessionId}/window"@),
        ("GET_ELEMENT_VALUE_OF_CSS_PROPERTY"@, "GET"@, "/session/{sessionId}/element/{id}/css/{propertyName}"@),
        ("EXECUTE_ASYNC_SCRIPT"@, "POST"@, "/session/{sessionId}/execute_async"@),
        ("SET_TIMEOUTS"@, "POST"@, "/session/{sessionId}/timeouts"@),
        ("GET_TIMEOUTS"@, "GET"@, "/session/{sessionId}/timeouts"@),
        ("W3C_DISMISS_ALERT"@, "POST"@, "/session/{sessionId}/alert/dismiss"@),
        ("W3C_ACCEPT_ALERT"@, "POST"@, "/session/{sessionId}/alert/accept"@)
    ]
}

/// One stretch of the driver's published command surface.
pub open spec fn firefox_table_d() -> Seq<(Seq<char>, Seq<char>, Seq<char>)> {
    seq![
        ("W3C_SET_ALERT_VALUE"@, "POST"@, "/session/{sessionId}/alert/text"@),
        ("W3C_GET_ALERT_TEXT"@, "GET"@, "/session/{sessionId}/alert/text"@),
        ("W3C_ACTIONS"@, "POST"@, "/session/{sessionId}/actions"@),
        ("W3C_CLEAR_ACTIONS"@, "DELETE"@, "/session/{sessionId}/actions"@),
        ("SET_WINDOW_RECT"@, "POST"@, "/session/{sessionId}/window/rect"@),
        ("GET_WINDOW_RECT"@, "GET"@, "/session/{sessionId}/window/rect"@),
        ("W3C_MAXIMIZE_WINDOW"@, "POST"@, "/session/{sessionId}/window/maximize"@),
        ("SET_SCREEN_ORIENTATION"@, "POST"@, "/session/{sessionId}/orientation"@),
        ("GET_SCREEN_ORIENTATION"@, "GET"@, "/session/{sessionId}/orientation"@),
        ("GET_NETWORK_CONNECTION"@, "GET"@, "/session/{sessionId}/network_connection"@),
        ("SET_NETWORK_CONNECTION"@, "POST"@, "/session/{sessionId}/network_connection"@),
        ("GET_LOG"@, "POST"@, "/session/{sessionId}/se/log"@),
        ("GET_AVAILABLE_LOG_TYPES"@, "GET"@, "/session/{sessionId}/se/log/types"@),
        ("CURRENT_CONTEXT_HANDLE"@, "GET"@, "/session/{sessionId}/context"@),
        ("CONTEXT_HANDLES"@, "GET"@, "/session/{sessionId}/contexts"@),
        ("SWITCH_TO_CONTEXT"@, "POST"@, "/session/{sessionId}/context"@),
        ("FULLSCREEN_WINDOW"@, "POST"@, "/session/{sessionId}/window/fullscreen"@)
    ]
}

/// One stretch of the driver's published command surface.
pub open spec fn firefox_table_e() -> Seq<(Seq<char>, Seq<char>, Seq<char>)> {
    seq![
        ("MINIMIZE_WINDOW"@, "POST"@, "/session/{sessionId}/window/minimize"@),
        ("PRINT_PAGE"@, "POST"@, "/session/{sessionId}/print"@),
        ("ADD_VIRTUAL_AUTHENTICATOR"@, "POST"@, "/session/{sessionId}/webauthn/authenticator"@),
        ("REMOVE_VIRTUAL_AUTHENTICATOR"@, "DELETE"@, "/session/{sessionId}/webauthn/authenticator/{authenticatorId}"@),
        ("ADD_CREDENTIAL"@, "POST"@, "/session/{sessionId}/webauthn/authenticator/{authenticatorId}/credential"@),
        ("GET_CREDENTIALS"@, "GET"@, "/session/{sessionId}/webauthn/authenticator/{authenticatorId}/credentials"@),
        ("REMOVE_CREDENTIAL"@, "DELETE"@, "/session/{sessionId}/webauthn/authenticator/{authenticatorId}/credentials/{credentialId}"@),
        ("REMOVE_ALL_CREDENTIALS"@, "DELETE"@, "/session/{sessionId}/webauthn/authenticator/{authenticatorId}/credentials"@),
        ("SET_USER_VERIFIED"@, "POST"@, "/session/{sessionId}/webauthn/authenticator/{authenticatorId}/uv"@),
        ("UPLOAD_FILE"@, "POST"@, "/session/{sessionId}/se/file"@),
        ("GET_DOWNLOADABLE_FILES"@, "GET"@, "/session/{sessionId}/se/files"@),
        ("DOWNLOAD_FILE"@, "POST"@, "/session/{sessionId}/se/files"@),
        ("DELETE_DOWNLOADABLE_FILES"@, "DELETE"@, "/session/{sessionId}/se/files"@)
    ]
}

impl Firefox {
    /// An empty registry.
    fn empty() -> (r: Firefox)
        ensures
            table_view(r.command_dict@) == Seq::<(Seq<char>, Seq<char>, Seq<char>)>::empty(),
    {
        Firefox { command_dict: Vec::new() }
    }

    /// Registers one more command.
    pub fn insert(&mut self, name: &str, verb: &str, path: &str)
        ensures
            table_view(final(self).command_dict@) == table_view(old(self).command_dict@).push(
                (name@, verb@, path@),
            ),
    {
        let ghost before = self.command_dict@;
        self.command_dict.push(
            (name.to_owned(), WebdriverCmd { verb: verb.to_owned(), path: path.to_owned() }),
        );
        proof {
            lemma_table_view_push(before, self.command_dict@[before.len() as int]);
        }
    }

    /// The full registry of the driver's published commands.
    pub fn new() -> (r: Firefox)
        ensures
            table_view(r.command_dict@) == firefox_command_table(),
    {
        let mut f = Firefox::empty();
        f.fill_a();
        f.fill_b();
        f.fill_c();
        f.fill_d();
        f.fill_e();
        proof {
            assert(table_view(f.command_dict@) =~= firefox_command_table());
        }
        f
    }

    /// Registers one stretch of the published commands.
    #[verifier::rlimit(100)]
    fn fill_a(&mut self)
        ensures
            table_view(final(self).command_dict@) == table_view(old(self).command_dict@)
                + firefox_table_a(),
    {
        let ghost before = table_view(self.command_dict@);
        let f = self;
        f.insert("NEW_SESSION", "POST", "/session/");
        f.insert("QUIT", "DELETE", "/session/{sessionId}");
        f.insert("W3C_GET_CURRENT_WINDOW_HANDLE", "GET", "/session/{sessionId}/window");
        f.insert("W3C_GET_WINDOW_HANDLES", "GET", "/session/{sessionId}/window/handles");
        f.insert("GET", "POST", "/session/{sessionId}/url");
        f.insert("GO_FORWARD", "POST", "/session/{sessionId}/forward");
        f.insert("GO_BACK", "POST", "/session/{sessionId}/back");
        f.insert("REFRESH", "POST", "/session/{sessionId}/refresh");
        f.insert("W3C_EXECUTE_SCRIPT", "POST", "/session/{sessionId}/execute/sync");
        f.insert("W3C_EXECUTE_SCRIPT_ASYNC", "POST", "/session/{sessionId}/execute/async");
        f.insert("GET_CURRENT_URL", "GET", "/session/{sessionId}/url");
        f.insert("GET_TITLE", "GET", "/session/{sessionId}/title");
        f.insert("GET_PAGE_SOURCE", "GET", "/session/{sessionId}/source");
        f.insert("SCREENSHOT", "GET", "/session/{sessionId}/screenshot");
        f.insert("ELEMENT_SCREENSHOT", "GET", "/session/{sessionId}/element/{id}/screenshot");
        f.insert("FIND_ELEMENT", "POST", "/session/{sessionId}/element");
        f.insert("FIND_ELEMENTS", "POST", "/session/{sessionId}/elements");
        proof {
            assert(table_view(f.command_dict@) =~= before + firefox_table_a());
        }
    }

    /// Registers one stretch of the published commands.
    #[verifier::rlimit(100)]
    fn fill_b(&mut self)
        ensures
            table_view(final(self).command_dict@) == table_view(old(self).command_dict@)
                + firefox_table_b(),
    {
        let ghost before = table_view(self.command_dict@);
        let f = self;
        f.insert("W3C_GET_ACTIVE_ELEMENT", "GET", "/session/{sessionId}/element/active");
        f.insert("FIND_CHILD_ELEMENT", "POST", "/session/{sessionId}/element/{id}/element");
        f.insert("FIND_CHILD_ELEMENTS", "POST", "/session/{sessionId}/element/{id}/elements");
        f.insert("CLICK_ELEMENT", "POST", "/session/{sessionId}/element/{id}/click");
        f.insert("CLEAR_ELEMENT", "POST", "/session/{sessionId}/element/{id}/clear");
        f.insert("GET_ELEMENT_TEXT", "GET", "/session/{sessionId}/element/{id}/text");
        f.insert("SEND_KEYS_TO_ELEMENT", "POST", "/session/{sessionId}/element/{id}/value");
        f.insert("GET_ELEMENT_TAG_NAME", "GET", "/session/{sessionId}/element/{id}/name");
        f.insert("IS_ELEMENT_SELECTED", "GET", "/session/{sessionId}/element/{id}/selected");
        f.insert("IS_ELEMENT_ENABLED", "GET", "/session/{sessionId}/element/{id}/enabled");
        f.insert("GET_ELEMENT_RECT", "GET", "/session/{sessionId}/element/{id}/rect");
        f.insert("GET_ELEMENT_ATTRIBUTE", "GET", "/session/{sessionId}/element/{id}/attribute/{name}");
        f.insert("GET_ELEMENT_PROPERTY", "GET", "/session/{sessionId}/element/{id}/property/{name}");
        f.insert("GET_ELEMENT_ARIA_ROLE", "GET", "/session/{sessionId}/element/{id}/computedrole");
        f.insert("GET_ELEMENT_ARIA_LABEL", "GET", "/session/{sessionId}/element/{id}/computedlabel");
        f.insert("GET_SHADOW_ROOT", "GET", "/session/{sessionId}/element/{id}/shadow");
        f.insert("FIND_ELEMENT_FROM_SHADOW_ROOT", "POST", "/session/{sessionId}/shadow/{shadowId}/element");
        proof {
            assert(table_view(f.command_dict@) =~= before + firefox_table_b());
        }
    }

    /// Registers one stretch of the published commands.
    #[verifier::rlimit(100)]
    fn fill_c(&mut self)
        ensures
            table_view(final(self).command_dict@) == table_view(old(self).command_dict@)
                + firefox_table_c(),
    {
        let ghost before = table_view(self.command_dict@);
        let f = self;
        f.insert("FIND_ELEMENTS_FROM_SHADOW_ROOT", "POST", "/session/{sessionId}/shadow/{shadowId}/elements");
        f.insert("GET_ALL_COOKIES", "GET", "/session/{sessionId}/cookie");
        f.insert("ADD_COOKIE", "POST", "/session/{sessionId}/cookie");
        f.insert("GET_COOKIE", "GET", "/session/{sessionId}/cookie/{name}");
        f.insert("DELETE_ALL_COOKIES", "DELETE", "/session/{sessionId}/cookie");
        f.insert("DELETE_COOKIE", "DELETE", "/session/{sessionId}/cookie/{name}");
        f.insert("SWITCH_TO_FRAME", "POST", "/session/{sessionId}/frame");
        f.insert("SWITCH_TO_PARENT_FRAME", "POST", "/session/{sessionId}/frame/parent");
        f.insert("SWITCH_TO_WINDOW", "POST", "/session/{sessionId}/window");
        f.insert("NEW_WINDOW", "POST", "/session/{sessionId}/window/new");
        f.insert("CLOSE", "DELETE", "/session/{sessionId}/window");
        f.insert("GET_ELEMENT_VALUE_OF_CSS_PROPERTY", "GET", "/session/{sessionId}/element/{id}/css/{propertyName}");
        f.insert("EXECUTE_ASYNC_SCRIPT", "POST", "/session/{sessionId}/execute_async");
        f.insert("SET_TIMEOUTS", "POST", "/session/{sessionId}/timeouts");
        f.insert("GET_TIMEOUTS", "GET", "/session/{sessionId}/timeouts");
        f.insert("W3C_DISMISS_ALERT", "POST", "/session/{sessionId}/alert/dismiss");
        f.insert("W3C_ACCEPT_ALERT", "POST", "/session/{sessionId}/alert/accept");
        proof {
            assert(table_view(f.command_dict@) =~= before + firefox_table_c());
        }
    }

    /// Registers one stretch of the published commands.
    #[verifier::rlimit(100)]
    fn fill_d(&mut self)
        ensures
            table_view(final(self).command_dict@) == table_view(old(self).command_dict@)
                + firefox_table_d(),
    {
        let ghost before = table_view(self.command_dict@);
        let f = self;
        f.insert("W3C_SET_ALERT_VALUE", "POST", "/session/{sessionId}/alert/text");
        f.insert("W3C_GET_ALERT_TEXT", "GET", "/session/{sessionId}/alert/text");
        f.insert("W3C_ACTIONS", "POST", "/session/{sessionId}/actions");
        f.insert("W3C_CLEAR_ACTIONS", "DELETE", "/session/{sessionId}/actions");
        f.insert("SET_WINDOW_RECT", "POST", "/session/{sessionId}/window/rect");
        f.insert("GET_WINDOW_RECT", "GET", "/session/{sessionId}/window/rect");
        f.insert("W3C_MAXIMIZE_WINDOW", "POST", "/session/{sessionId}/window/maximize");
        f.insert("SET_SCREEN_ORIENTATION", "POST", "/session/{sessionId}/orientation");
        f.insert("GET_SCREEN_ORIENTATION", "GET", "/session/{sessionId}/orientation");
        f.insert("GET_NETWORK_CONNECTION", "GET", "/session/{sessionId}/network_connection");
        f.insert("SET_NETWORK_CONNECTION", "POST", "/session/{sessionId}/network_connection");
        f.insert("GET_LOG", "POST", "/session/{sessionId}/se/log");
        f.insert("GET_AVAILABLE_LOG_TYPES", "GET", "/session/{sessionId}/se/log/types");
        f.insert("CURRENT_CONTEXT_HANDLE", "GET", "/session/{sessionId}/context");
        f.insert("CONTEXT_HANDLES", "GET", "/session/{sessionId}/contexts");
        f.insert("SWITCH_TO_CONTEXT", "POST", "/session/{sessionId}/context");
        f.insert("FULLSCREEN_WINDOW", "POST", "/session/{sessionId}/window/fullscreen");
        proof {
            assert(table_view(f.command_dict@) =~= before + firefox_table_d());
        }
    }

    /// Registers one stretch of the published commands.
    #[verifier::rlimit(100)]
    fn fill_e(&mut self)
        ensures
            table_view(final(self).command_dict@) == table_view(old(self).command_dict@)
                + firefox_table_e(),
    {
        let ghost before = table_view(self.command_dict@);
        let f = self;
        f.insert("MINIMIZE_WINDOW", "POST", "/session/{sessionId}/window/minimize");
        f.insert("PRINT_PAGE", "POST", "/session/{sessionId}/print");
        f.insert("ADD_VIRTUAL_AUTHENTICATOR", "POST", "/session/{sessionId}/webauthn/authenticator");
        f.insert("REMOVE_VIRTUAL_AUTHENTICATOR", "DELETE", "/session/{sessionId}/webauthn/authenticator/{authenticatorId}");
        f.insert("ADD_CREDENTIAL", "POST", "/session/{sessionId}/webauthn/authenticator/{authenticatorId}/credential");
        f.insert("GET_CREDENTIALS", "GET", "/session/{sessionId}/webauthn/authenticator/{authenticatorId}/credentials");
        f.insert("REMOVE_CREDENTIAL", "DELETE", "/session/{sessionId}/webauthn/authenticator/{authenticatorId}/credentials/{credentialId}");
        f.insert("REMOVE_ALL_CREDENTIALS", "DELETE", "/session/{sessionId}/webauthn/authenticator/{authenticatorId}/credentials");
        f.insert("SET_USER_VERIFIED", "POST", "/session/{sessionId}/webauthn/authenticator/{authenticatorId}/uv");
        f.insert("UPLOAD_FILE", "POST", "/session/{sessionId}/se/file");
        f.insert("GET_DOWNLOADABLE_FILES", "GET", "/session/{sessionId}/se/files");
        f.insert("DOWNLOAD_FILE", "POST", "/session/{sessionId}/se/files");
        f.insert("DELETE_DOWNLOADABLE_FILES", "DELETE", "/session/{sessionId}/se/files");
        proof {
            assert(table_view(f.command_dict@) =~= before + firefox_table_e());
        }
    }

    /// The verb and path template registered under `name`, when `name` is
    /// registered.
    pub fn get(&self, name: &str) -> (r: Option<&WebdriverCmd>)
        ensures
            match r {
                Some(cmd) => spec_lookup(table_view(self.command_dict@), name@) == Some(
                    (cmd.verb@, cmd.path@),
                ),
                None => spec_lookup(table_view(self.command_dict@), name@) is None,
            },
    {
        let ghost table = table_view(self.command_dict@);
        proof {
            lemma_table_view(self.command_dict@);
        }
        let k = name.to_owned();
        let mut i: usize = 0;
        while i < self.command_dict.len()
            invariant
                table == table_view(self.command_dict@),
                table.len() == self.command_dict@.len(),
                forall|j: int|
                    0 <= j < self.command_dict@.len() ==> table[j] == (
                        (#[trigger] self.command_dict@[j]).0@,
                        self.command_dict@[j].1.verb@,
                        self.command_dict@[j].1.path@,
                    ),
                k@ == name@,
                i <= self.command_dict@.len(),
                forall|j: int| 0 <= j < i ==> (#[trigger] table[j]).0 != name@,
            decreases self.command_dict@.len() - i,
        {
            if self.command_dict[i].0 == k {
                proof {
                    lemma_lookup_first(table, name@, i as int);
                }
                return Some(&self.command_dict[i].1);
            }
            i = i + 1;
        }
        proof {
            lemma_lookup_none(table, name@);
        }
        None
    }
}

/// When an entry matches first, [`spec_lookup`] returns its pair.
proof fn lemma_lookup_first(t: Seq<(Seq<char>, Seq<char>, Seq<char>)>, name: Seq<char>, i: int)
    requires
        0 <= i < t.len(),
        t[i].0 == name,
        forall|j: int| 0 <= j < i ==> (#[trigger] t[j]).0 != name,
    ensures
        spec_lookup(t, name) == Some((t[i].1, t[i].2)),
    decreases i,
{
    if i == 0 {
    } else {
        assert(t[0].0 != name);
        assert(t.drop_first()[i - 1] == t[i]);
        assert forall|j: int| 0 <= j < i - 1 implies (#[trigger] t.drop_first()[j]).0 != name by {
            assert(t.drop_first()[j] == t[j + 1]);
        }
        lemma_lookup_first(t.drop_first(), name, i - 1);
    }
}

/// When no entry matches, [`spec_lookup`] returns nothing.
proof fn lemma_lookup_none(t: Seq<(Seq<char>, Seq<char>, Seq<char>)>, name: Seq<char>)
    requires
        forall|j: int| 0 <= j < t.len() ==> (#[trigger] t[j]).0 != name,
    ensures
        spec_lookup(t, name) is None,
    decreases t.len(),
{
    if t.len() > 0 {
        assert forall|j: int|
            0 <= j < t.drop_first().len() implies (#[trigger] t.drop_first()[j]).0 != name by {
            assert(t.drop_first()[j] == t[j + 1]);
        }
        lemma_lookup_none(t.drop_first(), name);
    }
}

} // verus!
