//! The session wire protocol: correlation-id tagging of outbound messages,
//! classification of inbound frames, and the fixed session-bootstrap
//! sequence.
//!
//! One exchange is outstanding at a time: the caller tags each outbound
//! message with the channel's counter, and the next inbound frame is taken
//! as that message's response.  The counter advances only when a frame was
//! accepted as a success.
use vstd::prelude::*;

use crate::error::ErrorKind;
use crate::error::GeckError;
use crate::json::int_text;
use crate::json::write_int;
use crate::types::Dict;
use crate::types::DictType;
use crate::types::DictVal;
use crate::types::obj_has_key;
use crate::types::obj_val;

verus! {

/// The field named `k` of an object's entries, when one is bound.
pub open spec fn field_of(e: Seq<(Seq<char>, DictVal)>, k: Seq<char>) -> Option<DictVal> {
    if obj_has_key(e, k) {
        Some(obj_val(e, k))
    } else {
        None
    }
}

/// The correlation id a frame reports, or `-1` when it reports none.
pub open spec fn frame_id(e: Seq<(Seq<char>, DictVal)>) -> int {
    match field_of(e, "id"@) {
        Some(DictVal::Int(n)) => n,
        _ => -1,
    }
}

/// The type tag a frame reports, or empty text when it reports none.
pub open spec fn frame_type(e: Seq<(Seq<char>, DictVal)>) -> Seq<char> {
    match field_of(e, "type"@) {
        Some(DictVal::Str(t)) => t,
        _ => Seq::empty(),
    }
}

/// A success envelope: its type tag, correlation id, and payload when one
/// was carried.
pub struct CDPResponseSuccess {
    pub m_type: String,
    pub id: i32,
    pub result: Option<DictType>,
}

/// An error envelope: its type tag, correlation id, and the diagnostic
/// fields it carried.
pub struct CDPResponseFailure {
    pub m_type: String,
    pub id: i32,
    pub error: Option<String>,
    pub stacktrace: Option<String>,
    pub message: Option<String>,
}

/// A classified inbound frame.
pub enum CDPMessage {
    CDPResponseSuccess(CDPResponseSuccess),
    CDPResponseFailure(CDPResponseFailure),
}

/// The text field named `k` of `frame`, cloned out, when it is bound to a
/// string.
fn text_field(frame: &Dict, k: &str) -> (r: Option<String>)
    requires
        frame.wf(),
    ensures
        match r {
            Some(t) => field_of(frame.entries(), k@) == Some(DictVal::Str(t@)),
            None => !(field_of(frame.entries(), k@) matches Some(v) && v is Str),
        },
{
    match frame.get(k) {
        Some(v) => match v {
            DictType::Str(s) => Some(s.clone()),
            _ => None,
        },
        None => None,
    }
}

/// Classifies one decoded frame as the envelope it carries: a frame whose
/// type tag is `success` yields a success envelope holding the `result`
/// payload; any other frame yields an error envelope holding the `error`,
/// `stacktrace` and `message` fields that are present.
pub fn classify_frame(frame: &Dict) -> (r: CDPMessage)
    requires
        frame.wf(),
    ensures
        ({
            let e = frame.entries();
            if frame_type(e) == "success"@ {
                &&& r matches CDPMessage::CDPResponseSuccess(s)
                &&& s.m_type@ == "success"@
                &&& s.id as int == frame_id(e)
                &&& (match field_of(e, "result"@) {
                    Some(v) => s.result matches Some(rv) && rv@ == v,
                    None => s.result is None,
                })
            } else {
                &&& r matches CDPMessage::CDPResponseFailure(f)
                &&& f.m_type@ == frame_type(e)
                &&& f.id as int == frame_id(e)
                &&& (match field_of(e, "error"@) {
                    Some(DictVal::Str(t)) => f.error matches Some(x) && x@ == t,
                    _ => f.error is None,
                })
                &&& (match field_of(e, "stacktrace"@) {
                    Some(DictVal::Str(t)) => f.stacktrace matches Some(x) && x@ == t,
                    _ => f.stacktrace is None,
                })
                &&& (match field_of(e, "message"@) {
                    Some(DictVal::Str(t)) => f.message matches Some(x) && x@ == t,
                    _ => f.message is None,
                })
            }
        }),
{
    let m_type: String = match text_field(frame, "type") {
        Some(t) => t,
        None => String::new(),
    };
    let id: i32 = match frame.get("id") {
        Some(v) => match v {
            DictType::Number(n) => *n,
            _ => -1,
        },
        None => -1,
    };
    if m_type == "success".to_owned() {
        let result: Option<DictType> = match frame.get("result") {
            Some(v) => Some(v.deep_clone()),
            None => None,
        };
        CDPMessage::CDPResponseSuccess(CDPResponseSuccess { m_type, id, result })
    } else {
        let error = text_field(frame, "error");
        let stacktrace = text_field(frame, "stacktrace");
        let message = text_field(frame, "message");
        CDPMessage::CDPResponseFailure(
            CDPResponseFailure { m_type, id, error, stacktrace, message },
        )
    }
}

/// The debugging protocol's own HTTP endpoints, as a command table.
pub open spec fn cdp_command_table() -> Seq<(Seq<char>, Seq<char>, Seq<char>)> {
    seq![
        ("json"@, "POST"@, "/json"@),
        ("protocol"@, "POST"@, "/json/protocol"@),
        ("list"@, "POST"@, "/json/list"@),
        ("new"@, "POST"@, "/json/new?{url}"@),
        ("activate"@, "POST"@, "/json/activate/{id}"@),
        ("close"@, "POST"@, "/json/close/{id}"@),
    ]
}

/// The registry of the debugging protocol's HTTP endpoints.
pub fn cdp_http_commands() -> (r: crate::constants::Firefox)
    ensures
        crate::constants::table_view(r.command_dict@) == cdp_command_table(),
{
    let mut f = crate::constants::Firefox { command_dict: Vec::new() };
    f.insert("json", "POST", "/json");
    f.insert("protocol", "POST", "/json/protocol");
    f.insert("list", "POST", "/json/list");
    f.insert("new", "POST", "/json/new?{url}");
    f.insert("activate", "POST", "/json/activate/{id}");
    f.insert("close", "POST", "/json/close/{id}");
    proof {
        assert(crate::constants::table_view(f.command_dict@) =~= cdp_command_table());
    }
    f
}

/// The outbound message text: the correlation id, the method, and the
/// caller's parameter object, framed as the wire expects.
pub open spec fn cdp_message_text(id: int, method: Seq<char>, params: Seq<char>) -> Seq<char> {
    "{\"id\": "@ + int_text(id) + ", \"method\":\""@ + method + "\", \"params\":"@ + params
        + " }"@
}

/// The correlation state of one session wire channel: the id the next
/// outbound message carries.
pub struct CdpChannel {
    pub id: i32,
}

impl CdpChannel {
    /// A fresh channel; the first message carries id 0.
    pub fn new() -> (r: CdpChannel)
        ensures
            r.id == 0,
    {
        CdpChannel { id: 0 }
    }

    /// The wire text of one outbound message, tagged with this channel's
    /// current id.
    pub fn build_message(&self, method: &str, params: &str) -> (r: String)
        ensures
            r@ == cdp_message_text(self.id as int, method@, params@),
    {
        let mut out = "{\"id\": ".to_owned();
        write_int(self.id, &mut out);
        out.append(", \"method\":\"");
        out.append(method);
        out.append("\", \"params\":");
        out.append(params);
        out.append(" }");
        proof {
            assert(out@ =~= cdp_message_text(self.id as int, method@, params@));
        }
        out
    }

    /// Decides what one inbound frame means for the just-sent message: an
    /// error-typed frame is a driver failure carrying the frame's
    /// diagnostic message, and leaves the id alone; any other frame is the
    /// response, and advances the id for the next exchange.
    pub fn accept_frame(&mut self, frame: Dict) -> (r: Result<Dict, GeckError>)
        requires
            frame.wf(),
            old(self).id < i32::MAX,
        ensures
            ({
                let e = frame.entries();
                if frame_type(e) == "error"@ {
                    &&& r matches Err(err)
                    &&& err.kind() == ErrorKind::Driver
                    &&& err.details() == (match field_of(e, "message"@) {
                        Some(DictVal::Str(t)) => t,
                        _ => Seq::<char>::empty(),
                    })
                    &&& (match field_of(e, "stacktrace"@) {
                        Some(DictVal::Str(t)) => err.source_message() matches Some(st) && st@ == t,
                        _ => err.source_message() is None,
                    })
                    &&& final(self).id == old(self).id
                } else {
                    &&& r matches Ok(f)
                    &&& f == frame
                    &&& final(self).id == old(self).id + 1
                }
            }),
    {
        proof {
            reveal_strlit("error");
            assert("error"@.len() == 5);
        }
        let is_error = match text_field(&frame, "type") {
            Some(t) => t == "error".to_owned(),
            None => false,
        };
        if is_error {
            let message = match text_field(&frame, "message") {
                Some(t) => t,
                None => String::new(),
            };
            let stacktrace = text_field(&frame, "stacktrace");
            Err(GeckError::new(ErrorKind::Driver, stacktrace, message.as_str()))
        } else {
            self.id = self.id + 1;
            Ok(frame)
        }
    }
}

/// The fixed session-initialization sequence: exactly two messages, in
/// this order — subscribe to the content-loaded event channel, then create
/// a browsing context.  A session is usable only after both were sent.
pub fn bootstrap_messages() -> (r: Vec<(String, String)>)
    ensures
        r@.len() == 2,
        r@[0].0@ == "session.subscribe"@,
        r@[0].1@ == "{\"events\":[\"browsingContext.domContentLoaded\"]}"@,
        r@[1].0@ == "browser.createUserContext"@,
        r@[1].1@ == "{}"@,
{
    let mut v: Vec<(String, String)> = Vec::new();
    v.push(
        (
            "session.subscribe".to_owned(),
            "{\"events\":[\"browsingContext.domContentLoaded\"]}".to_owned(),
        ),
    );
    v.push(("browser.createUserContext".to_owned(), "{}".to_owned()));
    v
}

} // verus!
