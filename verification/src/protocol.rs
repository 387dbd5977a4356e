//! Mailbox envelopes and control messages: construction, the JSON text of a
//! control message, and the text a teammate is shown.

use vstd::prelude::*;
use crate::clock::{is_clock_timestamp, timestamp_now};
use crate::text::{law_summary_is_trimmed, escape_xml, escape_xml_attr, push_char, summarize_message, summary_of, trim, trim_str};

verus! {

/// The `type` of every envelope this protocol writes.
pub const MESSAGE_TYPE: &'static str = "message";

/// One message in a teammate's inbox file.
#[derive(Clone, Debug, PartialEq, Eq)]
pub struct ClaudeTeamEnvelope {
    pub from: String,
    pub text: String,
    pub summary: Option<String>,
    pub timestamp: String,
    pub message_type: String,
    pub read: bool,
}

/// A control message carried as JSON in the text of an envelope.
#[derive(Clone, Debug, PartialEq, Eq)]
pub enum ClaudeTeamControlMessage {
    ShutdownRequest { request_id: String, from: String, reason: String, timestamp: String },
    ShutdownApproved {
        request_id: String,
        from: String,
        timestamp: String,
        pane_id: String,
        backend_type: String,
    },
}

/// A piece of content of a message handed to the model.
#[derive(Clone, Debug, PartialEq, Eq)]
pub enum ContentItem {
    InputText { text: String },
}

/// A message handed to the model as its input.
#[derive(Clone, Debug, PartialEq, Eq)]
pub enum ResponseInputItem {
    Message { role: String, content: Vec<ContentItem> },
}

/// Errors of the protocol logic.
#[derive(Clone, Debug, PartialEq, Eq)]
pub enum ProtocolError {
    /// A control message could not be written as JSON.
    Serialization,
    /// The clock read a time before the Unix epoch, or one that cannot be
    /// written as a timestamp.
    ClockUnavailable,
}

#[verifier::external_type_specification]
#[verifier::external_body]
pub struct ExJsonError(serde_json::Error);

// ---------------------------------------------------------------------------
// JSON text of control messages
// ---------------------------------------------------------------------------

/// The lowercase hexadecimal digit of `d` (below 16).
pub open spec fn hex_digit(d: int) -> char {
    seq!['0', '1', '2', '3', '4', '5', '6', '7', '8', '9', 'a', 'b', 'c', 'd', 'e', 'f'][d]
}

/// How `serde_json` writes one character inside a string literal: `"` and
/// `\` behind a backslash, the control characters with a short escape where
/// JSON has one and as `\u00XX` otherwise, and every other character as it is.
pub open spec fn json_escape_char(c: char) -> Seq<char> {
    if c == '"' {
        seq!['\\', '"']
    } else if c == '\\' {
        seq!['\\', '\\']
    } else if c == '\u{8}' {
        seq!['\\', 'b']
    } else if c == '\t' {
        seq!['\\', 't']
    } else if c == '\n' {
        seq!['\\', 'n']
    } else if c == '\u{c}' {
        seq!['\\', 'f']
    } else if c == '\r' {
        seq!['\\', 'r']
    } else if (c as int) < 0x20 {
        seq!['\\', 'u', '0', '0', hex_digit(c as int / 16), hex_digit(c as int % 16)]
    } else {
        seq![c]
    }
}

/// The escaped characters of `s`.
pub open spec fn json_escape(s: Seq<char>) -> Seq<char>
    decreases s.len(),
{
    if s.len() == 0 {
        seq![]
    } else {
        json_escape(s.drop_last()) + json_escape_char(s.last())
    }
}

/// The JSON string literal that `serde_json` writes for `s`: its escaped
/// characters between double quotes.
pub open spec fn json_string_literal(s: Seq<char>) -> Seq<char> {
    seq!['"'] + json_escape(s) + seq!['"']
}

/// `serde_json::to_string` on a string slice: the JSON string literal of `s`,
/// as stated by `json_string_literal` after serde_json's `format_escaped_str`
/// and its `ESCAPE` table (only bytes below 0x20, `"` and `\\` are escaped;
/// control bytes without a short escape as `\u00` and two lowercase hex
/// digits). It succeeds: its documentation names as
/// causes of failure only a `Serialize` impl that fails and a map with
/// non-string keys, and for a `str` the source writes the escaped string into
/// a `Vec<u8>`, whose writes do not fail.
#[verifier::external_body]
fn json_quote(s: &str) -> (r: Result<String, serde_json::Error>)
    ensures
        r is Ok,
        r matches Ok(q) ==> q@ == json_string_literal(s@),
{
    serde_json::to_string(s)
}

/// Members `key:value`, already in JSON text, separated by commas.
pub open spec fn json_members(members: Seq<(Seq<char>, Seq<char>)>) -> Seq<char>
    decreases members.len(),
{
    if members.len() == 0 {
        seq![]
    } else {
        let m = members.last();
        let tail = m.0 + seq![':'] + m.1;
        if members.len() == 1 {
            tail
        } else {
            json_members(members.drop_last()) + seq![','] + tail
        }
    }
}

/// A compact JSON object with the given members, in order.
pub open spec fn json_object(members: Seq<(Seq<char>, Seq<char>)>) -> Seq<char> {
    seq!['{'] + json_members(members) + seq!['}']
}

/// The views of a list of members.
pub open spec fn member_views(members: Seq<(String, String)>) -> Seq<(Seq<char>, Seq<char>)> {
    members.map_values(|m: (String, String)| (m.0@, m.1@))
}

/// Writes a compact JSON object from members whose keys and values are
/// already JSON text.
pub fn json_object_text(members: &Vec<(String, String)>) -> (r: String)
    ensures
        r@ == json_object(member_views(members@)),
{
    let mut out = String::new();
    push_char(&mut out, '{');
    let mut i: usize = 0;
    while i < members.len()
        invariant
            i <= members@.len(),
            out@ == seq!['{'] + json_members(member_views(members@).take(i as int)),
        decreases members@.len() - i,
    {
        let ghost before = member_views(members@).take(i as int);
        proof {
            assert(member_views(members@).take(i + 1).drop_last() =~= before);
        }
        if i > 0 {
            push_char(&mut out, ',');
        }
        out.append(members[i].0.as_str());
        push_char(&mut out, ':');
        out.append(members[i].1.as_str());
        proof {
            let now = member_views(members@).take(i + 1);
            assert(now.last() == (members@[i as int].0@, members@[i as int].1@));
            if i == 0 {
                assert(before =~= Seq::<(Seq<char>, Seq<char>)>::empty());
            }
            assert(out@ =~= seq!['{'] + json_members(now));
        }
        i = i + 1;
    }
    push_char(&mut out, '}');
    proof {
        assert(member_views(members@).take(members@.len() as int) =~= member_views(members@));
    }
    out
}

/// The JSON members of a control message: the `type` tag first, then the
/// fields in declaration order under their wire names.
pub open spec fn control_members(c: ClaudeTeamControlMessage) -> Seq<(Seq<char>, Seq<char>)> {
    match c {
        ClaudeTeamControlMessage::ShutdownRequest { request_id, from, reason, timestamp } => seq![
            (json_string_literal("type"@), json_string_literal("shutdown_request"@)),
            (json_string_literal("requestId"@), json_string_literal(request_id@)),
            (json_string_literal("from"@), json_string_literal(from@)),
            (json_string_literal("reason"@), json_string_literal(reason@)),
            (json_string_literal("timestamp"@), json_string_literal(timestamp@)),
        ],
        ClaudeTeamControlMessage::ShutdownApproved {
            request_id,
            from,
            timestamp,
            pane_id,
            backend_type,
        } => seq![
            (json_string_literal("type"@), json_string_literal("shutdown_approved"@)),
            (json_string_literal("requestId"@), json_string_literal(request_id@)),
            (json_string_literal("from"@), json_string_literal(from@)),
            (json_string_literal("timestamp"@), json_string_literal(timestamp@)),
            (json_string_literal("paneId"@), json_string_literal(pane_id@)),
            (json_string_literal("backendType"@), json_string_literal(backend_type@)),
        ],
    }
}

/// The JSON text of a control message.
pub open spec fn control_json(c: ClaudeTeamControlMessage) -> Seq<char> {
    json_object(control_members(c))
}

/// The JSON text of a shutdown approval, from the views of its fields.
pub open spec fn shutdown_approved_json(
    request_id: Seq<char>,
    from: Seq<char>,
    timestamp: Seq<char>,
    pane_id: Seq<char>,
    backend_type: Seq<char>,
) -> Seq<char> {
    json_object(
        seq![
            (json_string_literal("type"@), json_string_literal("shutdown_approved"@)),
            (json_string_literal("requestId"@), json_string_literal(request_id)),
            (json_string_literal("from"@), json_string_literal(from)),
            (json_string_literal("timestamp"@), json_string_literal(timestamp)),
            (json_string_literal("paneId"@), json_string_literal(pane_id)),
            (json_string_literal("backendType"@), json_string_literal(backend_type)),
        ],
    )
}

/// One member `key:value` with both parts written as JSON string literals.
fn quoted_member(key: &str, value: &str) -> (r: Result<(String, String), ProtocolError>)
    ensures
        r is Ok,
        r matches Ok(m) ==> m.0@ == json_string_literal(key@) && m.1@ == json_string_literal(
            value@,
        ),
{
    let k = match json_quote(key) {
        Ok(k) => k,
        Err(_) => return Err(ProtocolError::Serialization),
    };
    let v = match json_quote(value) {
        Ok(v) => v,
        Err(_) => return Err(ProtocolError::Serialization),
    };
    Ok((k, v))
}

impl ClaudeTeamControlMessage {
    /// The JSON text of this control message, as `serde_json` writes it for
    /// an enum tagged by `type`.
    pub fn to_json(&self) -> (r: Result<String, ProtocolError>)
        ensures
            r is Ok,
            r matches Ok(s) ==> s@ == control_json(*self),
    {
        let mut members: Vec<(String, String)> = Vec::new();
        match self {
            ClaudeTeamControlMessage::ShutdownRequest { request_id, from, reason, timestamp } => {
                members.push(quoted_member("type", "shutdown_request")?);
                members.push(quoted_member("requestId", request_id.as_str())?);
                members.push(quoted_member("from", from.as_str())?);
                members.push(quoted_member("reason", reason.as_str())?);
                members.push(quoted_member("timestamp", timestamp.as_str())?);
            },
            ClaudeTeamControlMessage::ShutdownApproved {
                request_id,
                from,
                timestamp,
                pane_id,
                backend_type,
            } => {
                members.push(quoted_member("type", "shutdown_approved")?);
                members.push(quoted_member("requestId", request_id.as_str())?);
                members.push(quoted_member("from", from.as_str())?);
                members.push(quoted_member("timestamp", timestamp.as_str())?);
                members.push(quoted_member("paneId", pane_id.as_str())?);
                members.push(quoted_member("backendType", backend_type.as_str())?);
            },
        }
        let r = json_object_text(&members);
        assert(member_views(members@) =~= control_members(*self));
        Ok(r)
    }
}

// ---------------------------------------------------------------------------
// Envelopes
// ---------------------------------------------------------------------------

/// The summary attribute of the text shown to a teammate: the stored summary
/// without surrounding whitespace, or nothing.
pub open spec fn summary_attr(summary: Option<String>) -> Seq<char> {
    match summary {
        Some(s) => trim(s@),
        None => seq![],
    }
}

/// The text a teammate is shown for an envelope.
pub open spec fn teammate_message_text(e: ClaudeTeamEnvelope) -> Seq<char> {
    "<teammate-message teammate_id=\""@ + escape_xml(e.from@) + "\" summary=\""@ + escape_xml(
        summary_attr(e.summary),
    ) + "\">\n"@ + e.text@ + "\n</teammate-message>"@
}

/// Whether an envelope whose text parses to `control` is a plain message.
pub open spec fn is_plain(e: ClaudeTeamEnvelope, control: Option<ClaudeTeamControlMessage>) -> bool {
    e.message_type@ == MESSAGE_TYPE@ && control is None
}

/// Whether `control` is a shutdown request.
pub open spec fn is_shutdown(control: Option<ClaudeTeamControlMessage>) -> bool {
    control matches Some(ClaudeTeamControlMessage::ShutdownRequest { .. })
}

/// A copy of an optional string.
fn copy_opt_string(s: &Option<String>) -> (r: Option<String>)
    ensures
        r == *s,
{
    match s {
        Some(v) => Some(v.clone()),
        None => None,
    }
}

impl ClaudeTeamEnvelope {
    /// A field-by-field copy.
    pub fn copy(&self) -> (r: Self)
        ensures
            r == *self,
    {
        ClaudeTeamEnvelope {
            from: self.from.clone(),
            text: self.text.clone(),
            summary: copy_opt_string(&self.summary),
            timestamp: self.timestamp.clone(),
            message_type: self.message_type.clone(),
            read: self.read,
        }
    }

    /// A plain, unread message stamped with `timestamp`, with the summary of
    /// its text.
    pub fn plain_message_at(from: &str, text: &str, timestamp: String) -> (r: Self)
        ensures
            r.from@ == from@,
            r.text@ == text@,
            r.summary matches Some(s) && s@ == summary_of(text@),
            r.timestamp == timestamp,
            r.message_type@ == MESSAGE_TYPE@,
            !r.read,
    {
        let summary = summarize_message(text);
        ClaudeTeamEnvelope {
            from: from.to_owned(),
            summary: Some(summary),
            text: text.to_owned(),
            timestamp,
            message_type: MESSAGE_TYPE.to_owned(),
            read: false,
        }
    }

    /// A plain, unread message stamped with the current time; fails with
    /// `ClockUnavailable` when the clock gives no timestamp.
    pub fn plain_message(from: &str, text: &str) -> (r: Result<Self, ProtocolError>)
        ensures
            r matches Ok(e) ==> {
                &&& e.from@ == from@
                &&& e.text@ == text@
                &&& e.summary matches Some(s) && s@ == summary_of(text@)
                &&& is_clock_timestamp(e.timestamp@)
                &&& e.message_type@ == MESSAGE_TYPE@
                &&& !e.read
            },
            r matches Err(x) ==> x == ProtocolError::ClockUnavailable,
    {
        match timestamp_now() {
            Some(timestamp) => Ok(Self::plain_message_at(from, text, timestamp)),
            None => Err(ProtocolError::ClockUnavailable),
        }
    }

    /// The approval of a shutdown request, stamped with `timestamp`: a
    /// message from `from` whose text is the JSON of a `shutdown_approved`
    /// control message for `request_id` and `pane_id` on the `tmux` backend.
    pub fn shutdown_approved_at(from: &str, request_id: &str, pane_id: &str, timestamp: String) -> (r:
        Result<Self, ProtocolError>)
        ensures
            r is Ok,
            r matches Ok(e) ==> {
                &&& e.from@ == from@
                &&& e.text@ == shutdown_approved_json(
                    request_id@,
                    from@,
                    timestamp@,
                    pane_id@,
                    "tmux"@,
                )
                &&& e.summary is None
                &&& e.timestamp == timestamp
                &&& e.message_type@ == MESSAGE_TYPE@
                &&& !e.read
            },
    {
        let control = ClaudeTeamControlMessage::ShutdownApproved {
            request_id: request_id.to_owned(),
            from: from.to_owned(),
            timestamp: timestamp.clone(),
            pane_id: pane_id.to_owned(),
            backend_type: "tmux".to_owned(),
        };
        let text = control.to_json()?;
        Ok(ClaudeTeamEnvelope {
            from: from.to_owned(),
            text,
            summary: None,
            timestamp,
            message_type: MESSAGE_TYPE.to_owned(),
            read: false,
        })
    }

    /// The approval of a shutdown request, stamped with the current time;
    /// fails with `ClockUnavailable` when the clock gives no timestamp.
    pub fn shutdown_approved(from: &str, request_id: &str, pane_id: &str) -> (r: Result<
        Self,
        ProtocolError,
    >)
        ensures
            r matches Err(x) ==> x == ProtocolError::ClockUnavailable,
            r matches Ok(e) ==> {
                &&& is_clock_timestamp(e.timestamp@)
                &&& e.from@ == from@
                &&& e.text@ == shutdown_approved_json(
                    request_id@,
                    from@,
                    e.timestamp@,
                    pane_id@,
                    "tmux"@,
                )
                &&& e.summary is None
                &&& e.message_type@ == MESSAGE_TYPE@
                &&& !e.read
            },
    {
        match timestamp_now() {
            Some(timestamp) => Self::shutdown_approved_at(from, request_id, pane_id, timestamp),
            None => Err(ProtocolError::ClockUnavailable),
        }
    }

    /// The text a teammate is shown: the message wrapped in a
    /// `teammate-message` element whose attributes carry the escaped sender
    /// and trimmed summary.
    pub fn to_teammate_message_text(&self) -> (r: String)
        ensures
            r@ == teammate_message_text(*self),
    {
        let summary = match &self.summary {
            Some(s) => trim_str(s.as_str()),
            None => String::new(),
        };
        let mut out = String::new();
        out.append("<teammate-message teammate_id=\"");
        out.append(escape_xml_attr(self.from.as_str()).as_str());
        out.append("\" summary=\"");
        out.append(escape_xml_attr(summary.as_str()).as_str());
        out.append("\">\n");
        out.append(self.text.as_str());
        out.append("\n</teammate-message>");
        out
    }

    /// The input handed to the model for this message: a user message whose
    /// only content is the teammate message text.
    pub fn to_teammate_response_item(&self) -> (r: ResponseInputItem)
        ensures
            ({
                let ResponseInputItem::Message { role, content } = r;
                &&& role@ == "user"@
                &&& content@.len() == 1
                &&& content@[0] matches ContentItem::InputText { text }
                &&& text@ == teammate_message_text(*self)
            }),
    {
        let mut content: Vec<ContentItem> = Vec::new();
        content.push(ContentItem::InputText { text: self.to_teammate_message_text() });
        ResponseInputItem::Message { role: "user".to_owned(), content }
    }

    /// Whether this envelope is a plain message, given `control`, the control
    /// message its text parses to (`None` when it is not one): its type is
    /// `message` and its text is not a control message.
    pub fn is_plain_message(&self, control: &Option<ClaudeTeamControlMessage>) -> (r: bool)
        ensures
            r == is_plain(*self, *control),
            r == (self.message_type@ == MESSAGE_TYPE@ && control is None),
    {
        let message_type = MESSAGE_TYPE.to_owned();
        self.message_type == message_type && control.is_none()
    }

    /// Whether this envelope carries a shutdown request, given `control`, the
    /// control message its text parses to.
    pub fn is_shutdown_request(&self, control: &Option<ClaudeTeamControlMessage>) -> (r: bool)
        ensures
            r == is_shutdown(*control),
    {
        match control {
            Some(ClaudeTeamControlMessage::ShutdownRequest { .. }) => true,
            _ => false,
        }
    }
}

/// The type of every envelope this protocol writes is the word `message`.
pub proof fn law_message_type_is_message()
    ensures
        MESSAGE_TYPE@ == seq!['m', 'e', 's', 's', 'a', 'g', 'e'],
{
    reveal_strlit("message");
}

/// An envelope is a plain message exactly when its type is `message` and its
/// text is not a control message; nothing else about it (whether it was read,
/// who sent it, its summary or timestamp) plays a part.
pub proof fn law_plain_is_message_type_without_control(
    e: ClaudeTeamEnvelope,
    control: Option<ClaudeTeamControlMessage>,
)
    ensures
        is_plain(e, control) <==> (e.message_type@ == seq!['m', 'e', 's', 's', 'a', 'g', 'e']
            && control is None),
{
    law_message_type_is_message();
}

/// Two envelopes that differ only in the other fields than the type are
/// classified alike: in particular a message that was already read is as
/// plain as one that was not.
pub proof fn law_plain_ignores_other_fields(
    e1: ClaudeTeamEnvelope,
    e2: ClaudeTeamEnvelope,
    control: Option<ClaudeTeamControlMessage>,
)
    requires
        e1.message_type@ == e2.message_type@,
    ensures
        is_plain(e1, control) == is_plain(e2, control),
{
    law_plain_is_message_type_without_control(e1, control);
    law_plain_is_message_type_without_control(e2, control);
}

/// An envelope whose text is a shutdown request is never a plain message.
pub proof fn law_shutdown_request_is_not_plain(
    e: ClaudeTeamEnvelope,
    control: Option<ClaudeTeamControlMessage>,
)
    requires
        is_shutdown(control),
    ensures
        !is_plain(e, control),
{
}

/// The teammate text of a plain message shows, as its summary attribute,
/// the summary of the message's text, unchanged by trimming.
pub proof fn law_plain_message_shows_its_summary(e: ClaudeTeamEnvelope)
    requires
        e.summary matches Some(s) && s@ == summary_of(e.text@),
    ensures
        summary_attr(e.summary) == summary_of(e.text@),
{
    law_summary_is_trimmed(e.text@);
}

} // verus!
