use vstd::prelude::*;

use crate::events::AgentStatus;

verus! {

/// The two fields of an assistant output line that drive the session's
/// state: the `session_id` and `type` members of the line parsed as a
/// JSON object. A field is `None` when the line is not a JSON object or
/// the member is absent or not a string.
pub struct LineFields {
    pub session_id: Option<String>,
    pub msg_type: Option<String>,
}

/// The mathematical value of `LineFields`.
#[verifier::ext_equal]
pub struct LineFieldsView {
    pub session_id: Option<Seq<char>>,
    pub msg_type: Option<Seq<char>>,
}

impl View for LineFields {
    type V = LineFieldsView;

    open spec fn view(&self) -> LineFieldsView {
        LineFieldsView {
            session_id: match self.session_id {
                Some(s) => Some(s@),
                None => None,
            },
            msg_type: match self.msg_type {
                Some(s) => Some(s@),
                None => None,
            },
        }
    }
}

/// The `session_id` and `type` string members of `line` parsed as a JSON
/// object; both absent when the line does not parse or is not an object.
/// The result is a function of the characters of the line alone.
pub uninterp spec fn json_line_fields(line: Seq<char>) -> LineFieldsView;

/// Relies on `serde_json::from_str::<Value>`, `Value::get` and
/// `Value::as_str`: reads the `session_id` and `type` string members of
/// the line parsed as a JSON value, which depend on the line alone.
#[verifier::external_body]
pub(crate) fn parse_line_fields(line: &str) -> (r: LineFields)
    ensures
        r@ == json_line_fields(line@),
{
    match serde_json::from_str::<serde_json::Value>(line) {
        Ok(v) => LineFields {
            session_id: v.get("session_id").and_then(|x| x.as_str()).map(|s| s.to_string()),
            msg_type: v.get("type").and_then(|x| x.as_str()).map(|s| s.to_string()),
        },
        Err(_) => LineFields { session_id: None, msg_type: None },
    }
}

/// The status transition that an output frame of the given `type` causes:
/// working-class frames report progress, terminal-class frames end a unit
/// of output, `error` reports a failure, and any other type causes none.
pub open spec fn spec_status_for_type(t: Seq<char>) -> Option<AgentStatus> {
    if t == "assistant"@ || t == "content_block_delta"@ || t == "content_block_start"@ {
        Some(AgentStatus::Working)
    } else if t == "result"@ || t == "message_stop"@ || t == "content_block_stop"@
        || t == "message_end"@ {
        Some(AgentStatus::Idle)
    } else if t == "error"@ {
        Some(AgentStatus::Error)
    } else {
        None
    }
}

/// `spec_status_for_type` lifted over an optional `type` member.
pub open spec fn spec_status_for_frame(msg_type: Option<Seq<char>>) -> Option<AgentStatus> {
    match msg_type {
        Some(t) => spec_status_for_type(t),
        None => None,
    }
}

/// Maps a frame's `type` member to the status it causes.
pub fn status_for_type(t: &str) -> (r: Option<AgentStatus>)
    ensures
        r == spec_status_for_type(t@),
{
    if crate::text::str_eq(t, "assistant") || crate::text::str_eq(t, "content_block_delta")
        || crate::text::str_eq(t, "content_block_start") {
        Some(AgentStatus::Working)
    } else if crate::text::str_eq(t, "result") || crate::text::str_eq(t, "message_stop")
        || crate::text::str_eq(t, "content_block_stop") || crate::text::str_eq(t, "message_end") {
        Some(AgentStatus::Idle)
    } else if crate::text::str_eq(t, "error") {
        Some(AgentStatus::Error)
    } else {
        None
    }
}

/// The conversation id stored after a frame with the given fields is
/// observed, starting from `conv`. A `result` frame carrying a
/// `session_id` overwrites the stored id; any other frame carrying one
/// sets it only when none is stored yet; the id, once set, is never
/// cleared.
pub open spec fn spec_next_conversation(
    conv: Option<Seq<char>>,
    fields: LineFieldsView,
) -> Option<Seq<char>> {
    if fields.msg_type == Some("result"@) && fields.session_id is Some {
        fields.session_id
    } else if conv is None && fields.session_id is Some {
        fields.session_id
    } else {
        conv
    }
}

/// Output frames drive the session only between `Working`, `Idle` and
/// `Error`: the `Thinking` status comes from `send` alone, and `Exited`
/// from teardown, never from a frame.
pub proof fn lemma_frame_status_classes(t: Seq<char>)
    ensures
        match spec_status_for_type(t) {
            Some(s) => s != AgentStatus::Thinking && s != AgentStatus::Exited,
            None => true,
        },
{
}

/// Observing a frame never clears a stored conversation id.
pub proof fn lemma_conversation_never_cleared(conv: Option<Seq<char>>, fields: LineFieldsView)
    requires
        conv is Some,
    ensures
        spec_next_conversation(conv, fields) is Some,
{
}

/// A frame carrying a `session_id` always leaves a conversation id stored.
pub proof fn lemma_session_id_captured(conv: Option<Seq<char>>, fields: LineFieldsView)
    requires
        fields.session_id is Some,
    ensures
        spec_next_conversation(conv, fields) is Some,
{
}

/// Observing the same frame twice yields the same stored conversation id
/// as observing it once: the parser's state transition is idempotent.
pub proof fn lemma_parse_idempotent(conv: Option<Seq<char>>, fields: LineFieldsView)
    ensures
        spec_next_conversation(spec_next_conversation(conv, fields), fields)
            == spec_next_conversation(conv, fields),
{
}

} // verus!
