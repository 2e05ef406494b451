use vstd::prelude::*;

use crate::events::AgentStatus;
use crate::events::BusEvent;
use crate::events::BusEventView;
use crate::events::OutputStream;
use crate::text::join_with;
use crate::text::strs_view;

verus! {

/// The lower-case hexadecimal digit for `n`.
pub open spec fn hex_digit(n: int) -> char {
    if n == 0 {
        '0'
    } else if n == 1 {
        '1'
    } else if n == 2 {
        '2'
    } else if n == 3 {
        '3'
    } else if n == 4 {
        '4'
    } else if n == 5 {
        '5'
    } else if n == 6 {
        '6'
    } else if n == 7 {
        '7'
    } else if n == 8 {
        '8'
    } else if n == 9 {
        '9'
    } else if n == 10 {
        'a'
    } else if n == 11 {
        'b'
    } else if n == 12 {
        'c'
    } else if n == 13 {
        'd'
    } else if n == 14 {
        'e'
    } else {
        'f'
    }
}

fn hex_char(n: u32) -> (c: char)
    requires
        n < 16,
    ensures
        c == hex_digit(n as int),
{
    if n == 0 {
        '0'
    } else if n == 1 {
        '1'
    } else if n == 2 {
        '2'
    } else if n == 3 {
        '3'
    } else if n == 4 {
        '4'
    } else if n == 5 {
        '5'
    } else if n == 6 {
        '6'
    } else if n == 7 {
        '7'
    } else if n == 8 {
        '8'
    } else if n == 9 {
        '9'
    } else if n == 10 {
        'a'
    } else if n == 11 {
        'b'
    } else if n == 12 {
        'c'
    } else if n == 13 {
        'd'
    } else if n == 14 {
        'e'
    } else {
        'f'
    }
}

/// How one character is written inside a JSON string: quote and backslash
/// are escaped, control characters take their short escape or a
/// `\u00..` escape, and every other character stands as itself.
pub open spec fn spec_escaped_char(c: char) -> Seq<char> {
    if c == '"' {
        seq!['\\', '"']
    } else if c == '\\' {
        seq!['\\', '\\']
    } else if c == '\u{8}' {
        seq!['\\', 'b']
    } else if c == '\u{c}' {
        seq!['\\', 'f']
    } else if c == '\n' {
        seq!['\\', 'n']
    } else if c == '\r' {
        seq!['\\', 'r']
    } else if c == '\t' {
        seq!['\\', 't']
    } else if (c as u32) < 0x20 {
        seq!['\\', 'u', '0', '0', hex_digit((c as u32) as int / 16), hex_digit((c as u32) as int % 16)]
    } else {
        seq![c]
    }
}

/// The body of a JSON string holding the characters of `s`.
pub open spec fn spec_escaped(s: Seq<char>) -> Seq<char>
    decreases s.len(),
{
    if s.len() == 0 {
        Seq::empty()
    } else {
        spec_escaped(s.drop_last()) + spec_escaped_char(s.last())
    }
}

/// A JSON string holding the characters of `s`, quotes included.
pub open spec fn spec_json_string(s: Seq<char>) -> Seq<char> {
    seq!['"'] + spec_escaped(s) + seq!['"']
}

/// Relies on `String::push`: appends the given character to the end of
/// the string.
#[verifier::external_body]
pub(crate) fn push_char(out: &mut String, c: char)
    ensures
        final(out)@ == old(out)@ + seq![c],
{
    out.push(c);
}

/// Appends the escaped body of a JSON string holding `s`.
pub fn append_json_escaped(out: &mut String, s: &str)
    ensures
        final(out)@ == old(out)@ + spec_escaped(s@),
{
    let n = s.unicode_len();
    let mut i: usize = 0;
    while i < n
        invariant
            n == s@.len(),
            i <= n,
            out@ == old(out)@ + spec_escaped(s@.take(i as int)),
        decreases n - i,
    {
        let c = s.get_char(i);
        if c == '"' {
            out.append("\\\"");
            proof {
                reveal_strlit("\\\"");
                assert("\\\""@ =~= spec_escaped_char(c));
            }
        } else if c == '\\' {
            out.append("\\\\");
            proof {
                reveal_strlit("\\\\");
                assert("\\\\"@ =~= spec_escaped_char(c));
            }
        } else if c == '\u{8}' {
            out.append("\\b");
            proof {
                reveal_strlit("\\b");
                assert("\\b"@ =~= spec_escaped_char(c));
            }
        } else if c == '\u{c}' {
            out.append("\\f");
            proof {
                reveal_strlit("\\f");
                assert("\\f"@ =~= spec_escaped_char(c));
            }
        } else if c == '\n' {
            out.append("\\n");
            proof {
                reveal_strlit("\\n");
                assert("\\n"@ =~= spec_escaped_char(c));
            }
        } else if c == '\r' {
            out.append("\\r");
            proof {
                reveal_strlit("\\r");
                assert("\\r"@ =~= spec_escaped_char(c));
            }
        } else if c == '\t' {
            out.append("\\t");
            proof {
                reveal_strlit("\\t");
                assert("\\t"@ =~= spec_escaped_char(c));
            }
        } else if (c as u32) < 0x20 {
            out.append("\\u00");
            push_char(out, hex_char((c as u32) / 16));
            push_char(out, hex_char((c as u32) % 16));
            proof {
                reveal_strlit("\\u00");
                assert("\\u00"@ + seq![hex_digit((c as u32) as int / 16)] + seq![
                    hex_digit((c as u32) as int % 16),
                ] =~= spec_escaped_char(c));
            }
        } else {
            push_char(out, c);
            proof {
                assert(seq![c] =~= spec_escaped_char(c));
            }
        }
        proof {
            assert(s@.take(i + 1).drop_last() =~= s@.take(i as int));
            assert(s@.take(i + 1).last() == s@[i as int]);
            assert(out@ =~= old(out)@ + spec_escaped(s@.take(i + 1)));
        }
        i = i + 1;
    }
    proof {
        assert(s@.take(n as int) =~= s@);
    }
}

/// Appends a JSON string holding `s`, quotes included.
pub fn append_json_string(out: &mut String, s: &str)
    ensures
        final(out)@ == old(out)@ + spec_json_string(s@),
{
    out.append("\"");
    append_json_escaped(out, s);
    out.append("\"");
    proof {
        reveal_strlit("\"");
        assert("\""@ =~= seq!['"']);
        assert(out@ =~= old(out)@ + spec_json_string(s@));
    }
}

/// A JSON array of the strings of `items`, in order.
pub open spec fn spec_json_string_array(items: Seq<Seq<char>>) -> Seq<char> {
    seq!['['] + join_with(items.map_values(|s: Seq<char>| spec_json_string(s)), ","@) + seq![']']
}

/// Writes the strings of `items` as a JSON array, in order.
pub fn json_string_array(items: &Vec<String>) -> (r: String)
    ensures
        r@ == spec_json_string_array(strs_view(items@)),
{
    let ghost mapped = strs_view(items@).map_values(|s: Seq<char>| spec_json_string(s));
    let mut r = String::new();
    r.append("[");
    proof {
        reveal_strlit("[");
        assert("["@ =~= seq!['[']);
    }
    let mut i: usize = 0;
    while i < items.len()
        invariant
            i <= items.len(),
            mapped == strs_view(items@).map_values(|s: Seq<char>| spec_json_string(s)),
            mapped.len() == items@.len(),
            forall|j: int| 0 <= j < items@.len() ==> mapped[j] == spec_json_string(items@[j]@),
            r@ == seq!['['] + join_with(mapped.take(i as int), ","@),
        decreases items.len() - i,
    {
        if i > 0 {
            r.append(",");
            proof {
                reveal_strlit(",");
                assert(","@ =~= seq![',']);
            }
        }
        append_json_string(&mut r, items[i].as_str());
        proof {
            assert(mapped.take(i + 1).drop_last() =~= mapped.take(i as int));
            assert(mapped.take(i + 1).last() == spec_json_string(items@[i as int]@));
            assert(r@ =~= seq!['['] + join_with(mapped.take(i + 1), ","@));
        }
        i = i + 1;
    }
    r.append("]");
    proof {
        reveal_strlit("]");
        assert("]"@ =~= seq![']']);
        assert(mapped.take(items@.len() as int) =~= mapped);
        assert(r@ =~= spec_json_string_array(strs_view(items@)));
    }
    r
}

/// The lower-case wire label of a status value.
pub open spec fn spec_status_label(st: AgentStatus) -> Seq<char> {
    match st {
        AgentStatus::Idle => "idle"@,
        AgentStatus::Thinking => "thinking"@,
        AgentStatus::Working => "working"@,
        AgentStatus::Error => "error"@,
        AgentStatus::Exited => "exited"@,
    }
}

/// The lower-case wire label of an output stream.
pub open spec fn spec_stream_label(s: OutputStream) -> Seq<char> {
    match s {
        OutputStream::Stdout => "stdout"@,
        OutputStream::Stderr => "stderr"@,
    }
}

/// The wire label of a status value.
pub fn status_label(st: AgentStatus) -> (r: &'static str)
    ensures
        r@ == spec_status_label(st),
{
    match st {
        AgentStatus::Idle => "idle",
        AgentStatus::Thinking => "thinking",
        AgentStatus::Working => "working",
        AgentStatus::Error => "error",
        AgentStatus::Exited => "exited",
    }
}

/// The wire label of an output stream.
pub fn stream_label(s: OutputStream) -> (r: &'static str)
    ensures
        r@ == spec_stream_label(s),
{
    match s {
        OutputStream::Stdout => "stdout",
        OutputStream::Stderr => "stderr",
    }
}

/// The tagged JSON envelope in which a bus event is sent to a
/// subscriber.
pub open spec fn spec_envelope(e: BusEventView) -> Seq<char> {
    match e {
        BusEventView::AgentOutput(o) => "{\"type\":\"agent-output\",\"agent_id\":"@
            + spec_json_string(o.agent_id) + ",\"stream\":\""@ + spec_stream_label(o.stream)
            + "\",\"data\":"@ + spec_json_string(o.data) + "}"@,
        BusEventView::AgentStatus(s) => "{\"type\":\"agent-status\",\"agent_id\":"@
            + spec_json_string(s.agent_id) + ",\"status\":\""@ + spec_status_label(s.status)
            + "\"}"@,
        BusEventView::TerminalOutput(t) => "{\"type\":\"terminal-output\",\"terminal_id\":"@
            + spec_json_string(t.terminal_id) + ",\"data\":"@ + spec_json_string(t.data) + "}"@,
    }
}

/// Serializes a bus event to its tagged JSON envelope.
pub fn encode_envelope(e: &BusEvent) -> (r: String)
    ensures
        r@ == spec_envelope(e@),
{
    let mut r = String::new();
    match e {
        BusEvent::AgentOutput(o) => {
            r.append("{\"type\":\"agent-output\",\"agent_id\":");
            append_json_string(&mut r, o.agent_id.as_str());
            r.append(",\"stream\":\"");
            r.append(stream_label(o.stream));
            r.append("\",\"data\":");
            append_json_string(&mut r, o.data.as_str());
            r.append("}");
            proof {
                assert(r@ =~= spec_envelope(e@));
            }
        },
        BusEvent::AgentStatus(s) => {
            r.append("{\"type\":\"agent-status\",\"agent_id\":");
            append_json_string(&mut r, s.agent_id.as_str());
            r.append(",\"status\":\"");
            r.append(status_label(s.status));
            r.append("\"}");
            proof {
                assert(r@ =~= spec_envelope(e@));
            }
        },
        BusEvent::TerminalOutput(t) => {
            r.append("{\"type\":\"terminal-output\",\"terminal_id\":");
            append_json_string(&mut r, t.terminal_id.as_str());
            r.append(",\"data\":");
            append_json_string(&mut r, t.data.as_str());
            r.append("}");
            proof {
                assert(r@ =~= spec_envelope(e@));
            }
        },
    }
    r
}

} // verus!
