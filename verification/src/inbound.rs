use vstd::prelude::*;

use crate::terminal::TerminalRegistry;
use crate::text::str_eq;

verus! {

/// The members of an inbound control frame that the gateway reads: the
/// `type`, `terminal_id` and `data` string members and the `cols` and
/// `rows` number members of the frame parsed as a JSON object. A member
/// is `None` when the frame is not a JSON object or the member is
/// absent or of another type.
pub struct InboundRaw {
    pub msg_type: Option<String>,
    pub terminal_id: Option<String>,
    pub data: Option<String>,
    pub cols: Option<u64>,
    pub rows: Option<u64>,
}

/// The mathematical value of an `InboundRaw`.
#[verifier::ext_equal]
pub struct InboundRawView {
    pub msg_type: Option<Seq<char>>,
    pub terminal_id: Option<Seq<char>>,
    pub data: Option<Seq<char>>,
    pub cols: Option<u64>,
    pub rows: Option<u64>,
}

impl View for InboundRaw {
    type V = InboundRawView;

    open spec fn view(&self) -> InboundRawView {
        InboundRawView {
            msg_type: match self.msg_type {
                Some(s) => Some(s@),
                None => None,
            },
            terminal_id: match self.terminal_id {
                Some(s) => Some(s@),
                None => None,
            },
            data: match self.data {
                Some(s) => Some(s@),
                None => None,
            },
            cols: self.cols,
            rows: self.rows,
        }
    }
}

/// The members named above of `text` parsed as a JSON object; all absent
/// when the text does not parse or is not an object. The result is a
/// function of the characters of the text alone.
pub uninterp spec fn json_inbound_fields(text: Seq<char>) -> InboundRawView;

/// Relies on `serde_json::from_str::<Value>`, `Value::get`,
/// `Value::as_str` and `Value::as_u64`: reads the `type`, `terminal_id`
/// and `data` string members and the `cols` and `rows` unsigned number
/// members of the frame parsed as a JSON value, which depend on the
/// text alone.
#[verifier::external_body]
pub(crate) fn parse_inbound_fields(text: &str) -> (r: InboundRaw)
    ensures
        r@ == json_inbound_fields(text@),
{
    let v = serde_json::from_str::<serde_json::Value>(text).unwrap_or(serde_json::Value::Null);
    InboundRaw {
        msg_type: v.get("type").and_then(|x| x.as_str()).map(|s| s.to_string()),
        terminal_id: v.get("terminal_id").and_then(|x| x.as_str()).map(|s| s.to_string()),
        data: v.get("data").and_then(|x| x.as_str()).map(|s| s.to_string()),
        cols: v.get("cols").and_then(|x| x.as_u64()),
        rows: v.get("rows").and_then(|x| x.as_u64()),
    }
}

/// A recognized inbound control frame.
pub enum InboundFrame {
    /// Bytes for a terminal's input.
    TerminalInput { terminal_id: String, data: String },
    /// A new size for a terminal.
    TerminalResize { terminal_id: String, cols: u16, rows: u16 },
    /// Anything else; unknown and malformed frames are ignored.
    Ignored,
}

/// The mathematical value of an `InboundFrame`.
#[verifier::ext_equal]
pub enum InboundFrameView {
    TerminalInput { terminal_id: Seq<char>, data: Seq<char> },
    TerminalResize { terminal_id: Seq<char>, cols: u16, rows: u16 },
    Ignored,
}

impl View for InboundFrame {
    type V = InboundFrameView;

    open spec fn view(&self) -> InboundFrameView {
        match self {
            InboundFrame::TerminalInput { terminal_id, data } => InboundFrameView::TerminalInput {
                terminal_id: terminal_id@,
                data: data@,
            },
            InboundFrame::TerminalResize { terminal_id, cols, rows } => {
                InboundFrameView::TerminalResize {
                    terminal_id: terminal_id@,
                    cols: *cols,
                    rows: *rows,
                }
            },
            InboundFrame::Ignored => InboundFrameView::Ignored,
        }
    }
}

/// Which control frame the given members form: a `terminal-input` frame
/// needs its terminal id and data, a `terminal-resize` frame needs its
/// terminal id and a size that fits the PTY's sixteen-bit dimensions;
/// everything else is ignored.
pub open spec fn spec_classify(f: InboundRawView) -> InboundFrameView {
    if f.msg_type == Some("terminal-input"@) && f.terminal_id is Some && f.data is Some {
        InboundFrameView::TerminalInput {
            terminal_id: f.terminal_id.unwrap(),
            data: f.data.unwrap(),
        }
    } else if f.msg_type == Some("terminal-resize"@) && f.terminal_id is Some && f.cols is Some
        && f.rows is Some && f.cols.unwrap() <= u16::MAX && f.rows.unwrap() <= u16::MAX {
        InboundFrameView::TerminalResize {
            terminal_id: f.terminal_id.unwrap(),
            cols: f.cols.unwrap() as u16,
            rows: f.rows.unwrap() as u16,
        }
    } else {
        InboundFrameView::Ignored
    }
}

/// Decodes one inbound text frame into the control frame it carries.
pub fn classify_inbound(text: &str) -> (r: InboundFrame)
    ensures
        r@ == spec_classify(json_inbound_fields(text@)),
{
    proof {
        reveal_strlit("terminal-input");
        reveal_strlit("terminal-resize");
        assert("terminal-input"@.len() == 14);
        assert("terminal-resize"@.len() == 15);
    }
    let raw = parse_inbound_fields(text);
    let InboundRaw { msg_type, terminal_id, data, cols, rows } = raw;
    let is_input = match &msg_type {
        Some(t) => str_eq(t.as_str(), "terminal-input"),
        None => false,
    };
    let is_resize = match &msg_type {
        Some(t) => str_eq(t.as_str(), "terminal-resize"),
        None => false,
    };
    if is_input {
        match (terminal_id, data) {
            (Some(tid), Some(d)) => InboundFrame::TerminalInput { terminal_id: tid, data: d },
            _ => InboundFrame::Ignored,
        }
    } else if is_resize {
        match (terminal_id, cols, rows) {
            (Some(tid), Some(c), Some(w)) => {
                if c <= u16::MAX as u64 && w <= u16::MAX as u64 {
                    InboundFrame::TerminalResize {
                        terminal_id: tid,
                        cols: c as u16,
                        rows: w as u16,
                    }
                } else {
                    InboundFrame::Ignored
                }
            },
            _ => InboundFrame::Ignored,
        }
    } else {
        InboundFrame::Ignored
    }
}

/// What the gateway does with one inbound frame.
pub enum RouteAction {
    /// Write the bytes of `data` to the writer of the named terminal.
    WriteTo { terminal_id: String, data: String },
    /// Resize the PTY of the named terminal.
    ResizeTo { terminal_id: String, cols: u16, rows: u16 },
    /// Do nothing: the frame was unknown, malformed, or named a
    /// terminal that is not registered.
    Drop,
}

/// The mathematical value of a `RouteAction`.
#[verifier::ext_equal]
pub enum RouteActionView {
    WriteTo { terminal_id: Seq<char>, data: Seq<char> },
    ResizeTo { terminal_id: Seq<char>, cols: u16, rows: u16 },
    Drop,
}

impl View for RouteAction {
    type V = RouteActionView;

    open spec fn view(&self) -> RouteActionView {
        match self {
            RouteAction::WriteTo { terminal_id, data } => RouteActionView::WriteTo {
                terminal_id: terminal_id@,
                data: data@,
            },
            RouteAction::ResizeTo { terminal_id, cols, rows } => RouteActionView::ResizeTo {
                terminal_id: terminal_id@,
                cols: *cols,
                rows: *rows,
            },
            RouteAction::Drop => RouteActionView::Drop,
        }
    }
}

/// The routing decision for a recognized frame against the registry: a
/// frame reaches its terminal exactly when that terminal is registered.
pub open spec fn spec_route(
    frame: InboundFrameView,
    reg: &TerminalRegistry,
) -> RouteActionView {
    match frame {
        InboundFrameView::TerminalInput { terminal_id, data } => {
            if reg.spec_contains(terminal_id) {
                RouteActionView::WriteTo { terminal_id, data }
            } else {
                RouteActionView::Drop
            }
        },
        InboundFrameView::TerminalResize { terminal_id, cols, rows } => {
            if reg.spec_contains(terminal_id) {
                RouteActionView::ResizeTo { terminal_id, cols, rows }
            } else {
                RouteActionView::Drop
            }
        },
        InboundFrameView::Ignored => RouteActionView::Drop,
    }
}

/// The terminal a control frame names, if it names one.
pub open spec fn frame_terminal(frame: InboundFrameView) -> Option<Seq<char>> {
    match frame {
        InboundFrameView::TerminalInput { terminal_id, .. } => Some(terminal_id),
        InboundFrameView::TerminalResize { terminal_id, .. } => Some(terminal_id),
        InboundFrameView::Ignored => None,
    }
}

/// A removed terminal receives nothing: once no entry bears an id, any
/// frame naming that id is dropped by the router.
pub proof fn lemma_removed_terminal_receives_nothing(
    reg: &TerminalRegistry,
    frame: InboundFrameView,
    id: Seq<char>,
)
    requires
        !reg.spec_contains(id),
        frame_terminal(frame) == Some(id),
    ensures
        spec_route(frame, reg) == RouteActionView::Drop,
{
}

/// Demultiplexes one inbound text frame to the terminal it names.
pub fn route_inbound(reg: &TerminalRegistry, text: &str) -> (r: RouteAction)
    ensures
        r@ == spec_route(spec_classify(json_inbound_fields(text@)), reg),
{
    match classify_inbound(text) {
        InboundFrame::TerminalInput { terminal_id, data } => {
            if reg.get(terminal_id.as_str()).is_some() {
                RouteAction::WriteTo { terminal_id, data }
            } else {
                RouteAction::Drop
            }
        },
        InboundFrame::TerminalResize { terminal_id, cols, rows } => {
            if reg.get(terminal_id.as_str()).is_some() {
                RouteAction::ResizeTo { terminal_id, cols, rows }
            } else {
                RouteAction::Drop
            }
        },
        InboundFrame::Ignored => RouteAction::Drop,
    }
}

} // verus!
