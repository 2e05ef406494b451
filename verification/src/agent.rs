use vstd::prelude::*;

use crate::events::AgentOutput;
use crate::events::AgentOutputView;
use crate::events::AgentStatus;
use crate::events::AgentStatusChange;
use crate::events::AgentStatusChangeView;
use crate::events::BusEvent;
use crate::events::BusEventView;
use crate::events::OutputStream;
use crate::events::events_view;
use crate::parser::json_line_fields;
use crate::parser::parse_line_fields;
use crate::parser::spec_next_conversation;
use crate::parser::spec_status_for_frame;
use crate::parser::status_for_type;
use crate::text::join_with;
use crate::text::join_spaces;
use crate::text::opt_view;
use crate::text::str_eq;
use crate::text::strs_view;
use crate::wire::json_string_array;
use crate::wire::spec_json_string_array;

verus! {

/// The model tag a session is created with when the request names none.
pub fn default_model() -> (r: String)
    ensures
        r@ == "sonnet"@,
{
    String::from_str("sonnet")
}

/// One assistant session: the identity and settings of one external
/// assistant CLI lineage, its stored conversation id, and the token of
/// its current child process, when one is live. The session holds at
/// most one child at a time.
pub struct AgentSession {
    pub id: String,
    pub name: String,
    pub working_dir: String,
    pub model: String,
    pub thinking_enabled: bool,
    pub mcp_servers: Vec<String>,
    pub conversation_id: Option<String>,
    pub child: Option<u64>,
}

/// The mathematical value of an `AgentSession`.
#[verifier::ext_equal]
pub struct AgentSessionView {
    pub id: Seq<char>,
    pub name: Seq<char>,
    pub working_dir: Seq<char>,
    pub model: Seq<char>,
    pub thinking_enabled: bool,
    pub mcp_servers: Seq<Seq<char>>,
    pub conversation_id: Option<Seq<char>>,
    pub child: Option<u64>,
}

impl View for AgentSession {
    type V = AgentSessionView;

    open spec fn view(&self) -> AgentSessionView {
        AgentSessionView {
            id: self.id@,
            name: self.name@,
            working_dir: self.working_dir@,
            model: self.model@,
            thinking_enabled: self.thinking_enabled,
            mcp_servers: strs_view(self.mcp_servers@),
            conversation_id: opt_view(self.conversation_id),
            child: self.child,
        }
    }
}

/// One environment variable that a child is spawned with.
pub struct EnvVar {
    pub name: String,
    pub value: String,
}

/// The mathematical value of an `EnvVar`.
#[verifier::ext_equal]
pub struct EnvVarView {
    pub name: Seq<char>,
    pub value: Seq<char>,
}

impl View for EnvVar {
    type V = EnvVarView;

    open spec fn view(&self) -> EnvVarView {
        EnvVarView { name: self.name@, value: self.value@ }
    }
}

/// Everything the host needs to spawn one assistant child: the composed
/// prompt, the full argument list, the extra environment, and the
/// `thinking` status event to publish before the spawn.
pub struct SendPlan {
    pub prompt: String,
    pub args: Vec<String>,
    pub env: Vec<EnvVar>,
    pub status_event: BusEvent,
}

/// The prompt handed to the child: the message itself, prefixed with the
/// literal image paths when any are attached.
pub open spec fn spec_prompt(message: Seq<char>, images: Seq<Seq<char>>) -> Seq<char> {
    if images.len() == 0 {
        message
    } else {
        "Images attached: "@ + join_with(images, " "@) + "\n\n"@ + message
    }
}

/// The argument list of one assistant invocation: non-interactive print
/// mode with streaming-JSON output, verbose, unsupervised file
/// modification, the session's model tag, and a resume flag when a
/// conversation id is already stored.
pub open spec fn spec_args(
    prompt: Seq<char>,
    model: Seq<char>,
    conv: Option<Seq<char>>,
) -> Seq<Seq<char>> {
    let base = seq![
        "-p"@,
        prompt,
        "--output-format"@,
        "stream-json"@,
        "--verbose"@,
        "--dangerously-skip-permissions"@,
        "--model"@,
        model,
    ];
    match conv {
        Some(sid) => base + seq!["--resume"@, sid],
        None => base,
    }
}

/// The extra environment of one assistant invocation: the thinking-token
/// budget when thinking is enabled, and the extension-server list as a
/// JSON array when any servers are configured.
pub open spec fn spec_send_env(thinking_enabled: bool, mcp_servers: Seq<Seq<char>>) -> Seq<
    EnvVarView,
> {
    let base: Seq<EnvVarView> = if thinking_enabled {
        seq![EnvVarView { name: "MAX_THINKING_TOKENS"@, value: "31999"@ }]
    } else {
        seq![]
    };
    if mcp_servers.len() > 0 {
        base + seq![
            EnvVarView {
                name: "CLAUDE_MCP_SERVERS"@,
                value: spec_json_string_array(mcp_servers),
            },
        ]
    } else {
        base
    }
}

/// The events that observing one stdout line publishes: the raw line
/// itself, then the status transition its `type` member causes, if any.
pub open spec fn spec_line_events(agent_id: Seq<char>, line: Seq<char>) -> Seq<BusEventView> {
    let out = BusEventView::AgentOutput(
        AgentOutputView { agent_id, stream: OutputStream::Stdout, data: line },
    );
    match spec_status_for_frame(json_line_fields(line).msg_type) {
        Some(st) => seq![
            out,
            BusEventView::AgentStatus(AgentStatusChangeView { agent_id, status: st }),
        ],
        None => seq![out],
    }
}

impl AgentSession {
    /// Creates a session with the given identity and settings, no stored
    /// conversation id and no child.
    pub fn new(
        id: String,
        name: String,
        working_dir: String,
        model: String,
        thinking_enabled: bool,
        mcp_servers: Vec<String>,
    ) -> (r: AgentSession)
        ensures
            r@ == (AgentSessionView {
                id: id@,
                name: name@,
                working_dir: working_dir@,
                model: model@,
                thinking_enabled,
                mcp_servers: strs_view(mcp_servers@),
                conversation_id: None,
                child: None,
            }),
    {
        AgentSession {
            id,
            name,
            working_dir,
            model,
            thinking_enabled,
            mcp_servers,
            conversation_id: None,
            child: None,
        }
    }

    /// Observes one line of the child's standard output: stores a newly
    /// seen conversation id (a `result` frame overwrites it), and returns
    /// the events to publish, the raw line first and the status
    /// transition after it.
    pub fn observe_line(&mut self, line: &str) -> (evs: Vec<BusEvent>)
        ensures
            final(self)@ == (AgentSessionView {
                conversation_id: spec_next_conversation(
                    old(self)@.conversation_id,
                    json_line_fields(line@),
                ),
                ..old(self)@
            }),
            events_view(evs@) == spec_line_events(old(self)@.id, line@),
    {
        let fields = parse_line_fields(line);
        if let Some(sid) = &fields.session_id {
            if self.conversation_id.is_none() {
                self.conversation_id = Some(sid.clone());
            }
        }
        let status: Option<AgentStatus> = match &fields.msg_type {
            Some(t) => {
                if str_eq(t.as_str(), "result") {
                    if let Some(sid) = &fields.session_id {
                        self.conversation_id = Some(sid.clone());
                    }
                }
                status_for_type(t.as_str())
            },
            None => None,
        };
        let mut evs: Vec<BusEvent> = Vec::new();
        evs.push(
            BusEvent::AgentOutput(
                AgentOutput {
                    agent_id: self.id.clone(),
                    stream: OutputStream::Stdout,
                    data: line.to_owned(),
                },
            ),
        );
        if let Some(st) = status {
            evs.push(
                BusEvent::AgentStatus(AgentStatusChange { agent_id: self.id.clone(), status: st }),
            );
        }
        proof {
            assert(self@ =~= (AgentSessionView {
                conversation_id: spec_next_conversation(
                    old(self)@.conversation_id,
                    json_line_fields(line@),
                ),
                ..old(self)@
            }));
            assert(events_view(evs@) =~~= spec_line_events(old(self)@.id, line@));
        }
        evs
    }

    /// The event to publish for one line of the child's standard error:
    /// the line is forwarded verbatim with no parsing.
    pub fn stderr_line(&self, line: &str) -> (ev: BusEvent)
        ensures
            ev@ == BusEventView::AgentOutput(
                AgentOutputView {
                    agent_id: self@.id,
                    stream: OutputStream::Stderr,
                    data: line@,
                },
            ),
    {
        BusEvent::AgentOutput(
            AgentOutput {
                agent_id: self.id.clone(),
                stream: OutputStream::Stderr,
                data: line.to_owned(),
            },
        )
    }

    /// The event to publish when the child's standard output ends: a
    /// final `idle` status.
    pub fn end_of_stream(&self) -> (ev: BusEvent)
        ensures
            ev@ == BusEventView::AgentStatus(
                AgentStatusChangeView { agent_id: self@.id, status: AgentStatus::Idle },
            ),
    {
        BusEvent::AgentStatus(
            AgentStatusChange { agent_id: self.id.clone(), status: AgentStatus::Idle },
        )
    }

    /// The event to publish when spawning the child fails: an `error`
    /// status. The session keeps no child in that case.
    pub fn spawn_failed(&self) -> (ev: BusEvent)
        ensures
            ev@ == BusEventView::AgentStatus(
                AgentStatusChangeView { agent_id: self@.id, status: AgentStatus::Error },
            ),
    {
        BusEvent::AgentStatus(
            AgentStatusChange { agent_id: self.id.clone(), status: AgentStatus::Error },
        )
    }

    /// Prepares one message send: composes the prompt, the argument list
    /// and the environment for the child, and the immediate `thinking`
    /// status event. The session itself is unchanged; the host records
    /// the spawned child with `note_spawned`.
    pub fn prepare_send(&self, message: &str, images: &Vec<String>) -> (plan: SendPlan)
        ensures
            plan.prompt@ == spec_prompt(message@, strs_view(images@)),
            strs_view(plan.args@) == spec_args(
                spec_prompt(message@, strs_view(images@)),
                self@.model,
                self@.conversation_id,
            ),
            plan.env@.map_values(|v: EnvVar| v@) == spec_send_env(
                self@.thinking_enabled,
                self@.mcp_servers,
            ),
            plan.status_event@ == BusEventView::AgentStatus(
                AgentStatusChangeView { agent_id: self@.id, status: AgentStatus::Thinking },
            ),
    {
        let prompt: String = if images.len() == 0 {
            message.to_owned()
        } else {
            let mut p = String::from_str("Images attached: ");
            let joined = join_spaces(images);
            p.append(joined.as_str());
            p.append("\n\n");
            p.append(message);
            p
        };

        let mut args: Vec<String> = Vec::new();
        args.push(String::from_str("-p"));
        args.push(prompt.clone());
        args.push(String::from_str("--output-format"));
        args.push(String::from_str("stream-json"));
        args.push(String::from_str("--verbose"));
        args.push(String::from_str("--dangerously-skip-permissions"));
        args.push(String::from_str("--model"));
        args.push(self.model.clone());
        if let Some(sid) = &self.conversation_id {
            args.push(String::from_str("--resume"));
            args.push(sid.clone());
        }

        let mut env: Vec<EnvVar> = Vec::new();
        if self.thinking_enabled {
            env.push(
                EnvVar {
                    name: String::from_str("MAX_THINKING_TOKENS"),
                    value: String::from_str("31999"),
                },
            );
        }
        if self.mcp_servers.len() > 0 {
            env.push(
                EnvVar {
                    name: String::from_str("CLAUDE_MCP_SERVERS"),
                    value: json_string_array(&self.mcp_servers),
                },
            );
        }

        let status_event = BusEvent::AgentStatus(
            AgentStatusChange { agent_id: self.id.clone(), status: AgentStatus::Thinking },
        );

        proof {
            assert(strs_view(args@) =~= spec_args(
                spec_prompt(message@, strs_view(images@)),
                self@.model,
                self@.conversation_id,
            ));
            assert(env@.map_values(|v: EnvVar| v@) =~~= spec_send_env(
                self@.thinking_enabled,
                self@.mcp_servers,
            ));
        }

        SendPlan { prompt, args, env, status_event }
    }

    /// Records the child the host has spawned for this session.
    pub fn note_spawned(&mut self, token: u64)
        ensures
            final(self)@ == (AgentSessionView { child: Some(token), ..old(self)@ }),
    {
        self.child = Some(token);
    }

    /// Interrupts the current operation, keeping the session alive: the
    /// child handle is cleared, the host is told which child to
    /// terminate, and an `idle` status is published when a child was
    /// live.
    pub fn stop(&mut self) -> (r: (Option<u64>, Vec<BusEvent>))
        ensures
            final(self)@ == (AgentSessionView { child: None, ..old(self)@ }),
            r.0 == old(self)@.child,
            events_view(r.1@) == (match old(self)@.child {
                Some(_) => seq![
                    BusEventView::AgentStatus(
                        AgentStatusChangeView {
                            agent_id: old(self)@.id,
                            status: AgentStatus::Idle,
                        },
                    ),
                ],
                None => Seq::<BusEventView>::empty(),
            }),
    {
        let token = self.child;
        self.child = None;
        let mut evs: Vec<BusEvent> = Vec::new();
        if token.is_some() {
            evs.push(
                BusEvent::AgentStatus(
                    AgentStatusChange { agent_id: self.id.clone(), status: AgentStatus::Idle },
                ),
            );
        }
        proof {
            assert(events_view(evs@) =~~= (match old(self)@.child {
                Some(_) => seq![
                    BusEventView::AgentStatus(
                        AgentStatusChangeView {
                            agent_id: old(self)@.id,
                            status: AgentStatus::Idle,
                        },
                    ),
                ],
                None => Seq::<BusEventView>::empty(),
            }));
        }
        (token, evs)
    }

    /// Tears the session down: the child handle is cleared and the host
    /// is told which child to terminate. No status is published; the
    /// registry removes the session.
    pub fn kill(&mut self) -> (token: Option<u64>)
        ensures
            final(self)@ == (AgentSessionView { child: None, ..old(self)@ }),
            token == old(self)@.child,
    {
        let token = self.child;
        self.child = None;
        token
    }

    /// Updates the session's settings; only fields given as `Some` change,
    /// and only subsequent sends are affected.
    pub fn update_settings(
        &mut self,
        model: Option<String>,
        thinking_enabled: Option<bool>,
        mcp_servers: Option<Vec<String>>,
    )
        ensures
            final(self)@ == (AgentSessionView {
                model: match model {
                    Some(m) => m@,
                    None => old(self)@.model,
                },
                thinking_enabled: match thinking_enabled {
                    Some(t) => t,
                    None => old(self)@.thinking_enabled,
                },
                mcp_servers: match mcp_servers {
                    Some(s) => strs_view(s@),
                    None => old(self)@.mcp_servers,
                },
                ..old(self)@
            }),
    {
        if let Some(m) = model {
            self.model = m;
        }
        if let Some(t) = thinking_enabled {
            self.thinking_enabled = t;
        }
        if let Some(s) = mcp_servers {
            self.mcp_servers = s;
        }
        proof {
            assert(self@ =~~= (AgentSessionView {
                model: match model {
                    Some(m) => m@,
                    None => old(self)@.model,
                },
                thinking_enabled: match thinking_enabled {
                    Some(t) => t,
                    None => old(self)@.thinking_enabled,
                },
                mcp_servers: match mcp_servers {
                    Some(s) => strs_view(s@),
                    None => old(self)@.mcp_servers,
                },
                ..old(self)@
            }));
        }
    }

    /// The session's current settings: model tag, thinking flag and
    /// extension-server names.
    pub fn get_settings(&self) -> (r: (String, bool, Vec<String>))
        ensures
            r.0@ == self@.model,
            r.1 == self@.thinking_enabled,
            strs_view(r.2@) == self@.mcp_servers,
    {
        (self.model.clone(), self.thinking_enabled, self.mcp_servers.clone())
    }
}

} // verus!
