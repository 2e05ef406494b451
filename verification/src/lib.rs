//! The verified core of a local multiplexing server for a fleet of
//! external command-line assistants and interactive shells: the session
//! registries, the streaming-JSON output parser and its status machine,
//! the broadcast-bus model, the wire envelopes, the inbound-frame
//! router, and the path-traversal guard. The host around it owns the
//! processes, the PTYs and the sockets, and defers every decision to
//! this crate.

pub mod agent;
pub mod browse;
pub mod bus;
pub mod cli;
pub mod events;
pub mod files;
pub mod ids;
pub mod images;
pub mod inbound;
pub mod parser;
pub mod paths;
pub mod registry;
pub mod settings;
pub mod terminal;
pub mod text;
pub mod wire;

pub use events::AgentOutput;
pub use events::AgentStatus;
pub use events::AgentStatusChange;
pub use events::BusEvent;
pub use events::OutputStream;
pub use events::TerminalOutput;
