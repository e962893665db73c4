//! Durable, name-addressed messaging between local agents: envelopes,
//! mailboxes, an append-only transcript, an agent registry, the daemon's
//! decision logic and the MCP tool surface.

pub mod daemon;
pub mod directory;
pub mod envelope;
pub mod flows;
pub mod ids;
pub mod mailbox;
pub mod mcp;
pub mod protocol;
pub mod registry;
pub mod supervisor;
pub mod text;
pub mod transcript;
pub mod watch;
