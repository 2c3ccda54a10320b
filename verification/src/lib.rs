//! Persistent, searchable memory for conversational agents.
//!
//! The crate holds the rules of the interaction log: what a trace is, how it
//! is laid out as a stored row, which rows a recall asks the storage engine
//! for, how fetched rows become the traces handed to a caller, and how one
//! chat turn is sequenced. Reading and writing the durable store and calling
//! the text generator are left to the program that embeds the crate.

pub mod clock;
pub mod error;
pub mod history;
pub mod import;
pub mod json;
pub mod laws;
pub mod smart_agent;
pub mod text;
pub mod trace;

pub use clock::Timestamp;
pub use error::Error;
pub use history::{AgentHistory, Message, Query, TraceRow, Write};
pub use import::{import_records, ImportPlan};
pub use smart_agent::{ChatAction, ChatEvent, SmartAgent};
pub use trace::{MetaEntry, MetaValue, Metadata, Trace};
