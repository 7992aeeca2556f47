//! Real-time collaborative text synchronisation for shared notebooks, with
//! the smaller pieces of logic of the same server.
//!
//! The crate keeps one consistent document per collaboration room while
//! several editors submit concurrent edits. Its parts, leaf first:
//!
//! * [`collaboration::ot`]: the edit operations, the rules that move one edit
//!   past another, and the per-document engine with its version counter and log;
//! * [`collaboration::state`]: the registry of documents and live cursors;
//! * [`collaboration::session`]: the registry of connected sessions;
//! * [`collaboration::message`]: the messages exchanged with clients;
//! * [`collaboration::handler`] and [`collaboration::ot_handler`]: the routing
//!   decisions of a connection, as functions from state and inbound message to
//!   the new state and the messages to deliver;
//! * [`ai::model_builder`]: the checks on a model drawn as a graph of layers,
//!   and the code generated from it;
//! * [`runtime::environment`]: the runtime environments and the default among them;
//! * [`python`]: the script that runs one cell of a notebook.
//!
//! The functions are verified against contracts over mathematical models of
//! the data: a document is a sequence of characters, and every position and
//! length counts the bytes of its UTF-8 encoding. Two things are taken on
//! trust and not verified: what the system clock reads, of which nothing is
//! claimed, and the form of the random identifier of a session.
pub mod ai;
pub mod collaboration;
pub mod python;
pub mod runtime;
