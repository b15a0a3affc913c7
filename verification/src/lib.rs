//! Core engine of a multi-tab streaming chat client.
//!
//! The library contains the pieces of the client whose behaviour is worth
//! stating precisely: the wire-format parser that turns arbitrarily chunked
//! response bytes into discrete increments, the per-turn session bookkeeping,
//! the tab/conversation state machine, and the command interpreter. The
//! surrounding program (terminal drawing, key reading, network transport,
//! persistence) lives outside and drives these types with plain values.
//!
//! The guarantees the engine is built around are stated and proved where
//! the pieces live: how a byte stream is cut into fragments cannot be
//! observed (`parser::lemma_feed_split`); every run yields exactly one
//! terminal increment (`parser::lemma_exactly_one_terminal`); a corrupt
//! or unrecognized frame changes nothing (`parser::lemma_skip_line`); one
//! session's increments never touch another tab (`app::lemma_no_cross_talk`)
//! and only ever extend the tagged conversation's history
//! (`app::lemma_history_append_only`); closing tabs keeps the tab set
//! non-empty and the active index in range (the `close` contracts in
//! `app`).

pub mod app;
pub mod conversation;
pub mod flow;
pub mod input;
pub mod json;
pub mod keys;
pub mod parser;
pub mod request;
pub mod session;
pub mod sys;
pub mod text;
pub mod wrap;
