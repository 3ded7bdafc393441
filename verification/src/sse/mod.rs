//! Decodes a Chat Completions stream into response events.
//!
//! Chat Completions streams deltas rather than items: text arrives as
//! `choices[].delta.content`, reasoning as `delta.reasoning_content`, and tool
//! calls as fragments keyed by `index` that have to be reassembled. The decoder
//! buffers those fragments and emits the item lifecycle a session expects: an
//! `OutputItemAdded` before any delta, matching `OutputItemDone`s, and a final
//! `Completed` carrying token usage. [`transcript`] states what is streamed over the
//! JSON that arrived.

pub mod chunks;
pub mod finish;
pub mod laws;
pub mod state;
pub mod stream;
pub mod tool_calls;
pub mod transcript;
