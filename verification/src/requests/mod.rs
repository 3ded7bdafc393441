//! A turn rewritten for the Chat Completions wire format.
//!
//! The agent models a turn as a list of response items plus Responses-style tool
//! declarations. Servers that speak `/v1/chat/completions` want chat messages and
//! plain functions instead:
//!
//! * [`messages`] turns response items into chat messages;
//! * [`declarations`] flattens and projects tool declarations;
//! * [`payload`] puts the request body together, with what is needed to undo the
//!   flattening when tool calls come back;
//! * [`read_back`] states what a server finds in what is sent.

pub mod declarations;
pub mod laws;
pub mod messages;
pub mod payload;
pub mod read_back;
