//! A fleet of inference endpoints, and the wire protocol that most of them speak.
//!
//! An agent builds every turn in the shape of the Responses API. Most
//! OpenAI-compatible servers only offer Chat Completions, so a turn is rewritten on
//! the way out and its reply is decoded on the way in:
//!
//! * [`requests`] turns a turn into a request body, and [`endpoint`] prepares it to
//!   be sent;
//! * [`sse`] decodes a streamed reply into response events;
//! * [`round_trip`] states that what comes back is what was sent.
//!
//! [`fleet`] finds such servers, writes them into the configuration, installs the
//! roles that run on them, and checks that the result will work.
//!
//! [`faithful`] and [`text_laws`] state what the views of values and the operations on
//! text say, which all of the other laws rest on.
//!
//! The library neither reads nor sends anything: it says what to ask and takes what
//! came of it. [`json`] and [`fleet::role_files`] hold the calls into `serde_json`
//! and `toml_edit`.

pub mod endpoint;
pub mod faithful;
pub mod fleet;
pub mod json;
pub mod order;
pub mod protocol;
pub mod requests;
pub mod round_trip;
pub mod sse;
pub mod text;
pub mod text_laws;
pub mod tools;
