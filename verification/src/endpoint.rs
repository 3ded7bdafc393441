//! The request a Chat Completions endpoint is sent.
//!
//! Every turn is built in the shape of the Responses API. A client accepts that
//! shape and rewrites it for the chat surface, so that providers which only speak
//! Chat Completions work with no changes anywhere else.

use vstd::prelude::*;
use crate::json::{fields_view, parsed_list, written, JsonView};
use crate::protocol::ApiError;
use crate::requests::payload::{
    build_chat_completions_payload, payload_of, ChatCompletionsOptions, ResponsesApiRequest,
};
use crate::tools::ToolBindings;

verus! {

/// Provider-relative path of the Chat Completions surface.
pub const CHAT_COMPLETIONS_PATH: &'static str = "/chat/completions";

/// What the reply is asked to be.
pub const ACCEPT: &'static str = "text/event-stream";

/// A client of a Chat Completions endpoint, as far as it decides what is sent.
#[derive(Debug, PartialEq)]
pub struct ChatCompletionsClient {
    pub options: ChatCompletionsOptions,
}

/// A request ready to be posted, and what is needed to decode its reply.
#[derive(Debug, PartialEq)]
pub struct PreparedRequest {
    pub path: String,
    pub accept: String,
    /// The JSON body.
    pub body: String,
    pub tool_bindings: ToolBindings,
}

impl ChatCompletionsClient {
    /// A client with the default options.
    pub fn new() -> (client: ChatCompletionsClient)
        ensures
            !client.options.send_reasoning_effort,
            fields_view(client.options.extra_body@) == Map::<Seq<char>, JsonView>::empty(),
    {
        ChatCompletionsClient { options: Default::default() }
    }

    /// Applies provider-specific request tuning, such as whether `reasoning_effort`
    /// is safe to send.
    pub fn with_options(self, options: ChatCompletionsOptions) -> (client: ChatCompletionsClient)
        ensures
            client.options == options,
    {
        ChatCompletionsClient { options }
    }

    /// Prepares the request of a turn.
    pub fn prepare_request(&self, request: &ResponsesApiRequest) -> (prepared: Result<
        PreparedRequest,
        ApiError,
    >)
        ensures
            match (
                match request@.tools {
                    Some(tools) => parsed_list(tools),
                    None => Ok(Seq::empty()),
                },
                prepared,
            ) {
                (Ok(declared), Ok(prepared)) => {
                    let payload = payload_of(
                        request@,
                        self.options.send_reasoning_effort,
                        fields_view(self.options.extra_body@),
                        declared,
                    );
                    &&& prepared.path@ == CHAT_COMPLETIONS_PATH@
                    &&& prepared.accept@ == ACCEPT@
                    &&& prepared.body@ == written(payload.body)
                    &&& prepared.tool_bindings@ == payload.tool_bindings
                },
                (Err(wanted), Err(err)) => err@ == "failed to build chat completions request: "@
                    + wanted,
                _ => false,
            },
    {
        match build_chat_completions_payload(request, &self.options) {
            Ok(payload) => Ok(
                PreparedRequest {
                    path: CHAT_COMPLETIONS_PATH.to_owned(),
                    accept: ACCEPT.to_owned(),
                    body: payload.body.to_text(),
                    tool_bindings: payload.tool_bindings,
                },
            ),
            Err(err) => {
                let mut message = String::from_str("failed to build chat completions request: ");
                message.append(err.as_str());
                Err(ApiError::Stream(message))
            },
        }
    }
}

/// A turn is posted to the Chat Completions surface, and its reply is asked for as a
/// stream of events.
pub proof fn a_turn_goes_to_the_chat_surface()
    ensures
        CHAT_COMPLETIONS_PATH@ == "/chat/completions"@,
        ACCEPT@ == "text/event-stream"@,
{
}

} // verus!
