//! The turn as the agent knows it: response items going out, response events
//! coming back.

use vstd::prelude::*;
use crate::text::text_option;

verus! {

/// One part of a message.
#[derive(Debug, PartialEq, Eq)]
pub enum ContentItem {
    InputText { text: String },
    OutputText { text: String },
    InputImage { image_url: String },
    InputAudio,
}

/// What a part of a message says.
pub enum ContentView {
    InputText(Seq<char>),
    OutputText(Seq<char>),
    InputImage(Seq<char>),
    InputAudio,
}

impl ContentItem {
    pub open spec fn view(&self) -> ContentView {
        match self {
            ContentItem::InputText { text } => ContentView::InputText(text@),
            ContentItem::OutputText { text } => ContentView::OutputText(text@),
            ContentItem::InputImage { image_url } => ContentView::InputImage(image_url@),
            ContentItem::InputAudio => ContentView::InputAudio,
        }
    }
}

/// What the parts of a message say.
pub open spec fn content_view(content: Seq<ContentItem>) -> Seq<ContentView> {
    content.map_values(|item: ContentItem| item@)
}

/// One part of a reasoning item.
#[derive(Debug, PartialEq, Eq)]
pub enum ReasoningItemContent {
    ReasoningText { text: String },
}

impl ReasoningItemContent {
    /// The text of the part.
    pub open spec fn view(&self) -> Seq<char> {
        match self {
            ReasoningItemContent::ReasoningText { text } => text@,
        }
    }
}

/// One item of a turn.
///
/// A tool's reply is held as the text it amounts to, and a local shell action as
/// the JSON it serializes to; either may be absent.
#[allow(inconsistent_fields)]
#[derive(Debug, PartialEq, Eq)]
pub enum ResponseItem {
    Message { role: String, content: Vec<ContentItem> },
    Reasoning { content: Option<Vec<ReasoningItemContent>> },
    FunctionCall {
        name: String,
        namespace: Option<String>,
        arguments: String,
        call_id: String,
    },
    CustomToolCall { call_id: String, name: String, namespace: Option<String>, input: String },
    LocalShellCall { call_id: Option<String>, action: Option<String> },
    FunctionCallOutput { call_id: Option<String>, output: Option<String> },
    CustomToolCallOutput { call_id: String, output: Option<String> },
    /// An item of the Responses API with no chat counterpart.
    Other,
}

/// What an item says.
#[allow(inconsistent_fields)]
pub enum ItemView {
    Message { role: Seq<char>, content: Seq<ContentView> },
    Reasoning { content: Option<Seq<Seq<char>>> },
    FunctionCall {
        name: Seq<char>,
        namespace: Option<Seq<char>>,
        arguments: Seq<char>,
        call_id: Seq<char>,
    },
    CustomToolCall {
        call_id: Seq<char>,
        name: Seq<char>,
        namespace: Option<Seq<char>>,
        input: Seq<char>,
    },
    LocalShellCall { call_id: Option<Seq<char>>, action: Option<Seq<char>> },
    FunctionCallOutput { call_id: Option<Seq<char>>, output: Option<Seq<char>> },
    CustomToolCallOutput { call_id: Seq<char>, output: Option<Seq<char>> },
    Other,
}

impl ResponseItem {
    pub open spec fn view(&self) -> ItemView {
        match self {
            ResponseItem::Message { role, content } => ItemView::Message {
                role: role@,
                content: content_view(content@),
            },
            ResponseItem::Reasoning { content } => ItemView::Reasoning {
                content: match content {
                    Some(parts) => Some(
                        parts@.map_values(|part: ReasoningItemContent| part@),
                    ),
                    None => None,
                },
            },
            ResponseItem::FunctionCall { name, namespace, arguments, call_id } => {
                ItemView::FunctionCall {
                    name: name@,
                    namespace: text_option(*namespace),
                    arguments: arguments@,
                    call_id: call_id@,
                }
            },
            ResponseItem::CustomToolCall { call_id, name, namespace, input } => {
                ItemView::CustomToolCall {
                    call_id: call_id@,
                    name: name@,
                    namespace: text_option(*namespace),
                    input: input@,
                }
            },
            ResponseItem::LocalShellCall { call_id, action } => ItemView::LocalShellCall {
                call_id: text_option(*call_id),
                action: text_option(*action),
            },
            ResponseItem::FunctionCallOutput { call_id, output } => ItemView::FunctionCallOutput {
                call_id: text_option(*call_id),
                output: text_option(*output),
            },
            ResponseItem::CustomToolCallOutput { call_id, output } => {
                ItemView::CustomToolCallOutput { call_id: call_id@, output: text_option(*output) }
            },
            ResponseItem::Other => ItemView::Other,
        }
    }
}

/// What the items of a turn say.
pub open spec fn turn_view(items: Seq<ResponseItem>) -> Seq<ItemView> {
    items.map_values(|item: ResponseItem| item@)
}

/// Tokens a turn was charged for.
#[derive(Debug, Clone, Copy, PartialEq, Eq, Structural)]
pub struct TokenUsage {
    pub input_tokens: i64,
    pub cached_input_tokens: i64,
    pub cache_write_input_tokens: i64,
    pub output_tokens: i64,
    pub reasoning_output_tokens: i64,
    pub total_tokens: i64,
}

/// What a streamed reply reports as it goes.
#[derive(Debug, PartialEq, Eq)]
pub enum ResponseEvent {
    Created,
    OutputItemAdded(ResponseItem),
    OutputTextDelta(String),
    ReasoningContentDelta { delta: String, content_index: i64 },
    OutputItemDone(ResponseItem),
    Completed {
        response_id: String,
        token_usage: Option<TokenUsage>,
        end_turn: Option<bool>,
    },
}

/// What an event says.
pub enum EventView {
    Created,
    OutputItemAdded(ItemView),
    OutputTextDelta(Seq<char>),
    ReasoningContentDelta { delta: Seq<char>, content_index: i64 },
    OutputItemDone(ItemView),
    Completed {
        response_id: Seq<char>,
        token_usage: Option<TokenUsage>,
        end_turn: Option<bool>,
    },
}

impl ResponseEvent {
    pub open spec fn view(&self) -> EventView {
        match self {
            ResponseEvent::Created => EventView::Created,
            ResponseEvent::OutputItemAdded(item) => EventView::OutputItemAdded(item@),
            ResponseEvent::OutputTextDelta(delta) => EventView::OutputTextDelta(delta@),
            ResponseEvent::ReasoningContentDelta { delta, content_index } => {
                EventView::ReasoningContentDelta { delta: delta@, content_index: *content_index }
            },
            ResponseEvent::OutputItemDone(item) => EventView::OutputItemDone(item@),
            ResponseEvent::Completed { response_id, token_usage, end_turn } => {
                EventView::Completed {
                    response_id: response_id@,
                    token_usage: *token_usage,
                    end_turn: *end_turn,
                }
            },
        }
    }
}

/// Why a turn failed.
#[derive(Debug, PartialEq, Eq)]
pub enum ApiError {
    Stream(String),
}

impl ApiError {
    /// The words of the error.
    pub open spec fn view(&self) -> Seq<char> {
        match self {
            ApiError::Stream(message) => message@,
        }
    }
}

/// An event, or the words of the error that ends the stream.
pub type Signal = Result<EventView, Seq<char>>;

/// What a decoded event or error says.
pub open spec fn signal(event: Result<ResponseEvent, ApiError>) -> Signal {
    match event {
        Ok(event) => Ok(event@),
        Err(err) => Err(err@),
    }
}

/// What a run of decoded events says.
pub open spec fn signals(events: Seq<Result<ResponseEvent, ApiError>>) -> Seq<Signal> {
    events.map_values(|event: Result<ResponseEvent, ApiError>| signal(event))
}

/// Events that are not errors, as signals.
pub open spec fn delivered(events: Seq<EventView>) -> Seq<Signal> {
    events.map_values(|event: EventView| Ok::<EventView, Seq<char>>(event))
}

/// What a run of events says.
pub open spec fn events_view(events: Seq<ResponseEvent>) -> Seq<EventView> {
    events.map_values(|event: ResponseEvent| event@)
}

} // verus!
