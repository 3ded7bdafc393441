//! The items of a turn as chat messages.
//!
//! Consecutive tool calls are merged into a single assistant message, so that
//! `tool` replies line up with the assistant turn that requested them.

use vstd::prelude::*;
use crate::json::{
    items_view, lemma_items_push, lemma_items_view, parsed, put, reads_as, written, Json, JsonView,
};
use crate::protocol::{content_view, turn_view, ContentItem, ContentView, ItemView, ResponseItem};
use crate::sse::finish::unwrapped;
use crate::text::{borrow_option, join, join_first, same_text, str_option, text_or_empty, texts};
use crate::tools::{wire_name, wire_tool_name, FREEFORM_INPUT_PARAM};

verus! {

/// The texts of a message, in order.
pub open spec fn texts_of(content: Seq<ContentView>) -> Seq<Seq<char>>
    decreases content.len(),
{
    if content.len() == 0 {
        Seq::empty()
    } else {
        let earlier = texts_of(content.drop_last());
        match content.last() {
            ContentView::InputText(text) => earlier.push(text),
            ContentView::OutputText(text) => earlier.push(text),
            _ => earlier,
        }
    }
}

/// The images of a message, in order.
pub open spec fn images_of(content: Seq<ContentView>) -> Seq<Seq<char>>
    decreases content.len(),
{
    if content.len() == 0 {
        Seq::empty()
    } else {
        let earlier = images_of(content.drop_last());
        match content.last() {
            ContentView::InputImage(image_url) => earlier.push(image_url),
            _ => earlier,
        }
    }
}

/// The role a message is sent under. `developer` exists only in the Responses
/// API.
pub open spec fn chat_role(role: Seq<char>) -> Seq<char> {
    if role == "developer"@ {
        "system"@
    } else {
        role
    }
}

/// A role whose messages may carry images.
pub open spec fn input_role(role: Seq<char>) -> bool {
    role == "user"@ || role == "system"@ || role == "tool"@
}

/// A message of the given role and content.
pub open spec fn message_json(role: Seq<char>, content: JsonView) -> JsonView {
    JsonView::Object(map!["role"@ => JsonView::Text(role), "content"@ => content])
}

/// A text as a content part.
pub open spec fn text_part(text: Seq<char>) -> JsonView {
    JsonView::Object(
        map!["type"@ => JsonView::Text("text"@), "text"@ => JsonView::Text(text)],
    )
}

/// An image as a content part.
pub open spec fn image_part(image_url: Seq<char>) -> JsonView {
    JsonView::Object(
        map![
            "type"@ => JsonView::Text("image_url"@),
            "image_url"@ => JsonView::Object(map!["url"@ => JsonView::Text(image_url)]),
        ],
    )
}

/// The content parts of a message: its texts, then its images.
pub open spec fn parts_of(content: Seq<ContentView>) -> Seq<JsonView> {
    texts_of(content).map_values(|text: Seq<char>| text_part(text)) + images_of(content).map_values(
        |image_url: Seq<char>| image_part(image_url),
    )
}

/// The chat message for a message, where there is anything to send. Content parts
/// are only valid on input roles; elsewhere, and without images, the message is
/// its texts, one per line.
pub open spec fn message_of(role: Seq<char>, content: Seq<ContentView>) -> Option<JsonView> {
    let role = chat_role(role);
    if texts_of(content).len() == 0 && images_of(content).len() == 0 {
        None
    } else if images_of(content).len() == 0 || !input_role(role) {
        Some(message_json(role, JsonView::Text(join(texts_of(content), "\n"@))))
    } else {
        Some(message_json(role, JsonView::Array(parts_of(content))))
    }
}

/// The view of a document that may be absent.
pub open spec fn json_option(json: Option<Json>) -> Option<JsonView> {
    match json {
        Some(json) => Some(json@),
        None => None,
    }
}

fn message(role: &str, content: Json) -> (json: Json)
    ensures
        json@ == message_json(role@, content@),
{
    let mut fields: Vec<(String, Json)> = Vec::new();
    put(&mut fields, "role", Json::text(role));
    put(&mut fields, "content", content);
    Json::Object(fields)
}

fn text_content_part(text: &str) -> (json: Json)
    ensures
        json@ == text_part(text@),
{
    let mut fields: Vec<(String, Json)> = Vec::new();
    put(&mut fields, "type", Json::text("text"));
    put(&mut fields, "text", Json::text(text));
    Json::Object(fields)
}

fn image_content_part(image_url: &str) -> (json: Json)
    ensures
        json@ == image_part(image_url@),
{
    let mut source: Vec<(String, Json)> = Vec::new();
    put(&mut source, "url", Json::text(image_url));
    let mut fields: Vec<(String, Json)> = Vec::new();
    put(&mut fields, "type", Json::text("image_url"));
    put(&mut fields, "image_url", Json::Object(source));
    Json::Object(fields)
}

/// Parts the content of a message into its texts and its images.
fn split_content(content: &Vec<ContentItem>) -> (parts: (Vec<String>, Vec<String>))
    ensures
        texts(parts.0@) == texts_of(content_view(content@)),
        texts(parts.1@) == images_of(content_view(content@)),
{
    let mut text_parts: Vec<String> = Vec::new();
    let mut images: Vec<String> = Vec::new();
    let ghost says = content_view(content@);
    assert(texts(text_parts@) =~= texts_of(says.take(0)));
    assert(texts(images@) =~= images_of(says.take(0)));
    for i in 0..content.len()
        invariant
            says == content_view(content@),
            texts(text_parts@) == texts_of(says.take(i as int)),
            texts(images@) == images_of(says.take(i as int)),
    {
        let ghost earlier_texts = text_parts@;
        let ghost earlier_images = images@;
        proof {
            assert(says.take(i + 1).drop_last() =~= says.take(i as int));
            assert(says.take(i + 1).last() == content@[i as int]@);
        }
        match &content[i] {
            ContentItem::InputText { text } => {
                text_parts.push(text.clone());
                assert(texts(text_parts@) =~= texts(earlier_texts).push(text@));
            },
            ContentItem::OutputText { text } => {
                text_parts.push(text.clone());
                assert(texts(text_parts@) =~= texts(earlier_texts).push(text@));
            },
            ContentItem::InputImage { image_url } => {
                images.push(image_url.clone());
                assert(texts(images@) =~= texts(earlier_images).push(image_url@));
            },
            ContentItem::InputAudio => {},
        }
    }
    assert(says.take(says.len() as int) =~= says);
    (text_parts, images)
}

/// Converts a message, where there is anything to send.
pub fn convert_message(role: &str, content: &Vec<ContentItem>) -> (message: Option<Json>)
    ensures
        json_option(message) == message_of(role@, content_view(content@)),
{
    let role: &str = if same_text(role, "developer") {
        "system"
    } else {
        role
    };
    let is_input_role = same_text(role, "user") || same_text(role, "system") || same_text(
        role,
        "tool",
    );
    let (text_parts, images) = split_content(content);
    let ghost says = content_view(content@);
    if text_parts.is_empty() && images.is_empty() {
        return None;
    }
    if images.is_empty() || !is_input_role {
        let joined = join_first(&text_parts, text_parts.len(), "\n");
        assert(texts(text_parts@).take(text_parts@.len() as int) =~= texts_of(says));
        return Some(self::message(role, Json::Text(joined)));
    }
    let mut parts: Vec<Json> = Vec::new();
    let ghost text_says = texts(text_parts@).map_values(|text: Seq<char>| text_part(text));
    let ghost image_says = texts(images@).map_values(|image_url: Seq<char>| image_part(image_url));
    assert(text_says.take(0) =~= Seq::<JsonView>::empty());
    for i in 0..text_parts.len()
        invariant
            text_says == texts(text_parts@).map_values(|text: Seq<char>| text_part(text)),
            items_view(parts@) == text_says.take(i as int),
    {
        let part = text_content_part(text_parts[i].as_str());
        proof {
            lemma_items_push(parts@, part);
            assert(text_says.take(i + 1) =~= text_says.take(i as int).push(part@));
        }
        parts.push(part);
    }
    assert(text_says.take(text_says.len() as int) =~= text_says);
    assert(text_says =~= text_says + image_says.take(0));
    for i in 0..images.len()
        invariant
            image_says == texts(images@).map_values(
                |image_url: Seq<char>| image_part(image_url),
            ),
            items_view(parts@) == text_says + image_says.take(i as int),
    {
        let part = image_content_part(images[i].as_str());
        proof {
            lemma_items_push(parts@, part);
            assert(text_says + image_says.take(i + 1) =~= (text_says + image_says.take(
                i as int,
            )).push(part@));
        }
        parts.push(part);
    }
    assert(image_says.take(image_says.len() as int) =~= image_says);
    Some(self::message(role, Json::Array(parts)))
}

/// A tool call as an entry of an assistant message.
pub open spec fn call_json(call_id: Seq<char>, name: Seq<char>, arguments: Seq<char>) -> JsonView {
    JsonView::Object(
        map![
            "id"@ => JsonView::Text(call_id),
            "type"@ => JsonView::Text("function"@),
            "function"@ => JsonView::Object(
                map!["name"@ => JsonView::Text(name), "arguments"@ => JsonView::Text(arguments)],
            ),
        ],
    )
}

/// An assistant message that carries tool calls and nothing else.
pub open spec fn calls_message(calls: Seq<JsonView>) -> JsonView {
    JsonView::Object(
        map![
            "role"@ => JsonView::Text("assistant"@),
            "content"@ => JsonView::Null,
            "tool_calls"@ => JsonView::Array(calls),
        ],
    )
}

/// A tool's reply.
pub open spec fn reply_message(call_id: Seq<char>, output: Option<Seq<char>>) -> JsonView {
    JsonView::Object(
        map![
            "role"@ => JsonView::Text("tool"@),
            "tool_call_id"@ => JsonView::Text(call_id),
            "content"@ => JsonView::Text(text_or_empty(output)),
        ],
    )
}

/// A freeform tool's raw input as the argument object it travels in.
pub open spec fn freeform_object(input: Seq<char>) -> JsonView {
    JsonView::Object(map![FREEFORM_INPUT_PARAM@ => JsonView::Text(input)])
}

/// The tool call an item is, where it is one that can be sent.
pub open spec fn call_of(item: ItemView) -> Option<JsonView> {
    match item {
        ItemView::FunctionCall { name, namespace, arguments, call_id } => Some(
            call_json(call_id, wire_name(namespace, name), arguments),
        ),
        ItemView::CustomToolCall { call_id, name, namespace, input } => Some(
            call_json(call_id, wire_name(namespace, name), written(freeform_object(input))),
        ),
        ItemView::LocalShellCall { call_id: Some(call_id), action } => Some(
            call_json(
                call_id,
                "local_shell"@,
                match action {
                    Some(action) => action,
                    None => "{}"@,
                },
            ),
        ),
        _ => None,
    }
}

/// Messages written so far, and tool calls that wait for theirs.
pub struct Progress {
    pub messages: Seq<JsonView>,
    pub pending: Seq<JsonView>,
}

/// The waiting tool calls put into one assistant message.
pub open spec fn flushed(progress: Progress) -> Progress {
    if progress.pending.len() == 0 {
        progress
    } else {
        Progress {
            messages: progress.messages.push(calls_message(progress.pending)),
            pending: Seq::empty(),
        }
    }
}

/// A message written after the waiting tool calls.
pub open spec fn with_message(progress: Progress, message: JsonView) -> Progress {
    let clear = flushed(progress);
    Progress { messages: clear.messages.push(message), ..clear }
}

/// The progress after one item. Messages and tool replies first put the waiting
/// calls into a message; calls wait; an item with no chat counterpart leaves no
/// trace.
pub open spec fn with_item(progress: Progress, item: ItemView) -> Progress {
    match item {
        ItemView::Message { role, content } => match message_of(role, content) {
            Some(message) => with_message(progress, message),
            None => flushed(progress),
        },
        ItemView::FunctionCallOutput { call_id: Some(call_id), output } => with_message(
            progress,
            reply_message(call_id, output),
        ),
        ItemView::CustomToolCallOutput { call_id, output } => with_message(
            progress,
            reply_message(call_id, output),
        ),
        _ => match call_of(item) {
            Some(call) => Progress { pending: progress.pending.push(call), ..progress },
            None => progress,
        },
    }
}

/// The progress after a run of items.
pub open spec fn with_items(progress: Progress, items: Seq<ItemView>) -> Progress
    decreases items.len(),
{
    if items.len() == 0 {
        progress
    } else {
        with_item(with_items(progress, items.drop_last()), items.last())
    }
}

/// The progress before the first item: the instructions, where there are any, are
/// a leading system message.
pub open spec fn opening(instructions: Seq<char>) -> Progress {
    Progress {
        messages: if instructions.len() == 0 {
            Seq::empty()
        } else {
            seq![message_json("system"@, JsonView::Text(instructions))]
        },
        pending: Seq::empty(),
    }
}

/// The chat messages of a turn.
pub open spec fn messages_of(instructions: Seq<char>, items: Seq<ItemView>) -> Seq<JsonView> {
    flushed(with_items(opening(instructions), items)).messages
}

/// Accumulates tool calls so that a run of them lands in one assistant message.
pub struct PendingToolCalls {
    pub calls: Vec<Json>,
}

impl PendingToolCalls {
    /// The calls that wait.
    pub open spec fn view(&self) -> Seq<JsonView> {
        items_view(self.calls@)
    }

    /// No calls.
    pub fn new() -> (pending: PendingToolCalls)
        ensures
            pending@ == Seq::<JsonView>::empty(),
    {
        PendingToolCalls { calls: Vec::new() }
    }

    /// Adds a call.
    pub fn push(&mut self, call_id: &str, name: &str, arguments: String)
        ensures
            final(self)@ == old(self)@.push(call_json(call_id@, name@, arguments@)),
    {
        let mut function: Vec<(String, Json)> = Vec::new();
        put(&mut function, "name", Json::text(name));
        put(&mut function, "arguments", Json::Text(arguments));
        let mut fields: Vec<(String, Json)> = Vec::new();
        put(&mut fields, "id", Json::text(call_id));
        put(&mut fields, "type", Json::text("function"));
        put(&mut fields, "function", Json::Object(function));
        let call = Json::Object(fields);
        proof {
            lemma_items_push(self.calls@, call);
        }
        self.calls.push(call);
    }

    /// Puts the waiting calls, where there are any, into one assistant message.
    pub fn flush(&mut self, messages: &mut Vec<Json>)
        ensures
            (Progress { messages: items_view(final(messages)@), pending: final(self)@ })
                == flushed(
                Progress { messages: items_view(old(messages)@), pending: old(self)@ },
            ),
    {
        proof {
            lemma_items_view(self.calls@);
        }
        if self.calls.is_empty() {
            assert(self@ =~= Seq::<JsonView>::empty());
            return;
        }
        let mut calls: Vec<Json> = Vec::new();
        std::mem::swap(&mut calls, &mut self.calls);
        let mut fields: Vec<(String, Json)> = Vec::new();
        put(&mut fields, "role", Json::text("assistant"));
        put(&mut fields, "content", Json::Null);
        put(&mut fields, "tool_calls", Json::Array(calls));
        let message = Json::Object(fields);
        proof {
            lemma_items_push(messages@, message);
        }
        messages.push(message);
    }
}

/// A tool's reply as a chat message.
pub fn tool_message(call_id: &str, content: Option<&str>) -> (message: Json)
    ensures
        message@ == reply_message(call_id@, str_option(content)),
{
    let text: &str = match content {
        Some(text) => text,
        None => "",
    };
    proof {
        reveal_strlit("");
        assert(text@ =~= text_or_empty(str_option(content)));
    }
    let mut fields: Vec<(String, Json)> = Vec::new();
    put(&mut fields, "role", Json::text("tool"));
    put(&mut fields, "tool_call_id", Json::text(call_id));
    put(&mut fields, "content", Json::text(text));
    Json::Object(fields)
}

/// The argument object a freeform tool's raw input travels in, as text. Reading it
/// again gives the input back.
pub fn freeform_arguments(input: &str) -> (arguments: String)
    ensures
        arguments@ == written(freeform_object(input@)),
        reads_as(arguments@, freeform_object(input@)),
        unwrapped(parsed(arguments@), arguments@) == input@,
{
    let mut fields: Vec<(String, Json)> = Vec::new();
    put(&mut fields, FREEFORM_INPUT_PARAM, Json::text(input));
    let object = Json::Object(fields);
    assert(object@->Object_0.dom() =~= set![FREEFORM_INPUT_PARAM@]);
    object.to_text()
}

fn push_message(messages: &mut Vec<Json>, message: Json)
    ensures
        items_view(final(messages)@) == items_view(old(messages)@).push(message@),
{
    proof {
        lemma_items_push(messages@, message);
    }
    messages.push(message);
}

/// Adds one item of the turn.
fn convert_item(item: &ResponseItem, messages: &mut Vec<Json>, pending: &mut PendingToolCalls)
    ensures
        (Progress { messages: items_view(final(messages)@), pending: final(pending)@ })
            == with_item(
            Progress { messages: items_view(old(messages)@), pending: old(pending)@ },
            item@,
        ),
{
    match item {
        ResponseItem::Message { role, content } => {
            pending.flush(messages);
            if let Some(message) = convert_message(role.as_str(), content) {
                push_message(messages, message);
            }
        },
        ResponseItem::FunctionCall { name, namespace, arguments, call_id } => {
            let wire = wire_tool_name(borrow_option(namespace), name.as_str());
            pending.push(call_id.as_str(), wire.as_str(), arguments.clone());
        },
        ResponseItem::CustomToolCall { call_id, name, namespace, input } => {
            let wire = wire_tool_name(borrow_option(namespace), name.as_str());
            let arguments = freeform_arguments(input.as_str());
            pending.push(call_id.as_str(), wire.as_str(), arguments);
        },
        ResponseItem::LocalShellCall { call_id, action } => {
            if let Some(call_id) = call_id {
                let arguments = match action {
                    Some(action) => action.clone(),
                    None => "{}".to_owned(),
                };
                pending.push(call_id.as_str(), "local_shell", arguments);
            }
        },
        ResponseItem::FunctionCallOutput { call_id, output } => {
            if let Some(call_id) = call_id {
                pending.flush(messages);
                push_message(messages, tool_message(call_id.as_str(), borrow_option(output)));
            }
        },
        ResponseItem::CustomToolCallOutput { call_id, output } => {
            pending.flush(messages);
            push_message(messages, tool_message(call_id.as_str(), borrow_option(output)));
        },
        ResponseItem::Reasoning { .. } => {},
        ResponseItem::Other => {},
    }
}

/// Converts the instructions and items of a turn into chat messages.
pub fn convert_messages(instructions: &str, input: &Vec<ResponseItem>) -> (messages: Vec<Json>)
    ensures
        items_view(messages@) == messages_of(instructions@, turn_view(input@)),
{
    let mut messages: Vec<Json> = Vec::new();
    if !instructions.is_empty() {
        push_message(&mut messages, message("system", Json::text(instructions)));
    }
    let mut pending = PendingToolCalls::new();
    let ghost items = turn_view(input@);
    proof {
        assert(items.take(0) =~= Seq::empty());
        assert(items_view(messages@) =~= opening(instructions@).messages);
    }
    for i in 0..input.len()
        invariant
            items == turn_view(input@),
            (Progress { messages: items_view(messages@), pending: pending@ }) == with_items(
                opening(instructions@),
                items.take(i as int),
            ),
    {
        convert_item(&input[i], &mut messages, &mut pending);
        proof {
            assert(items.take(i + 1).drop_last() =~= items.take(i as int));
            assert(items.take(i + 1).last() == input@[i as int]@);
        }
    }
    assert(items.take(items.len() as int) =~= items);
    pending.flush(&mut messages);
    messages
}

} // verus!
