//! The request body, and the options that shape it.

use vstd::prelude::*;
use crate::json::{
    fields_view, items_view, lemma_items_view, parse_list, parsed_list, put, Json, JsonView,
};
use crate::protocol::{turn_view, ItemView, ResponseItem};
use crate::requests::declarations::{
    bound, chat_tool_choice, convert_tools, declarations, declared_json, tool_choice_of,
    Declaration,
};
use crate::requests::messages::{convert_messages, messages_of};
use crate::text::text_option;
use crate::tools::{BindingView, ToolBindings};

verus! {

/// A structured output format the turn asks for.
#[derive(Debug, PartialEq)]
pub struct TextFormat {
    pub name: String,
    pub strict: bool,
    pub schema: Json,
}

/// How the turn wants its text.
#[derive(Debug, PartialEq)]
pub struct TextControls {
    pub format: Option<TextFormat>,
}

/// How hard the turn wants the model to think.
#[derive(Debug, PartialEq, Eq)]
pub struct Reasoning {
    /// The effort by its name, such as `high`.
    pub effort: Option<String>,
}

/// A turn in the shape of the Responses API, as far as Chat Completions has a
/// counterpart for it.
#[derive(Debug, PartialEq)]
pub struct ResponsesApiRequest {
    pub model: String,
    pub instructions: String,
    pub input: Vec<ResponseItem>,
    /// The declared tools, as the text of a JSON array.
    pub tools: Option<String>,
    pub tool_choice: String,
    pub parallel_tool_calls: bool,
    pub reasoning: Option<Reasoning>,
    pub stream: bool,
    pub text: Option<TextControls>,
}

/// What a structured output format says.
pub struct FormatView {
    pub name: Seq<char>,
    pub strict: bool,
    pub schema: JsonView,
}

/// What a turn says.
pub struct RequestView {
    pub model: Seq<char>,
    pub instructions: Seq<char>,
    pub input: Seq<ItemView>,
    pub tools: Option<Seq<char>>,
    pub tool_choice: Seq<char>,
    pub parallel_tool_calls: bool,
    pub effort: Option<Seq<char>>,
    pub stream: bool,
    pub format: Option<FormatView>,
}

impl ResponsesApiRequest {
    pub open spec fn view(&self) -> RequestView {
        RequestView {
            model: self.model@,
            instructions: self.instructions@,
            input: turn_view(self.input@),
            tools: text_option(self.tools),
            tool_choice: self.tool_choice@,
            parallel_tool_calls: self.parallel_tool_calls,
            effort: match self.reasoning {
                Some(reasoning) => text_option(reasoning.effort),
                None => None,
            },
            stream: self.stream,
            format: match self.text {
                Some(TextControls { format: Some(format) }) => Some(
                    FormatView {
                        name: format.name@,
                        strict: format.strict,
                        schema: format.schema@,
                    },
                ),
                _ => None,
            },
        }
    }
}

/// Provider-specific knobs for the Chat Completions wire protocol.
///
/// Servers disagree about which optional request fields they tolerate, so anything
/// beyond the common core is opt-in per provider.
#[derive(Debug, PartialEq)]
pub struct ChatCompletionsOptions {
    /// Send `reasoning_effort` when the turn selects one. Off by default: some
    /// servers reject request fields they do not recognize.
    pub send_reasoning_effort: bool,
    /// Extra top-level fields merged into every request body, for server-specific
    /// switches. Where a key stands twice, the later entry counts.
    pub extra_body: Vec<(String, Json)>,
}

impl Default for ChatCompletionsOptions {
    fn default() -> (options: Self)
        ensures
            !options.send_reasoning_effort,
            fields_view(options.extra_body@) == Map::<Seq<char>, JsonView>::empty(),
    {
        ChatCompletionsOptions { send_reasoning_effort: false, extra_body: Vec::new() }
    }
}

/// A request body ready to send, plus the mapping needed to decode its replies.
#[derive(Debug, PartialEq)]
pub struct ChatCompletionsPayload {
    pub body: Json,
    pub tool_bindings: ToolBindings,
}

/// What a payload says.
pub struct PayloadView {
    pub body: JsonView,
    pub tool_bindings: Map<Seq<char>, BindingView>,
}

impl ChatCompletionsPayload {
    pub open spec fn view(&self) -> PayloadView {
        PayloadView { body: self.body@, tool_bindings: self.tool_bindings@ }
    }
}

/// The fields every body has, and the tools where any are left to declare.
pub open spec fn core_fields(request: RequestView, tools: Seq<Declaration>) -> Map<
    Seq<char>,
    JsonView,
> {
    let common =
        map![
            "model"@ => JsonView::Text(request.model),
            "messages"@ => JsonView::Array(messages_of(request.instructions, request.input)),
        ];
    if tools.len() == 0 {
        common
    } else {
        common.insert("tools"@, JsonView::Array(declared_json(tools))).insert(
            "tool_choice"@,
            JsonView::Text(tool_choice_of(request.tool_choice)),
        ).insert("parallel_tool_calls"@, JsonView::Bool(request.parallel_tool_calls))
    }
}

/// The fields with those that ask for a stream. Without `include_usage` most
/// servers leave the usage out of a streamed response.
pub open spec fn with_stream(fields: Map<Seq<char>, JsonView>, stream: bool) -> Map<
    Seq<char>,
    JsonView,
> {
    let fields = fields.insert("stream"@, JsonView::Bool(stream));
    if stream {
        fields.insert(
            "stream_options"@,
            JsonView::Object(map!["include_usage"@ => JsonView::Bool(true)]),
        )
    } else {
        fields
    }
}

/// A structured output format on the wire.
pub open spec fn format_json(format: FormatView) -> JsonView {
    JsonView::Object(
        map![
            "type"@ => JsonView::Text("json_schema"@),
            "json_schema"@ => JsonView::Object(
                map![
                    "name"@ => JsonView::Text(format.name),
                    "strict"@ => JsonView::Bool(format.strict),
                    "schema"@ => format.schema,
                ],
            ),
        ],
    )
}

/// The fields with the structured output format, where the turn asks for one.
pub open spec fn with_format(
    fields: Map<Seq<char>, JsonView>,
    format: Option<FormatView>,
) -> Map<Seq<char>, JsonView> {
    match format {
        Some(format) => fields.insert("response_format"@, format_json(format)),
        None => fields,
    }
}

/// The fields with the effort, where the turn selects one and the provider takes it.
pub open spec fn with_effort(
    fields: Map<Seq<char>, JsonView>,
    effort: Option<Seq<char>>,
    send: bool,
) -> Map<Seq<char>, JsonView> {
    match effort {
        Some(effort) if send => fields.insert("reasoning_effort"@, JsonView::Text(effort)),
        _ => fields,
    }
}

/// The fields of the body that the turn itself calls for.
pub open spec fn own_fields(
    request: RequestView,
    send_reasoning_effort: bool,
    tools: Seq<Declaration>,
) -> Map<Seq<char>, JsonView> {
    with_effort(
        with_format(with_stream(core_fields(request, tools), request.stream), request.format),
        request.effort,
        send_reasoning_effort,
    )
}

/// The payload of a turn whose declared tools have been read. The provider's extra
/// fields go on top of the turn's own.
pub open spec fn payload_of(
    request: RequestView,
    send_reasoning_effort: bool,
    extra_body: Map<Seq<char>, JsonView>,
    declared: Seq<JsonView>,
) -> PayloadView {
    let tools = declarations(declared);
    PayloadView {
        body: JsonView::Object(
            own_fields(request, send_reasoning_effort, tools).union_prefer_right(extra_body),
        ),
        tool_bindings: bound(Map::empty(), tools),
    }
}

fn stream_fields(fields: &mut Vec<(String, Json)>, stream: bool)
    ensures
        fields_view(final(fields)@) == with_stream(fields_view(old(fields)@), stream),
{
    put(fields, "stream", Json::Bool(stream));
    if stream {
        let mut stream_options: Vec<(String, Json)> = Vec::new();
        put(&mut stream_options, "include_usage", Json::Bool(true));
        put(fields, "stream_options", Json::Object(stream_options));
    }
}

fn format_fields(fields: &mut Vec<(String, Json)>, format: &TextFormat)
    ensures
        fields_view(final(fields)@) == fields_view(old(fields)@).insert(
            "response_format"@,
            format_json(
                FormatView { name: format.name@, strict: format.strict, schema: format.schema@ },
            ),
        ),
{
    let mut json_schema: Vec<(String, Json)> = Vec::new();
    put(&mut json_schema, "name", Json::text(format.name.as_str()));
    put(&mut json_schema, "strict", Json::Bool(format.strict));
    put(&mut json_schema, "schema", format.schema.clone());
    let mut response_format: Vec<(String, Json)> = Vec::new();
    put(&mut response_format, "type", Json::text("json_schema"));
    put(&mut response_format, "json_schema", Json::Object(json_schema));
    put(fields, "response_format", Json::Object(response_format));
}

fn merge_fields(fields: &mut Vec<(String, Json)>, extra: &Vec<(String, Json)>)
    ensures
        fields_view(final(fields)@) == fields_view(old(fields)@).union_prefer_right(
            fields_view(extra@),
        ),
{
    let ghost own = fields_view(fields@);
    assert(own.union_prefer_right(fields_view(extra@.take(0))) =~= own);
    for i in 0..extra.len()
        invariant
            fields_view(fields@) == own.union_prefer_right(fields_view(extra@.take(i as int))),
    {
        put(fields, extra[i].0.as_str(), extra[i].1.clone());
        proof {
            assert(extra@.take(i + 1).drop_last() =~= extra@.take(i as int));
            assert(fields_view(fields@) =~= own.union_prefer_right(
                fields_view(extra@.take(i + 1)),
            ));
        }
    }
    assert(extra@.take(extra@.len() as int) =~= extra@);
}

/// Builds the payload of a turn whose declared tools have been read.
pub fn build_payload_with_tools(
    request: &ResponsesApiRequest,
    options: &ChatCompletionsOptions,
    declared: &Vec<Json>,
) -> (payload: ChatCompletionsPayload)
    ensures
        payload@ == payload_of(
            request@,
            options.send_reasoning_effort,
            fields_view(options.extra_body@),
            items_view(declared@),
        ),
{
    let mut body: Vec<(String, Json)> = Vec::new();
    put(&mut body, "model", Json::text(request.model.as_str()));
    put(
        &mut body,
        "messages",
        Json::Array(convert_messages(request.instructions.as_str(), &request.input)),
    );
    let mut tool_bindings = ToolBindings::new();
    let converted = convert_tools(declared, &mut tool_bindings);
    proof {
        lemma_items_view(converted@);
    }
    if !converted.is_empty() {
        put(&mut body, "tools", Json::Array(converted));
        put(&mut body, "tool_choice", Json::text(chat_tool_choice(request.tool_choice.as_str())));
        put(&mut body, "parallel_tool_calls", Json::Bool(request.parallel_tool_calls));
    }
    assert(fields_view(body@) =~= core_fields(request@, declarations(items_view(declared@))));
    stream_fields(&mut body, request.stream);
    if let Some(text) = &request.text {
        if let Some(format) = &text.format {
            format_fields(&mut body, format);
        }
    }
    if options.send_reasoning_effort {
        if let Some(reasoning) = &request.reasoning {
            if let Some(effort) = &reasoning.effort {
                put(&mut body, "reasoning_effort", Json::text(effort.as_str()));
            }
        }
    }
    merge_fields(&mut body, &options.extra_body);
    ChatCompletionsPayload { body: Json::Object(body), tool_bindings }
}

/// Builds the payload of a turn. The one thing that can go wrong is that the
/// declared tools are no JSON array; the error is `serde_json`'s own words.
pub fn build_chat_completions_payload(
    request: &ResponsesApiRequest,
    options: &ChatCompletionsOptions,
) -> (payload: Result<ChatCompletionsPayload, String>)
    ensures
        match (
            match request@.tools {
                Some(tools) => parsed_list(tools),
                None => Ok(Seq::empty()),
            },
            payload,
        ) {
            (Ok(declared), Ok(payload)) => payload@ == payload_of(
                request@,
                options.send_reasoning_effort,
                fields_view(options.extra_body@),
                declared,
            ),
            (Err(wanted), Err(err)) => err@ == wanted,
            _ => false,
        },
{
    let declared = match &request.tools {
        Some(tools) => match parse_list(tools.as_str()) {
            Ok(declared) => declared,
            Err(err) => return Err(err),
        },
        None => Vec::new(),
    };
    Ok(build_payload_with_tools(request, options, &declared))
}

} // verus!
