//! Views say what values hold: every field of a value stands in its view as it is.

use vstd::prelude::*;
use crate::fleet::checks::{
    credential_outcome, target_option, ProbeTarget, Role, RoleSource, SourceView,
};
use crate::fleet::config::{
    ConfigEdit, ConfigValue, ModelProviderInfo, ProviderView, ValueView,
};
use crate::fleet::doctor::{sections_view, Check, CheckView};
use crate::fleet::listing::ListRow;
use crate::fleet::probe::{
    Advance, AdvanceView, Endpoint, Phase, PhaseView, Probe, ProbeRequest, Reply, ReplyView,
};
use crate::fleet::workers::{
    answers_view, candidates_view, pair_outcome, text_outcome, WorkerRuntime, WorkerView,
};
use crate::json::{Json, JsonView};
use crate::protocol::{
    ApiError, ContentItem, ContentView, EventView, ItemView, ReasoningItemContent, ResponseEvent,
    ResponseItem,
};
use crate::requests::payload::{ResponsesApiRequest, TextControls};
use crate::sse::state::StreamState;
use crate::sse::stream::{InputView, StreamInput};
use crate::sse::tool_calls::ToolCallAccumulator;
use crate::tools::{entries_view, BindingView, ChatToolBinding};

verus! {

/// The characters of a string that may be absent.
pub open spec fn held(text: Option<String>) -> Option<Seq<char>> {
    match text {
        Some(text) => Some(text@),
        None => None,
    }
}

/// A part of a message says the text or the image it holds.
pub proof fn a_part_says_what_it_holds(part: ContentItem, content: Seq<ContentItem>, i: int)
    ensures
        part@ == match part {
            ContentItem::InputText { text } => ContentView::InputText(text@),
            ContentItem::OutputText { text } => ContentView::OutputText(text@),
            ContentItem::InputImage { image_url } => ContentView::InputImage(image_url@),
            ContentItem::InputAudio => ContentView::InputAudio,
        },
        crate::protocol::content_view(content).len() == content.len(),
        0 <= i < content.len() ==> crate::protocol::content_view(content)[i] == content[i]@,
{
}

/// An item of a turn says what it holds.
pub proof fn an_item_says_what_it_holds(item: ResponseItem, items: Seq<ResponseItem>, i: int)
    ensures
        match item {
            ResponseItem::Message { role, content } => item@ == (ItemView::Message {
                role: role@,
                content: crate::protocol::content_view(content@),
            }),
            ResponseItem::Reasoning { content } => match content {
                Some(parts) => {
                    &&& item@ matches ItemView::Reasoning { content: Some(texts) }
                    &&& texts.len() == parts@.len()
                    &&& forall|k: int|
                        0 <= k < parts@.len() ==> {
                            let ReasoningItemContent::ReasoningText { text } = parts@[k];
                            #[trigger] texts[k] == text@
                        }
                },
                None => item@ == (ItemView::Reasoning { content: None }),
            },
            ResponseItem::FunctionCall { name, namespace, arguments, call_id } => item@ == (
            ItemView::FunctionCall {
                name: name@,
                namespace: held(namespace),
                arguments: arguments@,
                call_id: call_id@,
            }),
            ResponseItem::CustomToolCall { call_id, name, namespace, input } => item@ == (
            ItemView::CustomToolCall {
                call_id: call_id@,
                name: name@,
                namespace: held(namespace),
                input: input@,
            }),
            ResponseItem::LocalShellCall { call_id, action } => item@ == (
            ItemView::LocalShellCall { call_id: held(call_id), action: held(action) }),
            ResponseItem::FunctionCallOutput { call_id, output } => item@ == (
            ItemView::FunctionCallOutput { call_id: held(call_id), output: held(output) }),
            ResponseItem::CustomToolCallOutput { call_id, output } => item@ == (
            ItemView::CustomToolCallOutput { call_id: call_id@, output: held(output) }),
            ResponseItem::Other => item@ == ItemView::Other,
        },
        crate::protocol::turn_view(items).len() == items.len(),
        0 <= i < items.len() ==> crate::protocol::turn_view(items)[i] == items[i]@,
{
}

/// An event says what it reports, and a report is the event or the words of the error.
pub proof fn an_event_says_what_it_reports(
    event: ResponseEvent,
    err: ApiError,
    reports: Seq<Result<ResponseEvent, ApiError>>,
    i: int,
)
    ensures
        event@ == match event {
            ResponseEvent::Created => EventView::Created,
            ResponseEvent::OutputItemAdded(item) => EventView::OutputItemAdded(item@),
            ResponseEvent::OutputTextDelta(delta) => EventView::OutputTextDelta(delta@),
            ResponseEvent::ReasoningContentDelta { delta, content_index } => {
                EventView::ReasoningContentDelta { delta: delta@, content_index }
            },
            ResponseEvent::OutputItemDone(item) => EventView::OutputItemDone(item@),
            ResponseEvent::Completed { response_id, token_usage, end_turn } => {
                EventView::Completed { response_id: response_id@, token_usage, end_turn }
            },
        },
        ({
            let ApiError::Stream(message) = err;
            err@ == message@
        }),
        crate::protocol::signals(reports).len() == reports.len(),
        0 <= i < reports.len() ==> crate::protocol::signals(reports)[i] == match reports[i] {
            Ok(event) => Ok(event@),
            Err(err) => Err(err@),
        },
{
}

/// What arrives on a stream is taken as it is.
pub proof fn an_input_is_taken_as_it_is(input: StreamInput, inputs: Seq<StreamInput>, i: int)
    ensures
        input@ == match input {
            StreamInput::Data(data) => InputView::Data(data@),
            StreamInput::Failed(err) => InputView::Failed(err@),
            StreamInput::Closed => InputView::Closed,
            StreamInput::Idle(limit) => InputView::Idle(limit@),
        },
        crate::sse::stream::inputs_view(inputs).len() == inputs.len(),
        0 <= i < inputs.len() ==> crate::sse::stream::inputs_view(inputs)[i] == inputs[i]@,
{
}

/// The state of a stream and a call under way say what they hold.
pub proof fn a_state_says_what_it_holds(state: StreamState, call: ToolCallAccumulator)
    ensures
        state@.created_sent == state.created_sent,
        state@.response_id == held(state.response_id),
        state@.text == state.text@,
        state@.message_open == state.message_open,
        state@.reasoning == state.reasoning@,
        state@.reasoning_open == state.reasoning_open,
        state@.usage == state.usage,
        state@.finish_reason == held(state.finish_reason),
        state@.tool_calls.positions == state.tool_calls.positions@,
        state@.tool_calls.calls.len() == state.tool_calls.calls@.len(),
        forall|i: int|
            0 <= i < state.tool_calls.calls@.len() ==> #[trigger] state@.tool_calls.calls[i]
                == state.tool_calls.calls@[i]@,
        call@.id == held(call.id),
        call@.name == held(call.name),
        call@.arguments == call.arguments@,
{
}

/// A document says what it holds.
pub proof fn a_document_says_what_it_holds(json: Json)
    ensures
        match json {
            Json::Null => json@ == JsonView::Null,
            Json::Bool(flag) => json@ == JsonView::Bool(flag),
            Json::Number(number) => json@ == JsonView::Number(number),
            Json::Text(text) => json@ == JsonView::Text(text@),
            Json::Array(items) => {
                &&& json@ matches JsonView::Array(says)
                &&& says.len() == items@.len()
                &&& forall|i: int| 0 <= i < items@.len() ==> #[trigger] says[i] == items@[i]@
            },
            Json::Object(fields) => json@ == JsonView::Object(
                crate::json::fields_view(fields@),
            ),
        },
{
    if let Json::Array(items) = json {
        crate::json::lemma_items_view(items@);
    }
}

/// A turn says what is asked for.
pub proof fn a_turn_says_what_is_asked_for(request: ResponsesApiRequest)
    ensures
        request@.model == request.model@,
        request@.instructions == request.instructions@,
        request@.input == crate::protocol::turn_view(request.input@),
        request@.tools == held(request.tools),
        request@.tool_choice == request.tool_choice@,
        request@.parallel_tool_calls == request.parallel_tool_calls,
        request@.stream == request.stream,
        request@.effort == match request.reasoning {
            Some(reasoning) => held(reasoning.effort),
            None => None,
        },
        match request.text {
            Some(TextControls { format: Some(format) }) => {
                &&& request@.format matches Some(says)
                &&& says.name == format.name@
                &&& says.strict == format.strict
                &&& says.schema == format.schema@
            },
            _ => request@.format is None,
        },
{
}

/// A binding says what it stands for, and of two under one name the later counts.
pub proof fn a_binding_says_what_it_stands_for(
    binding: ChatToolBinding,
    entries: Seq<(String, ChatToolBinding)>,
    entry: (String, ChatToolBinding),
)
    ensures
        binding@ == (BindingView {
            namespace: held(binding.namespace),
            name: binding.name@,
            freeform: binding.freeform,
        }),
        entries_view(Seq::empty()) == Map::<Seq<char>, BindingView>::empty(),
        entries_view(entries.push(entry)) == entries_view(entries).insert(entry.0@, entry.1@),
{
    assert(entries.push(entry).drop_last() =~= entries);
}

/// What is known of an endpoint, asked of it and answered by it is taken as it is.
pub proof fn a_reply_is_taken_as_it_is(endpoint: Endpoint, request: ProbeRequest, reply: Reply)
    ensures
        endpoint@.base_url == endpoint.base_url@,
        endpoint@.runtime == endpoint.runtime,
        endpoint@.wire_api == endpoint.wire_api,
        endpoint@.models.len() == endpoint.models@.len(),
        forall|i: int|
            0 <= i < endpoint.models@.len() ==> #[trigger] endpoint@.models[i]
                == endpoint.models@[i]@,
        request@.method == request.method,
        request@.url == request.url@,
        request@.authorization == held(request.authorization),
        request@.body == held(request.body),
        reply@ == match reply {
            Reply::Answer { status, body } => ReplyView::Answer { status, body: held(body) },
            Reply::Silence => ReplyView::Silence,
        },
{
}

/// A provider, a change and a row of the table say what they hold.
pub proof fn a_change_says_what_it_sets(
    provider: ModelProviderInfo,
    value: ConfigValue,
    edit: ConfigEdit,
    edits: Seq<ConfigEdit>,
    row: ListRow,
    i: int,
)
    ensures
        provider@ == (ProviderView {
            base_url: held(provider.base_url),
            env_key: held(provider.env_key),
            wire_api: provider.wire_api,
        }),
        match value {
            ConfigValue::Text(text) => value@ == ValueView::Text(text@),
            ConfigValue::Integer(n) => value@ == ValueView::Integer(n),
            ConfigValue::List(list) => {
                &&& value@ matches ValueView::List(says)
                &&& says.len() == list@.len()
                &&& forall|k: int| 0 <= k < list@.len() ==> #[trigger] says[k] == list@[k]@
            },
        },
        ({
            let ConfigEdit::SetPath { segments, value } = edit;
            &&& edit@.value == value@
            &&& edit@.segments.len() == segments@.len()
            &&& forall|k: int|
                0 <= k < segments@.len() ==> #[trigger] edit@.segments[k] == segments@[k]@
        }),
        crate::fleet::config::edits_view(edits).len() == edits.len(),
        0 <= i < edits.len() ==> crate::fleet::config::edits_view(edits)[i] == edits[i]@,
        row@.id == row.id@,
        row@.wire_api == row.wire_api,
        row@.routable == row.routable,
        row@.base_url == row.base_url@,
        row@.local == row.local,
{
}

/// A line of the report and a role say what they hold.
pub proof fn a_line_says_what_it_holds(check: Check, checks: Seq<Check>, role: Role, i: int)
    ensures
        check@ == match check {
            Check::Pass(note) => CheckView::Pass(note@),
            Check::Warn { note, fix } => CheckView::Warn { note: note@, fix: fix@ },
            Check::Fail { note, fix } => CheckView::Fail { note: note@, fix: fix@ },
        },
        crate::fleet::doctor::checks_view(checks).len() == checks.len(),
        0 <= i < checks.len() ==> crate::fleet::doctor::checks_view(checks)[i] == checks[i]@,
        role@.name == role.name@,
        role@.value == held(role.value),
        match role.answer {
            Some(endpoint) => role@.answer == Some(endpoint@),
            None => role@.answer is None,
        },
        role@.source == match role.source {
            RoleSource::Absent => SourceView::Absent,
            RoleSource::Unreadable { path, err } => SourceView::Unreadable {
                path: path@,
                err: err@,
            },
            RoleSource::Unparsable { path, err } => SourceView::Unparsable {
                path: path@,
                err: err@,
            },
            RoleSource::Parsed { model, model_provider } => SourceView::Parsed {
                model: held(model),
                model_provider: held(model_provider),
            },
        },
{
}

/// A list of strings says each of them where it stands, and what may be absent is there
/// or not as it is.
pub proof fn strings_are_taken_as_they_are(
    list: Seq<String>,
    i: int,
    text: Option<String>,
    slice: Option<&str>,
)
    ensures
        crate::text::texts(list).len() == list.len(),
        0 <= i < list.len() ==> crate::text::texts(list)[i] == list[i]@,
        crate::text::text_option(text) == held(text),
        crate::text::str_option(slice) == match slice {
            Some(slice) => Some(slice@),
            None => None,
        },
        crate::text::text_or_empty(held(text)) == match text {
            Some(text) => text@,
            None => Seq::empty(),
        },
{
}

/// A probe, how far it has come and where a reply led are taken as they are.
pub proof fn a_probe_says_how_far_it_is(probe: Probe, advance: Advance, replies: Seq<Reply>, i: int)
    ensures
        probe@.base_url == probe.base_url@,
        probe@.api_key == held(probe.api_key),
        probe@.phase == match probe.phase {
            Phase::Models => PhaseView::Models,
            Phase::Identity { models, tried } => PhaseView::Identity {
                models: crate::text::texts(models@),
                tried: tried as nat,
            },
            Phase::Wire { models, runtime } => PhaseView::Wire {
                models: crate::text::texts(models@),
                runtime,
            },
        },
        advance@ == match advance {
            Advance::Ask(next) => AdvanceView::Ask(next@),
            Advance::Done(Some(endpoint)) => AdvanceView::Done(Some(endpoint@)),
            Advance::Done(None) => AdvanceView::Done(None),
        },
        crate::fleet::probe::replies_view(replies).len() == replies.len(),
        0 <= i < replies.len() ==> crate::fleet::probe::replies_view(replies)[i] == replies[i]@,
{
}

/// What the workers run on says what it holds.
pub proof fn a_runtime_says_what_it_holds(
    runtime: WorkerRuntime,
    candidates: Seq<(String, String)>,
    answers: Seq<Option<Endpoint>>,
    i: int,
)
    ensures
        runtime@ == match runtime {
            WorkerRuntime::Named { provider_id, model } => WorkerView::Named {
                provider_id: provider_id@,
                model: model@,
            },
            WorkerRuntime::Served { provider_id, base_url } => WorkerView::Served {
                provider_id: provider_id@,
                base_url: base_url@,
            },
            WorkerRuntime::Answering { candidates } => WorkerView::Answering {
                candidates: candidates_view(candidates@),
            },
        },
        candidates_view(candidates).len() == candidates.len(),
        0 <= i < candidates.len() ==> candidates_view(candidates)[i] == (
            candidates[i].0@,
            candidates[i].1@,
        ),
        answers_view(answers).len() == answers.len(),
        0 <= i < answers.len() ==> answers_view(answers)[i] == match answers[i] {
            Some(endpoint) => Some(endpoint@),
            None => None,
        },
{
}

/// A report says its sections, and roles, rows and endpoints are taken one by one.
pub proof fn a_report_says_what_it_holds(
    sections: Seq<(String, Vec<Check>)>,
    roles: Seq<Role>,
    rows: Seq<ListRow>,
    found: Seq<Endpoint>,
    i: int,
)
    ensures
        sections_view(sections).len() == sections.len(),
        0 <= i < sections.len() ==> {
            &&& sections_view(sections)[i].title == sections[i].0@
            &&& sections_view(sections)[i].checks == crate::fleet::doctor::checks_view(
                sections[i].1@,
            )
        },
        crate::fleet::checks::roles_view(roles).len() == roles.len(),
        0 <= i < roles.len() ==> crate::fleet::checks::roles_view(roles)[i] == roles[i]@,
        crate::fleet::listing::rows_view(rows).len() == rows.len(),
        0 <= i < rows.len() ==> crate::fleet::listing::rows_view(rows)[i] == rows[i]@,
        crate::fleet::commands::endpoints_view(found).len() == found.len(),
        0 <= i < found.len() ==> crate::fleet::commands::endpoints_view(found)[i] == found[i]@,
{
}

/// A choice and a refusal say what came of them.
pub proof fn an_outcome_says_what_came_of_it(
    text: Result<String, String>,
    pair: Result<(String, String), String>,
    checked: Result<(), String>,
    key: Result<Option<String>, Check>,
    target: Option<ProbeTarget>,
    list: Option<Vec<String>>,
)
    ensures
        text_outcome(text) == match text {
            Ok(text) => Ok(text@),
            Err(message) => Err(message@),
        },
        pair_outcome(pair) == match pair {
            Ok((provider_id, model)) => Ok((provider_id@, model@)),
            Err(message) => Err(message@),
        },
        crate::fleet::commands::refusal(checked) == match checked {
            Ok(_) => None,
            Err(message) => Some(message@),
        },
        credential_outcome(key) == match key {
            Ok(key) => Ok(held(key)),
            Err(check) => Err(check@),
        },
        target_option(target) == match target {
            Some(target) => Some((target.base_url@, held(target.api_key))),
            None => None,
        },
        crate::fleet::probe::list_option(list) == match list {
            Some(list) => Some(crate::text::texts(list@)),
            None => None,
        },
{
}

/// A document that was read, and an item or a message that may be absent, are taken as
/// they are.
pub proof fn a_reading_says_what_was_read(
    outcome: Result<Json, String>,
    json: Option<Json>,
    item: Option<ResponseItem>,
    events: Seq<ResponseEvent>,
    said: Seq<EventView>,
    i: int,
)
    ensures
        crate::json::outcome_view(outcome) == match outcome {
            Ok(json) => Ok(json@),
            Err(message) => Err(message@),
        },
        crate::requests::messages::json_option(json) == match json {
            Some(json) => Some(json@),
            None => None,
        },
        crate::sse::finish::item_option(item) == match item {
            Some(item) => Some(item@),
            None => None,
        },
        crate::protocol::events_view(events).len() == events.len(),
        0 <= i < events.len() ==> crate::protocol::events_view(events)[i] == events[i]@,
        crate::protocol::delivered(said).len() == said.len(),
        0 <= i < said.len() ==> crate::protocol::delivered(said)[i] == Ok::<EventView, Seq<char>>(
            said[i],
        ),
{
}

} // verus!
