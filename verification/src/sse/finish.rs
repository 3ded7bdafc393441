//! What is reported once a reply is over.

use vstd::prelude::*;
use crate::json::{outcome_view, parse, parsed, text_field, Json, JsonView};
use crate::protocol::{
    events_view, EventView, ItemView, ReasoningItemContent, ResponseEvent, ResponseItem,
};
use crate::text::{copy_option, decimal, decimal_text, same_text, text_or_empty, trim, trimmed};
use crate::tools::{BindingView, ToolBindings, FREEFORM_INPUT_PARAM};
use super::tool_calls::{calls_view, CallView, ToolCallAccumulator};
use super::state::{assistant_item, assistant_message, emit, StateView, StreamState};

verus! {

/// The raw input of a freeform tool: the text under the input parameter, where
/// the arguments are a JSON object that has it, and else the arguments as they
/// came.
pub open spec fn unwrapped(document: Result<JsonView, Seq<char>>, arguments: Seq<char>) -> Seq<
    char,
> {
    match document {
        Ok(document) => match text_field(document, FREEFORM_INPUT_PARAM@) {
            Some(input) => input,
            None => arguments,
        },
        Err(_) => arguments,
    }
}

/// Takes the raw input of a freeform tool out of its arguments, given what they
/// read as.
pub fn unwrap_freeform(document: &Result<Json, String>, arguments: &str) -> (input: String)
    ensures
        input@ == unwrapped(outcome_view(*document), arguments@),
{
    match document {
        Ok(document) => match document.get_text(FREEFORM_INPUT_PARAM) {
            Some(input) => input.to_owned(),
            None => arguments.to_owned(),
        },
        Err(_) => arguments.to_owned(),
    }
}

/// The tool a wire name stands for: what it is bound to, or else a plain function
/// of that name.
pub open spec fn tool_of(bindings: Map<Seq<char>, BindingView>, wire_name: Seq<char>) -> BindingView {
    if bindings.contains_key(wire_name) {
        bindings[wire_name]
    } else {
        BindingView { namespace: None, name: wire_name, freeform: false }
    }
}

/// The id of a call: its own, or one made from its position and wire name.
pub open spec fn call_id_of(call: CallView, position: int, wire_name: Seq<char>) -> Seq<char> {
    match call.id {
        Some(id) => id,
        None => "call_"@ + decimal(position as nat) + "_"@ + wire_name,
    }
}

/// The arguments of a function call, which are an empty object where the server
/// sent none.
pub open spec fn arguments_of(arguments: Seq<char>) -> Seq<char> {
    if trim(arguments).len() == 0 {
        "{}"@
    } else {
        arguments
    }
}

/// The item a reassembled call amounts to. A call that was never named amounts to
/// nothing.
pub open spec fn item_of_call(
    call: CallView,
    position: int,
    bindings: Map<Seq<char>, BindingView>,
) -> Option<ItemView> {
    match call.name {
        Some(wire_name) => {
            let tool = tool_of(bindings, wire_name);
            let call_id = call_id_of(call, position, wire_name);
            if tool.freeform {
                Some(
                    ItemView::CustomToolCall {
                        call_id,
                        name: tool.name,
                        namespace: tool.namespace,
                        input: unwrapped(parsed(call.arguments), call.arguments),
                    },
                )
            } else {
                Some(
                    ItemView::FunctionCall {
                        name: tool.name,
                        namespace: tool.namespace,
                        arguments: arguments_of(call.arguments),
                        call_id,
                    },
                )
            }
        },
        None => None,
    }
}

/// The view of an item that may be absent.
pub open spec fn item_option(item: Option<ResponseItem>) -> Option<ItemView> {
    match item {
        Some(item) => Some(item@),
        None => None,
    }
}

/// Rebuilds a tool call from an accumulated fragment set, undoing the namespace
/// flattening applied when the tools were declared.
pub fn tool_call_item(
    call: &ToolCallAccumulator,
    position: usize,
    bindings: &ToolBindings,
) -> (item: Option<ResponseItem>)
    ensures
        item_option(item) == item_of_call(call@, position as int, bindings@),
{
    let wire_name = match &call.name {
        Some(name) => name,
        None => return None,
    };
    let call_id: String = match &call.id {
        Some(id) => id.clone(),
        None => {
            let mut id = String::from_str("call_");
            id.append(decimal_text(position as u64).as_str());
            id.append("_");
            id.append(wire_name.as_str());
            id
        },
    };
    let binding = bindings.get(wire_name.as_str());
    let (namespace, name, freeform): (Option<String>, String, bool) = match binding {
        Some(binding) => (copy_option(&binding.namespace), binding.name.clone(), binding.freeform),
        None => (None, wire_name.clone(), false),
    };
    if freeform {
        let document = parse(call.arguments.as_str());
        let input = unwrap_freeform(&document, call.arguments.as_str());
        return Some(ResponseItem::CustomToolCall { call_id, name, namespace, input });
    }
    let arguments = if trimmed(call.arguments.as_str()).is_empty() {
        "{}".to_owned()
    } else {
        call.arguments.clone()
    };
    Some(ResponseItem::FunctionCall { name, namespace, arguments, call_id })
}

/// The event that closes the reasoning of a reply, where there was any.
pub open spec fn reasoning_done(state: StateView) -> Seq<EventView> {
    if state.reasoning_open && state.reasoning.len() > 0 {
        seq![
            EventView::OutputItemDone(
                ItemView::Reasoning { content: Some(seq![state.reasoning]) },
            ),
        ]
    } else {
        Seq::empty()
    }
}

/// The event that closes the assistant item of a reply, where one is open.
pub open spec fn message_done(state: StateView) -> Seq<EventView> {
    if state.message_open {
        seq![EventView::OutputItemDone(assistant_message(state.text))]
    } else {
        Seq::empty()
    }
}

/// The events that report the tool calls of a reply, in order.
pub open spec fn calls_done(calls: Seq<CallView>, bindings: Map<Seq<char>, BindingView>) -> Seq<
    EventView,
>
    decreases calls.len(),
{
    if calls.len() == 0 {
        Seq::empty()
    } else {
        let earlier = calls_done(calls.drop_last(), bindings);
        match item_of_call(calls.last(), calls.len() - 1, bindings) {
            Some(item) => earlier.push(EventView::OutputItemDone(item)),
            None => earlier,
        }
    }
}

/// The event that completes a reply. The turn has ended where the server said
/// `stop`, and is open where it gave no reason.
pub open spec fn completed(state: StateView) -> EventView {
    EventView::Completed {
        response_id: text_or_empty(state.response_id),
        token_usage: state.usage,
        end_turn: match state.finish_reason {
            Some(reason) => Some(reason == "stop"@),
            None => None,
        },
    }
}

/// Everything that is reported at the end of a reply.
pub open spec fn finale(state: StateView, bindings: Map<Seq<char>, BindingView>) -> Seq<EventView> {
    (reasoning_done(state) + message_done(state) + calls_done(
        state.tool_calls.calls,
        bindings,
    )).push(completed(state))
}

/// Reports whatever the turn produced, and completes it.
pub fn finalize(state: &StreamState, bindings: &ToolBindings) -> (events: Vec<ResponseEvent>)
    ensures
        events_view(events@) == finale(state@, bindings@),
{
    let mut events: Vec<ResponseEvent> = Vec::new();
    if state.reasoning_open && !state.reasoning.as_str().is_empty() {
        let mut parts: Vec<ReasoningItemContent> = Vec::new();
        parts.push(ReasoningItemContent::ReasoningText { text: state.reasoning.clone() });
        let item = ResponseItem::Reasoning { content: Some(parts) };
        assert(item@->Reasoning_content->0 =~= seq![state.reasoning@]);
        emit(&mut events, ResponseEvent::OutputItemDone(item));
    }
    assert(events_view(events@) =~= reasoning_done(state@));
    if state.message_open {
        emit(&mut events, ResponseEvent::OutputItemDone(assistant_item(state.text.clone())));
    }
    let ghost items = reasoning_done(state@) + message_done(state@);
    let ghost calls = state@.tool_calls.calls;
    proof {
        assert(calls.take(0) =~= Seq::empty());
        assert(events_view(events@) =~= items + calls_done(calls.take(0), bindings@));
    }
    for i in 0..state.tool_calls.calls.len()
        invariant
            calls == calls_view(state.tool_calls.calls@),
            events_view(events@) == items + calls_done(calls.take(i as int), bindings@),
    {
        let ghost sent = events_view(events@);
        let item = tool_call_item(&state.tool_calls.calls[i], i, bindings);
        proof {
            assert(calls.take(i + 1).drop_last() =~= calls.take(i as int));
            assert(calls.take(i + 1).last() == state.tool_calls.calls@[i as int]@);
        }
        if let Some(item) = item {
            emit(&mut events, ResponseEvent::OutputItemDone(item));
            assert(events_view(events@) =~= items + calls_done(calls.take(i + 1), bindings@));
        }
    }
    assert(calls.take(calls.len() as int) =~= calls);
    let response_id = match &state.response_id {
        Some(id) => id.clone(),
        None => String::new(),
    };
    let end_turn = match &state.finish_reason {
        Some(reason) => Some(same_text(reason.as_str(), "stop")),
        None => None,
    };
    assert(text_or_empty(state@.response_id) =~= response_id@);
    emit(
        &mut events,
        ResponseEvent::Completed { response_id, token_usage: state.usage, end_turn },
    );
    events
}

} // verus!
