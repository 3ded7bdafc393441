//! What a stream has produced so far, and what one delta adds to it.

use vstd::prelude::*;
use crate::json::{
    as_items, as_text, field, items_view, lemma_items_view, text_field, Json, JsonView,
};
use crate::protocol::{
    events_view, ContentItem, ContentView, EventView, ItemView, ResponseEvent, ResponseItem,
    TokenUsage,
};
use crate::text::text_option;
use super::tool_calls::{apply_tool_call_fragment, with_fragments, BufferView, ToolCallBuffer};

verus! {

/// What a stream has produced so far.
#[derive(Debug)]
pub struct StreamState {
    pub created_sent: bool,
    pub response_id: Option<String>,
    pub text: String,
    /// True between the `OutputItemAdded` and `OutputItemDone` of a text item.
    pub message_open: bool,
    pub reasoning: String,
    pub reasoning_open: bool,
    pub tool_calls: ToolCallBuffer,
    pub usage: Option<TokenUsage>,
    pub finish_reason: Option<String>,
}

/// What the state of a stream says.
pub struct StateView {
    pub created_sent: bool,
    pub response_id: Option<Seq<char>>,
    pub text: Seq<char>,
    pub message_open: bool,
    pub reasoning: Seq<char>,
    pub reasoning_open: bool,
    pub tool_calls: BufferView,
    pub usage: Option<TokenUsage>,
    pub finish_reason: Option<Seq<char>>,
}

/// The state before anything arrived.
pub open spec fn initial_state() -> StateView {
    StateView {
        created_sent: false,
        response_id: None,
        text: Seq::empty(),
        message_open: false,
        reasoning: Seq::empty(),
        reasoning_open: false,
        tool_calls: BufferView { calls: Seq::empty(), positions: Map::empty() },
        usage: None,
        finish_reason: None,
    }
}

impl StreamState {
    pub open spec fn view(&self) -> StateView {
        StateView {
            created_sent: self.created_sent,
            response_id: text_option(self.response_id),
            text: self.text@,
            message_open: self.message_open,
            reasoning: self.reasoning@,
            reasoning_open: self.reasoning_open,
            tool_calls: self.tool_calls@,
            usage: self.usage,
            finish_reason: text_option(self.finish_reason),
        }
    }

    /// The tool call buffer is consistent.
    pub open spec fn wf(&self) -> bool {
        self.tool_calls.wf()
    }

    /// The state before anything arrived.
    pub fn new() -> (state: StreamState)
        ensures
            state.wf(),
            state@ == initial_state(),
    {
        StreamState {
            created_sent: false,
            response_id: None,
            text: String::new(),
            message_open: false,
            reasoning: String::new(),
            reasoning_open: false,
            tool_calls: ToolCallBuffer::new(),
            usage: None,
            finish_reason: None,
        }
    }
}

/// An assistant message of one text part.
pub open spec fn assistant_message(text: Seq<char>) -> ItemView {
    ItemView::Message { role: "assistant"@, content: seq![ContentView::OutputText(text)] }
}

pub(crate) fn assistant_item(text: String) -> (item: ResponseItem)
    ensures
        item@ == assistant_message(text@),
{
    let mut content: Vec<ContentItem> = Vec::new();
    content.push(ContentItem::OutputText { text });
    let item = ResponseItem::Message { role: "assistant".to_owned(), content };
    assert(item@->Message_content =~= seq![ContentView::OutputText(text@)]);
    item
}

/// The state with an assistant item open, and the event that opens it where none
/// was.
pub open spec fn opened(state: StateView) -> (StateView, Seq<EventView>) {
    if state.message_open {
        (state, Seq::empty())
    } else {
        (
            StateView { message_open: true, ..state },
            seq![EventView::OutputItemAdded(assistant_message(Seq::empty()))],
        )
    }
}

/// The nonempty reasoning text of a delta. Servers expose it under one of two
/// names; where the first is there, the second is not looked at.
pub open spec fn reasoning_of(delta: JsonView) -> Option<Seq<char>> {
    let found = match field(delta, "reasoning_content"@) {
        Some(value) => as_text(Some(value)),
        None => text_field(delta, "reasoning"@),
    };
    match found {
        Some(text) => if text.len() > 0 {
            Some(text)
        } else {
            None
        },
        None => None,
    }
}

/// The nonempty text of a delta.
pub open spec fn content_of(delta: JsonView) -> Option<Seq<char>> {
    match text_field(delta, "content"@) {
        Some(text) => if text.len() > 0 {
            Some(text)
        } else {
            None
        },
        None => None,
    }
}

/// The state and events after the reasoning of a delta.
pub open spec fn with_reasoning(state: StateView, delta: JsonView) -> (StateView, Seq<EventView>) {
    match reasoning_of(delta) {
        Some(text) => {
            let (open, events) = opened(state);
            (
                StateView { reasoning: open.reasoning + text, reasoning_open: true, ..open },
                events.push(EventView::ReasoningContentDelta { delta: text, content_index: 0 }),
            )
        },
        None => (state, Seq::empty()),
    }
}

/// The state and events after the text of a delta.
pub open spec fn with_content(state: StateView, delta: JsonView) -> (StateView, Seq<EventView>) {
    match content_of(delta) {
        Some(text) => {
            let (open, events) = opened(state);
            (
                StateView { text: open.text + text, ..open },
                events.push(EventView::OutputTextDelta(text)),
            )
        },
        None => (state, Seq::empty()),
    }
}

/// The state after the tool call fragments of a delta.
pub open spec fn with_tool_calls(state: StateView, delta: JsonView) -> StateView {
    match as_items(field(delta, "tool_calls"@)) {
        Some(fragments) => StateView {
            tool_calls: with_fragments(state.tool_calls, fragments),
            ..state
        },
        None => state,
    }
}

/// The state and events after a delta: reasoning first, then text, then tool
/// call fragments.
pub open spec fn with_delta(state: StateView, delta: JsonView) -> (StateView, Seq<EventView>) {
    let (reasoned, first) = with_reasoning(state, delta);
    let (spoken, second) = with_content(reasoned, delta);
    (with_tool_calls(spoken, delta), first + second)
}

pub(crate) fn emit(events: &mut Vec<ResponseEvent>, event: ResponseEvent)
    ensures
        events_view(final(events)@) == events_view(old(events)@).push(event@),
{
    events.push(event);
    assert(events_view(events@) =~= events_view(old(events)@).push(event@));
}

/// Opens a streaming assistant item, unless one is open.
///
/// A session requires an active item before it will accept text or reasoning
/// deltas, so every delta path funnels through here first.
pub fn open_message_item(state: &mut StreamState, events: &mut Vec<ResponseEvent>)
    requires
        old(state).wf(),
    ensures
        final(state).wf(),
        final(state)@ == opened(old(state)@).0,
        events_view(final(events)@) == events_view(old(events)@) + opened(old(state)@).1,
{
    if !state.message_open {
        state.message_open = true;
        emit(events, ResponseEvent::OutputItemAdded(assistant_item(String::new())));
    }
    assert(events_view(events@) =~= events_view(old(events)@) + opened(old(state)@).1);
}

/// Applies the reasoning of a delta.
fn apply_reasoning(delta: &Json, state: &mut StreamState, events: &mut Vec<ResponseEvent>)
    requires
        old(state).wf(),
    ensures
        final(state).wf(),
        final(state)@ == with_reasoning(old(state)@, delta@).0,
        events_view(final(events)@) == events_view(old(events)@) + with_reasoning(
            old(state)@,
            delta@,
        ).1,
{
    let reasoning = match delta.get("reasoning_content") {
        Some(value) => value.as_str(),
        None => delta.get_text("reasoning"),
    };
    if let Some(text) = reasoning {
        if !text.is_empty() {
            open_message_item(state, events);
            state.reasoning.append(text);
            state.reasoning_open = true;
            emit(
                events,
                ResponseEvent::ReasoningContentDelta { delta: text.to_owned(), content_index: 0 },
            );
        }
    }
    assert(events_view(events@) =~= events_view(old(events)@) + with_reasoning(
        old(state)@,
        delta@,
    ).1);
}

/// Applies the text of a delta.
fn apply_content(delta: &Json, state: &mut StreamState, events: &mut Vec<ResponseEvent>)
    requires
        old(state).wf(),
    ensures
        final(state).wf(),
        final(state)@ == with_content(old(state)@, delta@).0,
        events_view(final(events)@) == events_view(old(events)@) + with_content(
            old(state)@,
            delta@,
        ).1,
{
    if let Some(text) = delta.get_text("content") {
        if !text.is_empty() {
            open_message_item(state, events);
            state.text.append(text);
            emit(events, ResponseEvent::OutputTextDelta(text.to_owned()));
        }
    }
    assert(events_view(events@) =~= events_view(old(events)@) + with_content(
        old(state)@,
        delta@,
    ).1);
}

/// Applies the tool call fragments of a delta.
fn apply_tool_calls(delta: &Json, state: &mut StreamState)
    requires
        old(state).wf(),
    ensures
        final(state).wf(),
        final(state)@ == with_tool_calls(old(state)@, delta@),
{
    let ghost before = state@;
    if let Some(value) = delta.get("tool_calls") {
        if let Some(fragments) = value.as_array() {
            let ghost says = items_view(fragments@);
            proof {
                lemma_items_view(fragments@);
                assert(says.take(0) =~= Seq::empty());
            }
            for i in 0..fragments.len()
                invariant
                    state.wf(),
                    says.len() == fragments@.len(),
                    forall|j: int| 0 <= j < says.len() ==> #[trigger] says[j] == fragments@[j]@,
                    state@ == (StateView {
                        tool_calls: with_fragments(before.tool_calls, says.take(i as int)),
                        ..before
                    }),
            {
                proof {
                    assert(says.take(i + 1).drop_last() =~= says.take(i as int));
                    assert(says.take(i + 1).last() == fragments@[i as int]@);
                }
                apply_tool_call_fragment(&fragments[i], &mut state.tool_calls);
            }
            assert(says.take(says.len() as int) =~= says);
        }
    }
}

/// Applies one `choices[].delta` to the state, reporting what it produced.
pub fn handle_delta(delta: &Json, state: &mut StreamState, events: &mut Vec<ResponseEvent>)
    requires
        old(state).wf(),
    ensures
        final(state).wf(),
        final(state)@ == with_delta(old(state)@, delta@).0,
        events_view(final(events)@) == events_view(old(events)@) + with_delta(
            old(state)@,
            delta@,
        ).1,
{
    apply_reasoning(delta, state, events);
    apply_content(delta, state, events);
    apply_tool_calls(delta, state);
    assert(events_view(events@) =~= events_view(old(events)@) + with_delta(
        old(state)@,
        delta@,
    ).1);
}

} // verus!
