//! What a stream says, read off the JSON that arrived.
//!
//! Everything that is streamed and closed is stated here in terms of the fields of
//! the chunks themselves: which strings they hold, and where.

use vstd::prelude::*;
use crate::json::{field, integer_of, parsed, JsonView};
use crate::protocol::{delivered, ContentView, EventView, ItemView, Signal};
use crate::text::{decimal, trim};
use crate::tools::BindingView;
use super::chunks::{greeted, usage_of, with_choice, with_choices, with_chunk, with_usage};
use super::finish::{calls_done, finale};
use super::state::{initial_state, with_delta, StateView};
use super::stream::{run_of, step_of, InputView, StepOutcome};
use super::tool_calls::{
    buffer_wf, first_with_id, has_id, with_fragment, with_fragments, BufferView, CallView,
};

verus! {

/// The string under a key, where there is one.
pub open spec fn string_under(json: JsonView, key: Seq<char>) -> Option<Seq<char>> {
    match field(json, key) {
        Some(JsonView::Text(text)) => Some(text),
        _ => None,
    }
}

/// The elements under a key, where there is an array.
pub open spec fn elements_under(json: JsonView, key: Seq<char>) -> Seq<JsonView> {
    match field(json, key) {
        Some(JsonView::Array(elements)) => elements,
        _ => Seq::empty(),
    }
}

/// The integer under a key, and zero where there is none.
pub open spec fn integer_under(json: JsonView, key: Seq<char>) -> i64 {
    match field(json, key) {
        Some(JsonView::Number(number)) => match integer_of(number) {
            Some(integer) => integer,
            None => 0,
        },
        _ => 0,
    }
}

/// The string that is there, or nothing.
pub open spec fn or_nothing(text: Option<Seq<char>>) -> Seq<char> {
    match text {
        Some(text) => text,
        None => Seq::empty(),
    }
}

/// What a delta says: its string under `content`.
pub open spec fn said(delta: JsonView) -> Seq<char> {
    or_nothing(string_under(delta, "content"@))
}

/// What a delta thinks: its string under `reasoning_content` or, where it has no such
/// field, under `reasoning`.
pub open spec fn pondered(delta: JsonView) -> Seq<char> {
    if field(delta, "reasoning_content"@) is Some {
        or_nothing(string_under(delta, "reasoning_content"@))
    } else {
        or_nothing(string_under(delta, "reasoning"@))
    }
}

/// An assistant message with one part, its text.
pub open spec fn assistant_says(text: Seq<char>) -> ItemView {
    ItemView::Message { role: "assistant"@, content: seq![ContentView::OutputText(text)] }
}

/// The event, where it is called for.
pub open spec fn when(called_for: bool, event: EventView) -> Seq<EventView> {
    if called_for {
        seq![event]
    } else {
        Seq::empty()
    }
}

/// A delta is streamed as it comes: the opening of an item where none is open and
/// there is anything to stream, then what it thinks, then what it says, character for
/// character. The same goes into what is kept, and nothing else is touched but the
/// tool calls, to which its fragments are added.
pub proof fn a_delta_is_streamed_as_it_comes(state: StateView, delta: JsonView)
    ensures
        ({
            let (after, events) = with_delta(state, delta);
            let any = pondered(delta).len() > 0 || said(delta).len() > 0;
            &&& events == when(
                any && !state.message_open,
                EventView::OutputItemAdded(assistant_says(Seq::empty())),
            ) + when(
                pondered(delta).len() > 0,
                EventView::ReasoningContentDelta { delta: pondered(delta), content_index: 0 },
            ) + when(said(delta).len() > 0, EventView::OutputTextDelta(said(delta)))
            &&& after.text == state.text + said(delta)
            &&& after.reasoning == state.reasoning + pondered(delta)
            &&& after.message_open == (state.message_open || any)
            &&& after.reasoning_open == (state.reasoning_open || pondered(delta).len() > 0)
            &&& after.tool_calls == with_fragments(
                state.tool_calls,
                elements_under(delta, "tool_calls"@),
            )
            &&& after.created_sent == state.created_sent
            &&& after.response_id == state.response_id
            &&& after.usage == state.usage
            &&& after.finish_reason == state.finish_reason
        }),
{
    let (after, events) = with_delta(state, delta);
    let any = pondered(delta).len() > 0 || said(delta).len() > 0;
    assert(state.text + Seq::<char>::empty() =~= state.text);
    assert(state.reasoning + Seq::<char>::empty() =~= state.reasoning);
    assert(said(delta).len() == 0 ==> said(delta) =~= Seq::<char>::empty());
    assert(pondered(delta).len() == 0 ==> pondered(delta) =~= Seq::<char>::empty());
    assert(events =~= when(
        any && !state.message_open,
        EventView::OutputItemAdded(assistant_says(Seq::empty())),
    ) + when(
        pondered(delta).len() > 0,
        EventView::ReasoningContentDelta { delta: pondered(delta), content_index: 0 },
    ) + when(said(delta).len() > 0, EventView::OutputTextDelta(said(delta))));
}

/// The text deltas among events, in order.
pub open spec fn text_deltas(events: Seq<EventView>) -> Seq<Seq<char>>
    decreases events.len(),
{
    if events.len() == 0 {
        Seq::empty()
    } else {
        match events.last() {
            EventView::OutputTextDelta(delta) => text_deltas(events.drop_last()).push(delta),
            _ => text_deltas(events.drop_last()),
        }
    }
}

/// The reasoning deltas among events, in order.
pub open spec fn reasoning_deltas(events: Seq<EventView>) -> Seq<Seq<char>>
    decreases events.len(),
{
    if events.len() == 0 {
        Seq::empty()
    } else {
        match events.last() {
            EventView::ReasoningContentDelta { delta, .. } => reasoning_deltas(
                events.drop_last(),
            ).push(delta),
            _ => reasoning_deltas(events.drop_last()),
        }
    }
}

/// The texts run together.
pub open spec fn run_together(texts: Seq<Seq<char>>) -> Seq<char>
    decreases texts.len(),
{
    if texts.len() == 0 {
        Seq::empty()
    } else {
        run_together(texts.drop_last()) + texts.last()
    }
}

/// The text by itself, where there is any.
pub open spec fn unless_empty(text: Seq<char>) -> Seq<Seq<char>> {
    if text.len() > 0 {
        seq![text]
    } else {
        Seq::empty()
    }
}

/// The nonempty strings under `delta.content` of choices, in order.
pub open spec fn contents_of_choices(choices: Seq<JsonView>) -> Seq<Seq<char>>
    decreases choices.len(),
{
    if choices.len() == 0 {
        Seq::empty()
    } else {
        contents_of_choices(choices.drop_last()) + match field(choices.last(), "delta"@) {
            Some(delta) => unless_empty(said(delta)),
            None => Seq::empty(),
        }
    }
}

/// The nonempty reasoning strings under `delta` of choices, in order.
pub open spec fn thoughts_of_choices(choices: Seq<JsonView>) -> Seq<Seq<char>>
    decreases choices.len(),
{
    if choices.len() == 0 {
        Seq::empty()
    } else {
        thoughts_of_choices(choices.drop_last()) + match field(choices.last(), "delta"@) {
            Some(delta) => unless_empty(pondered(delta)),
            None => Seq::empty(),
        }
    }
}

/// The last string under `finish_reason` of choices.
pub open spec fn reason_of_choices(choices: Seq<JsonView>) -> Option<Seq<char>>
    decreases choices.len(),
{
    if choices.len() == 0 {
        None
    } else {
        match string_under(choices.last(), "finish_reason"@) {
            Some(reason) => Some(reason),
            None => reason_of_choices(choices.drop_last()),
        }
    }
}

/// The tool call fragments under `delta.tool_calls` of choices, in order.
pub open spec fn calls_of_choices(choices: Seq<JsonView>) -> Seq<JsonView>
    decreases choices.len(),
{
    if choices.len() == 0 {
        Seq::empty()
    } else {
        calls_of_choices(choices.drop_last()) + match field(choices.last(), "delta"@) {
            Some(delta) => elements_under(delta, "tool_calls"@),
            None => Seq::empty(),
        }
    }
}

/// The nonempty strings under `choices[].delta.content` of chunks, in order.
pub open spec fn contents_of(chunks: Seq<JsonView>) -> Seq<Seq<char>>
    decreases chunks.len(),
{
    if chunks.len() == 0 {
        Seq::empty()
    } else {
        contents_of(chunks.drop_last()) + contents_of_choices(
            elements_under(chunks.last(), "choices"@),
        )
    }
}

/// The nonempty reasoning strings under `choices[].delta` of chunks, in order.
pub open spec fn thoughts_of(chunks: Seq<JsonView>) -> Seq<Seq<char>>
    decreases chunks.len(),
{
    if chunks.len() == 0 {
        Seq::empty()
    } else {
        thoughts_of(chunks.drop_last()) + thoughts_of_choices(
            elements_under(chunks.last(), "choices"@),
        )
    }
}

/// The tool call fragments under `choices[].delta.tool_calls` of chunks, in order.
pub open spec fn fragments_of(chunks: Seq<JsonView>) -> Seq<JsonView>
    decreases chunks.len(),
{
    if chunks.len() == 0 {
        Seq::empty()
    } else {
        fragments_of(chunks.drop_last()) + calls_of_choices(
            elements_under(chunks.last(), "choices"@),
        )
    }
}

/// The first string under `id` of chunks.
pub open spec fn first_id(chunks: Seq<JsonView>) -> Option<Seq<char>>
    decreases chunks.len(),
{
    if chunks.len() == 0 {
        None
    } else {
        match first_id(chunks.drop_last()) {
            Some(id) => Some(id),
            None => string_under(chunks.last(), "id"@),
        }
    }
}

/// The last string under `choices[].finish_reason` of chunks.
pub open spec fn last_reason(chunks: Seq<JsonView>) -> Option<Seq<char>>
    decreases chunks.len(),
{
    if chunks.len() == 0 {
        None
    } else {
        match reason_of_choices(elements_under(chunks.last(), "choices"@)) {
            Some(reason) => Some(reason),
            None => last_reason(chunks.drop_last()),
        }
    }
}

/// The last `usage` of chunks that is not null.
pub open spec fn last_usage(chunks: Seq<JsonView>) -> Option<JsonView>
    decreases chunks.len(),
{
    if chunks.len() == 0 {
        None
    } else {
        match field(chunks.last(), "usage"@) {
            Some(usage) if usage !is Null => Some(usage),
            _ => last_usage(chunks.drop_last()),
        }
    }
}

proof fn lemma_deltas_concat(first: Seq<EventView>, second: Seq<EventView>)
    ensures
        text_deltas(first + second) == text_deltas(first) + text_deltas(second),
        reasoning_deltas(first + second) == reasoning_deltas(first) + reasoning_deltas(second),
    decreases second.len(),
{
    if second.len() == 0 {
        assert(first + second =~= first);
        assert(text_deltas(first) + text_deltas(second) =~= text_deltas(first));
        assert(reasoning_deltas(first) + reasoning_deltas(second) =~= reasoning_deltas(first));
    } else {
        assert((first + second).drop_last() =~= first + second.drop_last());
        lemma_deltas_concat(first, second.drop_last());
        assert(text_deltas(first + second) =~= text_deltas(first) + text_deltas(second));
        assert(reasoning_deltas(first + second) =~= reasoning_deltas(first) + reasoning_deltas(
            second,
        ));
    }
}

proof fn lemma_deltas_of_one(event: EventView)
    ensures
        text_deltas(seq![event]) == (match event {
            EventView::OutputTextDelta(delta) => seq![delta],
            _ => Seq::empty(),
        }),
        reasoning_deltas(seq![event]) == (match event {
            EventView::ReasoningContentDelta { delta, .. } => seq![delta],
            _ => Seq::empty(),
        }),
{
    let one = seq![event];
    assert(one.drop_last() =~= Seq::<EventView>::empty());
    assert(one.last() == event);
    assert(text_deltas(one.drop_last()) =~= Seq::<Seq<char>>::empty());
    assert(reasoning_deltas(one.drop_last()) =~= Seq::<Seq<char>>::empty());
    assert(text_deltas(one) =~= (match event {
        EventView::OutputTextDelta(delta) => seq![delta],
        _ => Seq::empty(),
    }));
    assert(reasoning_deltas(one) =~= (match event {
        EventView::ReasoningContentDelta { delta, .. } => seq![delta],
        _ => Seq::empty(),
    }));
}

proof fn lemma_run_together(first: Seq<Seq<char>>, second: Seq<Seq<char>>)
    ensures
        run_together(first + second) == run_together(first) + run_together(second),
    decreases second.len(),
{
    if second.len() == 0 {
        assert(first + second =~= first);
        assert(run_together(first) + run_together(second) =~= run_together(first));
    } else {
        assert((first + second).drop_last() =~= first + second.drop_last());
        lemma_run_together(first, second.drop_last());
        assert(run_together(first + second) =~= run_together(first) + run_together(second));
    }
}

proof fn lemma_unless_empty(text: Seq<char>)
    ensures
        run_together(unless_empty(text)) == text,
{
    let list = unless_empty(text);
    if text.len() > 0 {
        assert(list.drop_last() =~= Seq::<Seq<char>>::empty());
        assert(run_together(list.drop_last()) =~= Seq::<char>::empty());
    }
    assert(run_together(list) =~= text);
}

proof fn lemma_fragments_concat(
    buffer: BufferView,
    first: Seq<JsonView>,
    second: Seq<JsonView>,
)
    ensures
        with_fragments(buffer, first + second) == with_fragments(
            with_fragments(buffer, first),
            second,
        ),
    decreases second.len(),
{
    if second.len() == 0 {
        assert(first + second =~= first);
    } else {
        assert((first + second).drop_last() =~= first + second.drop_last());
        lemma_fragments_concat(buffer, first, second.drop_last());
    }
}

/// What is kept after so many choices were streamed, by what they hold.
pub open spec fn grown(
    before: StateView,
    after: StateView,
    events: Seq<EventView>,
    contents: Seq<Seq<char>>,
    thoughts: Seq<Seq<char>>,
    fragments: Seq<JsonView>,
) -> bool {
    &&& text_deltas(events) == contents
    &&& reasoning_deltas(events) == thoughts
    &&& after.text == before.text + run_together(contents)
    &&& after.reasoning == before.reasoning + run_together(thoughts)
    &&& after.message_open == (before.message_open || contents.len() > 0 || thoughts.len() > 0)
    &&& after.reasoning_open == (before.reasoning_open || thoughts.len() > 0)
    &&& after.tool_calls == with_fragments(before.tool_calls, fragments)
}

proof fn lemma_grown_concat(
    first: StateView,
    second: StateView,
    third: StateView,
    events: (Seq<EventView>, Seq<EventView>),
    contents: (Seq<Seq<char>>, Seq<Seq<char>>),
    thoughts: (Seq<Seq<char>>, Seq<Seq<char>>),
    fragments: (Seq<JsonView>, Seq<JsonView>),
)
    requires
        grown(first, second, events.0, contents.0, thoughts.0, fragments.0),
        grown(second, third, events.1, contents.1, thoughts.1, fragments.1),
    ensures
        grown(
            first,
            third,
            events.0 + events.1,
            contents.0 + contents.1,
            thoughts.0 + thoughts.1,
            fragments.0 + fragments.1,
        ),
{
    lemma_deltas_concat(events.0, events.1);
    lemma_run_together(contents.0, contents.1);
    lemma_run_together(thoughts.0, thoughts.1);
    lemma_fragments_concat(first.tool_calls, fragments.0, fragments.1);
    assert(third.text =~= first.text + run_together(contents.0 + contents.1));
    assert(third.reasoning =~= first.reasoning + run_together(thoughts.0 + thoughts.1));
}

proof fn lemma_choice_grows(state: StateView, choice: JsonView)
    ensures
        ({
            let (after, events) = with_choice(state, choice);
            let delta = field(choice, "delta"@);
            &&& grown(
                state,
                after,
                events,
                match delta {
                    Some(delta) => unless_empty(said(delta)),
                    None => Seq::empty(),
                },
                match delta {
                    Some(delta) => unless_empty(pondered(delta)),
                    None => Seq::empty(),
                },
                match delta {
                    Some(delta) => elements_under(delta, "tool_calls"@),
                    None => Seq::empty(),
                },
            )
            &&& after.finish_reason == match string_under(choice, "finish_reason"@) {
                Some(reason) => Some(reason),
                None => state.finish_reason,
            }
            &&& after.created_sent == state.created_sent
            &&& after.response_id == state.response_id
            &&& after.usage == state.usage
        }),
{
    let (after, events) = with_choice(state, choice);
    let none = Seq::<EventView>::empty();
    assert(text_deltas(none) =~= Seq::<Seq<char>>::empty());
    assert(reasoning_deltas(none) =~= Seq::<Seq<char>>::empty());
    assert(state.text + Seq::<char>::empty() =~= state.text);
    assert(state.reasoning + Seq::<char>::empty() =~= state.reasoning);
    if let Some(delta) = field(choice, "delta"@) {
        let noted = StateView { finish_reason: after.finish_reason, ..state };
        a_delta_is_streamed_as_it_comes(noted, delta);
        let any = pondered(delta).len() > 0 || said(delta).len() > 0;
        let added = EventView::OutputItemAdded(assistant_says(Seq::empty()));
        let thought = EventView::ReasoningContentDelta { delta: pondered(delta), content_index: 0 };
        let text = EventView::OutputTextDelta(said(delta));
        let one = when(any && !state.message_open, added);
        let two = when(pondered(delta).len() > 0, thought);
        let three = when(said(delta).len() > 0, text);
        lemma_deltas_of_one(added);
        lemma_deltas_of_one(thought);
        lemma_deltas_of_one(text);
        lemma_deltas_concat(one, two);
        lemma_deltas_concat(one + two, three);
        assert(text_deltas(events) =~= unless_empty(said(delta)));
        assert(reasoning_deltas(events) =~= unless_empty(pondered(delta)));
        lemma_unless_empty(said(delta));
        lemma_unless_empty(pondered(delta));
    }
}

proof fn lemma_choices_grow(state: StateView, choices: Seq<JsonView>)
    ensures
        ({
            let (after, events) = with_choices(state, choices);
            &&& grown(
                state,
                after,
                events,
                contents_of_choices(choices),
                thoughts_of_choices(choices),
                calls_of_choices(choices),
            )
            &&& after.finish_reason == match reason_of_choices(choices) {
                Some(reason) => Some(reason),
                None => state.finish_reason,
            }
            &&& after.created_sent == state.created_sent
            &&& after.response_id == state.response_id
            &&& after.usage == state.usage
        }),
    decreases choices.len(),
{
    if choices.len() == 0 {
        assert(text_deltas(Seq::empty()) =~= Seq::<Seq<char>>::empty());
        assert(reasoning_deltas(Seq::empty()) =~= Seq::<Seq<char>>::empty());
        assert(state.text + Seq::<char>::empty() =~= state.text);
        assert(state.reasoning + Seq::<char>::empty() =~= state.reasoning);
    } else {
        let (before, earlier) = with_choices(state, choices.drop_last());
        let (after, events) = with_choice(before, choices.last());
        lemma_choices_grow(state, choices.drop_last());
        lemma_choice_grows(before, choices.last());
        let delta = field(choices.last(), "delta"@);
        lemma_grown_concat(
            state,
            before,
            after,
            (earlier, events),
            (
                contents_of_choices(choices.drop_last()),
                match delta {
                    Some(delta) => unless_empty(said(delta)),
                    None => Seq::empty(),
                },
            ),
            (
                thoughts_of_choices(choices.drop_last()),
                match delta {
                    Some(delta) => unless_empty(pondered(delta)),
                    None => Seq::empty(),
                },
            ),
            (
                calls_of_choices(choices.drop_last()),
                match delta {
                    Some(delta) => elements_under(delta, "tool_calls"@),
                    None => Seq::empty(),
                },
            ),
        );
    }
}

/// A chunk is streamed whole: the text deltas it leads to are the nonempty strings
/// under its `choices[].delta.content`, in order and character for character, the
/// reasoning deltas those of its reasoning, and both are kept as they are streamed.
/// Its fragments go to the tool calls; its `id` names the reply where nothing did
/// before; its last `finish_reason` and a `usage` that is not null replace what was
/// known.
pub proof fn a_chunk_is_streamed_whole(state: StateView, chunk: JsonView)
    ensures
        ({
            let (after, events) = with_chunk(state, chunk);
            let choices = elements_under(chunk, "choices"@);
            &&& grown(
                state,
                after,
                events,
                contents_of_choices(choices),
                thoughts_of_choices(choices),
                calls_of_choices(choices),
            )
            &&& after.created_sent
            &&& events.len() > 0 && !state.created_sent ==> events[0] is Created
            &&& !state.created_sent ==> events.len() > 0
            &&& after.response_id == match state.response_id {
                Some(id) => Some(id),
                None => string_under(chunk, "id"@),
            }
            &&& after.finish_reason == match reason_of_choices(choices) {
                Some(reason) => Some(reason),
                None => state.finish_reason,
            }
            &&& after.usage == match field(chunk, "usage"@) {
                Some(usage) if usage !is Null => Some(usage_of(usage)),
                _ => state.usage,
            }
        }),
{
    let (started, created) = greeted(state, chunk);
    let counted = with_usage(started, chunk);
    let choices = elements_under(chunk, "choices"@);
    let (after, events) = with_choices(counted, choices);
    lemma_choices_grow(counted, choices);
    lemma_deltas_of_one(EventView::Created);
    assert(text_deltas(created) =~= Seq::<Seq<char>>::empty());
    assert(reasoning_deltas(created) =~= Seq::<Seq<char>>::empty());
    lemma_deltas_concat(created, events);
    assert(Seq::<Seq<char>>::empty() + contents_of_choices(choices) =~= contents_of_choices(
        choices,
    ));
    assert(Seq::<Seq<char>>::empty() + thoughts_of_choices(choices) =~= thoughts_of_choices(
        choices,
    ));
    assert(created + Seq::<EventView>::empty() =~= created);
}

/// Token counts are read from where they are reported: each is the integer under its
/// name, and zero where there is none. A total that is missing or zero is the sum of
/// what went in and what came out, which has to fit.
pub proof fn token_counts_are_as_reported(usage: JsonView)
    ensures
        ({
            let read = usage_of(usage);
            let input = integer_under(usage, "prompt_tokens"@);
            let output = integer_under(usage, "completion_tokens"@);
            let total = integer_under(usage, "total_tokens"@);
            &&& read.input_tokens == input
            &&& read.output_tokens == output
            &&& read.cached_input_tokens == match field(usage, "prompt_tokens_details"@) {
                Some(details) => integer_under(details, "cached_tokens"@),
                None => 0,
            }
            &&& read.reasoning_output_tokens == match field(usage, "completion_tokens_details"@) {
                Some(details) => integer_under(details, "reasoning_tokens"@),
                None => 0,
            }
            &&& read.cache_write_input_tokens == 0
            &&& total != 0 ==> read.total_tokens == total
            &&& total == 0 && i64::MIN <= input + output <= i64::MAX ==> read.total_tokens == input
                + output
        }),
{
}

/// The total of a chunk's token counts can be told.
pub open spec fn countable(chunk: JsonView) -> bool {
    match field(chunk, "usage"@) {
        Some(usage) if usage !is Null => integer_under(usage, "total_tokens"@) != 0 || i64::MIN
            <= integer_under(usage, "prompt_tokens"@) + integer_under(usage, "completion_tokens"@)
            <= i64::MAX,
        _ => true,
    }
}

/// How a stream ends.
pub enum Ending {
    /// It was said to be over, or it was closed.
    Over,
    /// Something went wrong, in these words.
    Broken(Seq<char>),
    /// The total of this chunk's token counts cannot be told.
    Uncounted(JsonView),
}

/// What one input is to a stream.
pub enum Arrival {
    /// Nothing.
    Noise,
    /// A chunk of the reply.
    Chunk(JsonView),
    /// The end of the stream.
    End(Ending),
}

/// What one input is to a stream. Data is read as JSON between the white space around
/// it; data that is blank or does not read is nothing, `[DONE]` ends the stream, and
/// so does a document that has an `error`, in the words of its `message`.
pub open spec fn arrival(input: InputView) -> Arrival {
    match input {
        InputView::Data(data) => if trim(data).len() == 0 {
            Arrival::Noise
        } else if trim(data) == "[DONE]"@ {
            Arrival::End(Ending::Over)
        } else {
            match parsed(trim(data)) {
                Err(_) => Arrival::Noise,
                Ok(document) => match field(document, "error"@) {
                    Some(error) => Arrival::End(
                        Ending::Broken(
                            match string_under(error, "message"@) {
                                Some(message) => message,
                                None => "unknown error from chat completions endpoint"@,
                            },
                        ),
                    ),
                    None => if countable(document) {
                        Arrival::Chunk(document)
                    } else {
                        Arrival::End(Ending::Uncounted(document))
                    },
                },
            }
        },
        InputView::Failed(err) => Arrival::End(Ending::Broken("chat stream error: "@ + err)),
        InputView::Closed => Arrival::End(Ending::Over),
        InputView::Idle(limit) => Arrival::End(
            Ending::Broken("chat stream idle for more than "@ + limit),
        ),
    }
}

/// The chunks of a reply that arrive before its stream ends.
pub open spec fn arrived(inputs: Seq<InputView>) -> Seq<JsonView>
    decreases inputs.len(),
{
    if inputs.len() == 0 {
        Seq::empty()
    } else {
        match arrival(inputs[0]) {
            Arrival::Noise => arrived(inputs.drop_first()),
            Arrival::Chunk(chunk) => seq![chunk] + arrived(inputs.drop_first()),
            Arrival::End(_) => Seq::empty(),
        }
    }
}

/// How a stream ends. One that runs out is over.
pub open spec fn ending(inputs: Seq<InputView>) -> Ending
    decreases inputs.len(),
{
    if inputs.len() == 0 {
        Ending::Over
    } else {
        match arrival(inputs[0]) {
            Arrival::End(ending) => ending,
            _ => ending(inputs.drop_first()),
        }
    }
}

/// The state and events after chunks, one after the other.
pub open spec fn after_chunks(state: StateView, chunks: Seq<JsonView>) -> (
    StateView,
    Seq<EventView>,
)
    decreases chunks.len(),
{
    if chunks.len() == 0 {
        (state, Seq::empty())
    } else {
        let (before, earlier) = after_chunks(state, chunks.drop_last());
        let (after, events) = with_chunk(before, chunks.last());
        (after, earlier + events)
    }
}

proof fn lemma_after_first(state: StateView, chunk: JsonView, chunks: Seq<JsonView>)
    ensures
        ({
            let (first, events) = with_chunk(state, chunk);
            let (last, more) = after_chunks(first, chunks);
            after_chunks(state, seq![chunk] + chunks) == (last, events + more)
        }),
    decreases chunks.len(),
{
    let (first, events) = with_chunk(state, chunk);
    let all = seq![chunk] + chunks;
    if chunks.len() == 0 {
        assert(all =~= seq![chunk]);
        assert(all.drop_last() =~= Seq::<JsonView>::empty());
        assert(all.last() == chunk);
        assert(after_chunks(state, all.drop_last()) == (state, Seq::<EventView>::empty()));
        assert(Seq::<EventView>::empty() + events =~= events);
        assert(events + Seq::<EventView>::empty() =~= events);
    } else {
        assert(all.drop_last() =~= seq![chunk] + chunks.drop_last());
        assert(all.last() == chunks.last());
        lemma_after_first(state, chunk, chunks.drop_last());
        let (before, earlier) = after_chunks(first, chunks.drop_last());
        let (after, late) = with_chunk(before, chunks.last());
        assert(events + earlier + late =~= events + (earlier + late));
    }
}

/// A stream is what its chunks lead to, and then its end: everything that closes the
/// reply, the one error, or the announcement of a reply whose tokens cannot be
/// counted.
pub proof fn a_stream_is_its_chunks_and_its_end(
    state: StateView,
    inputs: Seq<InputView>,
    bindings: Map<Seq<char>, BindingView>,
)
    ensures
        ({
            let run = run_of(state, inputs, bindings);
            let (last, events) = after_chunks(state, arrived(inputs));
            match ending(inputs) {
                Ending::Over => run.outcome == StepOutcome::Finished && run.signals == delivered(
                    events + finale(last, bindings),
                ),
                Ending::Broken(message) => run.outcome == StepOutcome::Finished && run.signals
                    == delivered(events).push(Err::<EventView, Seq<char>>(message)),
                Ending::Uncounted(chunk) => run.outcome == StepOutcome::UsageOverflow
                    && run.signals == delivered(events + greeted(last, chunk).1),
            }
        }),
    decreases inputs.len(),
{
    let run = run_of(state, inputs, bindings);
    let (last, events) = after_chunks(state, arrived(inputs));
    let nothing = Seq::<EventView>::empty();
    let input = if inputs.len() == 0 {
        InputView::Closed
    } else {
        inputs[0]
    };
    let step = step_of(state, input, bindings);
    match arrival(input) {
        Arrival::End(end) => {
            assert(arrived(inputs) =~= Seq::<JsonView>::empty());
            assert(nothing + finale(last, bindings) =~= finale(last, bindings));
            assert(delivered(nothing) =~= Seq::<Signal>::empty());
            match end {
                Ending::Over => {},
                Ending::Broken(message) => {
                    assert(run.signals =~= delivered(events).push(
                        Err::<EventView, Seq<char>>(message),
                    ));
                },
                Ending::Uncounted(chunk) => {
                    assert(nothing + greeted(last, chunk).1 =~= greeted(last, chunk).1);
                },
            }
        },
        Arrival::Noise => {
            let rest = run_of(state, inputs.drop_first(), bindings);
            assert(run.signals =~= rest.signals);
            a_stream_is_its_chunks_and_its_end(state, inputs.drop_first(), bindings);
        },
        Arrival::Chunk(chunk) => {
            let rest = inputs.drop_first();
            let (first, streamed) = with_chunk(state, chunk);
            assert(step.state == first && step.signals == delivered(streamed));
            a_stream_is_its_chunks_and_its_end(first, rest, bindings);
            lemma_after_first(state, chunk, arrived(rest));
            let (end, more) = after_chunks(first, arrived(rest));
            let late = run_of(first, rest, bindings);
            assert(run.signals == delivered(streamed) + late.signals);
            match ending(rest) {
                Ending::Over => {
                    assert(run.signals =~= delivered(events + finale(last, bindings)));
                },
                Ending::Broken(message) => {
                    assert(run.signals =~= delivered(events).push(
                        Err::<EventView, Seq<char>>(message),
                    ));
                },
                Ending::Uncounted(odd) => {
                    assert(run.signals =~= delivered(events + greeted(last, odd).1));
                },
            }
        },
    }
}

/// Chunks are streamed whole, one after the other.
pub proof fn chunks_are_streamed_whole(state: StateView, chunks: Seq<JsonView>)
    ensures
        ({
            let (after, events) = after_chunks(state, chunks);
            &&& grown(
                state,
                after,
                events,
                contents_of(chunks),
                thoughts_of(chunks),
                fragments_of(chunks),
            )
            &&& after.response_id == match state.response_id {
                Some(id) => Some(id),
                None => first_id(chunks),
            }
            &&& after.finish_reason == match last_reason(chunks) {
                Some(reason) => Some(reason),
                None => state.finish_reason,
            }
            &&& after.usage == match last_usage(chunks) {
                Some(usage) => Some(usage_of(usage)),
                None => state.usage,
            }
        }),
    decreases chunks.len(),
{
    if chunks.len() == 0 {
        assert(text_deltas(Seq::empty()) =~= Seq::<Seq<char>>::empty());
        assert(reasoning_deltas(Seq::empty()) =~= Seq::<Seq<char>>::empty());
        assert(state.text + Seq::<char>::empty() =~= state.text);
        assert(state.reasoning + Seq::<char>::empty() =~= state.reasoning);
    } else {
        let (before, earlier) = after_chunks(state, chunks.drop_last());
        let (after, events) = with_chunk(before, chunks.last());
        let choices = elements_under(chunks.last(), "choices"@);
        chunks_are_streamed_whole(state, chunks.drop_last());
        a_chunk_is_streamed_whole(before, chunks.last());
        lemma_grown_concat(
            state,
            before,
            after,
            (earlier, events),
            (contents_of(chunks.drop_last()), contents_of_choices(choices)),
            (thoughts_of(chunks.drop_last()), thoughts_of_choices(choices)),
            (fragments_of(chunks.drop_last()), calls_of_choices(choices)),
        );
    }
}

/// The tool calls that fragments make up.
pub open spec fn calls_made_of(fragments: Seq<JsonView>) -> Seq<CallView> {
    with_fragments(
        BufferView { calls: Seq::empty(), positions: Map::empty() },
        fragments,
    ).calls
}

/// A reply that is over says what arrived. Its text deltas are the nonempty strings
/// under `choices[].delta.content` of its chunks, one by one, and its reasoning deltas
/// those of its reasoning. Then its reasoning is closed, where there was any, with all
/// of it run together; then the assistant message, where anything was streamed, with
/// all of the text run together; then the tool calls; and last it is completed, under
/// its first id, with its last token counts, and as the end of the turn exactly where
/// the last reason to finish was `stop`.
pub proof fn a_reply_says_what_arrived(
    inputs: Seq<InputView>,
    bindings: Map<Seq<char>, BindingView>,
)
    requires
        ending(inputs) is Over,
    ensures
        ({
            let run = run_of(initial_state(), inputs, bindings);
            let chunks = arrived(inputs);
            let streamed = after_chunks(initial_state(), chunks).1;
            let text = run_together(contents_of(chunks));
            let reasoning = run_together(thoughts_of(chunks));
            &&& run.outcome == StepOutcome::Finished
            &&& text_deltas(streamed) == contents_of(chunks)
            &&& reasoning_deltas(streamed) == thoughts_of(chunks)
            &&& run.signals == delivered(
                streamed + when(
                    thoughts_of(chunks).len() > 0,
                    EventView::OutputItemDone(
                        ItemView::Reasoning { content: Some(seq![reasoning]) },
                    ),
                ) + when(
                    contents_of(chunks).len() > 0 || thoughts_of(chunks).len() > 0,
                    EventView::OutputItemDone(assistant_says(text)),
                ) + calls_done(calls_made_of(fragments_of(chunks)), bindings) + seq![
                    EventView::Completed {
                        response_id: or_nothing(first_id(chunks)),
                        token_usage: match last_usage(chunks) {
                            Some(usage) => Some(usage_of(usage)),
                            None => None,
                        },
                        end_turn: match last_reason(chunks) {
                            Some(reason) => Some(reason == "stop"@),
                            None => None,
                        },
                    },
                ],
            )
        }),
{
    let chunks = arrived(inputs);
    let (last, streamed) = after_chunks(initial_state(), chunks);
    a_stream_is_its_chunks_and_its_end(initial_state(), inputs, bindings);
    chunks_are_streamed_whole(initial_state(), chunks);
    let text = run_together(contents_of(chunks));
    let reasoning = run_together(thoughts_of(chunks));
    assert(Seq::<char>::empty() + text =~= text);
    assert(Seq::<char>::empty() + reasoning =~= reasoning);
    lemma_thoughts_not_empty(chunks);
    let closed = when(
        thoughts_of(chunks).len() > 0,
        EventView::OutputItemDone(ItemView::Reasoning { content: Some(seq![reasoning]) }),
    );
    let message = when(
        contents_of(chunks).len() > 0 || thoughts_of(chunks).len() > 0,
        EventView::OutputItemDone(assistant_says(text)),
    );
    let calls = calls_done(calls_made_of(fragments_of(chunks)), bindings);
    let completed = EventView::Completed {
        response_id: or_nothing(first_id(chunks)),
        token_usage: match last_usage(chunks) {
            Some(usage) => Some(usage_of(usage)),
            None => None,
        },
        end_turn: match last_reason(chunks) {
            Some(reason) => Some(reason == "stop"@),
            None => None,
        },
    };
    assert(finale(last, bindings) =~= closed + message + calls + seq![completed]);
    assert(streamed + (closed + message + calls + seq![completed]) =~= streamed + closed + message
        + calls + seq![completed]);
}

proof fn lemma_not_empty(texts: Seq<Seq<char>>)
    requires
        texts.len() > 0,
        forall|i: int| 0 <= i < texts.len() ==> (#[trigger] texts[i]).len() > 0,
    ensures
        run_together(texts).len() > 0,
{
    assert(texts[texts.len() - 1].len() > 0);
}

proof fn lemma_choice_thoughts(choices: Seq<JsonView>)
    ensures
        forall|i: int|
            0 <= i < thoughts_of_choices(choices).len() ==> (
            #[trigger] thoughts_of_choices(choices)[i]).len() > 0,
    decreases choices.len(),
{
    if choices.len() > 0 {
        let earlier = thoughts_of_choices(choices.drop_last());
        lemma_choice_thoughts(choices.drop_last());
        assert forall|i: int| 0 <= i < thoughts_of_choices(choices).len() implies (
        #[trigger] thoughts_of_choices(choices)[i]).len() > 0 by {
            if i < earlier.len() {
                assert(thoughts_of_choices(choices)[i] == earlier[i]);
            }
        }
    }
}

proof fn lemma_thoughts(chunks: Seq<JsonView>)
    ensures
        forall|i: int|
            0 <= i < thoughts_of(chunks).len() ==> (#[trigger] thoughts_of(chunks)[i]).len() > 0,
    decreases chunks.len(),
{
    if chunks.len() > 0 {
        lemma_thoughts(chunks.drop_last());
        let choices = elements_under(chunks.last(), "choices"@);
        let earlier = thoughts_of(chunks.drop_last());
        lemma_choice_thoughts(choices);
        assert forall|i: int| 0 <= i < thoughts_of(chunks).len() implies (
        #[trigger] thoughts_of(chunks)[i]).len() > 0 by {
            if i < earlier.len() {
                assert(thoughts_of(chunks)[i] == earlier[i]);
            } else {
                assert(thoughts_of(chunks)[i] == thoughts_of_choices(choices)[i - earlier.len()]);
            }
        }
    }
}

proof fn lemma_thoughts_not_empty(chunks: Seq<JsonView>)
    ensures
        thoughts_of(chunks).len() > 0 <==> run_together(thoughts_of(chunks)).len() > 0,
{
    lemma_thoughts(chunks);
    if thoughts_of(chunks).len() > 0 {
        lemma_not_empty(thoughts_of(chunks));
    }
}

/// A reply that breaks off streams what arrived, and ends in one error, in its words.
pub proof fn a_broken_reply_says_why(inputs: Seq<InputView>, bindings: Map<Seq<char>, BindingView>)
    requires
        ending(inputs) is Broken,
    ensures
        ({
            let run = run_of(initial_state(), inputs, bindings);
            let chunks = arrived(inputs);
            let streamed = after_chunks(initial_state(), chunks).1;
            &&& run.outcome == StepOutcome::Finished
            &&& text_deltas(streamed) == contents_of(chunks)
            &&& reasoning_deltas(streamed) == thoughts_of(chunks)
            &&& run.signals == delivered(streamed).push(
                Err::<EventView, Seq<char>>(ending(inputs)->Broken_0),
            )
        }),
{
    a_stream_is_its_chunks_and_its_end(initial_state(), inputs, bindings);
    chunks_are_streamed_whole(initial_state(), arrived(inputs));
}

/// The string under `function.<key>` of a fragment.
pub open spec fn function_string(fragment: JsonView, key: Seq<char>) -> Option<Seq<char>> {
    match field(fragment, "function"@) {
        Some(function) => string_under(function, key),
        None => None,
    }
}

/// The integer under `index` of a fragment, where there is one.
pub open spec fn wire_index(fragment: JsonView) -> Option<i64> {
    match field(fragment, "index"@) {
        Some(JsonView::Number(number)) => integer_of(number),
        _ => None,
    }
}

/// The call after a fragment of it: the arguments are run together, the id is the last
/// that was given, and so is the name, but that an empty one does not count.
pub open spec fn continued(before: CallView, after: CallView, fragment: JsonView) -> bool {
    &&& after.arguments == before.arguments + or_nothing(function_string(fragment, "arguments"@))
    &&& after.id == match string_under(fragment, "id"@) {
        Some(id) => Some(id),
        None => before.id,
    }
    &&& after.name == match function_string(fragment, "name"@) {
        Some(name) if name.len() > 0 => Some(name),
        _ => before.name,
    }
}

/// A call of which nothing is known.
pub open spec fn unknown_call() -> CallView {
    CallView { id: None, name: None, arguments: Seq::empty() }
}

/// The call at `at` is continued by the fragment, and no other call is touched.
pub open spec fn only_continues(
    before: Seq<CallView>,
    after: Seq<CallView>,
    at: int,
    fragment: JsonView,
) -> bool {
    &&& 0 <= at < before.len()
    &&& after.len() == before.len()
    &&& continued(before[at], after[at], fragment)
    &&& forall|i: int| 0 <= i < before.len() && i != at ==> #[trigger] after[i] == before[i]
}

/// The fragment starts a call behind all others, and none of those is touched.
pub open spec fn only_starts(
    before: Seq<CallView>,
    after: Seq<CallView>,
    fragment: JsonView,
) -> bool {
    &&& after.len() == before.len() + 1
    &&& continued(unknown_call(), after[before.len() as int], fragment)
    &&& forall|i: int| 0 <= i < before.len() ==> #[trigger] after[i] == before[i]
}

/// A fragment belongs to the call of its `index`; without one, to the first call that
/// has its `id`; without either, to the last call. Where there is no such call it
/// starts one. It touches no other call.
pub proof fn a_fragment_continues_its_call(buffer: BufferView, fragment: JsonView)
    requires
        buffer_wf(buffer),
        buffer.calls.len() < usize::MAX,
    ensures
        ({
            let after = with_fragment(buffer, fragment);
            match (wire_index(fragment), string_under(fragment, "id"@)) {
                (Some(index), _) => if buffer.positions.contains_key(index) {
                    &&& only_continues(
                        buffer.calls,
                        after.calls,
                        buffer.positions[index] as int,
                        fragment,
                    )
                    &&& after.positions == buffer.positions
                } else {
                    &&& only_starts(buffer.calls, after.calls, fragment)
                    &&& after.positions == buffer.positions.insert(
                        index,
                        buffer.calls.len() as usize,
                    )
                },
                (None, Some(id)) => {
                    &&& after.positions == buffer.positions
                    &&& (forall|i: int| 0 <= i < buffer.calls.len() ==> (
                    #[trigger] buffer.calls[i]).id != Some(id)) ==> only_starts(
                        buffer.calls,
                        after.calls,
                        fragment,
                    )
                    &&& forall|at: int|
                        0 <= at < buffer.calls.len() && (#[trigger] buffer.calls[at]).id == Some(id)
                            && (forall|i: int| 0 <= i < at ==> (#[trigger] buffer.calls[i]).id
                            != Some(id)) ==> only_continues(
                            buffer.calls,
                            after.calls,
                            at,
                            fragment,
                        )
                },
                (None, None) => {
                    &&& after.positions == buffer.positions
                    &&& if buffer.calls.len() == 0 {
                        only_starts(buffer.calls, after.calls, fragment)
                    } else {
                        only_continues(
                            buffer.calls,
                            after.calls,
                            buffer.calls.len() - 1,
                            fragment,
                        )
                    }
                },
            }
        }),
{
    if wire_index(fragment) is None {
        if let Some(id) = string_under(fragment, "id"@) {
            if exists|position: int| first_with_id(buffer.calls, id, position) {
                let position = choose|position: int| first_with_id(buffer.calls, id, position);
                assert(buffer.calls[position].id == Some(id));
                assert forall|at: int|
                    0 <= at < buffer.calls.len() && (#[trigger] buffer.calls[at]).id == Some(id)
                        && (forall|i: int| 0 <= i < at ==> (#[trigger] buffer.calls[i]).id
                        != Some(id)) implies at == position by {
                    if at < position {
                        assert(!has_id(buffer.calls, id, at));
                    }
                }
            } else {
                assert forall|at: int|
                    0 <= at < buffer.calls.len() && (#[trigger] buffer.calls[at]).id == Some(
                        id,
                    ) implies !(forall|i: int| 0 <= i < at ==> (#[trigger] buffer.calls[i]).id
                    != Some(id)) by {
                    assert(!first_with_id(buffer.calls, id, at));
                    let i = choose|i: int| 0 <= i < at && has_id(buffer.calls, id, i);
                    assert(buffer.calls[i].id == Some(id));
                }
            }
        }
    }
}

/// Fragments are taken one by one, in the order in which they come.
pub proof fn fragments_are_taken_one_by_one(
    buffer: BufferView,
    fragments: Seq<JsonView>,
    fragment: JsonView,
)
    ensures
        with_fragments(buffer, Seq::empty()) == buffer,
        with_fragments(buffer, fragments.push(fragment)) == with_fragment(
            with_fragments(buffer, fragments),
            fragment,
        ),
{
    assert(fragments.push(fragment).drop_last() =~= fragments);
}

/// The item that a named call is: a function call, or the raw input of a freeform
/// tool, of the tool that the name is bound to. A name that is bound to nothing is
/// that of a plain function. The id is the call's own where it has one, and else made
/// up of its position and name.
pub open spec fn is_call(
    item: ItemView,
    call: CallView,
    name: Seq<char>,
    position: nat,
    bindings: Map<Seq<char>, BindingView>,
) -> bool {
    let own_id = match call.id {
        Some(id) => id,
        None => "call_"@ + decimal(position) + "_"@ + name,
    };
    let (tool_name, namespace, freeform) = if bindings.contains_key(name) {
        (bindings[name].name, bindings[name].namespace, bindings[name].freeform)
    } else {
        (name, None, false)
    };
    if freeform {
        &&& item matches ItemView::CustomToolCall { call_id, name, namespace: within, input }
        &&& name == tool_name
        &&& within == namespace
        &&& call_id == own_id
        &&& input == match parsed(call.arguments) {
            Ok(document) => match string_under(document, "input"@) {
                Some(input) => input,
                None => call.arguments,
            },
            Err(_) => call.arguments,
        }
    } else {
        &&& item matches ItemView::FunctionCall { name, namespace: within, arguments, call_id }
        &&& name == tool_name
        &&& within == namespace
        &&& call_id == own_id
        &&& arguments == if trim(call.arguments).len() == 0 {
            "{}"@
        } else {
            call.arguments
        }
    }
}

/// Every call that was named is reported, in order, as the tool it names with the
/// arguments that arrived; a call that was never named is not.
pub proof fn every_named_call_is_reported(
    calls: Seq<CallView>,
    call: CallView,
    bindings: Map<Seq<char>, BindingView>,
)
    ensures
        calls_done(Seq::empty(), bindings) == Seq::<EventView>::empty(),
        match call.name {
            None => calls_done(calls.push(call), bindings) == calls_done(calls, bindings),
            Some(name) => {
                let events = calls_done(calls.push(call), bindings);
                &&& events.len() == calls_done(calls, bindings).len() + 1
                &&& events.drop_last() == calls_done(calls, bindings)
                &&& events.last() matches EventView::OutputItemDone(item) && is_call(
                    item,
                    call,
                    name,
                    calls.len(),
                    bindings,
                )
            },
        },
{
    assert(calls.push(call).drop_last() =~= calls);
    if call.name is Some {
        assert(calls_done(calls.push(call), bindings).drop_last() =~= calls_done(calls, bindings));
    }
}

} // verus!
