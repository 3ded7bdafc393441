//! What holds of every stream.
//!
//! The lifecycle a session relies on: a reply is announced once and before
//! anything else, an item is open before any delta, what is closed is what was
//! streamed, and the stream ends once.

use vstd::prelude::*;
use crate::json::{as_integer, as_items, field, parsed, text_field, JsonView};
use crate::protocol::{delivered, EventView, ItemView, Signal};
use crate::text::{decimal, lemma_decimal, lemma_decimal_injective, text_or_empty, trim};
use crate::tools::BindingView;
use super::chunks::{
    chunk_fits, greeted, reported_usage, usage_of, with_choice, with_choices, with_chunk,
    with_usage,
};
use super::finish::{call_id_of, calls_done, completed, finale, message_done, reasoning_done};
use super::state::{
    assistant_message, content_of, initial_state, opened, reasoning_of, with_content, with_delta,
    with_reasoning, StateView,
};
use super::stream::{concluded, run_of, step_of, unchanged, InputView, StepOutcome, StepView};
use super::tool_calls::{buffer_wf, function_text, slot_for, with_fragments, BufferView, CallView};

verus! {

/// The text that a run of events streams.
pub open spec fn spoken(events: Seq<EventView>) -> Seq<char>
    decreases events.len(),
{
    if events.len() == 0 {
        Seq::empty()
    } else {
        match events.last() {
            EventView::OutputTextDelta(delta) => spoken(events.drop_last()) + delta,
            _ => spoken(events.drop_last()),
        }
    }
}

/// The reasoning that a run of events streams.
pub open spec fn thought(events: Seq<EventView>) -> Seq<char>
    decreases events.len(),
{
    if events.len() == 0 {
        Seq::empty()
    } else {
        match events.last() {
            EventView::ReasoningContentDelta { delta, .. } => thought(events.drop_last()) + delta,
            _ => thought(events.drop_last()),
        }
    }
}

/// An event that only streams: it neither closes an item nor the reply.
pub open spec fn streaming(event: EventView) -> bool {
    event !is OutputItemDone && event !is Completed
}

/// An event that adds to the open item.
pub open spec fn delta_event(event: EventView) -> bool {
    event is OutputTextDelta || event is ReasoningContentDelta
}

/// The reply was announced before position `i`.
pub open spec fn announced_before(events: Seq<EventView>, i: int) -> bool {
    exists|j: int| 0 <= j < i && #[trigger] events[j] is Created
}

/// An item was opened before position `i`.
pub open spec fn opened_before(events: Seq<EventView>, i: int) -> bool {
    exists|j: int| 0 <= j < i && #[trigger] events[j] is OutputItemAdded
}

/// Every event stands where it may: the announcement and the opening of the item
/// come once, every item and delta comes after the announcement, and a delta comes
/// after the opening.
pub open spec fn orderly(events: Seq<EventView>) -> bool {
    forall|i: int|
        0 <= i < events.len() ==> {
            &&& (#[trigger] events[i] is Created ==> !announced_before(events, i))
            &&& (events[i] !is Created && events[i] !is Completed ==> announced_before(
                events,
                i,
            ))
            &&& (events[i] is OutputItemAdded ==> !opened_before(events, i))
            &&& (delta_event(events[i]) ==> opened_before(events, i))
        }
}

/// What has been reported agrees with the state of the stream.
pub open spec fn in_step(state: StateView, events: Seq<EventView>) -> bool {
    &&& orderly(events)
    &&& forall|i: int| 0 <= i < events.len() ==> streaming(#[trigger] events[i])
    &&& state.created_sent == announced_before(events, events.len() as int)
    &&& state.message_open == opened_before(events, events.len() as int)
    &&& state.text == spoken(events)
    &&& state.reasoning == thought(events)
    &&& state.reasoning_open == (state.reasoning.len() > 0)
    &&& state.reasoning_open ==> state.message_open
    &&& state.message_open ==> state.created_sent
    &&& state.tool_calls.calls.len() > 0 ==> state.created_sent
}

/// Reporting one more event that may come next keeps the order.
proof fn lemma_push(events: Seq<EventView>, event: EventView)
    requires
        orderly(events),
        event is Created ==> !announced_before(events, events.len() as int),
        event !is Created && event !is Completed ==> announced_before(
            events,
            events.len() as int,
        ),
        event is OutputItemAdded ==> !opened_before(events, events.len() as int),
        delta_event(event) ==> opened_before(events, events.len() as int),
    ensures
        orderly(events.push(event)),
        announced_before(events.push(event), (events.len() + 1) as int) == (event is Created
            || announced_before(events, events.len() as int)),
        opened_before(events.push(event), (events.len() + 1) as int) == (event is OutputItemAdded
            || opened_before(events, events.len() as int)),
        spoken(events.push(event)) == (match event {
            EventView::OutputTextDelta(delta) => spoken(events) + delta,
            _ => spoken(events),
        }),
        thought(events.push(event)) == (match event {
            EventView::ReasoningContentDelta { delta, .. } => thought(events) + delta,
            _ => thought(events),
        }),
{
    let longer = events.push(event);
    assert(longer.drop_last() =~= events);
    assert forall|i: int| 0 <= i <= events.len() implies #[trigger] announced_before(longer, i)
        == announced_before(events, i) by {
        if announced_before(events, i) {
            let j = choose|j: int| 0 <= j < i && #[trigger] events[j] is Created;
            assert(longer[j] is Created);
        }
        if announced_before(longer, i) {
            let j = choose|j: int| 0 <= j < i && #[trigger] longer[j] is Created;
            assert(events[j] is Created);
        }
    }
    assert forall|i: int| 0 <= i <= events.len() implies #[trigger] opened_before(longer, i)
        == opened_before(events, i) by {
        if opened_before(events, i) {
            let j = choose|j: int| 0 <= j < i && #[trigger] events[j] is OutputItemAdded;
            assert(longer[j] is OutputItemAdded);
        }
        if opened_before(longer, i) {
            let j = choose|j: int| 0 <= j < i && #[trigger] longer[j] is OutputItemAdded;
            assert(events[j] is OutputItemAdded);
        }
    }
    assert forall|i: int| 0 <= i < longer.len() implies ({
        &&& (#[trigger] longer[i] is Created ==> !announced_before(longer, i))
        &&& (longer[i] !is Created && longer[i] !is Completed ==> announced_before(longer, i))
        &&& (longer[i] is OutputItemAdded ==> !opened_before(longer, i))
        &&& (delta_event(longer[i]) ==> opened_before(longer, i))
    }) by {
        if i < events.len() {
            assert(longer[i] == events[i]);
        }
    }
    let end = events.len() as int;
    if event is Created {
        assert(longer[end] is Created);
    }
    if event is OutputItemAdded {
        assert(longer[end] is OutputItemAdded);
    }
    if announced_before(longer, end + 1) && event !is Created {
        let j = choose|j: int| 0 <= j < end + 1 && #[trigger] longer[j] is Created;
        assert(events[j] is Created);
    }
    if announced_before(events, end) {
        let j = choose|j: int| 0 <= j < end && #[trigger] events[j] is Created;
        assert(longer[j] is Created);
    }
    if opened_before(longer, end + 1) && event !is OutputItemAdded {
        let j = choose|j: int| 0 <= j < end + 1 && #[trigger] longer[j] is OutputItemAdded;
        assert(events[j] is OutputItemAdded);
    }
    if opened_before(events, end) {
        let j = choose|j: int| 0 <= j < end && #[trigger] events[j] is OutputItemAdded;
        assert(longer[j] is OutputItemAdded);
    }
}

/// The head of a chunk keeps the reports in step.
proof fn lemma_greeted(state: StateView, events: Seq<EventView>, chunk: JsonView)
    requires
        in_step(state, events),
    ensures
        in_step(greeted(state, chunk).0, events + greeted(state, chunk).1),
        greeted(state, chunk).0.created_sent,
{
    if state.created_sent {
        assert(events + greeted(state, chunk).1 =~= events);
    } else {
        lemma_push(events, EventView::Created);
        assert(events + greeted(state, chunk).1 =~= events.push(EventView::Created));
    }
}

/// Opening an item keeps the reports in step.
proof fn lemma_opened(state: StateView, events: Seq<EventView>)
    requires
        in_step(state, events),
        state.created_sent,
    ensures
        in_step(opened(state).0, events + opened(state).1),
{
    if state.message_open {
        assert(events + opened(state).1 =~= events);
    } else {
        let event = EventView::OutputItemAdded(assistant_message(Seq::empty()));
        lemma_push(events, event);
        assert(events + opened(state).1 =~= events.push(event));
    }
}

/// A delta keeps the reports in step.
proof fn lemma_delta(state: StateView, events: Seq<EventView>, delta: JsonView)
    requires
        in_step(state, events),
        state.created_sent,
    ensures
        in_step(with_delta(state, delta).0, events + with_delta(state, delta).1),
        with_delta(state, delta).0.created_sent,
{
    let (reasoned, first) = with_reasoning(state, delta);
    assert(in_step(reasoned, events + first)) by {
        match reasoning_of(delta) {
            Some(text) => {
                lemma_opened(state, events);
                let event = EventView::ReasoningContentDelta { delta: text, content_index: 0 };
                lemma_push(events + opened(state).1, event);
                assert(events + first =~= (events + opened(state).1).push(event));
            },
            None => {
                assert(events + first =~= events);
            },
        }
    }
    let (said, second) = with_content(reasoned, delta);
    assert(in_step(said, events + first + second)) by {
        match content_of(delta) {
            Some(text) => {
                lemma_opened(reasoned, events + first);
                let event = EventView::OutputTextDelta(text);
                lemma_push(events + first + opened(reasoned).1, event);
                assert(events + first + second =~= (events + first + opened(reasoned).1).push(
                    event,
                ));
            },
            None => {
                assert(events + first + second =~= events + first);
            },
        }
    }
    assert(events + first + second =~= events + (first + second));
}

/// A run of choices keeps the reports in step.
proof fn lemma_choices(state: StateView, events: Seq<EventView>, choices: Seq<JsonView>)
    requires
        in_step(state, events),
        state.created_sent,
    ensures
        in_step(with_choices(state, choices).0, events + with_choices(state, choices).1),
        with_choices(state, choices).0.created_sent,
    decreases choices.len(),
{
    if choices.len() == 0 {
        assert(events + Seq::<EventView>::empty() =~= events);
    } else {
        lemma_choices(state, events, choices.drop_last());
        let (before, earlier) = with_choices(state, choices.drop_last());
        let choice = choices.last();
        let noted = StateView {
            finish_reason: match text_field(choice, "finish_reason"@) {
                Some(reason) => Some(reason),
                None => before.finish_reason,
            },
            ..before
        };
        assert(in_step(noted, events + earlier));
        match field(choice, "delta"@) {
            Some(delta) => {
                lemma_delta(noted, events + earlier, delta);
            },
            None => {
                assert(events + earlier + Seq::<EventView>::empty() =~= events + earlier);
            },
        }
        let (after, added) = with_choice(before, choice);
        assert(events + earlier + added =~= events + (earlier + added));
    }
}

/// A chunk keeps the reports in step.
proof fn lemma_chunk(state: StateView, events: Seq<EventView>, chunk: JsonView)
    requires
        in_step(state, events),
    ensures
        in_step(with_chunk(state, chunk).0, events + with_chunk(state, chunk).1),
{
    lemma_greeted(state, events, chunk);
    let (started, created) = greeted(state, chunk);
    let counted = with_usage(started, chunk);
    assert(in_step(counted, events + created));
    if let Some(choices) = as_items(field(chunk, "choices"@)) {
        lemma_choices(counted, events + created, choices);
        let (after, added) = with_choices(counted, choices);
        assert(events + created + added =~= events + (created + added));
    }
}

/// The events among a run of reports.
pub open spec fn events_of(signals: Seq<Signal>) -> Seq<EventView>
    decreases signals.len(),
{
    if signals.len() == 0 {
        Seq::empty()
    } else {
        match signals.last() {
            Ok(event) => events_of(signals.drop_last()).push(event),
            Err(_) => events_of(signals.drop_last()),
        }
    }
}

proof fn lemma_events_of_delivered(events: Seq<EventView>)
    ensures
        events_of(delivered(events)) == events,
    decreases events.len(),
{
    if events.len() == 0 {
        assert(events_of(delivered(events)) =~= events);
    } else {
        assert(delivered(events).drop_last() =~= delivered(events.drop_last()));
        lemma_events_of_delivered(events.drop_last());
        assert(events =~= events.drop_last().push(events.last()));
    }
}

/// How a stream ends that streamed `sent` and stood at `state` then: with
/// everything that closes the reply, with an error, or with token counts that
/// cannot be added up.
pub open spec fn ends_with(
    run: StepView,
    sent: Seq<EventView>,
    state: StateView,
    bindings: Map<Seq<char>, BindingView>,
) -> bool {
    &&& in_step(state, sent)
    &&& match run.outcome {
        StepOutcome::Continue => false,
        StepOutcome::Finished => {
            ||| run.signals == delivered(sent + finale(state, bindings))
            ||| exists|message: Seq<char>| run.signals == #[trigger] failed(sent, message)
        },
        StepOutcome::UsageOverflow => run.signals == delivered(sent),
    }
}

/// The reports of a stream that streamed `sent` and then failed.
pub open spec fn failed(sent: Seq<EventView>, message: Seq<char>) -> Seq<Signal> {
    delivered(sent).push(Err::<EventView, Seq<char>>(message))
}

proof fn lemma_run(
    state: StateView,
    events: Seq<EventView>,
    inputs: Seq<InputView>,
    bindings: Map<Seq<char>, BindingView>,
) -> (end: (Seq<EventView>, StateView))
    requires
        in_step(state, events),
    ensures
        ({
            let run = run_of(state, inputs, bindings);
            ends_with(
                StepView { signals: delivered(events) + run.signals, ..run },
                end.0,
                end.1,
                bindings,
            )
        }),
    decreases inputs.len(),
{
    let input = if inputs.len() == 0 {
        InputView::Closed
    } else {
        inputs[0]
    };
    let step = step_of(state, input, bindings);
    let run = run_of(state, inputs, bindings);
    if step == concluded(state, bindings) {
        assert(delivered(events) + run.signals =~= delivered(events + finale(state, bindings)));
        (events, state)
    } else if step.outcome == StepOutcome::Finished {
        assert(step.signals.len() == 1);
        let message = step.signals[0]->Err_0;
        assert(delivered(events) + run.signals =~= failed(events, message));
        (events, state)
    } else if step == unchanged(state) {
        let rest = run_of(state, inputs.drop_first(), bindings);
        assert(run.signals =~= rest.signals);
        lemma_run(state, events, inputs.drop_first(), bindings)
    } else {
        let chunk = parsed(trim(input->Data_0))->Ok_0;
        if chunk_fits(chunk) {
            let (after, added) = with_chunk(state, chunk);
            lemma_chunk(state, events, chunk);
            let rest = run_of(after, inputs.drop_first(), bindings);
            assert(delivered(events) + run.signals =~= delivered(events + added) + rest.signals);
            lemma_run(after, events + added, inputs.drop_first(), bindings)
        } else {
            let (after, added) = greeted(state, chunk);
            lemma_greeted(state, events, chunk);
            assert(delivered(events) + run.signals =~= delivered(events + added));
            (events + added, after)
        }
    }
}

/// A stream either closes everything it opened and completes, or fails: it
/// streams its events in order, and then comes the whole close of the reply or
/// one error. Token counts that cannot be added up stop it short of either.
pub proof fn a_stream_closes_what_it_opened(
    inputs: Seq<InputView>,
    bindings: Map<Seq<char>, BindingView>,
) -> (end: (Seq<EventView>, StateView))
    ensures
        ends_with(run_of(initial_state(), inputs, bindings), end.0, end.1, bindings),
{
    let nothing = Seq::<EventView>::empty();
    assert(in_step(initial_state(), nothing));
    let run = run_of(initial_state(), inputs, bindings);
    assert(delivered(nothing) + run.signals =~= run.signals);
    lemma_run(initial_state(), nothing, inputs, bindings)
}

/// Closing items after the announcement keeps the order, and streams nothing.
proof fn lemma_push_closed(events: Seq<EventView>, closed: Seq<EventView>)
    requires
        orderly(events),
        closed.len() > 0 ==> announced_before(events, events.len() as int),
        forall|i: int| 0 <= i < closed.len() ==> #[trigger] closed[i] is OutputItemDone,
    ensures
        orderly(events + closed),
        closed.len() > 0 ==> announced_before(events + closed, (events + closed).len() as int),
        opened_before(events + closed, (events + closed).len() as int) == opened_before(
            events,
            events.len() as int,
        ),
        spoken(events + closed) == spoken(events),
        thought(events + closed) == thought(events),
    decreases closed.len(),
{
    if closed.len() == 0 {
        assert(events + closed =~= events);
    } else {
        lemma_push_closed(events, closed.drop_last());
        assert(events + closed =~= (events + closed.drop_last()).push(closed.last()));
        if closed.len() == 1 {
            assert(events + closed.drop_last() =~= events);
        }
        lemma_push(events + closed.drop_last(), closed.last());
    }
}

/// The events that report tool calls close items, none of which is a message or
/// reasoning.
proof fn lemma_calls_done(calls: Seq<CallView>, bindings: Map<Seq<char>, BindingView>)
    ensures
        calls_done(calls, bindings).len() <= calls.len(),
        forall|i: int|
            0 <= i < calls_done(calls, bindings).len() ==> {
                &&& #[trigger] calls_done(calls, bindings)[i] is OutputItemDone
                &&& (calls_done(calls, bindings)[i]->OutputItemDone_0 is FunctionCall
                    || calls_done(calls, bindings)[i]->OutputItemDone_0 is CustomToolCall)
            },
    decreases calls.len(),
{
    if calls.len() > 0 {
        lemma_calls_done(calls.drop_last(), bindings);
    }
}

/// The events that close the items of a reply.
pub open spec fn closing(state: StateView, bindings: Map<Seq<char>, BindingView>) -> Seq<EventView> {
    reasoning_done(state) + message_done(state) + calls_done(state.tool_calls.calls, bindings)
}

proof fn lemma_finale(
    state: StateView,
    sent: Seq<EventView>,
    bindings: Map<Seq<char>, BindingView>,
)
    requires
        in_step(state, sent),
    ensures
        orderly(sent + finale(state, bindings)),
        forall|i: int|
            0 <= i < closing(state, bindings).len() ==> #[trigger] closing(
                state,
                bindings,
            )[i] is OutputItemDone,
        spoken(sent + finale(state, bindings)) == spoken(sent),
        thought(sent + finale(state, bindings)) == thought(sent),
        opened_before(
            sent + finale(state, bindings),
            (sent + finale(state, bindings)).len() as int,
        ) == state.message_open,
{
    let closed = closing(state, bindings);
    lemma_calls_done(state.tool_calls.calls, bindings);
    lemma_push_closed(sent, closed);
    lemma_push(sent + closed, completed(state));
    assert(sent + finale(state, bindings) =~= (sent + closed).push(completed(state)));
}

/// The reports of every stream stand in order: the reply is announced at most
/// once and before anything else it holds, an item is opened at most once, and no
/// delta comes before that.
pub proof fn every_stream_is_orderly(
    inputs: Seq<InputView>,
    bindings: Map<Seq<char>, BindingView>,
)
    ensures
        orderly(events_of(run_of(initial_state(), inputs, bindings).signals)),
{
    let run = run_of(initial_state(), inputs, bindings);
    let (sent, state) = a_stream_closes_what_it_opened(inputs, bindings);
    lemma_finale(state, sent, bindings);
    lemma_events_of_delivered(sent);
    lemma_events_of_delivered(sent + finale(state, bindings));
    if run.outcome == StepOutcome::Finished && run.signals != delivered(
        sent + finale(state, bindings),
    ) {
        let message = choose|message: Seq<char>| run.signals == #[trigger] failed(sent, message);
        assert(run.signals.drop_last() =~= delivered(sent));
    }
}

/// A report that ends a stream.
pub open spec fn ending(report: Signal) -> bool {
    match report {
        Ok(event) => event is Completed,
        Err(_) => true,
    }
}

/// A stream ends, and ends once: its last report completes the reply or is an
/// error, and no other report is either. Where token counts cannot be added up
/// there is no such report at all.
pub proof fn every_stream_ends_once(inputs: Seq<InputView>, bindings: Map<Seq<char>, BindingView>)
    ensures
        ({
            let run = run_of(initial_state(), inputs, bindings);
            &&& run.outcome != StepOutcome::Continue
            &&& run.outcome == StepOutcome::Finished ==> run.signals.len() > 0 && ending(
                run.signals.last(),
            )
            &&& forall|i: int|
                0 <= i < run.signals.len() && #[trigger] ending(run.signals[i]) ==> run.outcome
                    == StepOutcome::Finished && i == run.signals.len() - 1
        }),
{
    let run = run_of(initial_state(), inputs, bindings);
    let (sent, state) = a_stream_closes_what_it_opened(inputs, bindings);
    lemma_finale(state, sent, bindings);
    let whole = sent + finale(state, bindings);
    assert(finale(state, bindings) =~= closing(state, bindings).push(completed(state)));
    assert(delivered(whole).last() == Ok::<EventView, Seq<char>>(completed(state)));
    assert forall|i: int| 0 <= i < sent.len() implies !ending(#[trigger] delivered(sent)[i]) by {
        assert(streaming(sent[i]));
    }
    assert forall|i: int| 0 <= i < whole.len() - 1 implies !ending(
        #[trigger] delivered(whole)[i],
    ) by {
        if i < sent.len() {
            assert(streaming(sent[i]));
        } else {
            assert(whole[i] == closing(state, bindings)[i - sent.len()]);
        }
    }
    if run.outcome == StepOutcome::Finished && run.signals != delivered(whole) {
        let message = choose|message: Seq<char>| run.signals == #[trigger] failed(sent, message);
        assert forall|i: int| 0 <= i < run.signals.len() - 1 implies !ending(
            #[trigger] run.signals[i],
        ) by {
            assert(run.signals[i] == delivered(sent)[i]);
        }
    }
}

/// What a completed reply closes is what it streamed: the one message it closes
/// holds the text of all its text deltas, the one reasoning item the text of all
/// its reasoning deltas, and an item that was opened is closed.
pub proof fn what_is_closed_is_what_was_streamed(
    inputs: Seq<InputView>,
    bindings: Map<Seq<char>, BindingView>,
)
    ensures
        ({
            let run = run_of(initial_state(), inputs, bindings);
            let events = events_of(run.signals);
            run.signals.len() > 0 && run.signals.last() is Ok && run.outcome
                == StepOutcome::Finished ==> {
                &&& forall|i: int|
                    0 <= i < events.len() && #[trigger] closes_message(events[i]) ==> events[i]
                        == EventView::OutputItemDone(assistant_message(spoken(events)))
                &&& forall|i: int|
                    0 <= i < events.len() && #[trigger] closes_reasoning(events[i]) ==> events[i]
                        == EventView::OutputItemDone(
                        ItemView::Reasoning { content: Some(seq![thought(events)]) },
                    )
                &&& forall|i: int, j: int|
                    0 <= i < j < events.len() ==> {
                        &&& !(#[trigger] closes_message(events[i]) && #[trigger] closes_message(
                            events[j],
                        ))
                        &&& !(closes_reasoning(events[i]) && closes_reasoning(events[j]))
                    }
                &&& opened_before(events, events.len() as int) <==> (exists|i: int|
                    0 <= i < events.len() && #[trigger] closes_message(events[i]))
                &&& thought(events).len() > 0 <==> (exists|i: int|
                    0 <= i < events.len() && #[trigger] closes_reasoning(events[i]))
            }
        }),
{
    let run = run_of(initial_state(), inputs, bindings);
    let (sent, state) = a_stream_closes_what_it_opened(inputs, bindings);
    let whole = sent + finale(state, bindings);
    lemma_finale(state, sent, bindings);
    lemma_events_of_delivered(whole);
    lemma_calls_done(state.tool_calls.calls, bindings);
    if run.outcome == StepOutcome::Finished && run.signals.last() is Ok {
        if run.signals != delivered(whole) {
            let message = choose|message: Seq<char>|
                run.signals == #[trigger] failed(sent, message);
            assert(run.signals.last() is Err);
        }
        let reasoning = reasoning_done(state);
        let message = message_done(state);
        let calls = calls_done(state.tool_calls.calls, bindings);
        let first = sent.len() as int;
        let second = first + reasoning.len();
        let third = second + message.len();
        let fourth = third + calls.len();
        assert forall|i: int| 0 <= i < whole.len() implies ({
            &&& closes_message(#[trigger] whole[i]) ==> second <= i < third
            &&& closes_reasoning(whole[i]) ==> first <= i < second
        }) by {
            if i < first {
                assert(streaming(sent[i]));
            } else if i < second {
                assert(whole[i] == reasoning[i - first]);
            } else if i < third {
                assert(whole[i] == message[i - second]);
            } else if i < fourth {
                assert(whole[i] == calls[i - third]);
            }
        }
        if reasoning.len() > 0 {
            assert(whole[first] == reasoning[0]);
            assert(closes_reasoning(whole[first]));
        }
        if message.len() > 0 {
            assert(whole[second] == message[0]);
            assert(closes_message(whole[second]));
        }
    }
}

/// An event that closes a message.
pub open spec fn closes_message(event: EventView) -> bool {
    event matches EventView::OutputItemDone(item) && item is Message
}

/// An event that closes a reasoning item.
pub open spec fn closes_reasoning(event: EventView) -> bool {
    event matches EventView::OutputItemDone(item) && item is Reasoning
}

/// An input that says the reply is over.
pub open spec fn says_done(input: InputView) -> bool {
    match input {
        InputView::Data(data) => trim(data).len() > 0 && trim(data) == "[DONE]"@,
        InputView::Closed => true,
        _ => false,
    }
}

/// A truncated stream lands as one that was ended properly: to close the stream
/// is to say that it is done, and nothing that comes after that is looked at.
pub proof fn a_closed_stream_is_a_finished_one(
    state: StateView,
    inputs: Seq<InputView>,
    done: InputView,
    more: Seq<InputView>,
    bindings: Map<Seq<char>, BindingView>,
)
    requires
        says_done(done),
    ensures
        run_of(state, inputs.push(done) + more, bindings) == run_of(state, inputs, bindings),
    decreases inputs.len(),
{
    let longer = inputs.push(done) + more;
    if inputs.len() == 0 {
        assert(longer[0] == done);
        assert(step_of(state, done, bindings) == concluded(state, bindings));
    } else {
        assert(longer[0] == inputs[0]);
        assert(longer.drop_first() =~= inputs.drop_first().push(done) + more);
        let step = step_of(state, inputs[0], bindings);
        a_closed_stream_is_a_finished_one(
            step.state,
            inputs.drop_first(),
            done,
            more,
            bindings,
        );
    }
}

/// Data that holds nothing to decode.
pub open spec fn noise(input: InputView) -> bool {
    input matches InputView::Data(data) && (trim(data).len() == 0 || (trim(data) != "[DONE]"@
        && parsed(trim(data)) is Err))
}

/// Blank data and data that is not JSON change nothing, wherever they come.
pub proof fn noise_is_passed_over(
    state: StateView,
    before: Seq<InputView>,
    input: InputView,
    after: Seq<InputView>,
    bindings: Map<Seq<char>, BindingView>,
)
    requires
        noise(input),
    ensures
        run_of(state, before.push(input) + after, bindings) == run_of(
            state,
            before + after,
            bindings,
        ),
    decreases before.len(),
{
    let noisy = before.push(input) + after;
    let quiet = before + after;
    if before.len() == 0 {
        assert(noisy[0] == input);
        assert(noisy.drop_first() =~= after);
        assert(quiet =~= after);
        assert(step_of(state, input, bindings) == unchanged(state));
        let rest = run_of(state, after, bindings);
        assert(Seq::<Signal>::empty() + rest.signals =~= rest.signals);
    } else {
        assert(noisy[0] == before[0]);
        assert(quiet[0] == before[0]);
        assert(noisy.drop_first() =~= before.drop_first().push(input) + after);
        assert(quiet.drop_first() =~= before.drop_first() + after);
        let step = step_of(state, before[0], bindings);
        noise_is_passed_over(step.state, before.drop_first(), input, after, bindings);
    }
}

/// The first id a reply gives stands, and so do the last token counts it reports,
/// which are the ones its completion carries.
pub proof fn the_first_id_and_the_last_usage_stand(state: StateView, chunk: JsonView)
    ensures
        with_chunk(state, chunk).0.response_id == (match state.response_id {
            Some(id) => Some(id),
            None => text_field(chunk, "id"@),
        }),
        with_chunk(state, chunk).0.usage == (match reported_usage(chunk) {
            Some(usage) => Some(usage_of(usage)),
            None => state.usage,
        }),
        completed(state)->token_usage == state.usage,
        completed(state)->response_id == text_or_empty(state.response_id),
{
    let (started, created) = greeted(state, chunk);
    let counted = with_usage(started, chunk);
    if let Some(choices) = as_items(field(chunk, "choices"@)) {
        lemma_choices_keep(counted, choices);
    }
}

/// Choices touch neither the id nor the token counts.
proof fn lemma_choices_keep(state: StateView, choices: Seq<JsonView>)
    ensures
        with_choices(state, choices).0.response_id == state.response_id,
        with_choices(state, choices).0.usage == state.usage,
    decreases choices.len(),
{
    if choices.len() > 0 {
        lemma_choices_keep(state, choices.drop_last());
    }
}

/// The wire `index` of a fragment.
pub open spec fn index_of(fragment: JsonView) -> Option<i64> {
    as_integer(field(fragment, "index"@))
}

/// The arguments of the fragments with the given `index`, run together.
pub open spec fn arguments_for(fragments: Seq<JsonView>, index: i64) -> Seq<char>
    decreases fragments.len(),
{
    if fragments.len() == 0 {
        Seq::empty()
    } else {
        let earlier = arguments_for(fragments.drop_last(), index);
        if index_of(fragments.last()) == Some(index) {
            earlier + text_or_empty(function_text(fragments.last(), "arguments"@))
        } else {
            earlier
        }
    }
}

/// Whether any of the fragments has the given `index`.
pub open spec fn mentions(fragments: Seq<JsonView>, index: i64) -> bool {
    exists|i: int| 0 <= i < fragments.len() && index_of(#[trigger] fragments[i]) == Some(index)
}

/// No fragments yet.
pub open spec fn no_calls() -> BufferView {
    BufferView { calls: Seq::empty(), positions: Map::empty() }
}

/// Fragments that carry an `index` are reassembled by it, however they are
/// interleaved: each `index` has one call and no call has two, and the arguments
/// of the call are those of its fragments, run together in order.
pub proof fn fragments_are_reassembled_by_index(fragments: Seq<JsonView>)
    requires
        forall|i: int| 0 <= i < fragments.len() ==> index_of(#[trigger] fragments[i]) is Some,
        fragments.len() <= usize::MAX,
    ensures
        ({
            let buffer = with_fragments(no_calls(), fragments);
            &&& buffer_wf(buffer)
            &&& buffer.calls.len() <= fragments.len()
            &&& forall|index: i64| #[trigger]
                buffer.positions.contains_key(index) <==> mentions(fragments, index)
            &&& forall|index: i64|
                mentions(fragments, index) ==> #[trigger] buffer.calls[buffer.positions[index] as int].arguments
                    == arguments_for(fragments, index)
        }),
    decreases fragments.len(),
{
    let buffer = with_fragments(no_calls(), fragments);
    if fragments.len() > 0 {
        let earlier = fragments.drop_last();
        let fragment = fragments.last();
        let known = with_fragments(no_calls(), earlier);
        assert(index_of(fragments[fragments.len() - 1]) is Some);
        assert forall|i: int| 0 <= i < earlier.len() implies index_of(
            #[trigger] earlier[i],
        ) is Some by {
            assert(index_of(fragments[i]) is Some);
        }
        fragments_are_reassembled_by_index(earlier);
        let own = index_of(fragment)->0;
        assert forall|index: i64| #[trigger] mentions(fragments, index) == (mentions(earlier, index)
            || index == own) by {
            if mentions(earlier, index) {
                let i = choose|i: int|
                    0 <= i < earlier.len() && index_of(#[trigger] earlier[i]) == Some(index);
                assert(index_of(fragments[i]) == Some(index));
            }
            if index == own {
                assert(index_of(fragments[fragments.len() - 1]) == Some(index));
            }
            if mentions(fragments, index) && index != own {
                let i = choose|i: int|
                    0 <= i < fragments.len() && index_of(#[trigger] fragments[i]) == Some(index);
                assert(index_of(earlier[i]) == Some(index));
            }
        }
        if !mentions(earlier, own) {
            lemma_unmentioned(earlier, own);
        }
        let (roomy, position) = slot_for(known, Some(own), text_field(fragment, "id"@));
        assert(buffer.positions == roomy.positions);
        assert forall|index: i64| mentions(fragments, index) implies #[trigger] buffer.calls[buffer.positions[index] as int].arguments
            == arguments_for(fragments, index) by {
            if index == own {
                assert(buffer.positions[index] == position);
            } else {
                assert(known.positions.contains_key(index));
                assert(buffer.positions[index] == known.positions[index]);
                assert(roomy.calls[known.positions[index] as int] == known.calls[known.positions[index] as int]);
            }
        }
    }
}

/// Where fragments are split over deltas makes no difference to what they are
/// reassembled to.
pub proof fn fragments_may_be_split_anywhere(
    buffer: BufferView,
    first: Seq<JsonView>,
    second: Seq<JsonView>,
)
    ensures
        with_fragments(buffer, first + second) == with_fragments(
            with_fragments(buffer, first),
            second,
        ),
    decreases second.len(),
{
    if second.len() == 0 {
        assert(first + second =~= first);
    } else {
        assert((first + second).drop_last() =~= first + second.drop_last());
        fragments_may_be_split_anywhere(buffer, first, second.drop_last());
    }
}

/// The tool call fragments of a delta.
pub open spec fn fragments_of_delta(delta: Option<JsonView>) -> Seq<JsonView> {
    match delta {
        Some(delta) => match as_items(field(delta, "tool_calls"@)) {
            Some(fragments) => fragments,
            None => Seq::empty(),
        },
        None => Seq::empty(),
    }
}

/// The tool call fragments of a run of choices, in order.
pub open spec fn fragments_of_choices(choices: Seq<JsonView>) -> Seq<JsonView>
    decreases choices.len(),
{
    if choices.len() == 0 {
        Seq::empty()
    } else {
        fragments_of_choices(choices.drop_last()) + fragments_of_delta(
            field(choices.last(), "delta"@),
        )
    }
}

/// The tool call fragments of a chunk, in order.
pub open spec fn fragments_of_chunk(chunk: JsonView) -> Seq<JsonView> {
    match as_items(field(chunk, "choices"@)) {
        Some(choices) => fragments_of_choices(choices),
        None => Seq::empty(),
    }
}

/// No fragment is lost: a chunk adds all of its fragments to the tool calls, in
/// order, and nothing else does.
pub proof fn a_chunk_adds_all_of_its_fragments(state: StateView, chunk: JsonView)
    ensures
        with_chunk(state, chunk).0.tool_calls == with_fragments(
            state.tool_calls,
            fragments_of_chunk(chunk),
        ),
{
    let counted = with_usage(greeted(state, chunk).0, chunk);
    if let Some(choices) = as_items(field(chunk, "choices"@)) {
        lemma_choices_add(counted, choices);
    }
}

proof fn lemma_choices_add(state: StateView, choices: Seq<JsonView>)
    ensures
        with_choices(state, choices).0.tool_calls == with_fragments(
            state.tool_calls,
            fragments_of_choices(choices),
        ),
    decreases choices.len(),
{
    if choices.len() > 0 {
        let earlier = choices.drop_last();
        lemma_choices_add(state, earlier);
        let more = fragments_of_delta(field(choices.last(), "delta"@));
        fragments_may_be_split_anywhere(state.tool_calls, fragments_of_choices(earlier), more);
    }
}

proof fn lemma_unmentioned(fragments: Seq<JsonView>, index: i64)
    requires
        !mentions(fragments, index),
    ensures
        arguments_for(fragments, index) == Seq::<char>::empty(),
    decreases fragments.len(),
{
    if fragments.len() > 0 {
        assert(index_of(fragments[fragments.len() - 1]) != Some(index));
        assert forall|i: int| 0 <= i < fragments.drop_last().len() implies index_of(
            #[trigger] fragments.drop_last()[i],
        ) != Some(index) by {
            assert(index_of(fragments[i]) != Some(index));
        }
        lemma_unmentioned(fragments.drop_last(), index);
    }
}

/// Ids made up for calls that came without one are unique within the turn: two
/// calls at different positions never share theirs.
pub proof fn made_up_ids_are_unique(
    one: CallView,
    other: CallView,
    first: nat,
    second: nat,
    one_name: Seq<char>,
    other_name: Seq<char>,
)
    requires
        one.id is None,
        other.id is None,
        first != second,
    ensures
        call_id_of(one, first as int, one_name) != call_id_of(other, second as int, other_name),
{
    let one_id = call_id_of(one, first as int, one_name);
    let other_id = call_id_of(other, second as int, other_name);
    let a = decimal(first);
    let b = decimal(second);
    lemma_decimal(first);
    lemma_decimal(second);
    if one_id == other_id {
        reveal_strlit("call_");
        reveal_strlit("_");
        assert forall|i: int| 0 <= i < a.len() && i < b.len() implies a[i] == b[i] by {
            assert(one_id[5 + i] == a[i]);
            assert(other_id[5 + i] == b[i]);
        }
        if a.len() < b.len() {
            assert(one_id[5 + a.len() as int] == '_');
            assert(other_id[5 + a.len() as int] == b[a.len() as int]);
        }
        if b.len() < a.len() {
            assert(other_id[5 + b.len() as int] == '_');
            assert(one_id[5 + b.len() as int] == a[b.len() as int]);
        }
        assert(a =~= b);
        lemma_decimal_injective(first, second);
    }
}

} // verus!
