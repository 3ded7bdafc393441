//! What one chunk of a reply adds to the stream: its choices and its token counts.

use vstd::prelude::*;
use crate::json::{
    as_integer, as_items, field, items_view, lemma_items_view, text_field, Json, JsonView,
};
use crate::protocol::{events_view, EventView, ResponseEvent, TokenUsage};
use crate::text::own_option;
use super::state::{emit, handle_delta, with_delta, StateView, StreamState};

verus! {

/// The integer under `key`, or zero.
pub open spec fn count_field(json: JsonView, key: Seq<char>) -> i64 {
    match as_integer(field(json, key)) {
        Some(count) => count,
        None => 0,
    }
}

/// The integer under `parent.<key>`, or zero.
pub open spec fn nested_count(json: JsonView, parent: Seq<char>, key: Seq<char>) -> i64 {
    match field(json, parent) {
        Some(details) => count_field(details, key),
        None => 0,
    }
}

/// The token counts a server reports, as the session accounts for them. A total
/// that is missing or zero is the sum of what went in and what came out.
pub open spec fn usage_of(usage: JsonView) -> TokenUsage {
    let input = count_field(usage, "prompt_tokens"@);
    let output = count_field(usage, "completion_tokens"@);
    let total = count_field(usage, "total_tokens"@);
    TokenUsage {
        input_tokens: input,
        cached_input_tokens: nested_count(usage, "prompt_tokens_details"@, "cached_tokens"@),
        cache_write_input_tokens: 0,
        output_tokens: output,
        reasoning_output_tokens: nested_count(
            usage,
            "completion_tokens_details"@,
            "reasoning_tokens"@,
        ),
        total_tokens: if total == 0 {
            (input + output) as i64
        } else {
            total
        },
    }
}

/// The total of the reported counts can be represented.
pub open spec fn usage_fits(usage: JsonView) -> bool {
    count_field(usage, "total_tokens"@) == 0 ==> i64::MIN <= count_field(usage, "prompt_tokens"@)
        + count_field(usage, "completion_tokens"@) <= i64::MAX
}

fn read_count(json: &Json, key: &str) -> (count: i64)
    ensures
        count == count_field(json@, key@),
{
    match json.get(key) {
        Some(value) => match value.as_i64() {
            Some(count) => count,
            None => 0,
        },
        None => 0,
    }
}

fn read_nested_count(json: &Json, parent: &str, key: &str) -> (count: i64)
    ensures
        count == nested_count(json@, parent@, key@),
{
    match json.get(parent) {
        Some(details) => read_count(details, key),
        None => 0,
    }
}

/// Reads the token counts a server reports.
pub fn parse_usage(usage: &Json) -> (read: Option<TokenUsage>)
    requires
        usage_fits(usage@),
    ensures
        read == Some(usage_of(usage@)),
{
    let input_tokens: i64 = read_count(usage, "prompt_tokens");
    let output_tokens: i64 = read_count(usage, "completion_tokens");
    let total: i64 = read_count(usage, "total_tokens");
    let total_tokens: i64 = if total == 0 {
        input_tokens + output_tokens
    } else {
        total
    };
    Some(
        TokenUsage {
            input_tokens,
            cached_input_tokens: read_nested_count(usage, "prompt_tokens_details", "cached_tokens"),
            cache_write_input_tokens: 0,
            output_tokens,
            reasoning_output_tokens: read_nested_count(
                usage,
                "completion_tokens_details",
                "reasoning_tokens",
            ),
            total_tokens,
        },
    )
}

/// Whether the total of the reported counts can be represented.
pub(crate) fn usage_total_fits(usage: &Json) -> (fits: bool)
    ensures
        fits == usage_fits(usage@),
{
    let input: i128 = read_count(usage, "prompt_tokens") as i128;
    let output: i128 = read_count(usage, "completion_tokens") as i128;
    let sum: i128 = input + output;
    read_count(usage, "total_tokens") != 0 || (i64::MIN as i128 <= sum && sum <= i64::MAX as i128)
}

/// What a chunk reports of tokens, where it reports anything.
pub open spec fn reported_usage(chunk: JsonView) -> Option<JsonView> {
    match field(chunk, "usage"@) {
        Some(usage) => if usage == JsonView::Null {
            None
        } else {
            Some(usage)
        },
        None => None,
    }
}

/// The token counts of a chunk can be added up.
pub open spec fn chunk_fits(chunk: JsonView) -> bool {
    match reported_usage(chunk) {
        Some(usage) => usage_fits(usage),
        None => true,
    }
}

pub(crate) fn read_reported_usage(chunk: &Json) -> (usage: Option<&Json>)
    ensures
        match usage {
            Some(usage) => reported_usage(chunk@) == Some(usage@),
            None => reported_usage(chunk@) is None,
        },
{
    match chunk.get("usage") {
        Some(usage) => if usage.is_null() {
            None
        } else {
            Some(usage)
        },
        None => None,
    }
}

/// The state and events after the head of a chunk: the first one announces the
/// reply, and the first id names it.
pub open spec fn greeted(state: StateView, chunk: JsonView) -> (StateView, Seq<EventView>) {
    (
        StateView {
            created_sent: true,
            response_id: match state.response_id {
                Some(id) => Some(id),
                None => text_field(chunk, "id"@),
            },
            ..state
        },
        if state.created_sent {
            Seq::empty()
        } else {
            seq![EventView::Created]
        },
    )
}

/// The state after the token counts of a chunk.
pub open spec fn with_usage(state: StateView, chunk: JsonView) -> StateView {
    StateView {
        usage: match reported_usage(chunk) {
            Some(usage) => Some(usage_of(usage)),
            None => state.usage,
        },
        ..state
    }
}

/// The state and events after one of a chunk's choices.
pub open spec fn with_choice(state: StateView, choice: JsonView) -> (StateView, Seq<EventView>) {
    let noted = StateView {
        finish_reason: match text_field(choice, "finish_reason"@) {
            Some(reason) => Some(reason),
            None => state.finish_reason,
        },
        ..state
    };
    match field(choice, "delta"@) {
        Some(delta) => with_delta(noted, delta),
        None => (noted, Seq::empty()),
    }
}

/// The state and events after a run of choices.
pub open spec fn with_choices(state: StateView, choices: Seq<JsonView>) -> (
    StateView,
    Seq<EventView>,
)
    decreases choices.len(),
{
    if choices.len() == 0 {
        (state, Seq::empty())
    } else {
        let (before, earlier) = with_choices(state, choices.drop_last());
        let (after, events) = with_choice(before, choices.last());
        (after, earlier + events)
    }
}

/// The state and events after a chunk that reports no error.
pub open spec fn with_chunk(state: StateView, chunk: JsonView) -> (StateView, Seq<EventView>) {
    let (started, created) = greeted(state, chunk);
    let counted = with_usage(started, chunk);
    match as_items(field(chunk, "choices"@)) {
        Some(choices) => {
            let (after, events) = with_choices(counted, choices);
            (after, created + events)
        },
        None => (counted, created),
    }
}

/// Applies the head of a chunk.
pub(crate) fn apply_head(chunk: &Json, state: &mut StreamState, events: &mut Vec<ResponseEvent>)
    requires
        old(state).wf(),
    ensures
        final(state).wf(),
        final(state)@ == greeted(old(state)@, chunk@).0,
        events_view(final(events)@) == events_view(old(events)@) + greeted(old(state)@, chunk@).1,
{
    if !state.created_sent {
        state.created_sent = true;
        emit(events, ResponseEvent::Created);
    }
    if state.response_id.is_none() {
        state.response_id = own_option(chunk.get_text("id"));
    }
    assert(events_view(events@) =~= events_view(old(events)@) + greeted(old(state)@, chunk@).1);
}

/// Applies one of a chunk's choices.
fn apply_choice(choice: &Json, state: &mut StreamState, events: &mut Vec<ResponseEvent>)
    requires
        old(state).wf(),
    ensures
        final(state).wf(),
        final(state)@ == with_choice(old(state)@, choice@).0,
        events_view(final(events)@) == events_view(old(events)@) + with_choice(
            old(state)@,
            choice@,
        ).1,
{
    if let Some(reason) = choice.get_text("finish_reason") {
        state.finish_reason = Some(reason.to_owned());
    }
    match choice.get("delta") {
        Some(delta) => handle_delta(delta, state, events),
        None => {
            assert(events_view(events@) =~= events_view(old(events)@) + Seq::empty());
        },
    }
}

/// Applies a chunk that reports no error, and whose token counts can be added up.
pub fn apply_chunk(chunk: &Json, state: &mut StreamState, events: &mut Vec<ResponseEvent>)
    requires
        old(state).wf(),
        chunk_fits(chunk@),
    ensures
        final(state).wf(),
        final(state)@ == with_chunk(old(state)@, chunk@).0,
        events_view(final(events)@) == events_view(old(events)@) + with_chunk(
            old(state)@,
            chunk@,
        ).1,
{
    let ghost sent = events_view(events@);
    apply_head(chunk, state, events);
    if let Some(usage) = read_reported_usage(chunk) {
        state.usage = parse_usage(usage);
    }
    let ghost counted = state@;
    let ghost created = greeted(old(state)@, chunk@).1;
    assert(counted == with_usage(greeted(old(state)@, chunk@).0, chunk@));
    if let Some(value) = chunk.get("choices") {
        if let Some(choices) = value.as_array() {
            let ghost says = items_view(choices@);
            proof {
                lemma_items_view(choices@);
                assert(says.take(0) =~= Seq::empty());
                assert(sent + created =~= sent + created + Seq::empty());
            }
            for i in 0..choices.len()
                invariant
                    state.wf(),
                    says.len() == choices@.len(),
                    forall|j: int| 0 <= j < says.len() ==> #[trigger] says[j] == choices@[j]@,
                    state@ == with_choices(counted, says.take(i as int)).0,
                    events_view(events@) == sent + created + with_choices(
                        counted,
                        says.take(i as int),
                    ).1,
            {
                let ghost earlier = with_choices(counted, says.take(i as int));
                apply_choice(&choices[i], state, events);
                proof {
                    assert(says.take(i + 1).drop_last() =~= says.take(i as int));
                    assert(says.take(i + 1).last() == choices@[i as int]@);
                    assert(sent + created + earlier.1 + with_choice(earlier.0, choices@[i as int]@).1
                        =~= sent + created + (earlier.1 + with_choice(
                        earlier.0,
                        choices@[i as int]@,
                    ).1));
                }
            }
            proof {
                assert(says.take(says.len() as int) =~= says);
                assert(sent + created + with_choices(counted, says).1 =~= sent + (created
                    + with_choices(counted, says).1));
            }
        }
    }
}

} // verus!
