//! The stream as a whole: what each input of the transport leads to.

use vstd::prelude::*;
use crate::json::{field, outcome_view, parse, parsed, text_field, Json, JsonView};
use crate::protocol::{
    delivered, events_view, signal, signals, ApiError, EventView, ResponseEvent, Signal,
};
use crate::text::{same_text, trim, trimmed};
use crate::tools::{BindingView, ToolBindings};
use super::state::{initial_state, StateView, StreamState};
use super::chunks::{
    apply_chunk, apply_head, chunk_fits, greeted, read_reported_usage, usage_total_fits, with_chunk,
};
use super::finish::{finale, finalize};

verus! {

/// What the transport hands the decoder.
#[derive(Debug, PartialEq, Eq)]
pub enum StreamInput {
    /// The data of one server-sent event.
    Data(String),
    /// The transport failed, in these words.
    Failed(String),
    /// Upstream closed the stream.
    Closed,
    /// Nothing came for longer than this.
    Idle(String),
}

/// What arrived.
pub enum InputView {
    Data(Seq<char>),
    Failed(Seq<char>),
    Closed,
    Idle(Seq<char>),
}

impl StreamInput {
    pub open spec fn view(&self) -> InputView {
        match self {
            StreamInput::Data(data) => InputView::Data(data@),
            StreamInput::Failed(err) => InputView::Failed(err@),
            StreamInput::Closed => InputView::Closed,
            StreamInput::Idle(limit) => InputView::Idle(limit@),
        }
    }
}

/// What arrived, in order.
pub open spec fn inputs_view(inputs: Seq<StreamInput>) -> Seq<InputView> {
    inputs.map_values(|input: StreamInput| input@)
}

/// Whether a stream goes on.
#[derive(Debug, Clone, Copy, PartialEq, Eq, Structural)]
pub enum StepOutcome {
    /// More may come.
    Continue,
    /// The reply is over.
    Finished,
    /// The server reported token counts whose sum cannot be represented.
    UsageOverflow,
}

/// What one input led to.
#[derive(Debug, PartialEq, Eq)]
pub struct Step {
    pub events: Vec<Result<ResponseEvent, ApiError>>,
    pub outcome: StepOutcome,
}

/// The state, reports and outcome after an input.
pub struct StepView {
    pub state: StateView,
    pub signals: Seq<Signal>,
    pub outcome: StepOutcome,
}

/// The words of the error a server reports.
pub open spec fn error_message(error: JsonView) -> Seq<char> {
    match text_field(error, "message"@) {
        Some(message) => message,
        None => "unknown error from chat completions endpoint"@,
    }
}

/// A step that goes on without a report.
pub open spec fn unchanged(state: StateView) -> StepView {
    StepView { state, signals: Seq::empty(), outcome: StepOutcome::Continue }
}

/// A step that ends the stream with an error.
pub open spec fn broken(state: StateView, message: Seq<char>) -> StepView {
    StepView {
        state,
        signals: seq![Err::<EventView, Seq<char>>(message)],
        outcome: StepOutcome::Finished,
    }
}

/// A step that ends the reply.
pub open spec fn concluded(state: StateView, bindings: Map<Seq<char>, BindingView>) -> StepView {
    StepView {
        state,
        signals: delivered(finale(state, bindings)),
        outcome: StepOutcome::Finished,
    }
}

/// What the data of an event leads to, given what it reads as. Data that is not
/// JSON is passed over.
pub open spec fn step_of_document(
    state: StateView,
    document: Result<JsonView, Seq<char>>,
) -> StepView {
    match document {
        Err(_) => unchanged(state),
        Ok(chunk) => match field(chunk, "error"@) {
            Some(error) => broken(state, error_message(error)),
            None => if chunk_fits(chunk) {
                StepView {
                    state: with_chunk(state, chunk).0,
                    signals: delivered(with_chunk(state, chunk).1),
                    outcome: StepOutcome::Continue,
                }
            } else {
                StepView {
                    state: greeted(state, chunk).0,
                    signals: delivered(greeted(state, chunk).1),
                    outcome: StepOutcome::UsageOverflow,
                }
            },
        },
    }
}

/// What one input leads to.
pub open spec fn step_of(
    state: StateView,
    input: InputView,
    bindings: Map<Seq<char>, BindingView>,
) -> StepView {
    match input {
        InputView::Data(data) => if trim(data).len() == 0 {
            unchanged(state)
        } else if trim(data) == "[DONE]"@ {
            concluded(state, bindings)
        } else {
            step_of_document(state, parsed(trim(data)))
        },
        InputView::Failed(err) => broken(state, "chat stream error: "@ + err),
        InputView::Closed => concluded(state, bindings),
        InputView::Idle(limit) => broken(state, "chat stream idle for more than "@ + limit),
    }
}

/// What a whole stream leads to: its inputs one by one until it is over, and the
/// close of the stream where it is not over before.
pub open spec fn run_of(
    state: StateView,
    inputs: Seq<InputView>,
    bindings: Map<Seq<char>, BindingView>,
) -> StepView
    decreases inputs.len(),
{
    if inputs.len() == 0 {
        step_of(state, InputView::Closed, bindings)
    } else {
        let step = step_of(state, inputs[0], bindings);
        if step.outcome == StepOutcome::Continue {
            let rest = run_of(step.state, inputs.drop_first(), bindings);
            StepView { signals: step.signals + rest.signals, ..rest }
        } else {
            step
        }
    }
}

/// Hands events on as reports.
fn deliver(events: Vec<ResponseEvent>) -> (reports: Vec<Result<ResponseEvent, ApiError>>)
    ensures
        signals(reports@) == delivered(events_view(events@)),
{
    let ghost all = events@;
    let mut reports: Vec<Result<ResponseEvent, ApiError>> = Vec::new();
    for event in it: events
        invariant
            it.seq() == all,
            signals(reports@) == delivered(events_view(all.take(it.index()))),
    {
        let ghost earlier = reports@;
        reports.push(Ok(event));
        proof {
            let says = events_view(all.take(it.index()));
            assert(signals(reports@) =~= signals(earlier).push(signal(Ok(event))));
            assert(events_view(all.take(it.index() + 1)) =~= says.push(event@));
            assert(delivered(says.push(event@)) =~= delivered(says).push(signal(Ok(event))));
        }
    }
    assert(all.take(all.len() as int) =~= all);
    reports
}

/// A report of one error.
fn report_error(message: String) -> (reports: Vec<Result<ResponseEvent, ApiError>>)
    ensures
        signals(reports@) == seq![Err::<EventView, Seq<char>>(message@)],
{
    let mut reports: Vec<Result<ResponseEvent, ApiError>> = Vec::new();
    reports.push(Err(ApiError::Stream(message)));
    assert(signals(reports@) =~= seq![Err::<EventView, Seq<char>>(message@)]);
    reports
}

/// Applies the data of an event, given what it reads as.
pub fn apply_document(document: &Result<Json, String>, state: &mut StreamState) -> (step: Step)
    requires
        old(state).wf(),
    ensures
        final(state).wf(),
        (StepView {
            state: final(state)@,
            signals: signals(step.events@),
            outcome: step.outcome,
        }) == step_of_document(old(state)@, outcome_view(*document)),
{
    let chunk = match document {
        Ok(chunk) => chunk,
        Err(_) => {
            let step = Step { events: Vec::new(), outcome: StepOutcome::Continue };
            assert(signals(step.events@) =~= Seq::empty());
            return step;
        },
    };
    if let Some(error) = chunk.get("error") {
        let message = match error.get_text("message") {
            Some(message) => message.to_owned(),
            None => "unknown error from chat completions endpoint".to_owned(),
        };
        return Step { events: report_error(message), outcome: StepOutcome::Finished };
    }
    let fits = match read_reported_usage(chunk) {
        Some(usage) => usage_total_fits(usage),
        None => true,
    };
    let mut events: Vec<ResponseEvent> = Vec::new();
    assert(events_view(events@) =~= Seq::empty());
    if fits {
        apply_chunk(chunk, state, &mut events);
        assert(events_view(events@) =~= with_chunk(old(state)@, chunk@).1);
        Step { events: deliver(events), outcome: StepOutcome::Continue }
    } else {
        apply_head(chunk, state, &mut events);
        assert(events_view(events@) =~= greeted(old(state)@, chunk@).1);
        Step { events: deliver(events), outcome: StepOutcome::UsageOverflow }
    }
}

/// Takes one input of the stream.
pub fn process_input(state: &mut StreamState, input: &StreamInput, bindings: &ToolBindings) -> (step:
    Step)
    requires
        old(state).wf(),
    ensures
        final(state).wf(),
        (StepView {
            state: final(state)@,
            signals: signals(step.events@),
            outcome: step.outcome,
        }) == step_of(old(state)@, input@, bindings@),
{
    match input {
        StreamInput::Data(data) => {
            let data = trimmed(data.as_str());
            if data.is_empty() {
                let step = Step { events: Vec::new(), outcome: StepOutcome::Continue };
                assert(signals(step.events@) =~= Seq::empty());
                return step;
            }
            if same_text(data, "[DONE]") {
                return Step {
                    events: deliver(finalize(state, bindings)),
                    outcome: StepOutcome::Finished,
                };
            }
            let document = parse(data);
            apply_document(&document, state)
        },
        StreamInput::Failed(err) => {
            let mut message = String::from_str("chat stream error: ");
            message.append(err.as_str());
            Step { events: report_error(message), outcome: StepOutcome::Finished }
        },
        StreamInput::Closed => {
            Step { events: deliver(finalize(state, bindings)), outcome: StepOutcome::Finished }
        },
        StreamInput::Idle(limit) => {
            let mut message = String::from_str("chat stream idle for more than ");
            message.append(limit.as_str());
            Step { events: report_error(message), outcome: StepOutcome::Finished }
        },
    }
}

/// Decodes a whole stream, from its first input to its end.
pub fn process_chat_sse(inputs: &Vec<StreamInput>, bindings: &ToolBindings) -> (run: Step)
    ensures
        signals(run.events@) == run_of(initial_state(), inputs_view(inputs@), bindings@).signals,
        run.outcome == run_of(initial_state(), inputs_view(inputs@), bindings@).outcome,
{
    let mut state = StreamState::new();
    let mut events: Vec<Result<ResponseEvent, ApiError>> = Vec::new();
    let ghost all = inputs_view(inputs@);
    let ghost whole = run_of(initial_state(), all, bindings@);
    proof {
        assert(all.skip(0) =~= all);
        assert(signals(events@) =~= Seq::empty());
        assert(Seq::<Signal>::empty() + whole.signals =~= whole.signals);
    }
    for i in 0..inputs.len()
        invariant
            state.wf(),
            all == inputs_view(inputs@),
            whole.signals == signals(events@) + run_of(state@, all.skip(i as int), bindings@).signals,
            whole.outcome == run_of(state@, all.skip(i as int), bindings@).outcome,
            whole == run_of(initial_state(), all, bindings@),
    {
        let ghost before = state@;
        let ghost sent = signals(events@);
        let step = process_input(&mut state, &inputs[i], bindings);
        let ghost reports = signals(step.events@);
        let mut reported = step.events;
        let ghost added = reported@;
        let ghost earlier = events@;
        events.append(&mut reported);
        proof {
            assert(signals(events@) =~= sent + reports);
            assert(all.skip(i as int)[0] == inputs@[i as int]@);
            assert(all.skip(i as int).drop_first() =~= all.skip(i + 1));
        }
        match step.outcome {
            StepOutcome::Continue => {
                proof {
                    let rest = run_of(state@, all.skip(i + 1), bindings@);
                    assert(sent + (reports + rest.signals) =~= sent + reports + rest.signals);
                }
            },
            _ => return Step { events, outcome: step.outcome },
        }
    }
    assert(all.skip(inputs@.len() as int) =~= Seq::empty());
    let step = process_input(&mut state, &StreamInput::Closed, bindings);
    let ghost sent = signals(events@);
    let ghost reports = signals(step.events@);
    let mut reported = step.events;
    events.append(&mut reported);
    assert(signals(events@) =~= sent + reports);
    Step { events, outcome: step.outcome }
}

} // verus!
