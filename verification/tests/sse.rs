use codex_fleet::json::{parse, Json};
use codex_fleet::protocol::{
    ApiError, ContentItem, ReasoningItemContent, ResponseEvent, ResponseItem, TokenUsage,
};
use codex_fleet::requests::declarations::convert_function_tool;
use codex_fleet::sse::chunks::parse_usage;
use codex_fleet::sse::finish::{tool_call_item, unwrap_freeform};
use codex_fleet::sse::state::StreamState;
use codex_fleet::sse::stream::{
    apply_document, process_chat_sse, process_input, StepOutcome, StreamInput,
};
use codex_fleet::sse::tool_calls::{apply_tool_call_fragment, ToolCallAccumulator, ToolCallBuffer};
use codex_fleet::tools::{ChatToolBinding, ToolBindings};

fn data(text: &str) -> StreamInput {
    StreamInput::Data(text.to_string())
}

/// Feeds `chunks` through the decoder, followed by `[DONE]`.
fn run_chunks(chunks: &[&str], tool_bindings: &ToolBindings) -> Vec<ResponseEvent> {
    let mut inputs: Vec<StreamInput> = chunks.iter().map(|chunk| data(chunk)).collect();
    inputs.push(data("[DONE]"));
    let run = process_chat_sse(&inputs, tool_bindings);
    assert_eq!(StepOutcome::Finished, run.outcome);
    run.events.into_iter().map(|event| event.expect("stream error")).collect()
}

fn text_delta(content: &str) -> String {
    format!(
        r#"{{"id": "chatcmpl-1", "choices": [{{"index": 0, "delta": {{"content": "{content}"}}}}]}}"#
    )
}

#[test]
fn text_is_opened_streamed_and_closed() {
    let events = run_chunks(
        &[
            &text_delta("Hel"),
            &text_delta("lo"),
            r#"{"choices": [{"index": 0, "delta": {}, "finish_reason": "stop"}]}"#,
            r#"{
                "choices": [],
                "usage": {"prompt_tokens": 11, "completion_tokens": 2, "total_tokens": 13}
            }"#,
        ],
        &ToolBindings::new(),
    );

    assert!(matches!(events[0], ResponseEvent::Created));
    assert!(matches!(events[1], ResponseEvent::OutputItemAdded(_)));
    assert!(matches!(
        (&events[2], &events[3]),
        (
            ResponseEvent::OutputTextDelta(first),
            ResponseEvent::OutputTextDelta(second),
        ) if first == "Hel" && second == "lo"
    ));

    let ResponseEvent::OutputItemDone(ResponseItem::Message { content, .. }) = &events[4] else {
        panic!("expected assistant message, got {:?}", events[4]);
    };
    assert_eq!(vec![ContentItem::OutputText { text: "Hello".to_string() }], *content);

    let ResponseEvent::Completed { response_id, token_usage, end_turn } = &events[5] else {
        panic!("expected completed, got {:?}", events[5]);
    };
    assert_eq!("chatcmpl-1", response_id);
    assert_eq!(Some(true), *end_turn);
    let usage = token_usage.as_ref().expect("usage");
    assert_eq!(11, usage.input_tokens);
    assert_eq!(2, usage.output_tokens);
    assert_eq!(13, usage.total_tokens);
}

#[test]
fn tool_call_fragments_are_reassembled_by_index() {
    let events = run_chunks(
        &[
            r#"{
                "id": "chatcmpl-2",
                "choices": [{"index": 0, "delta": {"tool_calls": [{
                    "index": 0,
                    "id": "call_1",
                    "type": "function",
                    "function": {"name": "shell", "arguments": "{\"command\":"}
                }]}}]
            }"#,
            r#"{
                "choices": [{"index": 0, "delta": {"tool_calls": [{
                    "index": 0,
                    "function": {"arguments": "[\"ls\"]}"}
                }]}}]
            }"#,
            r#"{"choices": [{"index": 0, "delta": {}, "finish_reason": "tool_calls"}]}"#,
        ],
        &ToolBindings::new(),
    );

    let ResponseEvent::OutputItemDone(ResponseItem::FunctionCall {
        name, arguments, call_id, ..
    }) = &events[1]
    else {
        panic!("expected function call, got {:?}", events[1]);
    };
    assert_eq!("shell", name);
    assert_eq!(r#"{"command":["ls"]}"#, arguments);
    assert_eq!("call_1", call_id);

    let ResponseEvent::Completed { end_turn, .. } = &events[2] else {
        panic!("expected completed, got {:?}", events[2]);
    };
    // A turn that ends in tool calls has not affirmatively ended.
    assert_eq!(Some(false), *end_turn);
}

#[test]
fn parallel_tool_calls_stay_separate() {
    let events = run_chunks(
        &[r#"{
            "choices": [{"index": 0, "delta": {"tool_calls": [
                {"index": 0, "id": "a", "function": {"name": "one", "arguments": "{}"}},
                {"index": 1, "id": "b", "function": {"name": "two", "arguments": "{}"}}
            ]}}]
        }"#],
        &ToolBindings::new(),
    );

    let names: Vec<&str> = events
        .iter()
        .filter_map(|event| match event {
            ResponseEvent::OutputItemDone(ResponseItem::FunctionCall { name, .. }) => {
                Some(name.as_str())
            }
            _ => None,
        })
        .collect();
    assert_eq!(vec!["one", "two"], names);
}

#[test]
fn flattened_names_are_restored_to_their_namespace() {
    let mut bindings = ToolBindings::new();
    bindings.insert(
        "collaboration__spawn_agent".to_string(),
        ChatToolBinding {
            namespace: Some("collaboration".to_string()),
            name: "spawn_agent".to_string(),
            freeform: false,
        },
    );
    let events = run_chunks(
        &[r#"{
            "choices": [{"index": 0, "delta": {"tool_calls": [{
                "index": 0,
                "id": "call_1",
                "function": {"name": "collaboration__spawn_agent", "arguments": "{}"}
            }]}}]
        }"#],
        &bindings,
    );

    let ResponseEvent::OutputItemDone(ResponseItem::FunctionCall { name, namespace, .. }) =
        &events[1]
    else {
        panic!("expected function call, got {:?}", events[1]);
    };
    assert_eq!("spawn_agent", name);
    assert_eq!(Some("collaboration".to_string()), *namespace);
}

#[test]
fn a_namespace_that_holds_the_separator_is_restored() {
    let mut bindings = ToolBindings::new();
    for (namespace, name) in [("a__b", "c"), ("a", "b_c"), ("a", "d__e")] {
        let tool = parse(&format!(r#"{{"name": "{name}"}}"#)).expect("tool");
        assert!(convert_function_tool(&tool, Some(namespace), &mut bindings).is_some());
    }
    for (wire, namespace, name) in
        [("a__b__c", "a__b", "c"), ("a__b_c", "a", "b_c"), ("a__d__e", "a", "d__e")]
    {
        let events = run_chunks(
            &[format!(
                r#"{{"choices": [{{"index": 0, "delta": {{"tool_calls": [{{
                    "index": 0,
                    "id": "call_1",
                    "function": {{"name": "{wire}", "arguments": "{{}}"}}
                }}]}}}}]}}"#
            )
            .as_str()],
            &bindings,
        );
        let ResponseEvent::OutputItemDone(ResponseItem::FunctionCall {
            name: restored,
            namespace: within,
            ..
        }) = &events[1]
        else {
            panic!("expected function call, got {:?}", events[1]);
        };
        assert_eq!(name, restored);
        assert_eq!(Some(namespace.to_string()), *within);
    }
}

#[test]
fn freeform_tool_input_is_unwrapped() {
    let mut bindings = ToolBindings::new();
    bindings.insert(
        "apply_patch".to_string(),
        ChatToolBinding { namespace: None, name: "apply_patch".to_string(), freeform: true },
    );
    let events = run_chunks(
        &[r#"{
            "choices": [{"index": 0, "delta": {"tool_calls": [{
                "index": 0,
                "id": "call_1",
                "function": {
                    "name": "apply_patch",
                    "arguments": "{\"input\":\"*** Begin Patch\"}"
                }
            }]}}]
        }"#],
        &bindings,
    );

    let ResponseEvent::OutputItemDone(ResponseItem::CustomToolCall { name, input, .. }) =
        &events[1]
    else {
        panic!("expected custom tool call, got {:?}", events[1]);
    };
    assert_eq!("apply_patch", name);
    assert_eq!("*** Begin Patch", input);
}

#[test]
fn reasoning_content_is_streamed_and_kept() {
    let events = run_chunks(
        &[
            r#"{"choices": [{"index": 0, "delta": {"reasoning_content": "thinking"}}]}"#,
            &text_delta("answer"),
        ],
        &ToolBindings::new(),
    );

    assert!(matches!(events[1], ResponseEvent::OutputItemAdded(_)));
    assert!(matches!(
        &events[2],
        ResponseEvent::ReasoningContentDelta { delta, .. } if delta == "thinking"
    ));

    let ResponseEvent::OutputItemDone(ResponseItem::Reasoning { content, .. }) = &events[4] else {
        panic!("expected reasoning item, got {:?}", events[4]);
    };
    assert_eq!(
        Some(vec![ReasoningItemContent::ReasoningText { text: "thinking".to_string() }]),
        *content
    );
}

#[test]
fn an_error_chunk_fails_the_stream() {
    let inputs = vec![data(r#"{"error":{"message":"model not found"}}"#)];
    let run = process_chat_sse(&inputs, &ToolBindings::new());

    let first = &run.events[0];
    assert!(
        matches!(first, Err(ApiError::Stream(message)) if message.contains("model not found")),
        "{first:?}"
    );
    assert_eq!(1, run.events.len());
}

#[test]
fn a_truncated_stream_still_reports_what_arrived() {
    // No `[DONE]`, no finish_reason: the connection just ends.
    let inputs = vec![data(&text_delta("partial"))];
    let run = process_chat_sse(&inputs, &ToolBindings::new());
    let events: Vec<ResponseEvent> =
        run.events.into_iter().map(|event| event.expect("stream error")).collect();

    let ResponseEvent::OutputItemDone(ResponseItem::Message { content, .. }) = &events[3] else {
        panic!("expected assistant message, got {:?}", events[3]);
    };
    assert_eq!(vec![ContentItem::OutputText { text: "partial".to_string() }], *content);
    assert!(matches!(events[4], ResponseEvent::Completed { .. }));
}

#[test]
fn an_error_without_words_is_still_an_error() {
    let run = process_chat_sse(&vec![data(r#"{"error": null}"#)], &ToolBindings::new());

    assert_eq!(
        vec![Err(ApiError::Stream("unknown error from chat completions endpoint".to_string()))],
        run.events
    );
    assert_eq!(StepOutcome::Finished, run.outcome);
}

#[test]
fn transport_failures_and_silence_end_the_stream() {
    let failed = process_chat_sse(
        &vec![data(&text_delta("x")), StreamInput::Failed("reset".to_string()), data("[DONE]")],
        &ToolBindings::new(),
    );
    assert_eq!(
        Some(&Err(ApiError::Stream("chat stream error: reset".to_string()))),
        failed.events.last()
    );
    assert_eq!(4, failed.events.len());

    let idle =
        process_chat_sse(&vec![StreamInput::Idle("1s".to_string())], &ToolBindings::new());
    assert_eq!(
        vec![Err(ApiError::Stream("chat stream idle for more than 1s".to_string()))],
        idle.events
    );
}

#[test]
fn an_empty_stream_completes_without_an_announcement() {
    let run = process_chat_sse(&vec![StreamInput::Closed], &ToolBindings::new());

    assert_eq!(
        vec![Ok(ResponseEvent::Completed {
            response_id: String::new(),
            token_usage: None,
            end_turn: None,
        })],
        run.events
    );
}

#[test]
fn noise_changes_nothing() {
    let quiet = process_chat_sse(&vec![data(&text_delta("x"))], &ToolBindings::new());
    let noisy = process_chat_sse(
        &vec![data("  \n"), data("not json"), data(&text_delta("x")), data(": ping")],
        &ToolBindings::new(),
    );
    assert_eq!(quiet, noisy);
}

#[test]
fn what_follows_the_end_is_not_looked_at() {
    let ended = process_chat_sse(
        &vec![data(&text_delta("x")), data(" [DONE] "), data(&text_delta("y"))],
        &ToolBindings::new(),
    );
    let closed = process_chat_sse(&vec![data(&text_delta("x"))], &ToolBindings::new());
    assert_eq!(closed, ended);
}

#[test]
fn counts_that_cannot_be_added_up_stop_the_stream() {
    let chunk = format!(
        r#"{{"usage": {{"prompt_tokens": {}, "completion_tokens": 1}}}}"#,
        i64::MAX
    );
    let run = process_chat_sse(&vec![data(&chunk), data("[DONE]")], &ToolBindings::new());

    assert_eq!(StepOutcome::UsageOverflow, run.outcome);
    assert_eq!(vec![Ok(ResponseEvent::Created)], run.events);
}

#[test]
fn a_missing_total_is_the_sum_of_its_parts() {
    let usage = parse(
        r#"{
            "prompt_tokens": 5,
            "completion_tokens": 3,
            "prompt_tokens_details": {"cached_tokens": 2},
            "completion_tokens_details": {"reasoning_tokens": 1}
        }"#,
    )
    .expect("usage");
    assert_eq!(
        Some(TokenUsage {
            input_tokens: 5,
            cached_input_tokens: 2,
            cache_write_input_tokens: 0,
            output_tokens: 3,
            reasoning_output_tokens: 1,
            total_tokens: 8,
        }),
        parse_usage(&usage)
    );
    let total = parse_usage(&parse(r#"{"prompt_tokens": 5, "total_tokens": 9}"#).expect("usage"));
    assert_eq!(9, total.expect("usage").total_tokens);
}

#[test]
fn the_first_id_and_the_last_counts_are_reported() {
    let events = run_chunks(
        &[
            r#"{"id": "first", "usage": {"total_tokens": 1}}"#,
            r#"{"id": "second", "usage": {"total_tokens": 2}}"#,
            r#"{"usage": null}"#,
        ],
        &ToolBindings::new(),
    );
    let Some(ResponseEvent::Completed { response_id, token_usage, .. }) = events.last() else {
        panic!("expected completed, got {events:?}");
    };
    assert_eq!("first", response_id);
    assert_eq!(2, token_usage.expect("usage").total_tokens);
}

#[test]
fn reasoning_comes_under_either_name() {
    let events = run_chunks(
        &[
            r#"{"choices": [{"delta": {"reasoning": "a", "content": "b"}}]}"#,
            r#"{"choices": [{"delta": {"reasoning_content": "", "reasoning": "hidden"}}]}"#,
        ],
        &ToolBindings::new(),
    );
    // Where the first name is there, the second is not looked at.
    assert_eq!(7, events.len());
    assert_eq!(
        ResponseEvent::ReasoningContentDelta { delta: "a".to_string(), content_index: 0 },
        events[2]
    );
    assert_eq!(ResponseEvent::OutputTextDelta("b".to_string()), events[3]);
}

fn fragment(text: &str) -> Json {
    parse(text).expect("fragment")
}

#[test]
fn fragments_without_an_index_go_by_their_id() {
    let mut buffer = ToolCallBuffer::new();
    assert!(buffer.is_empty());
    for text in [
        r#"{"id": "a", "function": {"name": "one", "arguments": "1"}}"#,
        r#"{"id": "b", "function": {"name": "two", "arguments": "2"}}"#,
        r#"{"id": "a", "function": {"arguments": "3"}}"#,
        r#"{"function": {"name": "", "arguments": "4"}}"#,
    ] {
        apply_tool_call_fragment(&fragment(text), &mut buffer);
    }

    assert_eq!(2, buffer.calls.len());
    assert_eq!("13", buffer.calls[0].arguments);
    assert_eq!("24", buffer.calls[1].arguments);
    assert_eq!(Some("two".to_string()), buffer.calls[1].name);
    assert!(!buffer.is_empty());
}

#[test]
fn interleaved_fragments_keep_to_their_index() {
    let mut buffer = ToolCallBuffer::new();
    for (index, piece) in [(7, "a"), (-1, "b"), (7, "c"), (-1, "d"), (0, "e")] {
        apply_tool_call_fragment(
            &fragment(&format!(
                r#"{{"index": {index}, "function": {{"arguments": "{piece}"}}}}"#
            )),
            &mut buffer,
        );
    }
    let arguments: Vec<&str> = buffer.calls.iter().map(|call| call.arguments.as_str()).collect();
    assert_eq!(vec!["ac", "bd", "e"], arguments);
}

#[test]
fn slots_are_opened_as_calls_are_mentioned() {
    let mut buffer = ToolCallBuffer::new();
    assert_eq!(0, buffer.slot(None, None));
    assert_eq!(0, buffer.slot(None, None));
    assert_eq!(1, buffer.slot(Some(4), Some("x")));
    assert_eq!(1, buffer.slot(Some(4), None));
    assert_eq!(2, buffer.slot(None, Some("x")));
    assert_eq!(3, buffer.calls.len());
}

fn call(id: Option<&str>, name: Option<&str>, arguments: &str) -> ToolCallAccumulator {
    ToolCallAccumulator {
        id: id.map(str::to_string),
        name: name.map(str::to_string),
        arguments: arguments.to_string(),
    }
}

#[test]
fn calls_without_an_id_get_one_of_their_own() {
    let none = ToolBindings::new();
    assert_eq!(
        Some(ResponseItem::FunctionCall {
            name: "now".to_string(),
            namespace: None,
            arguments: "{}".to_string(),
            call_id: "call_12_now".to_string(),
        }),
        tool_call_item(&call(None, Some("now"), " \n"), 12, &none)
    );
    let one = tool_call_item(&call(None, Some("1_now"), ""), 1, &none);
    let other = tool_call_item(&call(None, Some("now"), ""), 11, &none);
    assert_ne!(one, other);
    assert_eq!(None, tool_call_item(&call(Some("x"), None, "{}"), 0, &none));
}

#[test]
fn arguments_that_do_not_unwrap_are_passed_on() {
    for arguments in ["raw", "{}", r#"{"input": 1}"#, "[]"] {
        assert_eq!(arguments, unwrap_freeform(&parse(arguments), arguments));
    }
}

#[test]
fn steps_report_what_each_input_led_to() {
    let mut state = StreamState::new();
    let bindings = ToolBindings::new();
    let step = process_input(&mut state, &data(&text_delta("x")), &bindings);
    assert_eq!(StepOutcome::Continue, step.outcome);
    assert_eq!(3, step.events.len());
    let step = process_input(&mut state, &data(&text_delta("y")), &bindings);
    assert_eq!(vec![Ok(ResponseEvent::OutputTextDelta("y".to_string()))], step.events);
    assert_eq!("xy", state.text);

    let step = apply_document(&Err("bad".to_string()), &mut state);
    assert!(step.events.is_empty());
    let step = apply_document(&parse(r#"{"error": {"message": "gone"}}"#), &mut state);
    assert_eq!(vec![Err(ApiError::Stream("gone".to_string()))], step.events);
}
