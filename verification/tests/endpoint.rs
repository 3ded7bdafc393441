use codex_fleet::endpoint::ChatCompletionsClient;
use codex_fleet::json::parse;
use codex_fleet::protocol::{ApiError, ContentItem, ResponseEvent, ResponseItem};
use codex_fleet::requests::payload::{ChatCompletionsOptions, ResponsesApiRequest};
use codex_fleet::sse::stream::{process_chat_sse, StreamInput};
use serde_json::Value;

fn read(text: &str) -> Value {
    serde_json::from_str(text).expect("test JSON")
}

fn request() -> ResponsesApiRequest {
    let tools = r#"[{
        "type": "function",
        "name": "shell",
        "description": "run a command",
        "strict": false,
        "parameters": {
            "type": "object",
            "properties": {"command": {"type": "array", "items": {"type": "string"}}},
            "required": ["command"]
        }
    }]"#;
    ResponsesApiRequest {
        model: "nvidia/nemotron-3-super-120b-a12b".to_string(),
        instructions: "you are codex".to_string(),
        input: vec![ResponseItem::Message {
            role: "user".to_string(),
            content: vec![ContentItem::InputText { text: "list the files".to_string() }],
        }],
        tools: Some(tools.to_string()),
        tool_choice: "auto".to_string(),
        parallel_tool_calls: true,
        reasoning: None,
        stream: true,
        text: None,
    }
}

#[test]
fn posts_a_chat_shaped_body_to_the_chat_completions_path() {
    let prepared = ChatCompletionsClient::new().prepare_request(&request()).expect("prepared");

    let url = format!("{}{}", "https://api.tokenfactory.nebius.com/v1", prepared.path);
    assert_eq!("https://api.tokenfactory.nebius.com/v1/chat/completions", url);
    assert_eq!("text/event-stream", prepared.accept);

    let body = read(&prepared.body);
    assert_eq!("nvidia/nemotron-3-super-120b-a12b", body["model"]);
    assert_eq!(
        read(
            r#"[
                {"role": "system", "content": "you are codex"},
                {"role": "user", "content": "list the files"}
            ]"#
        ),
        body["messages"]
    );
    // Responses declares tools flat; chat nests them under `function`.
    assert_eq!("shell", body["tools"][0]["function"]["name"]);
    assert_eq!("auto", body["tool_choice"]);
    assert_eq!(Value::Bool(true), body["stream"]);
}

#[test]
fn decodes_a_tool_call_reply_into_response_items() {
    let prepared = ChatCompletionsClient::new().prepare_request(&request()).expect("prepared");
    let inputs: Vec<StreamInput> = [
        r#"{
            "id": "chatcmpl-2",
            "choices": [{"index": 0, "delta": {"tool_calls": [{
                "index": 0,
                "id": "call_1",
                "type": "function",
                "function": {"name": "shell", "arguments": "{\"command\":[\"ls\"]}"}
            }]}}]
        }"#,
        r#"{"choices": [{"index": 0, "delta": {}, "finish_reason": "tool_calls"}]}"#,
        r#"{
            "choices": [],
            "usage": {"prompt_tokens": 42, "completion_tokens": 7, "total_tokens": 49}
        }"#,
        "[DONE]",
    ]
    .into_iter()
    .map(|chunk| StreamInput::Data(chunk.to_string()))
    .collect();
    let events: Vec<ResponseEvent> = process_chat_sse(&inputs, &prepared.tool_bindings)
        .events
        .into_iter()
        .map(|event| event.expect("stream error"))
        .collect();

    let ResponseEvent::OutputItemDone(ResponseItem::FunctionCall {
        name, arguments, call_id, ..
    }) = &events[1]
    else {
        panic!("expected a function call, got {:?}", events[1]);
    };
    assert_eq!("shell", name);
    assert_eq!(r#"{"command":["ls"]}"#, arguments);
    assert_eq!("call_1", call_id);

    let ResponseEvent::Completed { token_usage, .. } = &events[2] else {
        panic!("expected completed, got {:?}", events[2]);
    };
    let usage = token_usage.as_ref().expect("usage should be reported");
    assert_eq!(42, usage.input_tokens);
    assert_eq!(7, usage.output_tokens);
}

#[test]
fn provider_options_reach_the_request_body() {
    let client = ChatCompletionsClient::new().with_options(ChatCompletionsOptions {
        send_reasoning_effort: false,
        extra_body: vec![(
            "chat_template_kwargs".to_string(),
            parse(r#"{"thinking": true}"#).expect("switches"),
        )],
    });
    let prepared = client.prepare_request(&request()).expect("prepared");

    assert_eq!(
        read(r#"{"thinking": true}"#),
        read(&prepared.body)["chat_template_kwargs"]
    );
}

#[test]
fn a_request_that_cannot_be_built_says_why() {
    let mut broken = request();
    broken.tools = Some("nonsense".to_string());
    let err = ChatCompletionsClient::new().prepare_request(&broken).expect_err("no tools");
    let theirs = serde_json::from_str::<Vec<Value>>("nonsense").expect_err("no JSON");

    assert_eq!(
        ApiError::Stream(format!("failed to build chat completions request: {theirs}")),
        err
    );
}
