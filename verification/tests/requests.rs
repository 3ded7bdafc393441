use codex_fleet::json::{parse, Json};
use codex_fleet::protocol::{ContentItem, ReasoningItemContent, ResponseItem};
use codex_fleet::requests::declarations::{
    chat_tool_choice, convert_freeform_tool, convert_function_tool, convert_tools, empty_parameters,
};
use codex_fleet::requests::messages::{convert_message, convert_messages, freeform_arguments, tool_message};
use codex_fleet::requests::payload::{
    build_chat_completions_payload, build_payload_with_tools, ChatCompletionsOptions,
    ChatCompletionsPayload, Reasoning, ResponsesApiRequest, TextControls, TextFormat,
};
use codex_fleet::sse::finish::{tool_call_item, unwrap_freeform};
use codex_fleet::sse::tool_calls::ToolCallAccumulator;
use codex_fleet::tools::{wire_tool_name, ChatToolBinding, ToolBindings};
use serde_json::Value;

fn read(text: &str) -> Value {
    serde_json::from_str(text).expect("test JSON")
}

fn value(json: &Json) -> Value {
    read(&json.to_text())
}

fn values(items: &[Json]) -> Vec<Value> {
    items.iter().map(value).collect()
}

fn request(input: Vec<ResponseItem>, tools: Option<&str>) -> ResponsesApiRequest {
    ResponsesApiRequest {
        model: "nvidia/nemotron-3-super-120b-a12b".to_string(),
        instructions: "be helpful".to_string(),
        input,
        tools: tools.map(str::to_string),
        tool_choice: "auto".to_string(),
        parallel_tool_calls: true,
        reasoning: None,
        stream: true,
        text: None,
    }
}

fn user_message(text: &str) -> ResponseItem {
    ResponseItem::Message {
        role: "user".to_string(),
        content: vec![ContentItem::InputText { text: text.to_string() }],
    }
}

fn function_call(call_id: &str, name: &str, namespace: Option<&str>) -> ResponseItem {
    ResponseItem::FunctionCall {
        name: name.to_string(),
        namespace: namespace.map(str::to_string),
        arguments: r#"{"a":1}"#.to_string(),
        call_id: call_id.to_string(),
    }
}

fn function_output(call_id: &str, text: &str) -> ResponseItem {
    ResponseItem::FunctionCallOutput {
        call_id: Some(call_id.to_string()),
        output: Some(text.to_string()),
    }
}

fn build(request: &ResponsesApiRequest) -> ChatCompletionsPayload {
    build_chat_completions_payload(request, &ChatCompletionsOptions::default())
        .expect("build payload")
}

#[test]
fn instructions_become_a_leading_system_message() {
    let payload = build(&request(vec![user_message("hi")], None));
    let body = value(&payload.body);

    assert_eq!(
        read(r#"[{"role": "system", "content": "be helpful"}, {"role": "user", "content": "hi"}]"#),
        body["messages"]
    );
}

#[test]
fn consecutive_tool_calls_share_one_assistant_message() {
    let payload = build(&request(
        vec![
            user_message("run both"),
            function_call("call_a", "shell", None),
            function_call("call_b", "read_file", None),
            function_output("call_a", "ok a"),
            function_output("call_b", "ok b"),
        ],
        None,
    ));
    let body = value(&payload.body);
    let messages = body["messages"].as_array().expect("messages");

    assert_eq!(5, messages.len());
    let tool_calls = messages[2]["tool_calls"].as_array().expect("tool_calls");
    assert_eq!(2, tool_calls.len());
    assert_eq!("call_a", tool_calls[0]["id"]);
    assert_eq!("shell", tool_calls[0]["function"]["name"]);
    assert_eq!("call_b", tool_calls[1]["id"]);
    assert_eq!(
        read(r#"{"role": "tool", "tool_call_id": "call_a", "content": "ok a"}"#),
        messages[3]
    );
}

#[test]
fn namespaced_tool_calls_round_trip_through_the_flattened_name() {
    let payload = build(&request(
        vec![function_call("call_a", "spawn_agent", Some("collaboration"))],
        None,
    ));
    let body = value(&payload.body);
    let tool_calls = body["messages"][1]["tool_calls"].as_array().expect("tool_calls");

    assert_eq!("collaboration__spawn_agent", tool_calls[0]["function"]["name"]);
}

#[test]
fn namespaced_tools_are_flattened_and_bound() {
    let tools = r#"[
        {
            "type": "namespace",
            "name": "collaboration",
            "description": "team tools",
            "tools": [{
                "type": "function",
                "name": "spawn_agent",
                "description": "spawn one",
                "strict": false,
                "parameters": {"type": "object", "properties": {}}
            }]
        },
        {
            "type": "function",
            "name": "shell",
            "description": "run a command",
            "strict": false,
            "parameters": {"type": "object", "properties": {}}
        }
    ]"#;
    let payload = build(&request(vec![user_message("hi")], Some(tools)));
    let body = value(&payload.body);

    let declared = body["tools"].as_array().expect("tools");
    let names: Vec<&str> = declared
        .iter()
        .map(|tool| tool["function"]["name"].as_str().expect("name"))
        .collect();
    assert_eq!(vec!["collaboration__spawn_agent", "shell"], names);

    assert_eq!(
        Some(&ChatToolBinding {
            namespace: Some("collaboration".to_string()),
            name: "spawn_agent".to_string(),
            freeform: false,
        }),
        payload.tool_bindings.get("collaboration__spawn_agent")
    );
    assert_eq!(
        Some(&ChatToolBinding {
            namespace: None,
            name: "shell".to_string(),
            freeform: false,
        }),
        payload.tool_bindings.get("shell")
    );
}

#[test]
fn freeform_tools_are_projected_onto_a_single_string_parameter() {
    let tools = r#"[{
        "type": "custom",
        "name": "apply_patch",
        "description": "edit files",
        "format": {"type": "grammar"}
    }]"#;
    let payload = build(&request(vec![user_message("hi")], Some(tools)));
    let body = value(&payload.body);

    let declared = body["tools"].as_array().expect("tools");
    assert_eq!("apply_patch", declared[0]["function"]["name"]);
    assert_eq!(read(r#"["input"]"#), declared[0]["function"]["parameters"]["required"]);
    assert!(payload
        .tool_bindings
        .get("apply_patch")
        .is_some_and(|binding| binding.freeform));
    assert_eq!(
        read(
            r#"{
                "type": "object",
                "properties": {
                    "input": {
                        "type": "string",
                        "description": "Raw tool input, passed through verbatim."
                    }
                },
                "required": ["input"],
                "additionalProperties": false
            }"#
        ),
        declared[0]["function"]["parameters"]
    );
}

#[test]
fn server_side_tools_without_a_chat_equivalent_are_dropped() {
    let tools = r#"[
        {"type": "web_search"},
        {"type": "tool_search", "execution": "client", "description": "", "parameters": {}}
    ]"#;
    let payload = build(&request(vec![user_message("hi")], Some(tools)));

    assert!(payload.body.get("tools").is_none());
    assert!(payload.body.get("tool_choice").is_none());
    assert!(payload.tool_bindings.is_empty());
}

#[test]
fn streaming_requests_ask_for_usage() {
    let payload = build(&request(vec![user_message("hi")], None));
    let body = value(&payload.body);

    assert_eq!(read(r#"{"include_usage": true}"#), body["stream_options"]);
}

#[test]
fn images_ride_along_as_content_parts_on_user_messages() {
    let item = ResponseItem::Message {
        role: "user".to_string(),
        content: vec![
            ContentItem::InputText { text: "what is this".to_string() },
            ContentItem::InputImage { image_url: "data:image/png;base64,AAAA".to_string() },
        ],
    };
    let payload = build(&request(vec![item], None));
    let body = value(&payload.body);
    let parts = body["messages"][1]["content"].as_array().expect("content parts");

    assert_eq!(2, parts.len());
    assert_eq!("text", parts[0]["type"]);
    assert_eq!("data:image/png;base64,AAAA", parts[1]["image_url"]["url"]);
}

#[test]
fn developer_messages_fall_back_to_system() {
    let item = ResponseItem::Message {
        role: "developer".to_string(),
        content: vec![ContentItem::InputText { text: "policy".to_string() }],
    };
    let payload = build(&request(vec![item], None));

    assert_eq!("system", value(&payload.body)["messages"][1]["role"]);
}

#[test]
fn reasoning_effort_is_opt_in_per_provider() {
    let mut req = request(vec![user_message("hi")], None);
    req.reasoning = Some(Reasoning { effort: Some("high".to_string()) });

    let without = build(&req);
    assert!(without.body.get("reasoning_effort").is_none());

    let with = build_chat_completions_payload(
        &req,
        &ChatCompletionsOptions { send_reasoning_effort: true, extra_body: Vec::new() },
    )
    .expect("build payload");
    assert_eq!("high", value(&with.body)["reasoning_effort"]);
}

#[test]
fn extra_body_lets_a_provider_add_server_specific_switches() {
    let options = ChatCompletionsOptions {
        send_reasoning_effort: false,
        extra_body: vec![(
            "chat_template_kwargs".to_string(),
            parse(r#"{"thinking": true}"#).expect("switches"),
        )],
    };
    let payload =
        build_chat_completions_payload(&request(vec![user_message("hi")], None), &options)
            .expect("build payload");

    assert_eq!(read(r#"{"thinking": true}"#), value(&payload.body)["chat_template_kwargs"]);
}

#[test]
fn extra_fields_override_what_the_turn_calls_for() {
    let options = ChatCompletionsOptions {
        send_reasoning_effort: false,
        extra_body: vec![
            ("model".to_string(), Json::text("first")),
            ("model".to_string(), Json::text("second")),
            ("stream".to_string(), Json::Bool(false)),
        ],
    };
    let payload = build_payload_with_tools(&request(Vec::new(), None), &options, &Vec::new());
    let body = value(&payload.body);

    assert_eq!("second", body["model"]);
    assert_eq!(Value::Bool(false), body["stream"]);
    assert_eq!(read(r#"{"include_usage": true}"#), body["stream_options"]);
}

#[test]
fn a_request_that_does_not_stream_asks_for_no_usage() {
    let mut req = request(Vec::new(), None);
    req.stream = false;
    req.instructions = String::new();
    let body = value(&build(&req).body);

    assert_eq!(
        read(r#"{"model": "nvidia/nemotron-3-super-120b-a12b", "messages": [], "stream": false}"#),
        body
    );
}

#[test]
fn a_structured_output_format_is_sent_as_a_json_schema() {
    let mut req = request(Vec::new(), None);
    req.text = Some(TextControls {
        format: Some(TextFormat {
            name: "answer".to_string(),
            strict: true,
            schema: parse(r#"{"type": "object"}"#).expect("schema"),
        }),
    });
    let body = value(&build(&req).body);

    assert_eq!(
        read(
            r#"{
                "type": "json_schema",
                "json_schema": {"name": "answer", "strict": true, "schema": {"type": "object"}}
            }"#
        ),
        body["response_format"]
    );
    req.text = Some(TextControls { format: None });
    assert!(build(&req).body.get("response_format").is_none());
}

#[test]
fn tools_that_are_no_array_are_an_error() {
    let req = request(Vec::new(), Some("{"));
    let err = build_chat_completions_payload(&req, &ChatCompletionsOptions::default())
        .expect_err("tools should not parse");
    let theirs = serde_json::from_str::<Vec<Value>>("{").expect_err("not an array");

    assert_eq!(theirs.to_string(), err);
    let object = request(Vec::new(), Some(r#"{"type": "function"}"#));
    assert!(build_chat_completions_payload(&object, &ChatCompletionsOptions::default()).is_err());
}

#[test]
fn declared_tools_are_sent_with_their_choice() {
    let mut req = request(
        Vec::new(),
        Some(r#"[{"type": "function", "name": "now"}, {"type": "function"}]"#),
    );
    req.tool_choice = "required".to_string();
    req.parallel_tool_calls = false;
    let body = value(&build(&req).body);

    assert_eq!("required", body["tool_choice"]);
    assert_eq!(Value::Bool(false), body["parallel_tool_calls"]);
    assert_eq!(
        read(
            r#"[{
                "type": "function",
                "function": {
                    "name": "now",
                    "description": "",
                    "parameters": {
                        "type": "object",
                        "properties": {},
                        "additionalProperties": false
                    }
                }
            }]"#
        ),
        body["tools"]
    );
}

#[test]
fn tool_choices_have_a_chat_spelling() {
    assert_eq!("none", chat_tool_choice("none"));
    assert_eq!("required", chat_tool_choice("required"));
    assert_eq!("auto", chat_tool_choice("auto"));
    assert_eq!("auto", chat_tool_choice("anything"));
}

#[test]
fn whatever_is_not_freeform_is_a_function_in_a_namespace() {
    let declared = vec![parse(
        r#"{
            "type": "namespace",
            "name": "team",
            "tools": [{"name": "ask"}, {"type": "custom", "name": "patch"}, {"type": "function"}]
        }"#,
    )
    .expect("namespace")];
    let mut bindings = ToolBindings::new();
    let tools = values(&convert_tools(&declared, &mut bindings));

    let names: Vec<&str> =
        tools.iter().map(|tool| tool["function"]["name"].as_str().expect("name")).collect();
    assert_eq!(vec!["team__ask", "team__patch"], names);
    assert!(!bindings.get("team__ask").expect("bound").freeform);
    assert!(bindings.get("team__patch").expect("bound").freeform);
}

#[test]
fn a_namespace_without_tools_or_name_is_dropped() {
    let declared = vec![
        parse(r#"{"type": "namespace", "name": "team"}"#).expect("namespace"),
        parse(r#"{"type": "namespace", "tools": [{"name": "ask"}]}"#).expect("namespace"),
        parse(r#"{"name": "untyped"}"#).expect("tool"),
    ];
    let mut bindings = ToolBindings::new();

    assert!(convert_tools(&declared, &mut bindings).is_empty());
    assert!(bindings.is_empty());
}

#[test]
fn the_last_of_two_tools_that_share_a_name_is_bound() {
    let mut bindings = ToolBindings::new();
    let plain = parse(r#"{"name": "edit"}"#).expect("tool");
    assert!(convert_function_tool(&plain, None, &mut bindings).is_some());
    assert!(convert_freeform_tool(&plain, None, &mut bindings).is_some());

    assert!(bindings.get("edit").expect("bound").freeform);
    assert!(convert_freeform_tool(&Json::Null, None, &mut bindings).is_none());
}

#[test]
fn a_tool_that_takes_nothing_has_an_empty_schema() {
    assert_eq!(
        read(r#"{"type": "object", "properties": {}, "additionalProperties": false}"#),
        value(&empty_parameters())
    );
}

#[test]
fn an_empty_namespace_leaves_the_name_alone() {
    assert_eq!("shell", wire_tool_name(Some(""), "shell"));
    assert_eq!("shell", wire_tool_name(None, "shell"));
    assert_eq!("team__shell", wire_tool_name(Some("team"), "shell"));
    // The one pair of names that cannot be told apart.
    assert_eq!(wire_tool_name(Some("a_"), "b"), wire_tool_name(Some("a"), "_b"));
    // A namespace may hold what separates it: the last double underscore counts.
    assert_eq!("a__b__c", wire_tool_name(Some("a__b"), "c"));
    assert_ne!(wire_tool_name(Some("a__b"), "c"), wire_tool_name(Some("a"), "b_c"));
    assert_ne!(wire_tool_name(Some("a_"), "x"), wire_tool_name(Some("b"), "_y"));
}

#[test]
fn an_assistant_message_collapses_to_its_texts() {
    let content = vec![
        ContentItem::OutputText { text: "one".to_string() },
        ContentItem::InputImage { image_url: "data:,".to_string() },
        ContentItem::OutputText { text: "two".to_string() },
    ];
    let message = convert_message("assistant", &content).expect("message");
    assert_eq!(read(r#"{"role": "assistant", "content": "one\ntwo"}"#), value(&message));

    assert!(convert_message("user", &Vec::new()).is_none());
    assert!(convert_message("user", &vec![ContentItem::InputAudio]).is_none());
}

#[test]
fn items_without_a_chat_counterpart_leave_no_trace() {
    let items = vec![
        ResponseItem::Reasoning {
            content: Some(vec![ReasoningItemContent::ReasoningText { text: "hm".to_string() }]),
        },
        function_call("a", "one", None),
        ResponseItem::Other,
        ResponseItem::LocalShellCall { call_id: None, action: None },
        ResponseItem::FunctionCallOutput { call_id: None, output: None },
        function_call("b", "two", None),
    ];
    let messages = values(&convert_messages("", &items));

    assert_eq!(1, messages.len());
    assert_eq!(Value::Null, messages[0]["content"]);
    assert_eq!("a", messages[0]["tool_calls"][0]["id"]);
    assert_eq!("b", messages[0]["tool_calls"][1]["id"]);
}

#[test]
fn shell_and_freeform_calls_become_function_calls() {
    let items = vec![
        ResponseItem::LocalShellCall {
            call_id: Some("s".to_string()),
            action: Some(r#"{"command":["ls"]}"#.to_string()),
        },
        ResponseItem::LocalShellCall { call_id: Some("t".to_string()), action: None },
        ResponseItem::CustomToolCall {
            call_id: "c".to_string(),
            name: "patch".to_string(),
            namespace: Some("files".to_string()),
            input: "say \"hi\"\n".to_string(),
        },
        ResponseItem::CustomToolCallOutput { call_id: "c".to_string(), output: None },
    ];
    let messages = values(&convert_messages("", &items));

    assert_eq!(2, messages.len());
    let calls = messages[0]["tool_calls"].as_array().expect("calls");
    assert_eq!("local_shell", calls[0]["function"]["name"]);
    assert_eq!(r#"{"command":["ls"]}"#, calls[0]["function"]["arguments"]);
    assert_eq!("{}", calls[1]["function"]["arguments"]);
    assert_eq!("files__patch", calls[2]["function"]["name"]);
    assert_eq!(r#"{"input":"say \"hi\"\n"}"#, calls[2]["function"]["arguments"]);
    assert_eq!(read(r#"{"role": "tool", "tool_call_id": "c", "content": ""}"#), messages[1]);
    assert_eq!(messages[1], value(&tool_message("c", None)));
}

#[test]
fn a_message_parts_two_runs_of_calls() {
    let items = vec![
        function_call("a", "one", None),
        user_message("wait"),
        function_call("b", "two", None),
    ];
    let messages = values(&convert_messages("", &items));

    assert_eq!(3, messages.len());
    assert_eq!("a", messages[0]["tool_calls"][0]["id"]);
    assert_eq!("wait", messages[1]["content"]);
    assert_eq!("b", messages[2]["tool_calls"][0]["id"]);
}

#[test]
fn raw_input_survives_its_argument_object() {
    for input in ["", "plain", "quote \" and \\ and \n", "…", "{\"input\":\"x\"}"] {
        let arguments = freeform_arguments(input);
        assert_ne!(input, arguments);
        assert_eq!(input, unwrap_freeform(&parse(&arguments), &arguments));
    }
}

#[test]
fn a_decoded_call_goes_out_under_the_name_it_came_by() {
    let declared = vec![
        parse(r#"{"type": "custom", "name": "patch"}"#).expect("tool"),
        parse(r#"{"type": "namespace", "name": "team", "tools": [{"name": "ask"}]}"#)
            .expect("namespace"),
    ];
    let mut bindings = ToolBindings::new();
    convert_tools(&declared, &mut bindings);
    for (wire, arguments) in [
        ("patch", r#"{"input":"x"}"#),
        ("team__ask", r#"{"a":1}"#),
        ("undeclared", "{}"),
    ] {
        let call = ToolCallAccumulator {
            id: Some("call_1".to_string()),
            name: Some(wire.to_string()),
            arguments: arguments.to_string(),
        };
        let item = tool_call_item(&call, 0, &bindings).expect("item");
        let messages = values(&convert_messages("", &vec![item]));
        let sent = &messages[0]["tool_calls"][0];
        assert_eq!("call_1", sent["id"]);
        assert_eq!(wire, sent["function"]["name"]);
        assert_eq!(arguments, sent["function"]["arguments"]);
    }
}
