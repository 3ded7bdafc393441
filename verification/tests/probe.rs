use codex_fleet::fleet::config::WireApi;
use codex_fleet::fleet::probe::{
    default_ports, host_root, models_of_document, probe, responses_route_missing, Advance, Endpoint,
    Method, Probe, ProbeRequest, Reply, Runtime,
};
use codex_fleet::fleet::validate_provider_id;
use codex_fleet::json::parse;

fn answer(status: u16, body: &str) -> Reply {
    Reply::Answer { status, body: Some(body.to_string()) }
}

fn models_endpoint(ids: &[&str]) -> Reply {
    let data: Vec<String> = ids.iter().map(|id| format!(r#"{{"id": "{id}"}}"#)).collect();
    answer(200, &format!(r#"{{"data": [{}]}}"#, data.join(", ")))
}

/// Runs a probe against a scripted server, which answers 404 to what it does not
/// serve.
fn drive(
    base_url: &str,
    api_key: Option<&str>,
    serve: impl Fn(&ProbeRequest) -> Option<Reply>,
) -> Option<Endpoint> {
    let mut state = Probe::new(base_url, api_key);
    loop {
        let reply = serve(&state.request()).unwrap_or(answer(404, ""));
        match state.advance(&reply) {
            Advance::Ask(next) => state = next,
            Advance::Done(endpoint) => return endpoint,
        }
    }
}

#[test]
fn reports_models_and_identifies_the_runtime() {
    let endpoint = drive("http://server/v1", None, |request| match (request.method, request.url.as_str()) {
        (Method::Get, "http://server/v1/models") => {
            Some(models_endpoint(&["nvidia/nemotron-3-nano-30b-a3b"]))
        }
        (Method::Get, "http://server/version") => Some(answer(200, r#"{"version": "0.11.0"}"#)),
        (Method::Post, "http://server/v1/responses") => Some(answer(404, "")),
        _ => None,
    })
    .expect("server should answer");

    assert_eq!(Runtime::Vllm, endpoint.runtime);
    assert_eq!(vec!["nvidia/nemotron-3-nano-30b-a3b"], endpoint.models);
    assert_eq!(WireApi::Chat, endpoint.wire_api);
}

#[test]
fn a_served_responses_route_selects_the_responses_wire() {
    let endpoint = drive("http://server/v1", None, |request| match (request.method, request.url.as_str()) {
        (Method::Get, "http://server/v1/models") => {
            Some(models_endpoint(&["nvidia/Nemotron-3-Ultra-550b-a55b"]))
        }
        // A served route rejects the empty probe body rather than 404ing.
        (Method::Post, "http://server/v1/responses") => {
            assert_eq!(Some("{}".to_string()), request.body);
            Some(answer(400, r#"{"error": "missing model"}"#))
        }
        _ => None,
    })
    .expect("server should answer");

    assert_eq!(WireApi::Responses, endpoint.wire_api);
    // Nothing identified the server, but it still speaks the OpenAI API.
    assert_eq!(Runtime::Unknown, endpoint.runtime);
}

#[test]
fn an_endpoint_without_a_model_list_is_not_reported() {
    assert!(drive("http://server/v1", None, |_| Some(answer(500, ""))).is_none());
}

#[test]
fn nothing_listening_is_not_an_error() {
    assert!(drive("http://127.0.0.1:1/v1", None, |_| Some(Reply::Silence)).is_none());
}

#[test]
fn host_root_strips_the_openai_suffix() {
    assert_eq!("http://localhost:8000", host_root("http://localhost:8000/v1"));
    assert_eq!("http://localhost:8000", host_root("http://localhost:8000/v1/"));
    assert_eq!("http://localhost:8000", host_root("http://localhost:8000"));
}

#[test]
fn default_ports_cover_every_known_runtime() {
    assert_eq!(vec![11434, 1234, 8000, 8080], default_ports());
}

#[test]
fn a_key_goes_where_it_is_needed_and_nowhere_else() {
    let mut state = Probe::new("http://server/v1//", Some("secret"));
    let mut seen: Vec<(String, Option<String>)> = Vec::new();
    let endpoint = loop {
        let request = state.request();
        let reply = if request.url.ends_with("/models") && seen.is_empty() {
            models_endpoint(&[])
        } else {
            Reply::Silence
        };
        seen.push((request.url, request.authorization));
        match state.advance(&reply) {
            Advance::Ask(next) => state = next,
            Advance::Done(endpoint) => break endpoint.expect("server should answer"),
        }
    };

    let bearer = Some("Bearer secret".to_string());
    assert_eq!(
        vec![
            ("http://server/v1/models".to_string(), bearer.clone()),
            ("http://server/api/tags".to_string(), None),
            ("http://server/api/v0/models".to_string(), None),
            ("http://server/version".to_string(), None),
            ("http://server/props".to_string(), None),
            ("http://server/v1/responses".to_string(), bearer),
        ],
        seen
    );
    assert_eq!("http://server/v1", endpoint.base_url);
    assert_eq!(WireApi::Chat, endpoint.wire_api);
    assert!(endpoint.models.is_empty());
}

#[test]
fn a_list_without_data_holds_no_models() {
    assert_eq!(Some(Vec::new()), models_of_document(&parse("{}")));
    assert_eq!(
        Some(vec!["b".to_string()]),
        models_of_document(&parse(r#"{"data": [{"name": "a"}, {"id": "b"}, {"id": 3}]}"#))
    );
    assert_eq!(None, models_of_document(&parse("<html>")));
}

#[test]
fn the_first_side_channel_that_answers_names_the_runtime() {
    let no = || answer(404, "");
    let yes = || answer(204, "");
    for (misses, runtime) in [
        (0, Runtime::Ollama),
        (1, Runtime::LmStudio),
        (2, Runtime::Vllm),
        (3, Runtime::LlamaCpp),
    ] {
        let mut replies = vec![models_endpoint(&["m"])];
        for _ in 0..misses {
            replies.push(no());
        }
        replies.push(yes());
        replies.push(answer(405, ""));
        let endpoint = probe("http://server", None, &replies).expect("server should answer");
        assert_eq!(runtime, endpoint.runtime);
        assert_eq!(WireApi::Chat, endpoint.wire_api);
    }
    assert_eq!(None, probe("http://server", None, &vec![answer(299, "no JSON")]));
    assert_eq!(None, probe("http://server", None, &vec![Reply::Answer { status: 200, body: None }]));
    assert_eq!(None, probe("http://server", None, &Vec::new()));
}

#[test]
fn a_missing_route_has_one_of_three_statuses() {
    for status in [404, 405, 501] {
        assert!(responses_route_missing(status));
    }
    for status in [200, 400, 401, 403, 500, 503] {
        assert!(!responses_route_missing(status));
    }
}

#[test]
fn every_runtime_has_its_name_and_port() {
    let all = [
        (Runtime::Ollama, "Ollama", "ollama", Some(11434)),
        (Runtime::LmStudio, "LM Studio", "lmstudio", Some(1234)),
        (Runtime::Vllm, "vLLM", "vllm", Some(8000)),
        (Runtime::LlamaCpp, "llama.cpp / Unsloth Studio", "llamacpp", Some(8080)),
        (Runtime::Unknown, "OpenAI-compatible server", "openai-compat", None),
    ];
    for (runtime, label, slug, port) in all {
        assert_eq!(label, runtime.label());
        assert_eq!(slug, runtime.slug());
        assert_eq!(port, runtime.default_port());
        assert!(validate_provider_id(runtime.slug()).is_ok());
    }
}
