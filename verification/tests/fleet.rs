use codex_fleet::fleet::commands::{
    check_new_id, plan_add, plan_new_provider, plan_scan, print_endpoint, print_next_steps, scan_opening, scan_urls,
    AddArgs, FleetAction, FleetCommand, ScanArgs, WireChoice,
};
use codex_fleet::fleet::config::{
    find_provider, Config, ConfigEdit, ConfigValue, ModelProviderInfo, ProviderSet, WireApi,
};
use codex_fleet::fleet::listing::{list_rows, list_text};
use codex_fleet::fleet::probe::{Endpoint, Runtime};
use codex_fleet::fleet::setup::{
    allowlist_edit, assign_provider_ids, generated_provider_id, provider_edits,
};
use codex_fleet::fleet::urls::{is_loopback_url, normalize_base_url};
use codex_fleet::fleet::validate_provider_id;

const OLLAMA_OSS_PROVIDER_ID: &str = "ollama";

fn endpoint(base_url: &str, runtime: Runtime) -> Endpoint {
    Endpoint {
        base_url: base_url.to_string(),
        runtime,
        models: vec!["nvidia/nemotron-3-nano-30b-a3b".to_string()],
        wire_api: WireApi::Chat,
    }
}

fn rendered(value: &ConfigValue) -> String {
    let item = match value {
        ConfigValue::Text(text) => toml_edit::value(text.as_str()),
        ConfigValue::Integer(n) => toml_edit::value(*n),
        ConfigValue::List(list) => {
            let mut array = toml_edit::Array::new();
            for text in list {
                array.push(text.as_str());
            }
            toml_edit::value(array)
        }
    };
    item.as_value().map(ToString::to_string).unwrap_or_default()
}

/// Flattens edits into `("dotted.path", "rendered value")` pairs.
fn written(edits: &[ConfigEdit]) -> Vec<(String, String)> {
    edits
        .iter()
        .map(|edit| {
            let ConfigEdit::SetPath { segments, value } = edit;
            (segments.join("."), rendered(value))
        })
        .collect()
}

fn set(ids: &[&str]) -> ProviderSet {
    ProviderSet::from_list(&ids.iter().map(|id| id.to_string()).collect())
}

fn local_provider(base_url: &str) -> ModelProviderInfo {
    ModelProviderInfo {
        base_url: Some(base_url.to_string()),
        wire_api: WireApi::Chat,
        ..Default::default()
    }
}

fn built_ins() -> Vec<(String, ModelProviderInfo)> {
    vec![
        ("openai".to_string(), ModelProviderInfo::default()),
        (
            OLLAMA_OSS_PROVIDER_ID.to_string(),
            ModelProviderInfo {
                base_url: Some("http://localhost:11434/v1".to_string()),
                ..Default::default()
            },
        ),
        (
            "nebius".to_string(),
            ModelProviderInfo {
                base_url: Some("https://api.tokenfactory.nebius.com/v1".to_string()),
                env_key: Some("NEBIUS_API_KEY".to_string()),
                ..Default::default()
            },
        ),
    ]
}

fn test_config() -> Config {
    Config {
        model_provider_id: "openai".to_string(),
        model_provider: ModelProviderInfo::default(),
        model: None,
        model_providers: built_ins(),
        agent_allowed_model_providers: ProviderSet::new(),
        multi_agent_v2: false,
        agent_max_depth: 1,
    }
}

#[test]
fn provider_edits_describe_the_endpoint() {
    let edits = provider_edits(
        "dgx-spark",
        "http://10.0.0.5:8000/v1",
        Runtime::Vllm.label(),
        WireApi::Chat,
        /*api_key_env*/ None,
    );

    assert_eq!(
        vec![
            ("model_providers.dgx-spark.name".to_string(), r#""vLLM""#.to_string()),
            (
                "model_providers.dgx-spark.base_url".to_string(),
                r#""http://10.0.0.5:8000/v1""#.to_string()
            ),
            ("model_providers.dgx-spark.wire_api".to_string(), r#""chat""#.to_string()),
        ],
        written(&edits)
    );
}

#[test]
fn an_api_key_env_is_recorded_when_given() {
    let edits = provider_edits(
        "remote",
        "https://gpu.example/v1",
        Runtime::Unknown.label(),
        WireApi::Responses,
        Some("GPU_API_KEY"),
    );
    let written = written(&edits);

    assert!(
        written.contains(&(
            "model_providers.remote.env_key".to_string(),
            r#""GPU_API_KEY""#.to_string()
        )),
        "{written:?}"
    );
    assert!(
        written.contains(&(
            "model_providers.remote.wire_api".to_string(),
            r#""responses""#.to_string()
        )),
        "{written:?}"
    );
}

#[test]
fn the_allowlist_keeps_what_was_already_authorized() {
    let existing = set(&["nebius"]);
    let edits = [allowlist_edit(&existing, &vec!["vllm".to_string(), "nebius".to_string()])];

    assert_eq!(
        vec![(
            "agents.allowed_model_providers".to_string(),
            r#"["nebius", "vllm"]"#.to_string()
        )],
        written(&edits)
    );
}

#[test]
fn a_runtime_on_its_default_port_reuses_the_built_in_provider() {
    let config = test_config();
    let built_in_base_url = find_provider(&config.model_providers, OLLAMA_OSS_PROVIDER_ID)
        .and_then(|provider| provider.base_url.clone())
        .expect("built-in oss provider has a base url");

    let assignments = assign_provider_ids(
        &config,
        &built_ins(),
        &vec![endpoint(&built_in_base_url, Runtime::Ollama)],
    );

    // Built-in providers cannot be redefined, so writing a duplicate id would
    // produce config that never takes effect.
    assert_eq!(OLLAMA_OSS_PROVIDER_ID, assignments[0].0);
}

#[test]
fn an_unclaimed_runtime_name_is_used_as_is() {
    let config = test_config();

    let assignments = assign_provider_ids(
        &config,
        &built_ins(),
        &vec![endpoint("http://127.0.0.1:8000/v1", Runtime::Vllm)],
    );

    assert_eq!("vllm", assignments[0].0);
}

#[test]
fn a_second_instance_of_a_runtime_is_qualified_by_port() {
    let mut config = test_config();
    config.model_providers.push((
        "vllm".to_string(),
        ModelProviderInfo {
            base_url: Some("http://10.0.0.5:8000/v1".to_string()),
            ..Default::default()
        },
    ));

    let assignments = assign_provider_ids(
        &config,
        &built_ins(),
        &vec![endpoint("http://127.0.0.1:8001/v1", Runtime::Vllm)],
    );

    assert_eq!("vllm-8001", assignments[0].0);
}

#[test]
fn provider_ids_are_restricted_to_config_safe_characters() {
    assert!(validate_provider_id("dgx-spark_2").is_ok());
    assert!(validate_provider_id("").is_err());
    assert!(validate_provider_id("has space").is_err());
    assert!(validate_provider_id("quote\"").is_err());
}

#[test]
fn only_local_endpoints_are_probed_for_reachability() {
    assert!(is_loopback_url("http://127.0.0.1:8000/v1"));
    assert!(is_loopback_url("http://localhost:1234/v1"));
    assert!(!is_loopback_url("https://api.tokenfactory.nebius.com/v1"));
    assert!(!is_loopback_url("http://10.0.0.5:8000/v1"));
}

#[test]
fn a_longer_hostname_is_not_local() {
    for url in [
        "http://localhost.example.com/v1",
        "http://127.0.0.1.example.com/v1",
        "http://127.0.0.10:8000/v1",
        "http://[::1]x/v1",
        "http://example.com//localhost",
        "localhost:8000",
        "",
    ] {
        assert!(!is_loopback_url(url), "{url}");
    }
    for url in [
        "http://localhost",
        "http://127.0.0.1/v1",
        "http://[::1]",
        "https://localhost/",
        "http://localhost?key=1",
        "http://127.0.0.1#top",
        "http://[::1]?key=1",
    ] {
        assert!(is_loopback_url(url), "{url}");
    }
}

#[test]
fn a_refused_id_says_what_is_allowed() {
    assert_eq!(
        Err("provider id must be non-empty and use only letters, digits, `-` and `_`".to_string()),
        validate_provider_id("ünsafe")
    );
    assert!(is_loopback_url("http://[::1]:8000/v1"));
}

#[test]
fn an_endpoint_is_known_by_any_of_its_names() {
    for url in [
        "http://localhost:11434/v1",
        "http://[::1]:11434/v1/",
        "HTTP://LOCALHOST:11434/V1",
        "http://127.0.0.1:11434/v1///",
    ] {
        assert_eq!("http://127.0.0.1:11434/v1", normalize_base_url(url));
    }
    assert_eq!("http://127.0.0.1", normalize_base_url("http://localhost"));
    assert_eq!("http://127.0.0.1", normalize_base_url("http://[::1]/"));
    // An ordinary hostname that happens to start with an alias.
    assert_eq!("http://localhost.example.com", normalize_base_url("http://localhost.example.com"));
    // A path that holds an alias of its own: it is taken for the host.
    assert_ne!(
        normalize_base_url("http://localhost/x//localhost"),
        normalize_base_url("http://127.0.0.1/x//localhost")
    );
}

#[test]
fn scanning_again_keeps_the_id() {
    let mut config = test_config();
    let found = endpoint("http://localhost:8000/v1", Runtime::Vllm);
    let id = generated_provider_id(&config, &found);
    config.model_providers.push((id.clone(), local_provider("http://127.0.0.1:8000/v1/")));
    assert_eq!(id, generated_provider_id(&config, &found));

    // A provider without a URL points somewhere else.
    config.model_providers.push(("vllm".to_string(), ModelProviderInfo::default()));
    assert_eq!("vllm-8000", generated_provider_id(&config, &found));
    let portless = endpoint("gpu/v1", Runtime::Vllm);
    assert_eq!("vllm-gpu", generated_provider_id(&config, &portless));
}

#[test]
fn ids_are_kept_in_order_and_once() {
    let mut ids = set(&["b", "a", "é", "ab", "b", "B", "z"]);
    ids.insert("a");
    ids.insert("");
    assert_eq!(vec!["", "B", "a", "ab", "b", "z", "é"], ids.to_list());
    assert_eq!(7, ids.len());
    assert!(ids.contains("ab") && !ids.contains("c"));
    assert!(ProviderSet::new().is_empty() && !ids.is_empty());
    let again = allowlist_edit(&ids, &ids.to_list());
    assert_eq!(allowlist_edit(&ids, &Vec::new()), again);
}

#[test]
fn a_scan_asks_the_known_ports_unless_told_otherwise() {
    let mut args = ScanArgs { host: "127.0.0.1".to_string(), ports: Vec::new(), write: false };
    assert_eq!(
        vec![
            "http://127.0.0.1:11434/v1",
            "http://127.0.0.1:1234/v1",
            "http://127.0.0.1:8000/v1",
            "http://127.0.0.1:8080/v1",
        ],
        scan_urls(&args)
    );
    assert_eq!("Scanning 127.0.0.1 on 4 port(s)…\n\n", scan_opening(&args));
    args.ports = vec![7, 65535];
    args.host = "dgx".to_string();
    assert_eq!(vec!["http://dgx:7/v1", "http://dgx:65535/v1"], scan_urls(&args));
    assert_eq!("Scanning dgx on 2 port(s)…\n\n", scan_opening(&args));
}

#[test]
fn a_scan_that_finds_nothing_writes_nothing() {
    let plan = plan_scan(&test_config(), &built_ins(), &Vec::new(), true);
    assert_eq!(
        "No inference endpoints answered.\nStart one, or point at another machine with --host.\n",
        plan.report
    );
    assert_eq!(None, plan.edits);
}

#[test]
fn a_scan_writes_what_it_found() {
    let mut config = test_config();
    config.agent_allowed_model_providers = set(&["nebius"]);
    let found = vec![
        endpoint("http://127.0.0.1:8000/v1", Runtime::Vllm),
        endpoint("http://127.0.0.1:11434/v1", Runtime::Ollama),
    ];

    let shown = plan_scan(&config, &built_ins(), &found, false);
    assert_eq!(None, shown.edits);
    assert_eq!(
        "vllm  vLLM  http://127.0.0.1:8000/v1  wire=chat\n    nvidia/nemotron-3-nano-30b-a3b\n\
ollama  Ollama  http://127.0.0.1:11434/v1  wire=chat\n    nvidia/nemotron-3-nano-30b-a3b\n    \
warning: `ollama` is configured for responses, but this server answers chat. Configure it \
under another id with `codex fleet add`.\nRe-run with --write to add these to config.toml.\n",
        shown.report
    );

    let plan = plan_scan(&config, &built_ins(), &found, true);
    let edits = plan.edits.expect("edits");
    assert_eq!(
        vec![
            ("model_providers.vllm.name".to_string(), r#""vLLM""#.to_string()),
            (
                "model_providers.vllm.base_url".to_string(),
                r#""http://127.0.0.1:8000/v1""#.to_string()
            ),
            ("model_providers.vllm.wire_api".to_string(), r#""chat""#.to_string()),
            (
                "agents.allowed_model_providers".to_string(),
                r#"["nebius", "ollama", "vllm"]"#.to_string()
            ),
        ],
        written(&edits)
    );
    assert_eq!(
        "Wrote 2 endpoint(s) to config.toml and authorized them for agent routing.\n\n\
Give a role its own endpoint by adding `model_provider = \"vllm\"` to its file under \
~/.codex/agents/, then spawn agents with that role.\n",
        plan.closing
    );
}

#[test]
fn at_most_three_models_are_shown() {
    let mut shown = endpoint("http://x/v1", Runtime::Unknown);
    shown.models = ["a", "b", "c", "d", "e"].iter().map(|m| m.to_string()).collect();
    assert_eq!(
        "id  OpenAI-compatible server  http://x/v1  wire=chat\n    a, b, c, +2 more\n",
        print_endpoint("id", &shown)
    );
    shown.models.truncate(3);
    assert!(print_endpoint("id", &shown).ends_with("\n    a, b, c\n"));
    shown.models.clear();
    assert!(print_endpoint("id", &shown).ends_with("\n    no models loaded\n"));
    assert_eq!("", print_next_steps(&Vec::new()));
}

#[test]
fn a_built_in_id_cannot_be_taken() {
    assert_eq!(
        Err("`ollama` is a built-in provider and cannot be redefined; choose another id"
            .to_string()),
        check_new_id(&built_ins(), "ollama")
    );
    // Just the endpoint of this one may be overridden.
    assert_eq!(Ok(()), check_new_id(&built_ins(), "nebius"));
    assert_eq!(Ok(()), check_new_id(&built_ins(), "dgx-spark"));
    assert!(check_new_id(&built_ins(), "dgx spark").is_err());
}

fn add_args(wire: WireChoice) -> AddArgs {
    AddArgs {
        id: "dgx-spark".to_string(),
        url: "http://10.0.0.5:8000/v1/".to_string(),
        wire,
        api_key_env: Some("GPU_API_KEY".to_string()),
    }
}

#[test]
fn a_silent_endpoint_can_be_added_with_a_wire_of_its_own() {
    let config = test_config();
    assert_eq!(
        Err("http://10.0.0.5:8000/v1 did not answer, so its wire protocol is unknown. Start the \
server, or pass --wire chat|responses to configure it anyway."
            .to_string()),
        plan_add(&config, &add_args(WireChoice::Auto), None)
    );
    let plan = plan_add(&config, &add_args(WireChoice::Responses), None).expect("plan");
    assert_eq!("dgx-spark  http://10.0.0.5:8000/v1  (not answering)\n", plan.report);
    assert_eq!(
        vec![
            (
                "model_providers.dgx-spark.name".to_string(),
                r#""OpenAI-compatible server""#.to_string()
            ),
            (
                "model_providers.dgx-spark.base_url".to_string(),
                r#""http://10.0.0.5:8000/v1""#.to_string()
            ),
            ("model_providers.dgx-spark.wire_api".to_string(), r#""responses""#.to_string()),
            ("model_providers.dgx-spark.env_key".to_string(), r#""GPU_API_KEY""#.to_string()),
            ("agents.allowed_model_providers".to_string(), r#"["dgx-spark"]"#.to_string()),
        ],
        written(&plan.edits.expect("edits"))
    );
    assert!(plan.closing.starts_with("Added `dgx-spark` and authorized it for agent routing.\n\n"));
}

#[test]
fn an_answering_endpoint_is_added_as_it_is() {
    let config = test_config();
    let answer = endpoint("http://10.0.0.5:8000/v1", Runtime::Vllm);
    let plan = plan_add(&config, &add_args(WireChoice::Auto), Some(&answer)).expect("plan");
    assert_eq!(print_endpoint("dgx-spark", &answer), plan.report);
    assert_eq!(
        ("model_providers.dgx-spark.wire_api".to_string(), r#""chat""#.to_string()),
        written(&plan.edits.expect("edits"))[2]
    );
    let forced = plan_add(&config, &add_args(WireChoice::Chat), Some(&answer)).expect("plan");
    assert_eq!(plan.report, forced.report);
}

#[test]
fn nothing_is_planned_under_a_refused_id() {
    let config = test_config();
    for (id, message) in [
        (
            "dgx spark",
            "provider id must be non-empty and use only letters, digits, `-` and `_`",
        ),
        ("ollama", "`ollama` is a built-in provider and cannot be redefined; choose another id"),
    ] {
        let mut args = add_args(WireChoice::Chat);
        args.id = id.to_string();
        assert_eq!(
            Err(message.to_string()),
            plan_new_provider(&config, &built_ins(), &args, None)
        );
    }
    let args = add_args(WireChoice::Chat);
    assert_eq!(
        plan_add(&config, &args, None),
        plan_new_provider(&config, &built_ins(), &args, None)
    );
    assert!(plan_new_provider(&config, &built_ins(), &add_args(WireChoice::Auto), None).is_err());
}

#[test]
fn the_table_lists_providers_by_id() {
    let mut config = test_config();
    config.model_providers.push(("a-local".to_string(), local_provider("http://localhost:8000/v1")));
    config.agent_allowed_model_providers = set(&["a-local"]);
    let rows = list_rows(&config);
    let ids: Vec<&str> = rows.iter().map(|row| row.id.as_str()).collect();
    assert_eq!(vec!["a-local", "nebius", "ollama", "openai"], ids);

    let text = list_text(&config, &rows, &vec![Some(1), None, Some(2), None]);
    assert_eq!(
        "PROVIDER WIRE       ROUTABLE  ENDPOINT\n\
a-local  chat       yes       http://localhost:8000/v1  (1 model)\n\
nebius   responses  no        https://api.tokenfactory.nebius.com/v1\n\
ollama   responses  no        http://localhost:11434/v1  (2 models)\n\
openai   responses  no        (built-in endpoint)\n",
        text
    );
}

#[test]
fn a_wide_id_widens_the_table() {
    let mut config = test_config();
    config.model_providers =
        vec![("a-rather-long-id".to_string(), local_provider("http://127.0.0.1:1/v1"))];
    let rows = list_rows(&config);
    assert_eq!(
        "PROVIDER         WIRE       ROUTABLE  ENDPOINT\n\
a-rather-long-id chat       no        http://127.0.0.1:1/v1  (not answering)\n\
\nNo provider is authorized for agent routing yet, so every agent runs on the session's own \
endpoint.\n",
        list_text(&config, &rows, &vec![None])
    );
}

#[test]
fn commands_hold_their_arguments() {
    let command = FleetCommand { action: FleetAction::Add(add_args(WireChoice::Auto)) };
    assert_ne!(command, FleetCommand { action: FleetAction::List });
    assert_ne!(FleetAction::Doctor, FleetAction::List);
    assert_eq!("chat", WireApi::Chat.text());
    assert_eq!("responses", WireApi::Responses.text());
}
