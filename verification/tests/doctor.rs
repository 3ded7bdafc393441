use codex_fleet::fleet::checks::{
    credential_check, doctor_report, model_availability, probe_target, role_checks, role_target,
    routed_role_checks, routing_checks, run_doctor, sample_models, session_checks, team_checks,
    ProbeTarget, Role, RoleSource,
};
use codex_fleet::fleet::config::{Config, ModelProviderInfo, ProviderSet, WireApi};
use codex_fleet::fleet::doctor::{Check, Report};
use codex_fleet::fleet::probe::{Endpoint, Runtime};

fn test_config() -> Config {
    Config {
        model_provider_id: "nebius".to_string(),
        model_provider: ModelProviderInfo::default(),
        model: None,
        model_providers: Vec::new(),
        agent_allowed_model_providers: ProviderSet::new(),
        multi_agent_v2: false,
        agent_max_depth: 1,
    }
}

fn local_provider(base_url: &str) -> ModelProviderInfo {
    ModelProviderInfo {
        base_url: Some(base_url.to_string()),
        wire_api: WireApi::Chat,
        ..Default::default()
    }
}

fn answer(models: &[&str]) -> Endpoint {
    Endpoint {
        base_url: "http://127.0.0.1:1/v1".to_string(),
        runtime: Runtime::Vllm,
        models: models.iter().map(|model| model.to_string()).collect(),
        wire_api: WireApi::Chat,
    }
}

#[test]
fn a_declared_but_unauthorized_endpoint_routes_nothing() {
    let mut config = test_config();
    config
        .model_providers
        .push(("vllm".to_string(), local_provider("http://127.0.0.1:1/v1")));

    let checks = routing_checks(&config);

    // Declared but never authorized: nothing routes to it.
    assert_eq!(
        vec![Check::Warn {
            note: "no endpoint is authorized for agent routing".to_string(),
            fix: "Every agent runs on the session's endpoint. Run `codex fleet scan --write`."
                .to_string(),
        }],
        checks
    );
}

#[test]
fn an_authorized_but_undeclared_endpoint_is_a_failure() {
    let mut config = test_config();
    config.agent_allowed_model_providers.insert("ghost");

    let checks = routing_checks(&config);

    assert!(checks.iter().any(Check::is_failure), "{checks:?}");
    assert_eq!(
        vec![Check::Fail {
            note: "`ghost` is authorized but not declared".to_string(),
            fix: "Add [model_providers.ghost], or drop it from the allowlist.".to_string(),
        }],
        checks
    );
}

#[test]
fn an_authorized_and_declared_endpoint_passes() {
    let mut config = test_config();
    config
        .model_providers
        .push(("vllm".to_string(), local_provider("http://127.0.0.1:1/v1")));
    config.agent_allowed_model_providers.insert("vllm");

    let checks = routing_checks(&config);

    assert_eq!(
        vec![Check::Pass("`vllm` is authorized for routing".to_string())],
        checks
    );
}

#[test]
fn a_flat_tree_is_a_warning_not_a_failure() {
    let mut config = test_config();
    config.agent_max_depth = 1;
    config.multi_agent_v2 = true;

    let checks = team_checks(&config);

    // Depth 1 is the default and works; it just is not an org.
    assert!(!checks.iter().any(Check::is_failure), "{checks:?}");
    assert!(
        checks
            .iter()
            .any(|check| matches!(check, Check::Warn { note, .. } if note.contains("max_depth"))),
        "{checks:?}"
    );
}

#[test]
fn a_disabled_backend_is_a_failure() {
    let mut config = test_config();
    config.agent_max_depth = 2;
    config.multi_agent_v2 = false;

    let checks = team_checks(&config);

    assert!(checks.iter().any(Check::is_failure), "{checks:?}");
}

#[test]
fn a_role_routed_to_an_unauthorized_endpoint_fails() {
    let mut config = test_config();
    config
        .model_providers
        .push(("vllm".to_string(), local_provider("http://127.0.0.1:1/v1")));

    let checks = routed_role_checks(&config, "worker", "vllm", "nemotron", None, None);

    // This is the failure that would otherwise only appear when the role is
    // used, as a spawn that refuses to run.
    assert!(checks.iter().any(Check::is_failure), "{checks:?}");
}

#[test]
fn a_routed_role_without_a_model_is_flagged() {
    let mut config = test_config();
    config
        .model_providers
        .push(("vllm".to_string(), local_provider("http://127.0.0.1:1/v1")));
    config.agent_allowed_model_providers.insert("vllm");

    let checks = routed_role_checks(&config, "worker", "vllm", /*model*/ "", None, None);

    assert!(
        checks.iter().any(
            |check| matches!(check, Check::Warn { note, .. } if note.contains("names no model"))
        ),
        "{checks:?}"
    );
}

#[test]
fn an_unreachable_endpoint_is_reported_with_its_url() {
    let mut config = test_config();
    config
        .model_providers
        .push(("vllm".to_string(), local_provider("http://127.0.0.1:1/v1")));
    config.agent_allowed_model_providers.insert("vllm");

    let checks = routed_role_checks(&config, "worker", "vllm", "nemotron", None, None);

    assert!(
        checks.iter().any(|check| matches!(
            check,
            Check::Fail { note, .. } if note.contains("http://127.0.0.1:1/v1")
        )),
        "{checks:?}"
    );
}

#[test]
fn a_missing_credential_names_the_variable() {
    let provider = ModelProviderInfo {
        env_key: Some("DEFINITELY_UNSET_FLEET_TEST_KEY".to_string()),
        ..Default::default()
    };

    let check = credential_check(&provider, None).expect_err("an unset key should fail");

    assert!(
        matches!(&check, Check::Fail { note, .. } if note.contains("DEFINITELY_UNSET_FLEET_TEST_KEY")),
        "{check:?}"
    );
    assert_eq!(Err(check), credential_check(&provider, Some(" \t")));
}

#[test]
fn a_provider_without_a_credential_needs_none() {
    assert_eq!(Ok(None), credential_check(&ModelProviderInfo::default(), None));
}

#[test]
fn the_report_shows_failures_and_their_fixes() {
    let mut report = Report::default();
    report.section(
        "Routing",
        vec![
            Check::Pass("`vllm` is authorized".to_string()),
            Check::Fail {
                note: "`ghost` is not declared".to_string(),
                fix: "Add it to config.toml.".to_string(),
            },
        ],
    );

    assert!(report.failed());
    let rendered = report.render();
    assert!(
        rendered.contains("  ok    `vllm` is authorized"),
        "{rendered}"
    );
    assert!(
        rendered.contains("  FAIL  `ghost` is not declared"),
        "{rendered}"
    );
    assert!(
        rendered.contains("          Add it to config.toml."),
        "{rendered}"
    );
    let verdict = run_doctor(&report);
    assert!(!verdict.ready);
    assert_eq!(
        format!("{rendered}Fix the failures above, then run `codex fleet doctor` again.\n"),
        verdict.text
    );
}

#[test]
fn a_report_of_warnings_alone_does_not_fail() {
    let mut report = Report::default();
    report.section(
        "Teams",
        vec![Check::Warn {
            note: "flat".to_string(),
            fix: "raise the depth".to_string(),
        }],
    );

    assert!(!report.failed());
    assert_eq!("Teams\n  warn  flat\n          raise the depth\n\n", report.render());
}

#[test]
fn a_credential_is_handed_on_as_it_is() {
    let provider = ModelProviderInfo {
        base_url: Some("http://x/v1".to_string()),
        env_key: Some("KEY".to_string()),
        ..Default::default()
    };
    assert_eq!(Ok(Some(" k ".to_string())), credential_check(&provider, Some(" k ")));
    assert_eq!(
        Some(ProbeTarget {
            base_url: "http://x/v1".to_string(),
            api_key: Some("k".to_string()),
        }),
        probe_target(&provider, Some("k"))
    );
    assert_eq!(None, probe_target(&provider, None));
    assert_eq!(None, probe_target(&ModelProviderInfo::default(), None));
}

#[test]
fn a_model_list_is_advisory() {
    let provider = local_provider("http://x/v1");
    assert_eq!(
        Check::Pass("serves b".to_string()),
        model_availability(&provider, Some(&answer(&["a", "b"])), "b", "session")
    );
    assert_eq!(
        Check::Warn {
            note: "session: http://x/v1 does not list z".to_string(),
            fix: "It may still serve it. Otherwise pick one it lists: a, b, c.".to_string(),
        },
        model_availability(&provider, Some(&answer(&["a", "b", "c", "d"])), "z", "session")
    );
    assert_eq!(
        Check::Pass("session endpoint answers with 2 model(s)".to_string()),
        model_availability(&provider, Some(&answer(&["a", "b"])), "", "session")
    );
    assert_eq!(
        Check::Fail {
            note: "session: http://x/v1 is not answering".to_string(),
            fix: "Start the server, or re-point it with `codex fleet add`.".to_string(),
        },
        model_availability(&provider, None, "b", "session")
    );
    assert_eq!(
        Check::Pass("the endpoint is resolved at request time".to_string()),
        model_availability(&ModelProviderInfo::default(), None, "b", "session")
    );
    assert_eq!("none listed", sample_models(&Vec::new()));
}

#[test]
fn the_session_is_checked_step_by_step() {
    let mut config = test_config();
    assert_eq!(
        vec![
            Check::Pass("provider `nebius` → its built-in endpoint".to_string()),
            Check::Pass("no model pinned — the session default applies".to_string()),
            Check::Pass("the endpoint is resolved at request time".to_string()),
        ],
        session_checks(&config, None, None)
    );
    config.model_provider.env_key = Some("KEY".to_string());
    assert_eq!(
        vec![
            Check::Pass("provider `nebius` → its built-in endpoint".to_string()),
            Check::Fail {
                note: "KEY is not set".to_string(),
                fix: "export KEY=… and run this again.".to_string(),
            },
        ],
        session_checks(&config, None, None)
    );
    config.model = Some("m".to_string());
    config.model_provider.base_url = Some("http://x/v1".to_string());
    assert_eq!(
        vec![
            Check::Pass("provider `nebius` → http://x/v1".to_string()),
            Check::Pass("KEY is set".to_string()),
            Check::Pass("serves m".to_string()),
        ],
        session_checks(&config, Some("k"), Some(&answer(&["m"])))
    );
}

fn role(name: &str, source: RoleSource) -> Role {
    Role { name: name.to_string(), source, value: None, answer: None }
}

#[test]
fn roles_are_checked_by_what_their_files_say() {
    let config = test_config();
    let roles = vec![
        role("a", RoleSource::Absent),
        role("b", RoleSource::Unreadable { path: "/b".to_string(), err: "gone".to_string() }),
        role("c", RoleSource::Unparsable { path: "/c".to_string(), err: "bad".to_string() }),
        role("d", RoleSource::Parsed { model: Some("m".to_string()), model_provider: None }),
        role("e", RoleSource::Parsed { model: None, model_provider: Some("vllm".to_string()) }),
    ];
    assert_eq!(
        vec![
            Check::Pass("a declares no config file".to_string()),
            Check::Fail {
                note: "b cannot read /b: gone".to_string(),
                fix: "Fix the path under [agents] in config.toml.".to_string(),
            },
            Check::Fail {
                note: "c does not parse: bad".to_string(),
                fix: "Fix /c.".to_string(),
            },
            Check::Pass("d inherits the session endpoint".to_string()),
            Check::Fail {
                note: "e routes to `vllm`, which is not authorized".to_string(),
                fix: "Add `vllm` to agents.allowed_model_providers. Spawning with this role \
fails until then."
                    .to_string(),
            },
        ],
        role_checks(&config, &roles)
    );
    assert_eq!(
        vec![Check::Warn {
            note: "no roles are declared".to_string(),
            fix: "Run `codex fleet team --write` to install a lead and worker.".to_string(),
        }],
        role_checks(&config, &Vec::new())
    );
}

#[test]
fn a_routed_role_is_followed_to_its_endpoint() {
    let mut config = test_config();
    config.agent_allowed_model_providers.insert("vllm");
    assert_eq!(
        vec![Check::Fail {
            note: "w routes to `vllm`, which is not declared".to_string(),
            fix: "Add [model_providers.vllm] to config.toml.".to_string(),
        }],
        routed_role_checks(&config, "w", "vllm", "m", None, None)
    );
    let mut provider = local_provider("http://x/v1");
    provider.env_key = Some("KEY".to_string());
    config.model_providers.push(("vllm".to_string(), provider));
    assert_eq!(
        vec![Check::Fail {
            note: "KEY is not set".to_string(),
            fix: "export KEY=… and run this again.".to_string(),
        }],
        routed_role_checks(&config, "w", "vllm", "m", None, Some(&answer(&["m"])))
    );
    assert_eq!(
        vec![Check::Pass("w runs m on `vllm`".to_string())],
        routed_role_checks(&config, "w", "vllm", "m", Some("k"), Some(&answer(&["m"])))
    );
    assert!(role_target(&config, "vllm", "m", Some("k")).is_some());
    assert!(role_target(&config, "vllm", "", Some("k")).is_none());
    assert!(role_target(&config, "vllm", "m", None).is_none());
    assert!(role_target(&config, "other", "m", Some("k")).is_none());
}

#[test]
fn a_fleet_that_works_is_ready() {
    let mut config = test_config();
    config.model = Some("nvidia/Nemotron-3-Ultra-550b-a55b".to_string());
    config.model_provider = ModelProviderInfo {
        base_url: Some("https://api.tokenfactory.nebius.com/v1".to_string()),
        env_key: Some("NEBIUS_API_KEY".to_string()),
        wire_api: WireApi::Responses,
    };
    config.model_providers.push(("vllm".to_string(), local_provider("http://127.0.0.1:8000/v1")));
    config.agent_allowed_model_providers.insert("vllm");
    config.multi_agent_v2 = true;
    config.agent_max_depth = 2;
    let model = "nvidia/nemotron-3-nano-30b-a3b";
    let mut worker = role(
        "worker",
        RoleSource::Parsed {
            model: Some(model.to_string()),
            model_provider: Some("vllm".to_string()),
        },
    );
    worker.answer = Some(answer(&[model]));
    let roles = vec![
        role("lead", RoleSource::Parsed { model: None, model_provider: None }),
        worker,
    ];

    let served = answer(&["nvidia/Nemotron-3-Ultra-550b-a55b"]);
    let verdict = run_doctor(&doctor_report(&config, Some("key"), Some(&served), &roles));
    assert!(verdict.ready);
    assert_eq!(
        "Session
  ok    provider `nebius` → https://api.tokenfactory.nebius.com/v1
  ok    NEBIUS_API_KEY is set
  ok    serves nvidia/Nemotron-3-Ultra-550b-a55b

Routing
  ok    `vllm` is authorized for routing

Roles
  ok    lead inherits the session endpoint
  ok    worker runs nvidia/nemotron-3-nano-30b-a3b on `vllm`

Teams
  ok    the multi-agent backend is enabled
  ok    agents.max_depth = 2 — leads may run teams

The fleet is ready.
",
        verdict.text
    );
    assert!(!run_doctor(&doctor_report(&config, None, Some(&served), &roles)).ready);
    assert!(!run_doctor(&doctor_report(&config, Some("key"), None, &roles)).ready);
}

#[test]
fn an_endpoint_that_is_not_asked_has_no_say() {
    let mut config = test_config();
    config.model_providers.push(("vllm".to_string(), local_provider("http://x/v1")));
    assert!(role_target(&config, "vllm", "m", None).is_none());
    assert_eq!(
        routed_role_checks(&config, "w", "vllm", "m", None, None),
        routed_role_checks(&config, "w", "vllm", "m", None, Some(&answer(&["m"])))
    );
}
