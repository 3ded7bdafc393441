use codex_fleet::fleet::config::{
    Config, ConfigEdit, ConfigValue, ModelProviderInfo, ProviderSet, WireApi,
};
use codex_fleet::fleet::probe::{Endpoint, Runtime};
use codex_fleet::fleet::role_files::{
    lead_role_file, role_file_contents, role_file_from_literals, toml_string, worker_role_file,
};
use codex_fleet::fleet::team::{
    check_depth, check_role_file, path_for_config, plan_team, preferred_path, team_edits,
    team_edits_for, team_report, RoleFile, TeamArgs, INSTALLED, LEAD_INSTRUCTIONS, LEAD_ROLE,
    ROLES_DIR, WORKER_INSTRUCTIONS, WORKER_ROLE,
};
use codex_fleet::fleet::workers::{
    choose_model, resolve_answering_provider, resolve_answering_worker, resolve_served_model,
    resolve_worker_runtime, sole_authorized_provider, WorkerRuntime,
};
use std::path::Path;

fn args(depth: i32) -> TeamArgs {
    TeamArgs {
        local_provider: None,
        local_model: None,
        depth,
        write: false,
        force: false,
    }
}

fn written(edits: &[ConfigEdit]) -> Vec<(String, String)> {
    edits
        .iter()
        .map(|edit| {
            let ConfigEdit::SetPath { segments, value } = edit;
            let item = match value {
                ConfigValue::Text(text) => toml_edit::value(text.as_str()),
                ConfigValue::Integer(n) => toml_edit::value(*n),
                ConfigValue::List(list) => panic!("the team writes no lists, got {list:?}"),
            };
            (
                segments.join("."),
                item.as_value().map(ToString::to_string).unwrap_or_default(),
            )
        })
        .collect()
}

fn roles_dir(codex_home: &str) -> String {
    Path::new(codex_home).join(ROLES_DIR).to_string_lossy().into_owned()
}

#[test]
fn roles_are_declared_with_paths_relative_to_codex_home() {
    let codex_home = "/home/dev/.codex";
    let edits = team_edits(&args(2), &roles_dir(codex_home), codex_home);
    let written = written(&edits);

    // A relative path keeps a copied CODEX_HOME working on another machine.
    assert!(
        written.contains(&(
            "agents.lead.config_file".to_string(),
            r#""agents/lead.toml""#.to_string()
        )),
        "{written:?}"
    );
    assert!(
        written.contains(&(
            "agents.worker.config_file".to_string(),
            r#""agents/worker.toml""#.to_string()
        )),
        "{written:?}"
    );
}

#[test]
fn the_depth_limit_is_raised_so_leads_can_run_teams() {
    let codex_home = "/home/dev/.codex";
    let edits = team_edits(&args(3), &roles_dir(codex_home), codex_home);

    assert!(
        written(&edits).contains(&("agents.max_depth".to_string(), "3".to_string())),
        "{:?}",
        written(&edits)
    );
}

#[test]
fn a_role_file_carries_its_endpoint_and_instructions() {
    let contents = role_file_contents(
        WORKER_ROLE,
        WORKER_INSTRUCTIONS,
        Some("nvidia/nemotron-3-nano-30b-a3b"),
        Some("vllm"),
    );

    assert!(contents.contains(r#"name = "worker""#), "{contents}");
    assert!(
        contents.contains(r#"model = "nvidia/nemotron-3-nano-30b-a3b""#),
        "{contents}"
    );
    assert!(contents.contains(r#"model_provider = "vllm""#), "{contents}");
    assert!(contents.contains("You are one worker on a team."), "{contents}");
    // The file has to parse as the role loader reads it.
    let parsed: toml::Value = toml::from_str(&contents).expect("role file should be valid TOML");
    assert_eq!(Some("worker"), parsed["name"].as_str());
}

#[test]
fn a_lead_inherits_the_session_endpoint() {
    let contents = role_file_contents(LEAD_ROLE, LEAD_INSTRUCTIONS, None, None);

    // Leads run on whatever the session runs on, which is the whole point of
    // splitting the hierarchy across endpoints.
    assert!(!contents.contains("model ="), "{contents}");
    assert!(!contents.contains("model_provider ="), "{contents}");
}

#[test]
fn quotes_in_an_endpoint_name_cannot_break_out_of_the_role_file() {
    let contents = role_file_contents(WORKER_ROLE, "be brief\n", Some(r#"evil"model"#), None);

    let parsed: toml::Value = toml::from_str(&contents).expect("role file should be valid TOML");
    assert_eq!(Some(r#"evil"model"#), parsed["model"].as_str());
}

#[test]
fn a_single_served_model_is_chosen_without_asking() {
    assert_eq!(
        Some("qwen3-coder".to_string()),
        choose_model(&vec!["qwen3-coder".to_string()])
    );
}

#[test]
fn the_nemotron_family_wins_when_several_models_are_served() {
    let models = vec![
        "qwen3-coder".to_string(),
        "nvidia/Nemotron-3-Nano-30b-a3b".to_string(),
    ];

    assert_eq!(
        Some("nvidia/Nemotron-3-Nano-30b-a3b".to_string()),
        choose_model(&models)
    );
}

#[test]
fn an_ambiguous_endpoint_asks_rather_than_guessing() {
    let models = vec!["qwen3-coder".to_string(), "llama-3.3-70b".to_string()];

    assert_eq!(None, choose_model(&models));
    assert_eq!(None, choose_model(&Vec::new()));
}

#[test]
fn generated_role_files_satisfy_the_role_loader() {
    for (contents, name, instructions, model) in [
        (lead_role_file(), LEAD_ROLE, LEAD_INSTRUCTIONS, None),
        (
            worker_role_file("nvidia/nemotron-3-nano-30b-a3b", "vllm"),
            WORKER_ROLE,
            WORKER_INSTRUCTIONS,
            Some("nvidia/nemotron-3-nano-30b-a3b"),
        ),
    ] {
        let parsed: toml::Value = toml::from_str(&contents).expect("role file should be valid TOML");

        assert_eq!(Some(name), parsed["name"].as_str());
        assert_eq!(model, parsed.get("model").and_then(|model| model.as_str()));
        assert_eq!(Some(instructions), parsed["developer_instructions"].as_str());
    }
}

#[test]
fn literals_are_quoted_as_their_text_calls_for() {
    assert_eq!(r#""plain""#, toml_string("plain"));
    assert_eq!(r#""""#, toml_string(""));
    assert_eq!(r#""it's … fine""#, toml_string("it's … fine"));
    assert_eq!(r#"'say "hi" C:\x'"#, toml_string(r#"say "hi" C:\x"#));
    assert_eq!("\"\"\"\none \"two\"\n\"\"\"", toml_string("one \"two\"\n"));
}

#[test]
fn every_literal_reads_back() {
    for raw in [
        "", "plain", " padded ", "it's", "\"", "it's \"both\"", "a\\b", "tab\there", "line\nend",
        "\n", "\"\"\"", "'''\n\"\"\"", "bell\u{7}", "del\u{7f}", "\r\n", "\\\n'", "…—→",
    ] {
        let line = format!("key = {}\n", toml_string(raw));
        let parsed: toml::Value = toml::from_str(&line).expect("literal should be valid TOML");
        assert_eq!(Some(raw), parsed["key"].as_str(), "{line}");
    }
}

#[test]
fn literals_of_all_kinds_read_back() {
    let alphabet = ["\"", "'", "\\", "\n", "\t", "\r", "\u{1}", "a"];
    let mut texts = vec![String::new()];
    for _ in 0..4 {
        texts = texts
            .iter()
            .flat_map(|text| alphabet.iter().map(move |next| format!("{text}{next}")))
            .chain(["x".to_string()])
            .collect();
        for raw in &texts {
            let line = format!("key = {}\nafter = 1\n", toml_string(raw));
            let parsed: toml::Value = toml::from_str(&line).expect("literal should be valid TOML");
            assert_eq!(Some(raw.as_str()), parsed["key"].as_str(), "{line}");
            assert_eq!(Some(1), parsed["after"].as_integer(), "{line}");
        }
    }
}

#[test]
fn a_role_file_reads_back_whatever_it_is_given() {
    let odd = ["", "two\nlines", "both ' and \"", "\"\"\"\nmodel = \"x\"", "\u{7f}\\\r", "# no"];
    for (i, name) in odd.iter().enumerate() {
        let instructions = odd[(i + 1) % odd.len()];
        for model in [None, Some(odd[(i + 2) % odd.len()])] {
            for provider in [None, Some(odd[(i + 3) % odd.len()])] {
                let contents = role_file_contents(name, instructions, model, provider);
                let parsed: toml::Value =
                    toml::from_str(&contents).expect("role file should be valid TOML");
                let table = parsed.as_table().expect("a table");
                assert_eq!(
                    2 + usize::from(model.is_some()) + usize::from(provider.is_some()),
                    table.len()
                );
                assert_eq!(Some(*name), parsed["name"].as_str());
                assert_eq!(Some(instructions), parsed["developer_instructions"].as_str());
                assert_eq!(model, table.get("model").and_then(|model| model.as_str()));
                assert_eq!(
                    provider,
                    table.get("model_provider").and_then(|provider| provider.as_str())
                );
            }
        }
    }
}

#[test]
fn role_paths_end_in_the_role_files() {
    for (roles_dir, codex_home, lead) in [
        ("/home/dev/.codex/agents", "/home/dev/.codex", "agents/lead.toml"),
        ("/home/dev/.codex//agents/", "/home/dev/.codex/", "agents/lead.toml"),
        ("/etc/agents", "/home/dev/.codex", "/etc/agents/lead.toml"),
        ("agents", "", "agents/lead.toml"),
        ("", "/home", "lead.toml"),
        ("/a", "/a/lead.toml", ""),
    ] {
        let edits = team_edits(&args(2), roles_dir, codex_home);
        assert_eq!(format!("\"{lead}\""), written(&edits)[1].1);
        assert!(written(&edits)[3].1.ends_with("worker.toml\""));
    }
}

#[test]
fn paths_are_written_with_slashes() {
    assert_eq!("agents/lead.toml", path_for_config(r"agents\lead.toml"));
    let edits = team_edits_for(2, r"a\lead", "b/worker");
    let written = written(&edits);
    assert_eq!(5, written.len());
    assert_eq!(("agents.lead.config_file".to_string(), r#""a/lead""#.to_string()), written[1]);
    assert_eq!(("agents.worker.config_file".to_string(), r#""b/worker""#.to_string()), written[3]);
    assert!(written[0].1.starts_with("\"Runs a team. Give it one domain — frontend"));
    assert!(written[2].1.starts_with("\"Does one self-contained piece of work"));
}

#[test]
fn a_role_outside_the_home_directory_keeps_its_whole_path() {
    let edits = team_edits(&args(2), "/etc/agents", "/home/dev/.codex");
    assert_eq!(r#""/etc/agents/lead.toml""#, written(&edits)[1].1);
    assert_eq!("b", preferred_path(Some("b".to_string()), "/a/b".to_string()));
    assert_eq!("/a/b", preferred_path(None, "/a/b".to_string()));
}

#[test]
fn leads_need_a_depth_of_two() {
    assert_eq!(
        Err("--depth must be at least 2 for leads to run teams of their own".to_string()),
        check_depth(1)
    );
    assert!(check_depth(i32::MIN).is_err());
    assert_eq!(Ok(()), check_depth(2));
}

fn config(declared: &[(&str, Option<&str>)], allowed: &[&str]) -> Config {
    Config {
        model_provider_id: "nebius".to_string(),
        model_provider: ModelProviderInfo::default(),
        model: None,
        model_providers: declared
            .iter()
            .map(|(id, base_url)| {
                let provider = ModelProviderInfo {
                    base_url: base_url.map(str::to_string),
                    ..Default::default()
                };
                (id.to_string(), provider)
            })
            .collect(),
        agent_allowed_model_providers: ProviderSet::from_list(
            &allowed.iter().map(|id| id.to_string()).collect(),
        ),
        multi_agent_v2: true,
        agent_max_depth: 2,
    }
}

fn resolve(config: &Config, provider: Option<&str>, model: Option<&str>) -> Result<WorkerRuntime, String> {
    let mut args = args(2);
    args.local_provider = provider.map(str::to_string);
    args.local_model = model.map(str::to_string);
    resolve_worker_runtime(config, &args)
}

#[test]
fn workers_run_on_the_endpoint_that_is_authorized() {
    let one = config(&[("vllm", Some("http://x/v1"))], &["vllm"]);
    assert_eq!(
        Ok(WorkerRuntime::Served {
            provider_id: "vllm".to_string(),
            base_url: "http://x/v1".to_string(),
        }),
        resolve(&one, None, None)
    );
    assert_eq!(
        Ok(WorkerRuntime::Named { provider_id: "vllm".to_string(), model: "m".to_string() }),
        resolve(&one, Some("vllm"), Some("m"))
    );
    assert_eq!(Ok("vllm".to_string()), sole_authorized_provider(&one));
}

#[test]
fn a_worker_without_an_endpoint_is_an_error() {
    let one = config(&[("vllm", None)], &["vllm"]);
    assert_eq!(
        Err("`gpu` is not authorized for agent routing; run `codex fleet add gpu …` or add it to \
agents.allowed_model_providers"
            .to_string()),
        resolve(&one, Some("gpu"), Some("m"))
    );
    assert_eq!(
        Err("`vllm` has no base_url, so its models cannot be listed".to_string()),
        resolve(&one, None, Some("m"))
    );
    assert_eq!(
        Err("`ghost` is authorized for routing but not declared under model_providers".to_string()),
        resolve(&config(&[], &["ghost"]), None, None)
    );
    assert_eq!(
        Err("no endpoint is authorized for agent routing yet. Run `codex fleet scan --write` first."
            .to_string()),
        resolve(&config(&[], &[]), None, None)
    );
    assert_eq!(
        Err("several endpoints are authorized; choose one with --local-provider".to_string()),
        sole_authorized_provider(&config(&[], &["a", "b"]))
    );
}

fn endpoint(base_url: &str, models: &[&str]) -> Endpoint {
    Endpoint {
        base_url: base_url.to_string(),
        runtime: Runtime::Vllm,
        models: models.iter().map(|model| model.to_string()).collect(),
        wire_api: WireApi::Chat,
    }
}

fn pair(id: &str, other: &str) -> (String, String) {
    (id.to_string(), other.to_string())
}

#[test]
fn workers_default_to_the_authorized_endpoint_that_answers() {
    let two = config(&[("a", Some("http://a/v1")), ("b", Some("http://b/v1"))], &["b", "a"]);
    let candidates = vec![pair("a", "http://a/v1"), pair("b", "http://b/v1")];
    for model in [None, Some("named")] {
        assert_eq!(
            Ok(WorkerRuntime::Answering {
                candidates: vec![pair("a", "http://a/v1"), pair("b", "http://b/v1")],
            }),
            resolve(&two, None, model)
        );
    }

    let only_a = vec![Some(endpoint("http://a/v1", &["m"])), None];
    assert_eq!(Ok("a".to_string()), resolve_answering_provider(&candidates, &only_a));
    assert_eq!(Ok(pair("a", "m")), resolve_answering_worker(&candidates, &only_a, None));
    assert_eq!(
        Ok(pair("a", "named")),
        resolve_answering_worker(&candidates, &only_a, Some("named"))
    );

    let only_b = vec![None, Some(endpoint("http://b/v1", &["m", "n"]))];
    assert_eq!(Ok("b".to_string()), resolve_answering_provider(&candidates, &only_b));
    assert_eq!(
        Err("`b` serves 2 models; pick one with --local-model".to_string()),
        resolve_answering_worker(&candidates, &only_b, None)
    );
    assert_eq!(
        Ok(pair("b", "named")),
        resolve_answering_worker(&candidates, &only_b, Some("named"))
    );
}

#[test]
fn workers_need_just_one_answer() {
    let candidates = vec![pair("a", "http://a/v1"), pair("b", "http://b/v1")];
    let both =
        vec![Some(endpoint("http://a/v1", &["m"])), Some(endpoint("http://b/v1", &["m"]))];
    let several = "several endpoints are authorized; choose one with --local-provider".to_string();
    assert_eq!(Err(several.clone()), resolve_answering_provider(&candidates, &both));
    assert_eq!(Err(several), resolve_answering_worker(&candidates, &both, Some("named")));

    let none = "none of the authorized endpoints answered. Start one, or choose one with \
--local-provider."
        .to_string();
    assert_eq!(Err(none.clone()), resolve_answering_provider(&candidates, &vec![None, None]));
    assert_eq!(Err(none.clone()), resolve_answering_worker(&candidates, &vec![None, None], None));
    assert_eq!(Err(none), resolve_answering_worker(&Vec::new(), &Vec::new(), None));
}

#[test]
fn only_declared_endpoints_with_a_url_are_asked() {
    let config = config(
        &[("b", Some("http://b/v1")), ("c", None), ("d", Some("http://d/v1"))],
        &["a", "b", "c"],
    );
    assert_eq!(
        Ok(WorkerRuntime::Answering { candidates: vec![pair("b", "http://b/v1")] }),
        resolve(&config, None, None)
    );
    assert_eq!(
        Ok(WorkerRuntime::Served {
            provider_id: "b".to_string(),
            base_url: "http://b/v1".to_string(),
        }),
        resolve(&config, Some("b"), None)
    );
}

#[test]
fn a_served_model_is_chosen_from_what_answers() {
    let mut answer = endpoint("http://x/v1", &["m"]);
    assert_eq!(Ok("m".to_string()), resolve_served_model("vllm", "http://x/v1", Some(&answer)));
    answer.models.push("n".to_string());
    assert_eq!(
        Err("`vllm` serves 2 models; pick one with --local-model".to_string()),
        resolve_served_model("vllm", "http://x/v1", Some(&answer))
    );
    assert_eq!(
        Err("http://x/v1 did not answer, so its models are unknown. Start it, or name the model \
with --local-model."
            .to_string()),
        resolve_served_model("vllm", "http://x/v1", None)
    );
}

#[test]
fn the_team_is_described_before_it_is_written() {
    let mut args = args(3);
    assert_eq!(
        "lead    your model, inherited from the session\nworker  m on `vllm`\ndepth   3 — leads may \
run teams of their own\n\nWould write:\n  /l\n  /w\n  agents.lead, agents.worker, agents.max_depth \
in config.toml\n\nRe-run with --write to install them.\n",
        team_report(&args, "vllm", "m", "/l", "/w")
    );
    args.write = true;
    assert!(team_report(&args, "vllm", "m", "/l", "/w").ends_with("teams of their own\n\n"));
    assert!(INSTALLED.starts_with("Installed the lead and worker roles.\n\nAsk for something"));
}

#[test]
fn a_role_file_is_replaced_only_by_force() {
    assert_eq!(
        Err("/r already exists; edit it directly, or pass --force to replace it".to_string()),
        check_role_file("/r", true, false)
    );
    assert_eq!(Ok(()), check_role_file("/r", true, true));
    assert_eq!(Ok(()), check_role_file("/r", false, false));
}

#[test]
fn a_role_file_names_only_what_it_is_given() {
    assert_eq!(
        "# Generated by `codex fleet team`. Edit freely.\nname = 1\nmodel_provider = 2\n\n\
developer_instructions = 3\n",
        role_file_from_literals("1", "3", None, Some("2"))
    );
    assert_eq!(
        "# Generated by `codex fleet team`. Edit freely.\nname = \"a\"\nmodel = 'b\"'\n\n\
developer_instructions = \"\"\"\nc\n\"\"\"\n",
        role_file_contents("a", "c\n", Some("b\""), None)
    );
}

fn role_file(path: &str, exists: bool) -> RoleFile {
    RoleFile { path: path.to_string(), exists }
}

#[test]
fn a_team_is_installed_where_nothing_is_in_the_way() {
    let mut args = args(2);
    let edits = || team_edits_for(2, "lead.toml", "worker.toml");
    let shown =
        plan_team(&args, "vllm", "m", &role_file("/l", true), &role_file("/w", true), edits());
    assert_eq!(Ok(None), shown.install);
    assert_eq!(team_report(&args, "vllm", "m", "/l", "/w"), shown.report);

    args.write = true;
    let blocked =
        plan_team(&args, "vllm", "m", &role_file("/l", false), &role_file("/w", true), edits());
    assert_eq!(
        Err("/w already exists; edit it directly, or pass --force to replace it".to_string()),
        blocked.install
    );
    let both =
        plan_team(&args, "vllm", "m", &role_file("/l", true), &role_file("/w", true), edits());
    assert_eq!(
        Err("/l already exists; edit it directly, or pass --force to replace it".to_string()),
        both.install
    );

    args.force = true;
    let plan =
        plan_team(&args, "vllm", "m", &role_file("/l", true), &role_file("/w", true), edits());
    let install = plan.install.expect("nothing in the way").expect("something to write");
    assert_eq!(lead_role_file(), install.lead_file);
    assert_eq!(worker_role_file("m", "vllm"), install.worker_file);
    assert_eq!(edits(), install.edits);
    assert_eq!("multi_agent_v2", install.feature);
    assert_eq!(INSTALLED, install.closing);
}

#[test]
fn a_shallow_team_is_never_installed() {
    for write in [false, true] {
        let mut args = args(1);
        args.write = write;
        args.force = true;
        let plan = plan_team(
            &args,
            "vllm",
            "m",
            &role_file("/l", false),
            &role_file("/w", false),
            team_edits_for(1, "lead.toml", "worker.toml"),
        );
        assert_eq!(
            Err("--depth must be at least 2 for leads to run teams of their own".to_string()),
            plan.install
        );
        assert_eq!("", plan.report);
    }
}
