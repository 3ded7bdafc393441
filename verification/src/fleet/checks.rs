//! Checks that a configured fleet will actually run.
//!
//! A key that is not exported, a local server that is not up, a role pointing at an
//! endpoint that was never authorized, a depth limit that quietly keeps leads from
//! having teams: each of those would surface much later, as an agent behaving
//! oddly. What the environment, the disk and the endpoints say is handed in.

use vstd::prelude::*;
use crate::text::{
    borrow_option, decimal, decimal_text, join, join_first, list_contains, signed_decimal,
    signed_text, str_option, text_option, text_or_empty, texts, trim, trimmed,
};
use super::commands::endpoint_ref;
use super::config::{
    find_provider, providers_view, Config, ModelProviderInfo, ProviderSet, ProviderView,
};
use super::doctor::{checks_view, report_failed, report_text, Check, CheckView, Report, SectionView};
use super::probe::{endpoint_option, Endpoint, EndpointView};

verus! {

/// Adds a line.
fn push_check(checks: &mut Vec<Check>, check: Check)
    ensures
        checks_view(final(checks)@) == checks_view(old(checks)@).push(check@),
{
    checks.push(check);
    assert(checks_view(checks@) =~= checks_view(old(checks)@).push(check@));
}

/// One line.
fn only(check: Check) -> (checks: Vec<Check>)
    ensures
        checks_view(checks@) == seq![check@],
{
    let mut checks: Vec<Check> = Vec::new();
    checks.push(check);
    assert(checks_view(checks@) =~= seq![check@]);
    checks
}

/// The credential of a provider, where it declares one and the environment holds
/// it, or the line that says it does not.
pub open spec fn credential(env_key: Option<Seq<char>>, value: Option<Seq<char>>) -> Result<
    Option<Seq<char>>,
    CheckView,
> {
    match env_key {
        None => Ok(None),
        Some(env_key) => match value {
            Some(value) if trim(value).len() > 0 => Ok(Some(value)),
            _ => Err(
                CheckView::Fail {
                    note: env_key + " is not set"@,
                    fix: "export "@ + env_key + "=… and run this again."@,
                },
            ),
        },
    }
}

/// The outcome of looking for a credential.
pub open spec fn credential_outcome(outcome: Result<Option<String>, Check>) -> Result<
    Option<Seq<char>>,
    CheckView,
> {
    match outcome {
        Ok(api_key) => Ok(text_option(api_key)),
        Err(check) => Err(check@),
    }
}

/// Confirms the credential a provider declares is actually available, given what
/// the environment holds under its name.
pub fn credential_check(provider: &ModelProviderInfo, value: Option<&str>) -> (api_key: Result<
    Option<String>,
    Check,
>)
    ensures
        credential_outcome(api_key) == credential(text_option(provider.env_key), str_option(value)),
{
    let env_key = match &provider.env_key {
        Some(env_key) => env_key,
        None => return Ok(None),
    };
    if let Some(value) = value {
        if !trimmed(value).is_empty() {
            return Ok(Some(value.to_owned()));
        }
    }
    let mut note = env_key.clone();
    note.append(" is not set");
    let mut fix = String::from_str("export ");
    fix.append(env_key.as_str());
    fix.append("=… and run this again.");
    Err(Check::Fail { note, fix })
}

/// A few of the models an endpoint serves.
pub open spec fn sample_text(models: Seq<Seq<char>>) -> Seq<char> {
    if models.len() == 0 {
        "none listed"@
    } else if models.len() <= 3 {
        join(models, ", "@)
    } else {
        join(models.take(3), ", "@)
    }
}

/// Names a few of the models an endpoint serves.
pub fn sample_models(models: &Vec<String>) -> (text: String)
    ensures
        text@ == sample_text(texts(models@)),
{
    if models.is_empty() {
        return "none listed".to_owned();
    }
    if models.len() <= 3 {
        assert(texts(models@).take(models@.len() as int) =~= texts(models@));
        return join_first(models, models.len(), ", ");
    }
    join_first(models, 3, ", ")
}

/// Whether an endpoint serves the model something is configured to use, given what
/// probing it told. A provider that resolves its endpoint at request time has
/// nothing to ask. A model list is advisory: some gateways serve models they do not
/// enumerate.
pub open spec fn availability(
    base_url: Option<Seq<char>>,
    answer: Option<EndpointView>,
    model: Seq<char>,
    label: Seq<char>,
) -> CheckView {
    match (base_url, answer) {
        (None, _) => CheckView::Pass("the endpoint is resolved at request time"@),
        (Some(base_url), None) => CheckView::Fail {
            note: label + ": "@ + base_url + " is not answering"@,
            fix: "Start the server, or re-point it with `codex fleet add`."@,
        },
        (Some(base_url), Some(endpoint)) => if model.len() == 0 {
            CheckView::Pass(
                label + " endpoint answers with "@ + decimal(endpoint.models.len()) + " model(s)"@,
            )
        } else if endpoint.models.contains(model) {
            CheckView::Pass("serves "@ + model)
        } else {
            CheckView::Warn {
                note: label + ": "@ + base_url + " does not list "@ + model,
                fix: "It may still serve it. Otherwise pick one it lists: "@ + sample_text(
                    endpoint.models,
                ) + "."@,
            }
        },
    }
}

/// Tells whether an endpoint serves the model something is configured to use, given
/// what probing it told.
pub fn model_availability(
    provider: &ModelProviderInfo,
    answer: Option<&Endpoint>,
    model: &str,
    label: &str,
) -> (check: Check)
    ensures
        check@ == availability(
            text_option(provider.base_url),
            endpoint_ref(answer),
            model@,
            label@,
        ),
{
    let base_url: &str = match &provider.base_url {
        Some(base_url) => base_url.as_str(),
        None => return Check::Pass("the endpoint is resolved at request time".to_owned()),
    };
    let endpoint = match answer {
        Some(endpoint) => endpoint,
        None => {
            let mut note = label.to_owned();
            note.append(": ");
            note.append(base_url);
            note.append(" is not answering");
            return Check::Fail {
                note,
                fix: "Start the server, or re-point it with `codex fleet add`.".to_owned(),
            };
        },
    };
    if model.is_empty() {
        let mut note = label.to_owned();
        note.append(" endpoint answers with ");
        note.append(decimal_text(endpoint.models.len() as u64).as_str());
        note.append(" model(s)");
        return Check::Pass(note);
    }
    if list_contains(&endpoint.models, model) {
        let mut note = String::from_str("serves ");
        note.append(model);
        return Check::Pass(note);
    }
    let mut note = label.to_owned();
    note.append(": ");
    note.append(base_url);
    note.append(" does not list ");
    note.append(model);
    let mut fix = String::from_str("It may still serve it. Otherwise pick one it lists: ");
    fix.append(sample_models(&endpoint.models).as_str());
    fix.append(".");
    Check::Warn { note, fix }
}

/// An endpoint to ask, and the key to ask it with.
#[derive(Debug, PartialEq, Eq)]
pub struct ProbeTarget {
    pub base_url: String,
    pub api_key: Option<String>,
}

/// The endpoint of a provider to ask: its URL, where it has one and its credential
/// is there.
pub open spec fn target_of(provider: ProviderView, value: Option<Seq<char>>) -> Option<
    (Seq<char>, Option<Seq<char>>),
> {
    match (credential(provider.env_key, value), provider.base_url) {
        (Ok(api_key), Some(base_url)) => Some((base_url, api_key)),
        _ => None,
    }
}

/// The view of a target that may be absent.
pub open spec fn target_option(target: Option<ProbeTarget>) -> Option<
    (Seq<char>, Option<Seq<char>>),
> {
    match target {
        Some(target) => Some((target.base_url@, text_option(target.api_key))),
        None => None,
    }
}

/// Tells which endpoint of a provider to ask, and with which key.
pub fn probe_target(provider: &ModelProviderInfo, value: Option<&str>) -> (target: Option<
    ProbeTarget,
>)
    ensures
        target_option(target) == target_of(provider@, str_option(value)),
{
    match (credential_check(provider, value), &provider.base_url) {
        (Ok(api_key), Some(base_url)) => Some(ProbeTarget { base_url: base_url.clone(), api_key }),
        _ => None,
    }
}

/// The line that says where the session's provider points.
pub open spec fn session_line(id: Seq<char>, base_url: Option<Seq<char>>) -> CheckView {
    CheckView::Pass(
        "provider `"@ + id + "` → "@ + match base_url {
            Some(base_url) => base_url,
            None => "its built-in endpoint"@,
        },
    )
}

/// The lines on the endpoint the session itself talks to.
pub open spec fn session_lines(
    id: Seq<char>,
    provider: ProviderView,
    model: Seq<char>,
    value: Option<Seq<char>>,
    answer: Option<EndpointView>,
) -> Seq<CheckView> {
    let first = seq![session_line(id, provider.base_url)];
    match credential(provider.env_key, value) {
        Err(check) => first.push(check),
        Ok(_) => {
            let keyed = match provider.env_key {
                Some(env_key) => first.push(CheckView::Pass(env_key + " is set"@)),
                None => first,
            };
            let pinned = if model.len() == 0 {
                keyed.push(CheckView::Pass("no model pinned — the session default applies"@))
            } else {
                keyed
            };
            pinned.push(availability(provider.base_url, answer, model, "session"@))
        },
    }
}

/// Checks the endpoint the session itself talks to.
pub fn session_checks(config: &Config, value: Option<&str>, answer: Option<&Endpoint>) -> (checks:
    Vec<Check>)
    ensures
        checks_view(checks@) == session_lines(
            config.model_provider_id@,
            config.model_provider@,
            text_or_empty(text_option(config.model)),
            str_option(value),
            endpoint_ref(answer),
        ),
{
    let provider: &ModelProviderInfo = &config.model_provider;
    let model: &str = match &config.model {
        Some(model) => model.as_str(),
        None => "",
    };
    proof {
        reveal_strlit("");
        assert(model@ =~= text_or_empty(text_option(config.model)));
    }
    let mut note = String::from_str("provider `");
    note.append(config.model_provider_id.as_str());
    note.append("` → ");
    match &provider.base_url {
        Some(base_url) => note.append(base_url.as_str()),
        None => note.append("its built-in endpoint"),
    }
    let mut checks = only(Check::Pass(note));
    match credential_check(provider, value) {
        Ok(_) => {
            if let Some(env_key) = &provider.env_key {
                let mut set = env_key.clone();
                set.append(" is set");
                push_check(&mut checks, Check::Pass(set));
            }
        },
        Err(check) => {
            push_check(&mut checks, check);
            return checks;
        },
    }
    if model.is_empty() {
        push_check(
            &mut checks,
            Check::Pass("no model pinned — the session default applies".to_owned()),
        );
    }
    push_check(&mut checks, model_availability(provider, answer, model, "session"));
    checks
}

/// The line on an authorized provider.
pub open spec fn routing_line(providers: Map<Seq<char>, ProviderView>, id: Seq<char>) -> CheckView {
    if providers.contains_key(id) {
        CheckView::Pass("`"@ + id + "` is authorized for routing"@)
    } else {
        CheckView::Fail {
            note: "`"@ + id + "` is authorized but not declared"@,
            fix: "Add [model_providers."@ + id + "], or drop it from the allowlist."@,
        }
    }
}

/// The lines on what may be routed to, one for each authorized provider.
pub open spec fn routing_lines(
    providers: Map<Seq<char>, ProviderView>,
    allowed: Seq<Seq<char>>,
) -> Seq<CheckView> {
    if allowed.len() == 0 {
        seq![
            CheckView::Warn {
                note: "no endpoint is authorized for agent routing"@,
                fix: "Every agent runs on the session's endpoint. Run `codex fleet scan --write`."@,
            },
        ]
    } else {
        allowed.map_values(|id: Seq<char>| routing_line(providers, id))
    }
}

fn routing_check(config: &Config, id: &str) -> (check: Check)
    ensures
        check@ == routing_line(providers_view(config.model_providers@), id@),
{
    let mut note = String::from_str("`");
    note.append(id);
    if find_provider(&config.model_providers, id).is_some() {
        note.append("` is authorized for routing");
        return Check::Pass(note);
    }
    note.append("` is authorized but not declared");
    let mut fix = String::from_str("Add [model_providers.");
    fix.append(id);
    fix.append("], or drop it from the allowlist.");
    Check::Fail { note, fix }
}

/// Checks what may be routed to.
pub fn routing_checks(config: &Config) -> (checks: Vec<Check>)
    ensures
        checks_view(checks@) == routing_lines(
            providers_view(config.model_providers@),
            config.agent_allowed_model_providers@,
        ),
{
    let allowed: &ProviderSet = &config.agent_allowed_model_providers;
    if allowed.is_empty() {
        return only(
            Check::Warn {
                note: "no endpoint is authorized for agent routing".to_owned(),
                fix: "Every agent runs on the session's endpoint. Run `codex fleet scan --write`.".to_owned(),
            },
        );
    }
    let mut checks: Vec<Check> = Vec::new();
    let ghost providers = providers_view(config.model_providers@);
    let count: usize = allowed.len();
    for i in 0..count
        invariant
            count == allowed@.len(),
            providers == providers_view(config.model_providers@),
            checks@.len() == i,
            forall|j: int|
                0 <= j < i ==> (#[trigger] checks@[j])@ == routing_line(providers, allowed@[j]),
    {
        checks.push(routing_check(config, allowed.get(i)));
    }
    assert(checks_view(checks@) =~= routing_lines(providers, allowed@));
    checks
}

/// The line on a role that names its own endpoint.
pub open spec fn routed_line(
    providers: Map<Seq<char>, ProviderView>,
    allowed: Seq<Seq<char>>,
    name: Seq<char>,
    provider_id: Seq<char>,
    model: Seq<char>,
    value: Option<Seq<char>>,
    answer: Option<EndpointView>,
) -> CheckView {
    if !allowed.contains(provider_id) {
        CheckView::Fail {
            note: name + " routes to `"@ + provider_id + "`, which is not authorized"@,
            fix: "Add `"@ + provider_id
                + "` to agents.allowed_model_providers. Spawning with this role fails until then."@,
        }
    } else if !providers.contains_key(provider_id) {
        CheckView::Fail {
            note: name + " routes to `"@ + provider_id + "`, which is not declared"@,
            fix: "Add [model_providers."@ + provider_id + "] to config.toml."@,
        }
    } else if model.len() == 0 {
        CheckView::Warn {
            note: name + " routes to `"@ + provider_id + "` but names no model"@,
            fix: "Add `model = \"…\"` to the role file; it otherwise inherits a slug the other endpoint does not serve."@,
        }
    } else {
        let provider = providers[provider_id];
        match credential(provider.env_key, value) {
            Err(check) => check,
            Ok(_) => match availability(provider.base_url, answer, model, name) {
                CheckView::Pass(_) => CheckView::Pass(
                    name + " runs "@ + model + " on `"@ + provider_id + "`"@,
                ),
                other => other,
            },
        }
    }
}

fn routed_fail(name: &str, provider_id: &str, problem: &str, fix: String) -> (check: Check)
    ensures
        check@ == (CheckView::Fail {
            note: name@ + " routes to `"@ + provider_id@ + problem@,
            fix: fix@,
        }),
{
    let mut note = name.to_owned();
    note.append(" routes to `");
    note.append(provider_id);
    note.append(problem);
    Check::Fail { note, fix }
}

/// Checks a role that names its own endpoint.
pub fn routed_role_checks(
    config: &Config,
    name: &str,
    provider_id: &str,
    model: &str,
    value: Option<&str>,
    answer: Option<&Endpoint>,
) -> (checks: Vec<Check>)
    ensures
        checks_view(checks@) == seq![
            routed_line(
                providers_view(config.model_providers@),
                config.agent_allowed_model_providers@,
                name@,
                provider_id@,
                model@,
                str_option(value),
                endpoint_ref(answer),
            ),
        ],
{
    if !config.agent_allowed_model_providers.contains(provider_id) {
        let mut fix = String::from_str("Add `");
        fix.append(provider_id);
        fix.append(
            "` to agents.allowed_model_providers. Spawning with this role fails until then.",
        );
        return only(routed_fail(name, provider_id, "`, which is not authorized", fix));
    }
    let provider = match find_provider(&config.model_providers, provider_id) {
        Some(provider) => provider,
        None => {
            let mut fix = String::from_str("Add [model_providers.");
            fix.append(provider_id);
            fix.append("] to config.toml.");
            return only(routed_fail(name, provider_id, "`, which is not declared", fix));
        },
    };
    if model.is_empty() {
        let mut note = name.to_owned();
        note.append(" routes to `");
        note.append(provider_id);
        note.append("` but names no model");
        return only(
            Check::Warn {
                note,
                fix: "Add `model = \"…\"` to the role file; it otherwise inherits a slug the other endpoint does not serve.".to_owned(),
            },
        );
    }
    if let Err(check) = credential_check(provider, value) {
        return only(check);
    }
    match model_availability(provider, answer, model, name) {
        Check::Pass(_) => {
            let mut note = name.to_owned();
            note.append(" runs ");
            note.append(model);
            note.append(" on `");
            note.append(provider_id);
            note.append("`");
            only(Check::Pass(note))
        },
        other => only(other),
    }
}

/// The endpoint to ask about a role that names it, where its answer is looked at:
/// the endpoint is authorized and declared, and the role names a model.
pub open spec fn role_target_of(
    providers: Map<Seq<char>, ProviderView>,
    allowed: Seq<Seq<char>>,
    provider_id: Seq<char>,
    model: Seq<char>,
    value: Option<Seq<char>>,
) -> Option<(Seq<char>, Option<Seq<char>>)> {
    if allowed.contains(provider_id) && providers.contains_key(provider_id) && model.len() > 0 {
        target_of(providers[provider_id], value)
    } else {
        None
    }
}

/// Tells which endpoint to ask about a role that names it, and with which key. An
/// endpoint that is not authorized is never asked.
pub fn role_target(config: &Config, provider_id: &str, model: &str, value: Option<&str>) -> (target:
    Option<ProbeTarget>)
    ensures
        target_option(target) == role_target_of(
            providers_view(config.model_providers@),
            config.agent_allowed_model_providers@,
            provider_id@,
            model@,
            str_option(value),
        ),
{
    if !config.agent_allowed_model_providers.contains(provider_id) || model.is_empty() {
        return None;
    }
    match find_provider(&config.model_providers, provider_id) {
        Some(provider) => probe_target(provider, value),
        None => None,
    }
}

/// What a role's file turned out to be.
#[derive(Debug, PartialEq, Eq)]
pub enum RoleSource {
    /// The role declares no file.
    Absent,
    /// The file at this path cannot be read, in these words.
    Unreadable { path: String, err: String },
    /// The file at this path does not parse, in these words.
    Unparsable { path: String, err: String },
    /// What the file says.
    Parsed { model: Option<String>, model_provider: Option<String> },
}

/// What is known of a role's file.
pub enum SourceView {
    Absent,
    Unreadable { path: Seq<char>, err: Seq<char> },
    Unparsable { path: Seq<char>, err: Seq<char> },
    Parsed { model: Option<Seq<char>>, model_provider: Option<Seq<char>> },
}

impl RoleSource {
    pub open spec fn view(&self) -> SourceView {
        match self {
            RoleSource::Absent => SourceView::Absent,
            RoleSource::Unreadable { path, err } => SourceView::Unreadable {
                path: path@,
                err: err@,
            },
            RoleSource::Unparsable { path, err } => SourceView::Unparsable {
                path: path@,
                err: err@,
            },
            RoleSource::Parsed { model, model_provider } => SourceView::Parsed {
                model: text_option(*model),
                model_provider: text_option(*model_provider),
            },
        }
    }
}

/// A declared role, with what its file, the environment and its endpoint said.
#[derive(Debug, PartialEq, Eq)]
pub struct Role {
    pub name: String,
    pub source: RoleSource,
    /// What the environment holds under the name of the provider's key.
    pub value: Option<String>,
    /// What probing the provider's endpoint told.
    pub answer: Option<Endpoint>,
}

/// What is known of a role.
pub struct RoleView {
    pub name: Seq<char>,
    pub source: SourceView,
    pub value: Option<Seq<char>>,
    pub answer: Option<EndpointView>,
}

impl Role {
    pub open spec fn view(&self) -> RoleView {
        RoleView {
            name: self.name@,
            source: self.source@,
            value: text_option(self.value),
            answer: endpoint_option(self.answer),
        }
    }
}

/// What is known of roles.
pub open spec fn roles_view(roles: Seq<Role>) -> Seq<RoleView> {
    roles.map_values(|role: Role| role@)
}

/// The line on a role.
pub open spec fn role_line(
    providers: Map<Seq<char>, ProviderView>,
    allowed: Seq<Seq<char>>,
    role: RoleView,
) -> CheckView {
    match role.source {
        SourceView::Absent => CheckView::Pass(role.name + " declares no config file"@),
        SourceView::Unreadable { path, err } => CheckView::Fail {
            note: role.name + " cannot read "@ + path + ": "@ + err,
            fix: "Fix the path under [agents] in config.toml."@,
        },
        SourceView::Unparsable { path, err } => CheckView::Fail {
            note: role.name + " does not parse: "@ + err,
            fix: "Fix "@ + path + "."@,
        },
        SourceView::Parsed { model, model_provider } => match model_provider {
            None => CheckView::Pass(role.name + " inherits the session endpoint"@),
            Some(provider_id) => routed_line(
                providers,
                allowed,
                role.name,
                provider_id,
                text_or_empty(model),
                role.value,
                role.answer,
            ),
        },
    }
}

/// The lines on the declared roles.
pub open spec fn role_lines(
    providers: Map<Seq<char>, ProviderView>,
    allowed: Seq<Seq<char>>,
    roles: Seq<RoleView>,
) -> Seq<CheckView> {
    if roles.len() == 0 {
        seq![
            CheckView::Warn {
                note: "no roles are declared"@,
                fix: "Run `codex fleet team --write` to install a lead and worker."@,
            },
        ]
    } else {
        roles.map_values(|role: RoleView| role_line(providers, allowed, role))
    }
}

fn borrow_endpoint(endpoint: &Option<Endpoint>) -> (borrowed: Option<&Endpoint>)
    ensures
        endpoint_ref(borrowed) == endpoint_option(*endpoint),
{
    match endpoint {
        Some(endpoint) => Some(endpoint),
        None => None,
    }
}

fn append_role_check(checks: &mut Vec<Check>, config: &Config, role: &Role)
    ensures
        checks_view(final(checks)@) == checks_view(old(checks)@).push(
            role_line(
                providers_view(config.model_providers@),
                config.agent_allowed_model_providers@,
                role@,
            ),
        ),
{
    let name: &str = role.name.as_str();
    match &role.source {
        RoleSource::Absent => {
            let mut note = name.to_owned();
            note.append(" declares no config file");
            push_check(checks, Check::Pass(note));
        },
        RoleSource::Unreadable { path, err } => {
            let mut note = name.to_owned();
            note.append(" cannot read ");
            note.append(path.as_str());
            note.append(": ");
            note.append(err.as_str());
            let fix = "Fix the path under [agents] in config.toml.".to_owned();
            push_check(checks, Check::Fail { note, fix });
        },
        RoleSource::Unparsable { path, err } => {
            let mut note = name.to_owned();
            note.append(" does not parse: ");
            note.append(err.as_str());
            let mut fix = String::from_str("Fix ");
            fix.append(path.as_str());
            fix.append(".");
            push_check(checks, Check::Fail { note, fix });
        },
        RoleSource::Parsed { model, model_provider } => {
            let provider_id = match model_provider {
                Some(provider_id) => provider_id,
                None => {
                    let mut note = name.to_owned();
                    note.append(" inherits the session endpoint");
                    push_check(checks, Check::Pass(note));
                    return;
                },
            };
            let model_name: &str = match model {
                Some(model) => model.as_str(),
                None => "",
            };
            proof {
                reveal_strlit("");
                assert(model_name@ =~= text_or_empty(text_option(*model)));
            }
            let mut more = routed_role_checks(
                config,
                name,
                provider_id.as_str(),
                model_name,
                borrow_option(&role.value),
                borrow_endpoint(&role.answer),
            );
            let ghost added = more@;
            checks.append(&mut more);
            assert(checks_view(checks@) =~= checks_view(old(checks)@) + checks_view(added));
            assert(checks_view(checks@) =~= checks_view(old(checks)@).push(checks_view(added)[0]));
        },
    }
}

/// Checks the declared roles.
pub fn role_checks(config: &Config, roles: &Vec<Role>) -> (checks: Vec<Check>)
    ensures
        checks_view(checks@) == role_lines(
            providers_view(config.model_providers@),
            config.agent_allowed_model_providers@,
            roles_view(roles@),
        ),
{
    if roles.is_empty() {
        return only(
            Check::Warn {
                note: "no roles are declared".to_owned(),
                fix: "Run `codex fleet team --write` to install a lead and worker.".to_owned(),
            },
        );
    }
    let ghost providers = providers_view(config.model_providers@);
    let ghost allowed = config.agent_allowed_model_providers@;
    let ghost lines = role_lines(providers, allowed, roles_view(roles@));
    let mut checks: Vec<Check> = Vec::new();
    assert(checks_view(checks@) =~= lines.take(0));
    for i in 0..roles.len()
        invariant
            roles@.len() > 0,
            providers == providers_view(config.model_providers@),
            allowed == config.agent_allowed_model_providers@,
            lines == role_lines(providers, allowed, roles_view(roles@)),
            checks_view(checks@) == lines.take(i as int),
    {
        append_role_check(&mut checks, config, &roles[i]);
        assert(lines.take(i + 1) =~= lines.take(i as int).push(
            role_line(providers, allowed, roles@[i as int]@),
        ));
    }
    assert(lines.take(lines.len() as int) =~= lines);
    checks
}

/// The lines on the multi-agent backend and the depth limit.
pub open spec fn team_lines(multi_agent_v2: bool, max_depth: i32) -> Seq<CheckView> {
    seq![
        if multi_agent_v2 {
            CheckView::Pass("the multi-agent backend is enabled"@)
        } else {
            CheckView::Fail {
                note: "the multi-agent backend is disabled"@,
                fix: "Set features.multi_agent_v2 = true, or run `codex fleet team --write`."@,
            }
        },
        if max_depth >= 2 {
            CheckView::Pass(
                "agents.max_depth = "@ + signed_decimal(max_depth as int)
                    + " — leads may run teams"@,
            )
        } else {
            CheckView::Warn {
                note: "agents.max_depth = "@ + signed_decimal(max_depth as int)
                    + " — spawned agents cannot spawn"@,
                fix: "Set agents.max_depth = 2 for team leads."@,
            }
        },
    ]
}

/// Checks the multi-agent backend and the depth limit.
pub fn team_checks(config: &Config) -> (checks: Vec<Check>)
    ensures
        checks_view(checks@) == team_lines(config.multi_agent_v2, config.agent_max_depth),
{
    let backend = if config.multi_agent_v2 {
        Check::Pass("the multi-agent backend is enabled".to_owned())
    } else {
        Check::Fail {
            note: "the multi-agent backend is disabled".to_owned(),
            fix: "Set features.multi_agent_v2 = true, or run `codex fleet team --write`.".to_owned(),
        }
    };
    let mut checks = only(backend);
    let mut note = String::from_str("agents.max_depth = ");
    note.append(signed_text(config.agent_max_depth).as_str());
    if config.agent_max_depth >= 2 {
        note.append(" — leads may run teams");
        push_check(&mut checks, Check::Pass(note));
    } else {
        note.append(" — spawned agents cannot spawn");
        push_check(
            &mut checks,
            Check::Warn { note, fix: "Set agents.max_depth = 2 for team leads.".to_owned() },
        );
    }
    assert(checks_view(checks@) =~= team_lines(config.multi_agent_v2, config.agent_max_depth));
    checks
}

/// The sections of the report on a fleet.
pub open spec fn doctor_sections(
    config: Config,
    value: Option<Seq<char>>,
    answer: Option<EndpointView>,
    roles: Seq<RoleView>,
) -> Seq<SectionView> {
    let providers = providers_view(config.model_providers@);
    let allowed = config.agent_allowed_model_providers@;
    seq![
        SectionView {
            title: "Session"@,
            checks: session_lines(
                config.model_provider_id@,
                config.model_provider@,
                text_or_empty(text_option(config.model)),
                value,
                answer,
            ),
        },
        SectionView { title: "Routing"@, checks: routing_lines(providers, allowed) },
        SectionView { title: "Roles"@, checks: role_lines(providers, allowed, roles) },
        SectionView {
            title: "Teams"@,
            checks: team_lines(config.multi_agent_v2, config.agent_max_depth),
        },
    ]
}

/// Reports on a fleet, given what the environment, the disk and the endpoints said.
pub fn doctor_report(
    config: &Config,
    value: Option<&str>,
    answer: Option<&Endpoint>,
    roles: &Vec<Role>,
) -> (report: Report)
    ensures
        report@ == doctor_sections(
            *config,
            str_option(value),
            endpoint_ref(answer),
            roles_view(roles@),
        ),
{
    let mut report: Report = Default::default();
    report.section("Session", session_checks(config, value, answer));
    report.section("Routing", routing_checks(config));
    report.section("Roles", role_checks(config, roles));
    report.section("Teams", team_checks(config));
    assert(report@ =~= doctor_sections(
        *config,
        str_option(value),
        endpoint_ref(answer),
        roles_view(roles@),
    ));
    report
}

/// The verdict on a fleet: the report as text with a closing line, and whether the
/// fleet is ready.
#[derive(Debug, PartialEq, Eq)]
pub struct Verdict {
    pub text: String,
    pub ready: bool,
}

/// Renders the report on a fleet, and tells whether the fleet is ready: it is,
/// unless something will not work.
pub fn run_doctor(report: &Report) -> (verdict: Verdict)
    ensures
        verdict.ready == !report_failed(report@),
        verdict.text@ == report_text(report@) + (if verdict.ready {
            "The fleet is ready.\n"@
        } else {
            "Fix the failures above, then run `codex fleet doctor` again.\n"@
        }),
{
    let ready: bool = !report.failed();
    let mut text = report.render();
    if ready {
        text.append("The fleet is ready.\n");
    } else {
        text.append("Fix the failures above, then run `codex fleet doctor` again.\n");
    }
    Verdict { text, ready }
}

} // verus!
