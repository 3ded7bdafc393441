//! What the report on a fleet says, read off the fleet.

use vstd::prelude::*;
use crate::text::{decimal, join, signed_decimal, white_space};
use crate::text_laws::a_blank_text_holds_nothing;
use super::checks::{
    credential, doctor_sections, role_line, role_lines, role_target_of, routed_line, routing_lines,
    session_lines, target_of, team_lines, RoleView, SourceView,
};
use super::config::{providers_view, Config, ProviderView};
use super::doctor::{checks_text, report_text, CheckView, SectionView};
use super::probe::EndpointView;

verus! {

/// There is something in the text besides white space.
pub open spec fn says_something(text: Seq<char>) -> bool {
    exists|i: int| 0 <= i < text.len() && !white_space(#[trigger] text[i])
}

/// The key a provider asks for is there: it asks for none, or the environment holds
/// something under its name.
pub open spec fn key_is_there(env_key: Option<Seq<char>>, value: Option<Seq<char>>) -> bool {
    env_key is None || (value matches Some(value) && says_something(value))
}

/// A key is found exactly where it is there, as it is; where it is not, that is a
/// failure, which names the variable and how to set it.
pub proof fn a_key_is_found_where_it_is_there(
    env_key: Option<Seq<char>>,
    value: Option<Seq<char>>,
)
    ensures
        match credential(env_key, value) {
            Ok(key) => key_is_there(env_key, value) && key == (if env_key is Some {
                value
            } else {
                None
            }),
            Err(line) => {
                &&& !key_is_there(env_key, value)
                &&& env_key matches Some(name)
                &&& line == (CheckView::Fail {
                    note: name + " is not set"@,
                    fix: "export "@ + name + "=… and run this again."@,
                })
            },
        },
{
    if let Some(value) = value {
        a_blank_text_holds_nothing(value);
    }
}

/// An endpoint is asked where it has a URL and its key is there, and with that key.
pub proof fn an_endpoint_is_asked_with_its_key(provider: ProviderView, value: Option<Seq<char>>)
    ensures
        target_of(provider, value) == match provider.base_url {
            Some(base_url) => if key_is_there(provider.env_key, value) {
                Some(
                    (
                        base_url,
                        if provider.env_key is Some {
                            value
                        } else {
                            None
                        },
                    ),
                )
            } else {
                None
            },
            None => None,
        },
{
    a_key_is_found_where_it_is_there(provider.env_key, value);
}

/// A few of the models: the first three, where there are so many.
pub open spec fn a_few(models: Seq<Seq<char>>) -> Seq<char> {
    if models.len() == 0 {
        "none listed"@
    } else {
        join(
            models.take(
                if models.len() < 3 {
                    models.len() as int
                } else {
                    3
                },
            ),
            ", "@,
        )
    }
}

/// The line that says that an endpoint answers and does not list a model.
pub open spec fn does_not_list(
    label: Seq<char>,
    base_url: Seq<char>,
    model: Seq<char>,
    models: Seq<Seq<char>>,
) -> CheckView {
    CheckView::Warn {
        note: label + ": "@ + base_url + " does not list "@ + model,
        fix: "It may still serve it. Otherwise pick one it lists: "@ + a_few(models) + "."@,
    }
}

/// The line that says that an endpoint does not answer.
pub open spec fn does_not_answer(label: Seq<char>, base_url: Seq<char>) -> CheckView {
    CheckView::Fail {
        note: label + ": "@ + base_url + " is not answering"@,
        fix: "Start the server, or re-point it with `codex fleet add`."@,
    }
}

proof fn lemma_a_few(models: Seq<Seq<char>>)
    ensures
        super::checks::sample_text(models) == a_few(models),
{
    assert(models.take(models.len() as int) =~= models);
}

/// The line on a role that names its own endpoint is well only where the role will run:
/// the endpoint is authorized and declared, its key is there, and it either is resolved
/// at request time or answers and lists the model that the role names. It is a warning
/// where the role names no model, and where the endpoint answers and does not list the
/// model. Anything else is a failure: the endpoint is not authorized, not declared, has
/// no key or does not answer.
pub proof fn a_routed_role_is_well_only_where_it_will_run(
    providers: Map<Seq<char>, ProviderView>,
    allowed: Seq<Seq<char>>,
    name: Seq<char>,
    provider_id: Seq<char>,
    model: Seq<char>,
    value: Option<Seq<char>>,
    answer: Option<EndpointView>,
)
    ensures
        ({
            let line = routed_line(
                providers,
                allowed,
                name,
                provider_id,
                model,
                value,
                answer,
            );
            let declared = allowed.contains(provider_id) && providers.contains_key(provider_id);
            let base_url = providers[provider_id].base_url;
            let keyed = key_is_there(providers[provider_id].env_key, value);
            let listed = answer matches Some(endpoint) && endpoint.models.contains(model);
            &&& line is Pass <==> declared && model.len() > 0 && keyed && (base_url is None
                || listed)
            &&& line is Warn <==> declared && (model.len() == 0 || (keyed && base_url is Some
                && answer is Some && !listed))
            &&& line is Fail <==> !declared || (model.len() > 0 && (!keyed || (base_url is Some
                && answer is None)))
            &&& line is Pass ==> line == CheckView::Pass(
                name + " runs "@ + model + " on `"@ + provider_id + "`"@,
            )
            &&& line is Warn && model.len() > 0 ==> line == does_not_list(
                name,
                base_url->0,
                model,
                answer->0.models,
            )
            &&& declared && model.len() == 0 ==> line == (CheckView::Warn {
                note: name + " routes to `"@ + provider_id + "` but names no model"@,
                fix: "Add `model = \"…\"` to the role file; it otherwise inherits a slug the other endpoint does not serve."@,
            })
            &&& !allowed.contains(provider_id) ==> line == (CheckView::Fail {
                note: name + " routes to `"@ + provider_id + "`, which is not authorized"@,
                fix: "Add `"@ + provider_id
                    + "` to agents.allowed_model_providers. Spawning with this role fails until then."@,
            })
            &&& allowed.contains(provider_id) && !providers.contains_key(provider_id) ==> line == (
            CheckView::Fail {
                note: name + " routes to `"@ + provider_id + "`, which is not declared"@,
                fix: "Add [model_providers."@ + provider_id + "] to config.toml."@,
            })
            &&& declared && model.len() > 0 && !keyed ==> credential(
                providers[provider_id].env_key,
                value,
            ) == Err::<Option<Seq<char>>, CheckView>(line)
            &&& line is Fail && declared && keyed ==> line == does_not_answer(name, base_url->0)
        }),
{
    a_key_is_found_where_it_is_there(providers[provider_id].env_key, value);
    if let Some(endpoint) = answer {
        lemma_a_few(endpoint.models);
    }
}

/// The lines on the session say where its provider points, whether its key is there
/// and, where it is, whether its endpoint serves the model that is pinned, where one
/// is. Without the key nothing is said of the endpoint. The last line is well only
/// where the endpoint is resolved at request time, or answers and lists the model or
/// has none to list.
pub proof fn the_session_is_well_only_where_it_will_run(
    id: Seq<char>,
    provider: ProviderView,
    model: Seq<char>,
    value: Option<Seq<char>>,
    answer: Option<EndpointView>,
)
    ensures
        ({
            let lines = session_lines(id, provider, model, value, answer);
            let keyed = key_is_there(provider.env_key, value);
            let listed = answer matches Some(endpoint) && (model.len() == 0
                || endpoint.models.contains(model));
            let set = if keyed && provider.env_key is Some {
                seq![CheckView::Pass(provider.env_key->0 + " is set"@)]
            } else {
                Seq::empty()
            };
            let unpinned = if keyed && model.len() == 0 {
                seq![CheckView::Pass("no model pinned — the session default applies"@)]
            } else {
                Seq::empty()
            };
            let first = CheckView::Pass(
                "provider `"@ + id + "` → "@ + match provider.base_url {
                    Some(base_url) => base_url,
                    None => "its built-in endpoint"@,
                },
            );
            &&& lines.len() > 0
            &&& lines.drop_last() == seq![first] + set + unpinned
            &&& !keyed ==> credential(provider.env_key, value) == Err::<
                Option<Seq<char>>,
                CheckView,
            >(lines.last())
            &&& keyed ==> {
                &&& lines.last() is Pass <==> provider.base_url is None || listed
                &&& lines.last() is Warn <==> provider.base_url is Some && answer is Some
                    && !listed
                &&& lines.last() is Fail <==> provider.base_url is Some && answer is None
                &&& lines.last() is Warn ==> lines.last() == does_not_list(
                    "session"@,
                    provider.base_url->0,
                    model,
                    answer->0.models,
                )
                &&& lines.last() is Fail ==> lines.last() == does_not_answer(
                    "session"@,
                    provider.base_url->0,
                )
                &&& provider.base_url is None ==> lines.last() == CheckView::Pass(
                    "the endpoint is resolved at request time"@,
                )
                &&& provider.base_url is Some && listed && model.len() > 0 ==> lines.last()
                    == CheckView::Pass("serves "@ + model)
                &&& provider.base_url is Some && listed && model.len() == 0 ==> lines.last()
                    == CheckView::Pass(
                    "session"@ + " endpoint answers with "@ + decimal(answer->0.models.len())
                        + " model(s)"@,
                )
            }
        }),
{
    a_key_is_found_where_it_is_there(provider.env_key, value);
    if let Some(endpoint) = answer {
        lemma_a_few(endpoint.models);
    }
    let lines = session_lines(id, provider, model, value, answer);
    let keyed = key_is_there(provider.env_key, value);
    let set = if keyed && provider.env_key is Some {
        seq![CheckView::Pass(provider.env_key->0 + " is set"@)]
    } else {
        Seq::empty()
    };
    let unpinned = if keyed && model.len() == 0 {
        seq![CheckView::Pass("no model pinned — the session default applies"@)]
    } else {
        Seq::empty()
    };
    let first = CheckView::Pass(
        "provider `"@ + id + "` → "@ + match provider.base_url {
            Some(base_url) => base_url,
            None => "its built-in endpoint"@,
        },
    );
    assert(lines.drop_last() =~= seq![first] + set + unpinned);
}

/// Every authorized provider has its line, in order: it is well where the provider is
/// declared, and a failure where it is not. Where nothing is authorized that is a
/// warning.
pub proof fn every_authorized_provider_has_its_line(
    providers: Map<Seq<char>, ProviderView>,
    allowed: Seq<Seq<char>>,
    i: int,
)
    ensures
        allowed.len() == 0 ==> routing_lines(providers, allowed) == seq![
            CheckView::Warn {
                note: "no endpoint is authorized for agent routing"@,
                fix: "Every agent runs on the session's endpoint. Run `codex fleet scan --write`."@,
            },
        ],
        allowed.len() > 0 ==> routing_lines(providers, allowed).len() == allowed.len(),
        0 <= i < allowed.len() ==> routing_lines(providers, allowed)[i] == (
        if providers.contains_key(allowed[i]) {
            CheckView::Pass("`"@ + allowed[i] + "` is authorized for routing"@)
        } else {
            CheckView::Fail {
                note: "`"@ + allowed[i] + "` is authorized but not declared"@,
                fix: "Add [model_providers."@ + allowed[i] + "], or drop it from the allowlist."@,
            }
        }),
{
}

/// Every declared role has its line, in order. A role without a file is well, and so is
/// one whose file names no endpoint; a file that cannot be read or does not parse is a
/// failure, in the words of the error; a file that names an endpoint is as well as the
/// endpoint is. Where there are no roles that is a warning.
pub proof fn every_role_has_its_line(
    providers: Map<Seq<char>, ProviderView>,
    allowed: Seq<Seq<char>>,
    roles: Seq<RoleView>,
    i: int,
)
    ensures
        roles.len() == 0 ==> role_lines(providers, allowed, roles) == seq![
            CheckView::Warn {
                note: "no roles are declared"@,
                fix: "Run `codex fleet team --write` to install a lead and worker."@,
            },
        ],
        roles.len() > 0 ==> role_lines(providers, allowed, roles).len() == roles.len(),
        0 <= i < roles.len() ==> role_lines(providers, allowed, roles)[i] == role_line(
            providers,
            allowed,
            roles[i],
        ),
        0 <= i < roles.len() ==> {
            let name = roles[i].name;
            let line = role_lines(providers, allowed, roles)[i];
            match roles[i].source {
                SourceView::Absent => line == CheckView::Pass(name + " declares no config file"@),
                SourceView::Unreadable { path, err } => line == (CheckView::Fail {
                    note: name + " cannot read "@ + path + ": "@ + err,
                    fix: "Fix the path under [agents] in config.toml."@,
                }),
                SourceView::Unparsable { path, err } => line == (CheckView::Fail {
                    note: name + " does not parse: "@ + err,
                    fix: "Fix "@ + path + "."@,
                }),
                SourceView::Parsed { model_provider: None, .. } => line == CheckView::Pass(
                    name + " inherits the session endpoint"@,
                ),
                SourceView::Parsed { model, model_provider: Some(provider_id) } => line
                    == routed_line(
                    providers,
                    allowed,
                    name,
                    provider_id,
                    match model {
                        Some(model) => model,
                        None => Seq::empty(),
                    },
                    roles[i].value,
                    roles[i].answer,
                ),
            }
        },
{
}

/// The backend has its line, and the depth limit has its own: a disabled backend is a
/// failure, and a depth at which nothing that is spawned can spawn is a warning.
pub proof fn the_backend_and_the_depth_have_their_lines(multi_agent_v2: bool, max_depth: i32)
    ensures
        team_lines(multi_agent_v2, max_depth) == seq![
            if multi_agent_v2 {
                CheckView::Pass("the multi-agent backend is enabled"@)
            } else {
                CheckView::Fail {
                    note: "the multi-agent backend is disabled"@,
                    fix: "Set features.multi_agent_v2 = true, or run `codex fleet team --write`."@,
                }
            },
            if max_depth < 2 {
                CheckView::Warn {
                    note: "agents.max_depth = "@ + signed_decimal(max_depth as int)
                        + " — spawned agents cannot spawn"@,
                    fix: "Set agents.max_depth = 2 for team leads."@,
                }
            } else {
                CheckView::Pass(
                    "agents.max_depth = "@ + signed_decimal(max_depth as int)
                        + " — leads may run teams"@,
                )
            },
        ],
{
    assert(team_lines(multi_agent_v2, max_depth).len() == 2);
}

/// The report covers the session, what may be routed to, the roles and the team, in
/// this order, each by its own lines.
pub proof fn the_report_covers_the_fleet(
    config: Config,
    value: Option<Seq<char>>,
    answer: Option<EndpointView>,
    roles: Seq<RoleView>,
)
    ensures
        ({
            let sections = doctor_sections(config, value, answer, roles);
            let providers = providers_view(config.model_providers@);
            let allowed = config.agent_allowed_model_providers@;
            &&& sections.len() == 4
            &&& sections[0].title == "Session"@
            &&& sections[0].checks == session_lines(
                config.model_provider_id@,
                config.model_provider@,
                match config.model {
                    Some(model) => model@,
                    None => Seq::empty(),
                },
                value,
                answer,
            )
            &&& sections[1].title == "Routing"@
            &&& sections[1].checks == routing_lines(providers, allowed)
            &&& sections[2].title == "Roles"@
            &&& sections[2].checks == role_lines(providers, allowed, roles)
            &&& sections[3].title == "Teams"@
            &&& sections[3].checks == team_lines(config.multi_agent_v2, config.agent_max_depth)
        }),
{
}

/// The report is written line by line: each line behind its mark, with what to do about
/// it below where it is not well, and each section under its title.
pub proof fn the_report_is_written_line_by_line(
    lines: Seq<CheckView>,
    line: CheckView,
    sections: Seq<SectionView>,
    section: SectionView,
)
    ensures
        checks_text(Seq::empty()) == Seq::<char>::empty(),
        checks_text(lines.push(line)) == checks_text(lines) + match line {
            CheckView::Pass(note) => "  ok    "@ + note + "\n"@,
            CheckView::Warn { note, fix } => "  warn  "@ + note + "\n          "@ + fix + "\n"@,
            CheckView::Fail { note, fix } => "  FAIL  "@ + note + "\n          "@ + fix + "\n"@,
        },
        report_text(Seq::empty()) == Seq::<char>::empty(),
        report_text(sections.push(section)) == report_text(sections) + (section.title + "\n"@
            + checks_text(section.checks) + "\n"@),
{
    assert(lines.push(line).drop_last() =~= lines);
    assert(sections.push(section).drop_last() =~= sections);
}

/// The endpoint of a role is asked where it is authorized and declared, has a URL, its
/// key is there, and the role names a model; no other is.
pub proof fn only_an_authorized_endpoint_is_asked(
    providers: Map<Seq<char>, ProviderView>,
    allowed: Seq<Seq<char>>,
    provider_id: Seq<char>,
    model: Seq<char>,
    value: Option<Seq<char>>,
)
    ensures
        ({
            let target = role_target_of(providers, allowed, provider_id, model, value);
            let provider = providers[provider_id];
            &&& target is Some <==> allowed.contains(provider_id) && providers.contains_key(
                provider_id,
            ) && model.len() > 0 && provider.base_url is Some && key_is_there(
                provider.env_key,
                value,
            )
            &&& target matches Some(asked) ==> Some(asked.0) == provider.base_url && asked.1 == (
            if provider.env_key is Some {
                value
            } else {
                None
            })
        }),
{
    a_key_is_found_where_it_is_there(providers[provider_id].env_key, value);
}

} // verus!
