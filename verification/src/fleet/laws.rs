//! What holds of every fleet.

use vstd::prelude::*;
use crate::text::{text_option, text_or_empty};
use super::checks::{
    credential, doctor_sections, role_line, role_lines, role_target_of, routed_line, routing_line,
    routing_lines, session_lines, team_lines, RoleView, SourceView,
};
use super::commands::{edits_then_allowlist, scan_edits};
use super::config::{providers_view, Config, EditView, ModelProviderInfo, ProviderView};
use super::doctor::{any_failure, report_failed};
use super::probe::{slug_of, EndpointView, Runtime};
use super::setup::{allowlist_edit_of, assigned_id, authorizes, built_in_at, claimed_by_another};
use super::urls::normalized;
use super::workers::{
    answered, answering_provider, answering_worker, candidates_of, chosen_model, first_preferred,
    lemma_answered, preferred, worker_runtime, WorkerView,
};
use super::valid_provider_id;

verus! {

/// The endpoint of a provider answers, or is resolved at request time.
pub open spec fn reachable(provider: ProviderView, answer: Option<EndpointView>) -> bool {
    provider.base_url is None || answer is Some
}

/// A role that names its own endpoint will run, or at least does not fail: the
/// endpoint is authorized and declared and, where the role names a model, its
/// credential is there and it answers.
pub open spec fn role_routes(
    providers: Map<Seq<char>, ProviderView>,
    allowed: Seq<Seq<char>>,
    provider_id: Seq<char>,
    model: Seq<char>,
    value: Option<Seq<char>>,
    answer: Option<EndpointView>,
) -> bool {
    &&& allowed.contains(provider_id)
    &&& providers.contains_key(provider_id)
    &&& model.len() > 0 ==> {
        &&& credential(providers[provider_id].env_key, value) is Ok
        &&& reachable(providers[provider_id], answer)
    }
}

/// A role does not fail: its file, where it has one, reads and parses, and its
/// endpoint, where it names one, can be routed to.
pub open spec fn role_works(
    providers: Map<Seq<char>, ProviderView>,
    allowed: Seq<Seq<char>>,
    role: RoleView,
) -> bool {
    match role.source {
        SourceView::Absent => true,
        SourceView::Unreadable { .. } => false,
        SourceView::Unparsable { .. } => false,
        SourceView::Parsed { model, model_provider } => match model_provider {
            None => true,
            Some(provider_id) => role_routes(
                providers,
                allowed,
                provider_id,
                text_or_empty(model),
                role.value,
                role.answer,
            ),
        },
    }
}

/// Nothing of a fleet fails: the session's credential is there and its endpoint
/// answers, every authorized provider is declared, every role works, and the
/// multi-agent backend is enabled.
pub open spec fn fleet_works(
    config: Config,
    value: Option<Seq<char>>,
    answer: Option<EndpointView>,
    roles: Seq<RoleView>,
) -> bool {
    let providers = providers_view(config.model_providers@);
    let allowed = config.agent_allowed_model_providers@;
    &&& credential(config.model_provider@.env_key, value) is Ok
    &&& reachable(config.model_provider@, answer)
    &&& forall|i: int| 0 <= i < allowed.len() ==> providers.contains_key(#[trigger] allowed[i])
    &&& forall|i: int|
        0 <= i < roles.len() ==> role_works(providers, allowed, #[trigger] roles[i])
    &&& config.multi_agent_v2
}

proof fn lemma_session(
    id: Seq<char>,
    provider: ProviderView,
    model: Seq<char>,
    value: Option<Seq<char>>,
    answer: Option<EndpointView>,
)
    ensures
        any_failure(session_lines(id, provider, model, value, answer)) <==> !(credential(
            provider.env_key,
            value,
        ) is Ok && reachable(provider, answer)),
{
    let lines = session_lines(id, provider, model, value, answer);
    let last = lines.len() - 1;
    assert(lines[last] is Fail || !any_failure(lines));
    if credential(provider.env_key, value) is Err {
        assert(lines[last] is Fail);
    } else if !reachable(provider, answer) {
        assert(lines[last] is Fail);
    }
}

proof fn lemma_routing(providers: Map<Seq<char>, ProviderView>, allowed: Seq<Seq<char>>)
    ensures
        any_failure(routing_lines(providers, allowed)) <==> !(forall|i: int|
            0 <= i < allowed.len() ==> providers.contains_key(#[trigger] allowed[i])),
{
    let lines = routing_lines(providers, allowed);
    if any_failure(lines) {
        let i = choose|i: int| 0 <= i < lines.len() && #[trigger] lines[i] is Fail;
        if allowed.len() > 0 {
            assert(lines[i] == routing_line(providers, allowed[i]));
        }
    }
    if exists|i: int| 0 <= i < allowed.len() && !providers.contains_key(#[trigger] allowed[i]) {
        let i = choose|i: int|
            0 <= i < allowed.len() && !providers.contains_key(#[trigger] allowed[i]);
        assert(lines[i] is Fail);
    }
}

proof fn lemma_roles(
    providers: Map<Seq<char>, ProviderView>,
    allowed: Seq<Seq<char>>,
    roles: Seq<RoleView>,
)
    ensures
        any_failure(role_lines(providers, allowed, roles)) <==> !(forall|i: int|
            0 <= i < roles.len() ==> role_works(providers, allowed, #[trigger] roles[i])),
{
    let lines = role_lines(providers, allowed, roles);
    assert forall|i: int| 0 <= i < roles.len() implies (role_line(
        providers,
        allowed,
        #[trigger] roles[i],
    ) is Fail) == !role_works(providers, allowed, roles[i]) by {}
    if any_failure(lines) {
        let i = choose|i: int| 0 <= i < lines.len() && #[trigger] lines[i] is Fail;
        if roles.len() > 0 {
            assert(lines[i] == role_line(providers, allowed, roles[i]));
        }
    }
    if exists|i: int| 0 <= i < roles.len() && !role_works(providers, allowed, #[trigger] roles[i]) {
        let i = choose|i: int|
            0 <= i < roles.len() && !role_works(providers, allowed, #[trigger] roles[i]);
        assert(lines[i] == role_line(providers, allowed, roles[i]));
        assert(lines[i] is Fail);
    }
}

/// The report on a fleet fails exactly where something will not work.
pub proof fn a_fleet_is_ready_unless_something_fails(
    config: Config,
    value: Option<Seq<char>>,
    answer: Option<EndpointView>,
    roles: Seq<RoleView>,
)
    ensures
        report_failed(doctor_sections(config, value, answer, roles)) <==> !fleet_works(
            config,
            value,
            answer,
            roles,
        ),
{
    let sections = doctor_sections(config, value, answer, roles);
    let providers = providers_view(config.model_providers@);
    let allowed = config.agent_allowed_model_providers@;
    lemma_session(
        config.model_provider_id@,
        config.model_provider@,
        text_or_empty(text_option(config.model)),
        value,
        answer,
    );
    lemma_routing(providers, allowed);
    lemma_roles(providers, allowed, roles);
    let teams = team_lines(config.multi_agent_v2, config.agent_max_depth);
    assert(any_failure(teams) <==> !config.multi_agent_v2) by {
        assert(teams[0] is Fail <==> !config.multi_agent_v2);
        assert(!(teams[1] is Fail));
    }
    if report_failed(sections) {
        let i = choose|i: int| 0 <= i < sections.len() && any_failure(
            (#[trigger] sections[i]).checks,
        );
        assert(i == 0 || i == 1 || i == 2 || i == 3);
    }
    if any_failure(sections[0].checks) || any_failure(sections[1].checks) || any_failure(
        sections[2].checks,
    ) || any_failure(sections[3].checks) {
        assert(report_failed(sections));
    }
}

/// A role that names an unauthorized provider is rejected outright, whatever else
/// is right about it: there is no falling back to the session's endpoint.
pub proof fn an_unauthorized_role_is_rejected(
    providers: Map<Seq<char>, ProviderView>,
    allowed: Seq<Seq<char>>,
    role: RoleView,
    provider_id: Seq<char>,
)
    requires
        role.source matches SourceView::Parsed { model_provider: Some(named), .. } && named
            == provider_id,
        !allowed.contains(provider_id),
    ensures
        role_line(providers, allowed, role) is Fail,
{
}

/// A flat tree is a warning at most: it works, it just is not an org. With the
/// backend enabled and a depth that gives leads teams, nothing is amiss.
pub proof fn a_flat_tree_does_not_fail(max_depth: i32)
    ensures
        !any_failure(team_lines(true, max_depth)),
        max_depth >= 2 ==> team_lines(true, max_depth)[0] is Pass && team_lines(
            true,
            max_depth,
        )[1] is Pass,
        max_depth < 2 ==> team_lines(true, max_depth)[1] is Warn,
{
    let lines = team_lines(true, max_depth);
    assert(lines.len() == 2);
}

/// A provider that is authorized and declared, with the URL it is declared with.
pub open spec fn authorized_and_declared(
    allowed: Seq<Seq<char>>,
    providers: Map<Seq<char>, ProviderView>,
    id: Seq<char>,
    base_url: Seq<char>,
) -> bool {
    &&& allowed.contains(id)
    &&& providers.contains_key(id)
    &&& providers[id].base_url == Some(base_url)
}

/// Every candidate is authorized and declared, and every provider that is so is a
/// candidate.
proof fn lemma_candidates(allowed: Seq<Seq<char>>, providers: Map<Seq<char>, ProviderView>)
    ensures
        forall|id: Seq<char>, base_url: Seq<char>|
            #[trigger] candidates_of(allowed, providers).contains((id, base_url))
                <==> authorized_and_declared(allowed, providers, id, base_url),
    decreases allowed.len(),
{
    let found = candidates_of(allowed, providers);
    if allowed.len() > 0 {
        let rest = allowed.drop_last();
        let before = candidates_of(rest, providers);
        lemma_candidates(rest, providers);
        assert(allowed =~= rest.push(allowed.last()));
        assert forall|id: Seq<char>, base_url: Seq<char>| #[trigger]
            found.contains((id, base_url)) <==> authorized_and_declared(
            allowed,
            providers,
            id,
            base_url,
        ) by {
            let entry = (id, base_url);
            if found.contains(entry) {
                let i = choose|i: int| 0 <= i < found.len() && found[i] == entry;
                if i < before.len() {
                    assert(before[i] == entry);
                    assert(before.contains(entry));
                    let k = choose|k: int| 0 <= k < rest.len() && rest[k] == id;
                    assert(allowed[k] == id);
                } else {
                    assert(allowed[allowed.len() - 1] == id);
                }
            }
            if authorized_and_declared(allowed, providers, id, base_url) {
                let k = choose|k: int| 0 <= k < allowed.len() && allowed[k] == id;
                if k < rest.len() {
                    assert(rest[k] == id);
                    assert(before.contains(entry));
                    let i = choose|i: int| 0 <= i < before.len() && before[i] == entry;
                    assert(found[i] == entry);
                } else {
                    assert(found[found.len() - 1] == entry);
                }
            }
        }
    }
}

/// Workers only ever run on an endpoint that is authorized, declared and has a URL.
/// Where it is left to the answers, every endpoint like that is asked, and no other.
pub proof fn workers_run_on_authorized_endpoints(
    allowed: Seq<Seq<char>>,
    providers: Map<Seq<char>, ProviderView>,
    local_provider: Option<Seq<char>>,
    local_model: Option<Seq<char>>,
)
    ensures
        worker_runtime(allowed, providers, local_provider, local_model) matches Ok(runtime) ==> {
            match runtime {
                WorkerView::Named { provider_id, model } => {
                    &&& local_model == Some(model)
                    &&& providers[provider_id].base_url matches Some(base_url)
                    &&& authorized_and_declared(allowed, providers, provider_id, base_url)
                },
                WorkerView::Served { provider_id, base_url } => authorized_and_declared(
                    allowed,
                    providers,
                    provider_id,
                    base_url,
                ),
                WorkerView::Answering { candidates } => forall|
                    id: Seq<char>,
                    base_url: Seq<char>,
                |
                    #[trigger] candidates.contains((id, base_url)) <==> authorized_and_declared(
                        allowed,
                        providers,
                        id,
                        base_url,
                    ),
            }
        },
{
    lemma_candidates(allowed, providers);
    if allowed.len() == 1 {
        assert(allowed.contains(allowed[0]));
    }
}

/// The endpoint at `i` answered, and no other did.
pub open spec fn only_answer(answers: Seq<Option<EndpointView>>, i: int) -> bool {
    &&& 0 <= i < answers.len()
    &&& answers[i] is Some
    &&& forall|j: int| 0 <= j < answers.len() && j != i ==> #[trigger] answers[j] is None
}

/// No endpoint answered.
pub open spec fn no_answer(answers: Seq<Option<EndpointView>>) -> bool {
    forall|j: int| 0 <= j < answers.len() ==> #[trigger] answers[j] is None
}

/// How many answered tells whether none did or just one.
proof fn lemma_sole_answer(answers: Seq<Option<EndpointView>>)
    ensures
        answered(answers).len() == 0 <==> no_answer(answers),
        answered(answers).len() == 1 ==> only_answer(answers, answered(answers)[0]),
        forall|i: int| #[trigger]
            only_answer(answers, i) ==> answered(answers) == seq![i],
    decreases answers.len(),
{
    lemma_answered(answers);
    if answers.len() > 0 {
        let rest = answers.drop_last();
        lemma_sole_answer(rest);
        assert forall|j: int| 0 <= j < rest.len() implies #[trigger] rest[j] == answers[j] by {}
        if no_answer(answers) {
            assert(answers[answers.len() - 1] is None);
            assert forall|j: int| 0 <= j < rest.len() implies #[trigger] rest[j] is None by {
                assert(answers[j] is None);
            }
        }
        if answered(answers).len() == 0 {
            assert forall|j: int| 0 <= j < answers.len() implies #[trigger] answers[j] is None by {
                if j < rest.len() {
                    assert(rest[j] is None);
                }
            }
        }
        if answered(answers).len() == 1 {
            let i = answered(answers)[0];
            assert forall|j: int| 0 <= j < answers.len() && j != i implies #[trigger] answers[j]
                is None by {
                if j < rest.len() {
                    assert(rest[j] is None);
                }
            }
        }
        assert forall|i: int| #[trigger] only_answer(answers, i) implies answered(answers)
            == seq![i] by {
            if i < rest.len() {
                assert(answers[answers.len() - 1] is None);
                assert forall|j: int| 0 <= j < rest.len() && j != i implies #[trigger] rest[j]
                    is None by {
                    assert(answers[j] is None);
                }
                assert(rest[i] is Some);
                assert(only_answer(rest, i));
            } else {
                assert forall|j: int| 0 <= j < rest.len() implies #[trigger] rest[j] is None by {
                    assert(answers[j] is None);
                }
                assert(no_answer(rest));
            }
            assert(answered(answers) =~= seq![i]);
        }
    }
}

/// Left to the answers, the workers run on the endpoint that answers. A choice is
/// made exactly where one endpoint answers and no other does; then the provider is
/// that endpoint's, and the model is the one that was named or else one that the
/// endpoint serves.
pub proof fn workers_run_on_the_endpoint_that_answers(
    candidates: Seq<(Seq<char>, Seq<char>)>,
    answers: Seq<Option<EndpointView>>,
    local_model: Option<Seq<char>>,
)
    requires
        candidates.len() == answers.len(),
    ensures
        answering_provider(candidates, answers) is Ok <==> exists|i: int| only_answer(answers, i),
        forall|i: int| #[trigger]
            only_answer(answers, i) ==> {
                &&& answering_provider(candidates, answers) == Ok::<Seq<char>, Seq<char>>(
                    candidates[i].0,
                )
                &&& answering_worker(candidates, answers, local_model) is Ok <==> (local_model
                    is Some || chosen_model(answers[i]->0.models) is Some)
                &&& answering_worker(candidates, answers, local_model) matches Ok(worker) ==> {
                    &&& worker.0 == candidates[i].0
                    &&& match local_model {
                        Some(model) => worker.1 == model,
                        None => answers[i]->0.models.contains(worker.1),
                    }
                }
            },
{
    lemma_sole_answer(answers);
    if answering_provider(candidates, answers) is Ok {
        assert(only_answer(answers, answered(answers)[0]));
    }
    assert forall|i: int| #[trigger] only_answer(answers, i) implies {
        answering_worker(candidates, answers, local_model) matches Ok(worker) ==> (local_model
            is None ==> answers[i]->0.models.contains(worker.1))
    } by {
        a_chosen_model_is_served(answers[i]->0.models);
    }
}

/// A chosen model is one the endpoint serves. A single model is always chosen, and
/// of several one is chosen exactly where the preferred family is among them.
pub proof fn a_chosen_model_is_served(models: Seq<Seq<char>>)
    ensures
        chosen_model(models) matches Some(model) ==> models.contains(model) && (models.len() > 1
            ==> preferred(model)),
        models.len() == 1 ==> chosen_model(models) == Some(models[0]),
        models.len() != 1 ==> (chosen_model(models) is Some <==> exists|i: int|
            0 <= i < models.len() && preferred(#[trigger] models[i])),
{
    lemma_first_preferred(models);
    if models.len() == 1 {
        assert(models.contains(models[0]));
    }
}

proof fn lemma_first_preferred(models: Seq<Seq<char>>)
    ensures
        first_preferred(models) matches Some(model) ==> models.contains(model) && preferred(model),
        first_preferred(models) is Some <==> exists|i: int|
            0 <= i < models.len() && preferred(#[trigger] models[i]),
    decreases models.len(),
{
    if models.len() > 0 {
        let rest = models.drop_first();
        lemma_first_preferred(rest);
        if preferred(models[0]) {
            assert(models.contains(models[0]));
        } else {
            if let Some(model) = first_preferred(rest) {
                let i = choose|i: int| 0 <= i < rest.len() && rest[i] == model;
                assert(models[i + 1] == model);
                let j = choose|j: int| 0 <= j < rest.len() && preferred(#[trigger] rest[j]);
                assert(preferred(models[j + 1]));
            }
            if exists|i: int| 0 <= i < models.len() && preferred(#[trigger] models[i]) {
                let i = choose|i: int| 0 <= i < models.len() && preferred(#[trigger] models[i]);
                assert(rest[i - 1] == models[i]);
            }
        }
    }
}

/// A runtime found where a built-in provider points is known by the id of such a
/// provider.
pub proof fn a_built_in_endpoint_keeps_its_id(
    built_ins: Seq<(String, ModelProviderInfo)>,
    providers: Map<Seq<char>, ProviderView>,
    endpoint: EndpointView,
)
    ensures
        (exists|i: int|
            0 <= i < built_ins.len() && points_at(#[trigger] built_ins[i], endpoint.base_url))
            ==> exists|i: int|
            0 <= i < built_ins.len() && points_at(#[trigger] built_ins[i], endpoint.base_url)
                && assigned_id(built_ins, providers, endpoint) == built_ins[i].0@,
{
    lemma_built_in_at(built_ins, endpoint.base_url);
}

/// A provider points at a base URL.
pub open spec fn points_at(entry: (String, ModelProviderInfo), base_url: Seq<char>) -> bool {
    entry.1@.base_url matches Some(other) && normalized(other) == normalized(base_url)
}

proof fn lemma_built_in_at(built_ins: Seq<(String, ModelProviderInfo)>, base_url: Seq<char>)
    ensures
        built_in_at(built_ins, base_url) is Some <==> exists|i: int|
            0 <= i < built_ins.len() && points_at(#[trigger] built_ins[i], base_url),
        built_in_at(built_ins, base_url) matches Some(id) ==> exists|i: int|
            0 <= i < built_ins.len() && points_at(#[trigger] built_ins[i], base_url)
                && built_ins[i].0@ == id,
    decreases built_ins.len(),
{
    if built_ins.len() > 0 {
        let end = built_ins.len() - 1;
        let shorter = built_ins.drop_last();
        lemma_built_in_at(shorter, base_url);
        if points_at(built_ins.last(), base_url) {
            assert(points_at(built_ins[end], base_url));
        } else {
            if let Some(id) = built_in_at(shorter, base_url) {
                let i = choose|i: int|
                    0 <= i < shorter.len() && points_at(#[trigger] shorter[i], base_url)
                        && shorter[i].0@ == id;
                assert(points_at(built_ins[i], base_url));
            }
            if exists|i: int| 0 <= i < built_ins.len() && points_at(#[trigger] built_ins[i], base_url) {
                let i = choose|i: int|
                    0 <= i < built_ins.len() && points_at(#[trigger] built_ins[i], base_url);
                assert(points_at(shorter[i], base_url));
            }
        }
    }
}

/// Scanning again finds what was written under the id it was written by, and so
/// declares nothing twice.
pub proof fn a_written_endpoint_is_known_again(
    built_ins: Seq<(String, ModelProviderInfo)>,
    providers: Map<Seq<char>, ProviderView>,
    endpoint: EndpointView,
    written: ProviderView,
)
    requires
        written.base_url == Some(endpoint.base_url),
    ensures
        ({
            let id = assigned_id(built_ins, providers, endpoint);
            let after = providers.insert(id, written);
            &&& assigned_id(built_ins, after, endpoint) == id
            &&& scan_edits(after, seq![(id, endpoint)]) == Seq::<EditView>::empty()
        }),
{
    let id = assigned_id(built_ins, providers, endpoint);
    let after = providers.insert(id, written);
    let slug = slug_of(endpoint.runtime);
    if built_in_at(built_ins, endpoint.base_url) is None {
        if claimed_by_another(providers, slug, endpoint.base_url) {
            reveal_strlit("-");
            assert(id.len() > slug.len());
            assert(after[slug] == providers[slug]);
        }
    }
    let one = seq![(id, endpoint)];
    assert(one.drop_last() =~= Seq::<(Seq<char>, EndpointView)>::empty());
    assert(one.last() == (id, endpoint));
    assert(scan_edits(after, one.drop_last()) == Seq::<EditView>::empty());
}

/// What is written is authorized with it, and what was authorized stays so.
pub proof fn what_is_written_is_authorized(
    edits: Seq<EditView>,
    declared: Seq<EditView>,
    existing: Seq<Seq<char>>,
    ids: Seq<Seq<char>>,
)
    requires
        edits_then_allowlist(edits, declared, existing, ids),
    ensures
        exists|allowed: Seq<Seq<char>>|
            edits.last() == #[trigger] allowlist_edit_of(allowed) && (forall|id: Seq<char>|
                ids.contains(id) || existing.contains(id) ==> allowed.contains(id)),
{
    let allowed = choose|allowed: Seq<Seq<char>>|
        edits.last() == #[trigger] allowlist_edit_of(allowed) && authorizes(allowed, existing, ids);
    assert forall|id: Seq<char>| ids.contains(id) || existing.contains(
        id,
    ) implies allowed.contains(id) by {
        assert(allowed.contains(id) <==> existing.contains(id) || ids.contains(id));
    }
    assert(edits.last() == allowlist_edit_of(allowed));
}

/// An endpoint that is not to be asked has no say: the lines of the report do not
/// depend on what it would have answered. One that is not authorized is never
/// asked.
pub proof fn only_what_is_asked_has_a_say(
    providers: Map<Seq<char>, ProviderView>,
    allowed: Seq<Seq<char>>,
    name: Seq<char>,
    provider_id: Seq<char>,
    model: Seq<char>,
    value: Option<Seq<char>>,
    one: Option<EndpointView>,
    other: Option<EndpointView>,
)
    ensures
        role_target_of(providers, allowed, provider_id, model, value) is None ==> routed_line(
            providers,
            allowed,
            name,
            provider_id,
            model,
            value,
            one,
        ) == routed_line(providers, allowed, name, provider_id, model, value, other),
        role_target_of(providers, allowed, provider_id, model, value) is Some ==> allowed.contains(
            provider_id,
        ),
{
}

/// A provider named after its runtime has an id that can be written.
pub proof fn runtime_names_are_valid_ids(runtime: Runtime)
    ensures
        valid_provider_id(slug_of(runtime)),
{
    reveal_strlit("ollama");
    reveal_strlit("lmstudio");
    reveal_strlit("vllm");
    reveal_strlit("llamacpp");
    reveal_strlit("openai-compat");
}

} // verus!
