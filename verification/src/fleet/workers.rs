//! What the workers of a team run on: which of the authorized endpoints, and which
//! of its models.

use vstd::prelude::*;
use crate::text::{
    contains, contains_text, decimal, decimal_text, lower, lowered, str_option, text_option, texts,
};
use super::commands::endpoint_ref;
use super::config::{find_provider, providers_view, Config, ProviderSet, ProviderView};
use super::probe::{endpoint_option, Endpoint, EndpointView};
use super::team::TeamArgs;

verus! {

/// Model family preferred when a local endpoint serves several models and the
/// caller did not name one.
pub const PREFERRED_MODEL_SUBSTRING: &'static str = "nemotron";

/// A model of the preferred family, whatever the case of its letters.
pub open spec fn preferred(model: Seq<char>) -> bool {
    contains(lower(model), PREFERRED_MODEL_SUBSTRING@)
}

/// The first model of the preferred family.
pub open spec fn first_preferred(models: Seq<Seq<char>>) -> Option<Seq<char>>
    decreases models.len(),
{
    if models.len() == 0 {
        None
    } else if preferred(models[0]) {
        Some(models[0])
    } else {
        first_preferred(models.drop_first())
    }
}

/// The model to run. A single model is unambiguous; of several, the first of the
/// preferred family.
pub open spec fn chosen_model(models: Seq<Seq<char>>) -> Option<Seq<char>> {
    if models.len() == 1 {
        Some(models[0])
    } else {
        first_preferred(models)
    }
}

/// Chooses among the models an endpoint serves.
pub fn choose_model(models: &Vec<String>) -> (model: Option<String>)
    ensures
        text_option(model) == chosen_model(texts(models@)),
{
    if models.len() == 1 {
        return Some(models[0].clone());
    }
    let ghost says = texts(models@);
    assert(says.skip(0) =~= says);
    for i in 0..models.len()
        invariant
            says == texts(models@),
            first_preferred(says.skip(i as int)) == first_preferred(says),
    {
        assert(says.skip(i as int)[0] == models@[i as int]@);
        assert(says.skip(i as int).drop_first() =~= says.skip(i + 1));
        let small = lowered(models[i].as_str());
        if contains_text(small.as_str(), PREFERRED_MODEL_SUBSTRING) {
            return Some(models[i].clone());
        }
    }
    assert(says.skip(says.len() as int) =~= Seq::empty());
    None
}

/// The outcome of a choice that may fail.
pub open spec fn text_outcome(outcome: Result<String, String>) -> Result<Seq<char>, Seq<char>> {
    match outcome {
        Ok(text) => Ok(text@),
        Err(message) => Err(message@),
    }
}

/// The one provider that is authorized, where there is just one.
pub open spec fn sole_authorized(allowed: Seq<Seq<char>>) -> Result<Seq<char>, Seq<char>> {
    if allowed.len() == 1 {
        Ok(allowed[0])
    } else if allowed.len() == 0 {
        Err(
            "no endpoint is authorized for agent routing yet. Run `codex fleet scan --write` first."@,
        )
    } else {
        Err("several endpoints are authorized; choose one with --local-provider"@)
    }
}

/// Takes the one provider that is authorized, where there is just one.
pub fn sole_authorized_provider(config: &Config) -> (id: Result<String, String>)
    ensures
        text_outcome(id) == sole_authorized(config.agent_allowed_model_providers@),
{
    let allowed: &ProviderSet = &config.agent_allowed_model_providers;
    if allowed.len() == 1 {
        return Ok(allowed.get(0).to_owned());
    }
    if allowed.is_empty() {
        return Err(
            "no endpoint is authorized for agent routing yet. Run `codex fleet scan --write` first.".to_owned(),
        );
    }
    Err("several endpoints are authorized; choose one with --local-provider".to_owned())
}

/// The provider the workers run on.
pub open spec fn worker_provider(
    allowed: Seq<Seq<char>>,
    local_provider: Option<Seq<char>>,
) -> Result<Seq<char>, Seq<char>> {
    match local_provider {
        Some(id) => if allowed.contains(id) {
            Ok(id)
        } else {
            Err(
                "`"@ + id + "` is not authorized for agent routing; run `codex fleet add "@ + id
                    + " …` or add it to agents.allowed_model_providers"@,
            )
        },
        None => sole_authorized(allowed),
    }
}

fn worker_provider_id(config: &Config, args: &TeamArgs) -> (id: Result<String, String>)
    ensures
        text_outcome(id) == worker_provider(
            config.agent_allowed_model_providers@,
            text_option(args.local_provider),
        ),
{
    match &args.local_provider {
        Some(id) => {
            if config.agent_allowed_model_providers.contains(id.as_str()) {
                return Ok(id.clone());
            }
            let mut message = String::from_str("`");
            message.append(id.as_str());
            message.append("` is not authorized for agent routing; run `codex fleet add ");
            message.append(id.as_str());
            message.append(" …` or add it to agents.allowed_model_providers");
            Err(message)
        },
        None => sole_authorized_provider(config),
    }
}

/// What the workers run on, as far as it can be told without asking an endpoint.
#[derive(Debug, PartialEq, Eq)]
pub enum WorkerRuntime {
    /// A model that was named.
    Named { provider_id: String, model: String },
    /// Whatever the endpoint at this URL serves.
    Served { provider_id: String, base_url: String },
    /// The one of several endpoints that answers: the id and URL of each of them.
    Answering { candidates: Vec<(String, String)> },
}

/// What is known of what the workers run on.
#[verifier::ext_equal]
pub enum WorkerView {
    Named { provider_id: Seq<char>, model: Seq<char> },
    Served { provider_id: Seq<char>, base_url: Seq<char> },
    Answering { candidates: Seq<(Seq<char>, Seq<char>)> },
}

/// The ids and URLs of a list.
pub open spec fn candidates_view(list: Seq<(String, String)>) -> Seq<(Seq<char>, Seq<char>)> {
    Seq::new(list.len(), |i: int| (list[i].0@, list[i].1@))
}

impl WorkerRuntime {
    pub open spec fn view(&self) -> WorkerView {
        match self {
            WorkerRuntime::Named { provider_id, model } => WorkerView::Named {
                provider_id: provider_id@,
                model: model@,
            },
            WorkerRuntime::Served { provider_id, base_url } => WorkerView::Served {
                provider_id: provider_id@,
                base_url: base_url@,
            },
            WorkerRuntime::Answering { candidates } => WorkerView::Answering {
                candidates: candidates_view(candidates@),
            },
        }
    }
}

/// Those of the authorized providers that are declared and have a URL, in the order
/// of the allowlist.
pub open spec fn candidates_of(
    allowed: Seq<Seq<char>>,
    providers: Map<Seq<char>, ProviderView>,
) -> Seq<(Seq<char>, Seq<char>)>
    decreases allowed.len(),
{
    if allowed.len() == 0 {
        Seq::empty()
    } else {
        let before = candidates_of(allowed.drop_last(), providers);
        let id = allowed.last();
        match (providers.contains_key(id), providers[id].base_url) {
            (true, Some(base_url)) => before.push((id, base_url)),
            _ => before,
        }
    }
}

fn answering_candidates(config: &Config) -> (candidates: Vec<(String, String)>)
    ensures
        candidates_view(candidates@) == candidates_of(
            config.agent_allowed_model_providers@,
            providers_view(config.model_providers@),
        ),
{
    let allowed: &ProviderSet = &config.agent_allowed_model_providers;
    let mut candidates: Vec<(String, String)> = Vec::new();
    let count: usize = allowed.len();
    assert(candidates_view(candidates@) =~= Seq::empty());
    for i in 0..count
        invariant
            count == allowed@.len(),
            candidates_view(candidates@) == candidates_of(
                allowed@.take(i as int),
                providers_view(config.model_providers@),
            ),
    {
        let ghost before = candidates@;
        let id = allowed.get(i);
        assert(allowed@.take(i + 1).drop_last() =~= allowed@.take(i as int));
        if let Some(provider) = find_provider(&config.model_providers, id) {
            if let Some(base_url) = &provider.base_url {
                candidates.push((id.to_owned(), base_url.clone()));
                assert(candidates_view(candidates@) =~= candidates_view(before).push(
                    (id@, base_url@),
                ));
            }
        }
    }
    assert(allowed@.take(count as int) =~= allowed@);
    candidates
}

/// What the workers run on. The provider has to be authorized and declared, and to
/// have a URL of its own. Where none is named and several are authorized, it is the
/// one that answers.
pub open spec fn worker_runtime(
    allowed: Seq<Seq<char>>,
    providers: Map<Seq<char>, ProviderView>,
    local_provider: Option<Seq<char>>,
    local_model: Option<Seq<char>>,
) -> Result<WorkerView, Seq<char>> {
    if local_provider is None && allowed.len() > 1 {
        Ok(WorkerView::Answering { candidates: candidates_of(allowed, providers) })
    } else {
        match worker_provider(allowed, local_provider) {
            Err(message) => Err(message),
            Ok(provider_id) => if !providers.contains_key(provider_id) {
                Err(
                    "`"@ + provider_id
                        + "` is authorized for routing but not declared under model_providers"@,
                )
            } else {
                match (providers[provider_id].base_url, local_model) {
                    (None, _) => Err(
                        "`"@ + provider_id + "` has no base_url, so its models cannot be listed"@,
                    ),
                    (Some(_), Some(model)) => Ok(WorkerView::Named { provider_id, model }),
                    (Some(base_url), None) => Ok(WorkerView::Served { provider_id, base_url }),
                }
            },
        }
    }
}

/// The outcome of resolving what the workers run on.
pub open spec fn worker_outcome(outcome: Result<WorkerRuntime, String>) -> Result<
    WorkerView,
    Seq<char>,
> {
    match outcome {
        Ok(runtime) => Ok(runtime@),
        Err(message) => Err(message@),
    }
}

/// Picks the endpoint and, where it was named, the model the workers will run on.
pub fn resolve_worker_runtime(config: &Config, args: &TeamArgs) -> (runtime: Result<
    WorkerRuntime,
    String,
>)
    ensures
        worker_outcome(runtime) == worker_runtime(
            config.agent_allowed_model_providers@,
            providers_view(config.model_providers@),
            text_option(args.local_provider),
            text_option(args.local_model),
        ),
{
    if args.local_provider.is_none() && config.agent_allowed_model_providers.len() > 1 {
        return Ok(WorkerRuntime::Answering { candidates: answering_candidates(config) });
    }
    let provider_id = match worker_provider_id(config, args) {
        Ok(id) => id,
        Err(message) => return Err(message),
    };
    let provider = match find_provider(&config.model_providers, provider_id.as_str()) {
        Some(provider) => provider,
        None => {
            let mut message = String::from_str("`");
            message.append(provider_id.as_str());
            message.append("` is authorized for routing but not declared under model_providers");
            return Err(message);
        },
    };
    let base_url = match &provider.base_url {
        Some(base_url) => base_url.clone(),
        None => {
            let mut message = String::from_str("`");
            message.append(provider_id.as_str());
            message.append("` has no base_url, so its models cannot be listed");
            return Err(message);
        },
    };
    match &args.local_model {
        Some(model) => Ok(WorkerRuntime::Named { provider_id, model: model.clone() }),
        None => Ok(WorkerRuntime::Served { provider_id, base_url }),
    }
}

/// The model the workers run, given what probing their endpoint told.
pub open spec fn served_model(
    provider_id: Seq<char>,
    base_url: Seq<char>,
    answer: Option<EndpointView>,
) -> Result<Seq<char>, Seq<char>> {
    match answer {
        None => Err(
            base_url
                + " did not answer, so its models are unknown. Start it, or name the model with --local-model."@,
        ),
        Some(endpoint) => match chosen_model(endpoint.models) {
            Some(model) => Ok(model),
            None => Err(
                "`"@ + provider_id + "` serves "@ + decimal(endpoint.models.len())
                    + " models; pick one with --local-model"@,
            ),
        },
    }
}

/// Picks the model the workers will run, given what probing their endpoint told.
pub fn resolve_served_model(provider_id: &str, base_url: &str, answer: Option<&Endpoint>) -> (model:
    Result<String, String>)
    ensures
        text_outcome(model) == served_model(provider_id@, base_url@, endpoint_ref(answer)),
{
    let endpoint = match answer {
        Some(endpoint) => endpoint,
        None => {
            let mut message = base_url.to_owned();
            message.append(
                " did not answer, so its models are unknown. Start it, or name the model with --local-model.",
            );
            return Err(message);
        },
    };
    match choose_model(&endpoint.models) {
        Some(model) => Ok(model),
        None => {
            let mut message = String::from_str("`");
            message.append(provider_id);
            message.append("` serves ");
            message.append(decimal_text(endpoint.models.len() as u64).as_str());
            message.append(" models; pick one with --local-model");
            Err(message)
        },
    }
}

/// What probing each of several endpoints told.
pub open spec fn answers_view(answers: Seq<Option<Endpoint>>) -> Seq<Option<EndpointView>> {
    Seq::new(answers.len(), |i: int| endpoint_option(answers[i]))
}

/// The positions of the endpoints that answered.
pub open spec fn answered(answers: Seq<Option<EndpointView>>) -> Seq<int>
    decreases answers.len(),
{
    if answers.len() == 0 {
        Seq::empty()
    } else if answers.last() is Some {
        answered(answers.drop_last()).push(answers.len() - 1)
    } else {
        answered(answers.drop_last())
    }
}

/// The one endpoint that answered, where it is just one.
pub open spec fn sole_answer(answers: Seq<Option<EndpointView>>) -> Result<int, Seq<char>> {
    let positions = answered(answers);
    if positions.len() == 1 {
        Ok(positions[0])
    } else if positions.len() == 0 {
        Err(
            "none of the authorized endpoints answered. Start one, or choose one with --local-provider."@,
        )
    } else {
        Err("several endpoints are authorized; choose one with --local-provider"@)
    }
}

/// Every position that is listed is one of an answer.
pub proof fn lemma_answered(answers: Seq<Option<EndpointView>>)
    ensures
        forall|k: int|
            0 <= k < answered(answers).len() ==> 0 <= #[trigger] answered(answers)[k]
                < answers.len() && answers[answered(answers)[k]] is Some,
    decreases answers.len(),
{
    if answers.len() > 0 {
        lemma_answered(answers.drop_last());
    }
}

fn answer_position(answers: &Vec<Option<Endpoint>>) -> (position: Result<usize, String>)
    ensures
        match position {
            Ok(i) => sole_answer(answers_view(answers@)) == Ok::<int, Seq<char>>(i as int) && i
                < answers@.len() && answers@[i as int] is Some,
            Err(message) => sole_answer(answers_view(answers@)) == Err::<int, Seq<char>>(message@),
        },
{
    let ghost views = answers_view(answers@);
    let mut found: Option<usize> = None;
    let mut several: bool = false;
    for i in 0..answers.len()
        invariant
            views == answers_view(answers@),
            several == (answered(views.take(i as int)).len() > 1),
            found is None <==> answered(views.take(i as int)).len() == 0,
            found matches Some(at) ==> answered(views.take(i as int))[0] == at,
    {
        assert(views.take(i + 1).drop_last() =~= views.take(i as int));
        assert(views.take(i + 1).last() == endpoint_option(answers@[i as int]));
        if answers[i].is_some() {
            if found.is_some() {
                several = true;
            } else {
                found = Some(i);
            }
        }
    }
    assert(views.take(answers@.len() as int) =~= views);
    proof {
        lemma_answered(views);
    }
    match found {
        None => Err(
            "none of the authorized endpoints answered. Start one, or choose one with --local-provider.".to_owned(),
        ),
        Some(at) => {
            if several {
                return Err(
                    "several endpoints are authorized; choose one with --local-provider".to_owned(),
                );
            }
            assert(0 <= answered(views)[0] < views.len());
            Ok(at)
        },
    }
}

/// The provider the workers run on: of the candidates the one that answered.
pub open spec fn answering_provider(
    candidates: Seq<(Seq<char>, Seq<char>)>,
    answers: Seq<Option<EndpointView>>,
) -> Result<Seq<char>, Seq<char>> {
    match sole_answer(answers) {
        Ok(i) => Ok(candidates[i].0),
        Err(message) => Err(message),
    }
}

/// Picks the provider the workers run on: of the candidates the one that answered.
pub fn resolve_answering_provider(
    candidates: &Vec<(String, String)>,
    answers: &Vec<Option<Endpoint>>,
) -> (id: Result<String, String>)
    requires
        answers@.len() == candidates@.len(),
    ensures
        text_outcome(id) == answering_provider(
            candidates_view(candidates@),
            answers_view(answers@),
        ),
{
    match answer_position(answers) {
        Ok(at) => Ok(candidates[at].0.clone()),
        Err(message) => Err(message),
    }
}

/// What the workers run on: the provider that answered, and the model that was named
/// or else the one chosen from what it serves.
pub open spec fn answering_worker(
    candidates: Seq<(Seq<char>, Seq<char>)>,
    answers: Seq<Option<EndpointView>>,
    local_model: Option<Seq<char>>,
) -> Result<(Seq<char>, Seq<char>), Seq<char>> {
    match (sole_answer(answers), local_model) {
        (Err(message), _) => Err(message),
        (Ok(i), Some(model)) => Ok((candidates[i].0, model)),
        (Ok(i), None) => match served_model(candidates[i].0, candidates[i].1, answers[i]) {
            Ok(model) => Ok((candidates[i].0, model)),
            Err(message) => Err(message),
        },
    }
}

/// The outcome of a choice of provider and model.
pub open spec fn pair_outcome(outcome: Result<(String, String), String>) -> Result<
    (Seq<char>, Seq<char>),
    Seq<char>,
> {
    match outcome {
        Ok((provider_id, model)) => Ok((provider_id@, model@)),
        Err(message) => Err(message@),
    }
}

/// Picks the provider and model the workers run on, given what probing each of the
/// candidates told.
pub fn resolve_answering_worker(
    candidates: &Vec<(String, String)>,
    answers: &Vec<Option<Endpoint>>,
    local_model: Option<&str>,
) -> (worker: Result<(String, String), String>)
    requires
        answers@.len() == candidates@.len(),
    ensures
        pair_outcome(worker) == answering_worker(
            candidates_view(candidates@),
            answers_view(answers@),
            str_option(local_model),
        ),
{
    let provider_id = match resolve_answering_provider(candidates, answers) {
        Ok(id) => id,
        Err(message) => return Err(message),
    };
    if let Some(model) = local_model {
        return Ok((provider_id, model.to_owned()));
    }
    let at: usize = match answer_position(answers) {
        Ok(at) => at,
        Err(message) => return Err(message),
    };
    let model = match resolve_served_model(
        provider_id.as_str(),
        candidates[at].1.as_str(),
        answers[at].as_ref(),
    ) {
        Ok(model) => model,
        Err(message) => return Err(message),
    };
    Ok((provider_id, model))
}

} // verus!
