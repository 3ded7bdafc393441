//! Finding endpoints, and writing them into the configuration.

use vstd::prelude::*;
use crate::order::{ascending, lemma_ascending_unique};
use crate::text::{after_last, before_first, head_before, same_text, str_option, tail_after, texts};
use super::config::{
    edits_view, find_provider, providers_view, push_edit, set_text, text_edit, wire_text, Config,
    ConfigEdit, ConfigValue, EditView, ModelProviderInfo, ProviderSet, ProviderView, ValueView,
    WireApi,
};
use super::probe::{slug_of, Endpoint, EndpointView, Runtime};
use super::urls::{normalize_base_url, normalized};

verus! {

/// The changes that declare a provider.
pub open spec fn provider_edits_of(
    id: Seq<char>,
    base_url: Seq<char>,
    name: Seq<char>,
    wire_api: WireApi,
    api_key_env: Option<Seq<char>>,
) -> Seq<EditView> {
    let edits = seq![
        text_edit("model_providers"@, id, "name"@, name),
        text_edit("model_providers"@, id, "base_url"@, base_url),
        text_edit("model_providers"@, id, "wire_api"@, wire_text(wire_api)),
    ];
    match api_key_env {
        Some(env) => edits.push(text_edit("model_providers"@, id, "env_key"@, env)),
        None => edits,
    }
}

/// Produces the edits that declare a provider.
pub fn provider_edits(
    id: &str,
    base_url: &str,
    name: &str,
    wire_api: WireApi,
    api_key_env: Option<&str>,
) -> (edits: Vec<ConfigEdit>)
    ensures
        edits_view(edits@) == provider_edits_of(
            id@,
            base_url@,
            name@,
            wire_api,
            str_option(api_key_env),
        ),
{
    let mut edits: Vec<ConfigEdit> = Vec::new();
    assert(edits_view(edits@) =~= Seq::<EditView>::empty());
    push_edit(&mut edits, set_text("model_providers", id, "name", name));
    push_edit(&mut edits, set_text("model_providers", id, "base_url", base_url));
    push_edit(&mut edits, set_text("model_providers", id, "wire_api", wire_api.text()));
    if let Some(env) = api_key_env {
        push_edit(&mut edits, set_text("model_providers", id, "env_key", env));
    }
    edits
}

/// The change that sets the allowlist.
pub open spec fn allowlist_edit_of(allowed: Seq<Seq<char>>) -> EditView {
    EditView {
        segments: seq!["agents"@, "allowed_model_providers"@],
        value: ValueView::List(allowed),
    }
}

/// `allowed` is what was authorized together with the additions, in order and each
/// id once.
pub open spec fn authorizes(
    allowed: Seq<Seq<char>>,
    existing: Seq<Seq<char>>,
    additions: Seq<Seq<char>>,
) -> bool {
    &&& ascending(allowed)
    &&& forall|id: Seq<char>| #[trigger]
        allowed.contains(id) <==> existing.contains(id) || additions.contains(id)
}

/// The change that authorizes the additions beside what was authorized before.
pub open spec fn authorizing_edit(
    edit: EditView,
    existing: Seq<Seq<char>>,
    additions: Seq<Seq<char>>,
) -> bool {
    exists|allowed: Seq<Seq<char>>|
        edit == #[trigger] allowlist_edit_of(allowed) && authorizes(allowed, existing, additions)
}

/// Produces the edit that authorizes `additions` for role-based routing,
/// preserving whatever was already authorized.
pub fn allowlist_edit(existing: &ProviderSet, additions: &Vec<String>) -> (edit: ConfigEdit)
    ensures
        authorizing_edit(edit@, existing@, texts(additions@)),
{
    let mut allowed = existing.copy();
    allowed.insert_all(additions);
    let list = allowed.to_list();
    let mut segments: Vec<String> = Vec::new();
    segments.push("agents".to_owned());
    segments.push("allowed_model_providers".to_owned());
    assert(texts(segments@) =~= seq!["agents"@, "allowed_model_providers"@]);
    let edit = ConfigEdit::SetPath { segments, value: ConfigValue::List(list) };
    assert(edit@ == allowlist_edit_of(texts(list@)));
    assert(authorizes(texts(list@), existing@, texts(additions@)));
    edit
}

/// There is one way to write the allowlist, whatever order the additions come in:
/// what is authorized, and what is added, decide it.
pub proof fn the_allowlist_is_determined(
    one: EditView,
    other: EditView,
    existing: Seq<Seq<char>>,
    additions: Seq<Seq<char>>,
)
    requires
        authorizing_edit(one, existing, additions),
        authorizing_edit(other, existing, additions),
    ensures
        one == other,
{
    let first = choose|allowed: Seq<Seq<char>>|
        one == #[trigger] allowlist_edit_of(allowed) && authorizes(allowed, existing, additions);
    let second = choose|allowed: Seq<Seq<char>>|
        other == #[trigger] allowlist_edit_of(allowed) && authorizes(allowed, existing, additions);
    assert forall|id: Seq<char>| #[trigger] first.contains(id) <==> second.contains(id) by {
        assert(first.contains(id) <==> existing.contains(id) || additions.contains(id));
        assert(second.contains(id) <==> existing.contains(id) || additions.contains(id));
    }
    lemma_ascending_unique(first, second);
}

/// Authorizing keeps what was authorized, and authorizing again changes nothing.
pub proof fn authorizing_keeps_and_repeats(
    allowed: Seq<Seq<char>>,
    existing: Seq<Seq<char>>,
    additions: Seq<Seq<char>>,
    again: Seq<Seq<char>>,
)
    requires
        authorizes(allowed, existing, additions),
        authorizes(again, allowed, additions),
    ensures
        forall|id: Seq<char>| existing.contains(id) ==> #[trigger] allowed.contains(id),
        forall|id: Seq<char>| additions.contains(id) ==> #[trigger] allowed.contains(id),
        again == allowed,
{
    assert forall|id: Seq<char>| #[trigger] again.contains(id) <==> allowed.contains(id) by {
        assert(allowed.contains(id) <==> existing.contains(id) || additions.contains(id));
    }
    lemma_ascending_unique(again, allowed);
}

/// The port that stands in a base URL: what follows the last colon, up to a slash.
pub open spec fn port_in(base_url: Seq<char>) -> Seq<char> {
    before_first(after_last(base_url, ':'), '/')
}

/// An id is taken by a provider that points somewhere else.
pub open spec fn claimed_by_another(
    providers: Map<Seq<char>, ProviderView>,
    id: Seq<char>,
    base_url: Seq<char>,
) -> bool {
    providers.contains_key(id) && match providers[id].base_url {
        Some(other) => normalized(other) != normalized(base_url),
        None => true,
    }
}

/// The id written for a runtime that no built-in provider points at. The bare
/// runtime name reads best, so it is qualified only when it is taken by something
/// that points somewhere else.
pub open spec fn generated_id(
    providers: Map<Seq<char>, ProviderView>,
    runtime: Runtime,
    base_url: Seq<char>,
) -> Seq<char> {
    if claimed_by_another(providers, slug_of(runtime), base_url) {
        slug_of(runtime) + "-"@ + port_in(base_url)
    } else {
        slug_of(runtime)
    }
}

/// Names a provider after its runtime.
pub fn generated_provider_id(config: &Config, endpoint: &Endpoint) -> (id: String)
    ensures
        id@ == generated_id(
            providers_view(config.model_providers@),
            endpoint.runtime,
            endpoint.base_url@,
        ),
{
    let slug: &str = endpoint.runtime.slug();
    let claimed: bool = match find_provider(&config.model_providers, slug) {
        Some(existing) => match &existing.base_url {
            Some(base_url) => {
                let theirs = normalize_base_url(base_url.as_str());
                let ours = normalize_base_url(endpoint.base_url.as_str());
                !same_text(theirs.as_str(), ours.as_str())
            },
            None => true,
        },
        None => false,
    };
    let mut id = slug.to_owned();
    if claimed {
        id.append("-");
        id.append(head_before(tail_after(endpoint.base_url.as_str(), ':'), '/'));
    }
    id
}

/// The built-in provider that points at a base URL; of several, the last.
pub open spec fn built_in_at(built_ins: Seq<(String, ModelProviderInfo)>, base_url: Seq<char>) -> Option<
    Seq<char>,
>
    decreases built_ins.len(),
{
    if built_ins.len() == 0 {
        None
    } else {
        match built_ins.last().1@.base_url {
            Some(other) => if normalized(other) == normalized(base_url) {
                Some(built_ins.last().0@)
            } else {
                built_in_at(built_ins.drop_last(), base_url)
            },
            None => built_in_at(built_ins.drop_last(), base_url),
        }
    }
}

fn find_built_in<'a>(built_ins: &'a Vec<(String, ModelProviderInfo)>, base_url: &str) -> (id: Option<
    &'a str,
>)
    ensures
        str_option(id) == built_in_at(built_ins@, base_url@),
{
    let wanted = normalize_base_url(base_url);
    let mut i: usize = built_ins.len();
    assert(built_ins@.take(i as int) =~= built_ins@);
    while i > 0
        invariant
            i <= built_ins@.len(),
            wanted@ == normalized(base_url@),
            built_in_at(built_ins@.take(i as int), base_url@) == built_in_at(
                built_ins@,
                base_url@,
            ),
        decreases i,
    {
        assert(built_ins@.take(i as int).drop_last() =~= built_ins@.take(i - 1));
        assert(built_ins@.take(i as int).last() == built_ins@[i - 1]);
        i = i - 1;
        if let Some(other) = &built_ins[i].1.base_url {
            let theirs = normalize_base_url(other.as_str());
            if same_text(theirs.as_str(), wanted.as_str()) {
                return Some(built_ins[i].0.as_str());
            }
        }
    }
    None
}

/// The id written for an endpoint: that of the built-in provider that points at
/// it, where there is one, for a built-in provider cannot be overridden anyway.
pub open spec fn assigned_id(
    built_ins: Seq<(String, ModelProviderInfo)>,
    providers: Map<Seq<char>, ProviderView>,
    endpoint: EndpointView,
) -> Seq<char> {
    match built_in_at(built_ins, endpoint.base_url) {
        Some(id) => id,
        None => generated_id(providers, endpoint.runtime, endpoint.base_url),
    }
}

/// Chooses the config id to write for one discovered endpoint.
pub fn assign_provider_id(
    config: &Config,
    built_ins: &Vec<(String, ModelProviderInfo)>,
    endpoint: &Endpoint,
) -> (id: String)
    ensures
        id@ == assigned_id(built_ins@, providers_view(config.model_providers@), endpoint@),
{
    match find_built_in(built_ins, endpoint.base_url.as_str()) {
        Some(id) => id.to_owned(),
        None => generated_provider_id(config, endpoint),
    }
}

/// Chooses the config id to write for each discovered endpoint.
pub fn assign_provider_ids(
    config: &Config,
    built_ins: &Vec<(String, ModelProviderInfo)>,
    found: &Vec<Endpoint>,
) -> (assignments: Vec<(String, Endpoint)>)
    ensures
        assignments@.len() == found@.len(),
        forall|i: int|
            0 <= i < found@.len() ==> {
                &&& (#[trigger] assignments@[i]).0@ == assigned_id(
                    built_ins@,
                    providers_view(config.model_providers@),
                    found@[i]@,
                )
                &&& assignments@[i].1@ == found@[i]@
            },
{
    let mut assignments: Vec<(String, Endpoint)> = Vec::new();
    for i in 0..found.len()
        invariant
            assignments@.len() == i,
            forall|j: int|
                0 <= j < i ==> {
                    &&& (#[trigger] assignments@[j]).0@ == assigned_id(
                        built_ins@,
                        providers_view(config.model_providers@),
                        found@[j]@,
                    )
                    &&& assignments@[j].1@ == found@[j]@
                },
    {
        let id = assign_provider_id(config, built_ins, &found[i]);
        assignments.push((id, found[i].copy()));
    }
    assignments
}

} // verus!
