//! What the fleet commands write and choose, read off what they are given.

use vstd::prelude::*;
use crate::text::{decimal, join, lower, signed_decimal, without_trailing_slashes};
use crate::text_laws::{
    a_piece_is_found_where_it_stands, nothing_follows_the_last, nothing_precedes_the_first,
    stands_at,
};
use super::commands::{
    assigned_ids, assignments_of, chosen_wire, edits_then_allowlist, endpoint_text, found_text,
    id_refused, models_text, next_steps_text, planned_addition, scan_edits, scan_text, AddArgs,
    Plan, WireChoice,
};
use super::config::{
    edits_view, providers_view, wire_text, EditView, ModelProviderInfo, ProviderView, ValueView,
    WireApi,
};
use super::listing::{
    footer_text, heading_text, id_width, lists, reachability, row_of, row_text, rows_text, RowView,
};
use super::probe::{EndpointView, Runtime};
use super::role_files::role_entries;
use super::setup::{
    allowlist_edit_of, assigned_id, authorizes, built_in_at, port_in, provider_edits_of,
};
use super::team::{
    depth_refused, in_the_way, joins_to, preferred_text, slashed, strips_to, team_edits_of,
    team_report_text, written_path, LEAD_DESCRIPTION, LEAD_ROLE, ROLES_DIR, TEAM_FEATURE,
    WORKER_DESCRIPTION, WORKER_ROLE,
};
use super::urls::{loopback, normalized};
use super::valid_provider_id;
use super::workers::{
    candidates_of, chosen_model, served_model, sole_authorized, worker_provider, worker_runtime,
    WorkerView,
};

verus! {

/// The changes set this value at this path, and set nothing else there.
pub open spec fn sets(edits: Seq<EditView>, path: Seq<Seq<char>>, value: ValueView) -> bool {
    &&& exists|i: int| 0 <= i < edits.len() && (#[trigger] edits[i]).segments == path
    &&& forall|i: int|
        0 <= i < edits.len() && (#[trigger] edits[i]).segments == path ==> edits[i].value == value
}

/// The changes leave this path alone.
pub open spec fn leaves(edits: Seq<EditView>, path: Seq<Seq<char>>) -> bool {
    forall|i: int| 0 <= i < edits.len() ==> (#[trigger] edits[i]).segments != path
}

/// The name of a wire protocol in the configuration.
pub open spec fn wire_name(wire_api: WireApi) -> Seq<char> {
    match wire_api {
        WireApi::Chat => "chat"@,
        WireApi::Responses => "responses"@,
    }
}

/// The path of a field of a provider.
pub open spec fn provider_path(id: Seq<char>, key: Seq<char>) -> Seq<Seq<char>> {
    seq!["model_providers"@, id, key]
}

proof fn lemma_paths(id: Seq<char>)
    ensures
        provider_path(id, "name"@) != provider_path(id, "base_url"@),
        provider_path(id, "name"@) != provider_path(id, "wire_api"@),
        provider_path(id, "name"@) != provider_path(id, "env_key"@),
        provider_path(id, "base_url"@) != provider_path(id, "wire_api"@),
        provider_path(id, "base_url"@) != provider_path(id, "env_key"@),
        provider_path(id, "wire_api"@) != provider_path(id, "env_key"@),
{
    reveal_strlit("name");
    reveal_strlit("base_url");
    reveal_strlit("wire_api");
    reveal_strlit("env_key");
    assert("base_url"@[0] == 'b' && "wire_api"@[0] == 'w' && "name"@[0] == 'n' && "env_key"@[0]
        == 'e');
    assert(provider_path(id, "name"@)[2] == "name"@);
    assert(provider_path(id, "base_url"@)[2] == "base_url"@);
    assert(provider_path(id, "wire_api"@)[2] == "wire_api"@);
    assert(provider_path(id, "env_key"@)[2] == "env_key"@);
}

/// Declaring a provider sets its name, its URL and its wire protocol under its id, and
/// the variable that holds its key where it has one; it sets nothing else.
pub proof fn a_provider_is_declared_as_it_is(
    id: Seq<char>,
    base_url: Seq<char>,
    name: Seq<char>,
    wire_api: WireApi,
    api_key_env: Option<Seq<char>>,
)
    ensures
        ({
            let edits = provider_edits_of(id, base_url, name, wire_api, api_key_env);
            &&& edits.len() == if api_key_env is Some {
                4nat
            } else {
                3nat
            }
            &&& sets(edits, provider_path(id, "name"@), ValueView::Text(name))
            &&& sets(edits, provider_path(id, "base_url"@), ValueView::Text(base_url))
            &&& sets(edits, provider_path(id, "wire_api"@), ValueView::Text(wire_name(wire_api)))
            &&& match api_key_env {
                Some(env) => sets(edits, provider_path(id, "env_key"@), ValueView::Text(env)),
                None => leaves(edits, provider_path(id, "env_key"@)),
            }
        }),
{
    lemma_paths(id);
    let edits = provider_edits_of(id, base_url, name, wire_api, api_key_env);
    assert(edits[0].segments =~= provider_path(id, "name"@));
    assert(edits[1].segments =~= provider_path(id, "base_url"@));
    assert(edits[2].segments =~= provider_path(id, "wire_api"@));
    if api_key_env is Some {
        assert(edits[3].segments =~= provider_path(id, "env_key"@));
    }
}

/// The allowlist is set under `agents`, to what was authorized and what is added, each
/// once and in order, and to nothing else.
pub proof fn the_allowlist_holds_what_it_should(
    allowed: Seq<Seq<char>>,
    existing: Seq<Seq<char>>,
    additions: Seq<Seq<char>>,
    id: Seq<char>,
)
    ensures
        allowlist_edit_of(allowed).segments == seq!["agents"@, "allowed_model_providers"@],
        allowlist_edit_of(allowed).value == ValueView::List(allowed),
        authorizes(allowed, existing, additions) ==> (allowed.contains(id) <==> existing.contains(
            id,
        ) || additions.contains(id)),
        authorizes(allowed, existing, additions) ==> crate::order::ascending(allowed),
{
}

/// A scan declares every endpoint that it found under an id that is not declared yet,
/// as what it turned out to be, in order, and no other.
pub proof fn a_scan_declares_what_is_new(
    providers: Map<Seq<char>, ProviderView>,
    assignments: Seq<(Seq<char>, EndpointView)>,
    id: Seq<char>,
    endpoint: EndpointView,
)
    ensures
        scan_edits(providers, Seq::empty()) == Seq::<EditView>::empty(),
        ({
            let before = scan_edits(providers, assignments);
            let after = scan_edits(providers, assignments.push((id, endpoint)));
            if providers.contains_key(id) {
                after == before
            } else {
                let added = after.skip(before.len() as int);
                &&& after.take(before.len() as int) == before
                &&& added.len() == 3
                &&& sets(
                    added,
                    provider_path(id, "base_url"@),
                    ValueView::Text(endpoint.base_url),
                )
                &&& sets(
                    added,
                    provider_path(id, "wire_api"@),
                    ValueView::Text(wire_name(endpoint.wire_api)),
                )
                &&& sets(
                    added,
                    provider_path(id, "name"@),
                    ValueView::Text(super::probe::label_of(endpoint.runtime)),
                )
            }
        }),
{
    let before = scan_edits(providers, assignments);
    let longer = assignments.push((id, endpoint));
    let after = scan_edits(providers, longer);
    assert(longer.drop_last() =~= assignments);
    assert(longer.last() == (id, endpoint));
    if !providers.contains_key(id) {
        let label = super::probe::label_of(endpoint.runtime);
        let added = provider_edits_of(id, endpoint.base_url, label, endpoint.wire_api, None);
        a_provider_is_declared_as_it_is(id, endpoint.base_url, label, endpoint.wire_api, None);
        assert(after.take(before.len() as int) =~= before);
        assert(after.skip(before.len() as int) =~= added);
    }
}

/// The models that are shown: the first three, and how many more there are.
pub open spec fn models_shown(models: Seq<Seq<char>>) -> Seq<char> {
    if models.len() == 0 {
        "no models loaded"@
    } else if models.len() > 3 {
        models[0] + ", "@ + models[1] + ", "@ + models[2] + ", +"@ + decimal(
            (models.len() - 3) as nat,
        ) + " more"@
    } else {
        join(models, ", "@)
    }
}

/// An endpoint is shown with its id, its runtime, its URL, its wire protocol and its
/// models, and a scan warns of every one that is configured for another protocol than
/// it speaks.
pub proof fn a_scan_shows_what_it_finds(
    providers: Map<Seq<char>, ProviderView>,
    assignments: Seq<(Seq<char>, EndpointView)>,
    id: Seq<char>,
    endpoint: EndpointView,
)
    ensures
        models_text(endpoint.models) == models_shown(endpoint.models),
        endpoint_text(id, endpoint) == id + "  "@ + super::probe::label_of(endpoint.runtime) + "  "@
            + endpoint.base_url + "  wire="@ + wire_name(endpoint.wire_api) + "\n    "@
            + models_text(endpoint.models) + "\n"@,
        found_text(providers, id, endpoint) == endpoint_text(id, endpoint) + (if providers.contains_key(id)
            && providers[id].wire_api != endpoint.wire_api {
            "    warning: `"@ + id + "` is configured for "@ + wire_name(providers[id].wire_api)
                + ", but this server answers "@ + wire_name(endpoint.wire_api)
                + ". Configure it under another id with `codex fleet add`.\n"@
        } else {
            Seq::empty()
        }),
        scan_text(providers, Seq::empty()) == Seq::<char>::empty(),
        scan_text(providers, assignments.push((id, endpoint))) == scan_text(providers, assignments)
            + found_text(providers, id, endpoint),
{
    let models = endpoint.models;
    if models.len() > 3 {
        let three = models.take(3);
        let two = three.drop_last();
        let one = two.drop_last();
        assert(one.len() == 1 && one[0] == models[0]);
        assert(two.last() == models[1] && three.last() == models[2]);
        assert(join(one, ", "@) == models[0]);
        assert(join(two, ", "@) == models[0] + ", "@ + models[1]);
        assert(join(three, ", "@) == models[0] + ", "@ + models[1] + ", "@ + models[2]);
    }
    assert(endpoint_text(id, endpoint) + Seq::<char>::empty() =~= endpoint_text(id, endpoint));
    assert(assignments.push((id, endpoint)).drop_last() =~= assignments);
}

/// Two base URLs that name the same endpoint.
pub open spec fn same_endpoint(one: Seq<char>, other: Seq<char>) -> bool {
    normalized(one) == normalized(other)
}

/// A provider leads to the endpoint at a base URL.
pub open spec fn leads_to(provider: ProviderView, base_url: Seq<char>) -> bool {
    provider.base_url matches Some(url) && same_endpoint(url, base_url)
}

/// An endpoint is written under the id of the last built-in provider that leads to it.
/// Where none does it is named after its runtime; and where a provider of that name is
/// declared and leads elsewhere, or nowhere, its port is put behind the name.
pub proof fn an_endpoint_is_named_after_its_runtime(
    built_ins: Seq<(String, ModelProviderInfo)>,
    providers: Map<Seq<char>, ProviderView>,
    endpoint: EndpointView,
    last: int,
)
    ensures
        ({
            let slug = super::probe::slug_of(endpoint.runtime);
            let id = assigned_id(built_ins, providers, endpoint);
            &&& (0 <= last < built_ins.len() && leads_to(built_ins[last].1@, endpoint.base_url)
                && forall|i: int|
                last < i < built_ins.len() ==> !leads_to(
                    (#[trigger] built_ins[i]).1@,
                    endpoint.base_url,
                )) ==> id == built_ins[last].0@
            &&& (forall|i: int|
                0 <= i < built_ins.len() ==> !leads_to(
                    (#[trigger] built_ins[i]).1@,
                    endpoint.base_url,
                )) ==> id == (if providers.contains_key(slug) && !leads_to(
                providers[slug],
                endpoint.base_url,
            ) {
                slug + "-"@ + port_in(endpoint.base_url)
            } else {
                slug
            })
        }),
{
    lemma_built_in(built_ins, endpoint.base_url, last);
}

proof fn lemma_built_in(
    built_ins: Seq<(String, ModelProviderInfo)>,
    base_url: Seq<char>,
    last: int,
)
    ensures
        (0 <= last < built_ins.len() && leads_to(built_ins[last].1@, base_url) && forall|i: int|
            last < i < built_ins.len() ==> !leads_to((#[trigger] built_ins[i]).1@, base_url))
            ==> built_in_at(built_ins, base_url) == Some(built_ins[last].0@),
        (forall|i: int|
            0 <= i < built_ins.len() ==> !leads_to((#[trigger] built_ins[i]).1@, base_url))
            ==> built_in_at(built_ins, base_url) is None,
    decreases built_ins.len(),
{
    if built_ins.len() > 0 {
        let rest = built_ins.drop_last();
        let end = built_ins.len() - 1;
        lemma_built_in(rest, base_url, last);
        assert(built_ins[end] == built_ins.last());
        if 0 <= last < end && forall|i: int|
            last < i < built_ins.len() ==> !leads_to((#[trigger] built_ins[i]).1@, base_url) {
            assert(!leads_to(built_ins[end].1@, base_url));
            assert forall|i: int| last < i < rest.len() implies !leads_to(
                (#[trigger] rest[i]).1@,
                base_url,
            ) by {
                assert(rest[i] == built_ins[i]);
            }
        }
        if forall|i: int|
            0 <= i < built_ins.len() ==> !leads_to((#[trigger] built_ins[i]).1@, base_url) {
            assert(!leads_to(built_ins[end].1@, base_url));
            assert forall|i: int| 0 <= i < rest.len() implies !leads_to(
                (#[trigger] rest[i]).1@,
                base_url,
            ) by {
                assert(rest[i] == built_ins[i]);
            }
        }
    }
}

/// The port of a URL is what stands between its last colon and the next slash, or its
/// end.
pub proof fn the_port_stands_behind_the_last_colon(
    front: Seq<char>,
    port: Seq<char>,
    path: Seq<char>,
)
    requires
        forall|i: int| 0 <= i < port.len() ==> #[trigger] port[i] != ':' && port[i] != '/',
        forall|i: int| 0 <= i < path.len() ==> #[trigger] path[i] != ':',
        path.len() == 0 || path[0] == '/',
    ensures
        port_in(front + seq![':'] + port + path) == port,
{
    let url = front + seq![':'] + port + path;
    let tail = crate::text::after_last(url, ':');
    nothing_follows_the_last(url, ':');
    let at = url.len() - tail.len();
    assert(url[front.len() as int] == ':');
    if at < front.len() + 1 {
        assert(url[front.len() as int] != ':');
    }
    if at > front.len() + 1 {
        let k = at - 1;
        assert(url[k] == ':');
        if k < front.len() + 1 + port.len() {
            assert(url[k] == port[k - front.len() - 1]);
        } else {
            assert(url[k] == path[k - front.len() - 1 - port.len()]);
        }
    }
    assert(tail =~= port + path);
    nothing_precedes_the_first(tail, '/');
    let head = crate::text::before_first(tail, '/');
    if head.len() < port.len() {
        assert(tail[head.len() as int] == port[head.len() as int]);
    }
    if head.len() > port.len() {
        assert(tail[port.len() as int] == path[0]);
    }
    assert(head =~= port);
}

/// An id may be written where it is made of letters, digits, hyphens and underscores,
/// and is not that of a built-in provider, but for the two whose endpoint may be
/// overridden.
pub proof fn an_id_is_refused_for_a_reason(
    built_ins: Seq<(String, ModelProviderInfo)>,
    id: Seq<char>,
)
    ensures
        valid_provider_id(id) <==> id.len() > 0 && forall|i: int|
            0 <= i < id.len() ==> ('a' <= #[trigger] id[i] <= 'z' || 'A' <= id[i] <= 'Z' || '0'
                <= id[i] <= '9' || id[i] == '-' || id[i] == '_'),
        id_refused(built_ins, id) == (if !valid_provider_id(id) {
            Some("provider id must be non-empty and use only letters, digits, `-` and `_`"@)
        } else if providers_view(built_ins).contains_key(id) && id != "nebius"@ && id
            != "nebius-chat"@ {
            Some(
                "`"@ + id + "` is a built-in provider and cannot be redefined; choose another id"@,
            )
        } else {
            None
        }),
{
    if valid_provider_id(id) {
        assert forall|i: int| 0 <= i < id.len() implies ('a' <= #[trigger] id[i] <= 'z' || 'A'
            <= id[i] <= 'Z' || '0' <= id[i] <= '9' || id[i] == '-' || id[i] == '_') by {
            assert(super::id_char(id[i]));
        }
    }
    if id.len() > 0 && forall|i: int|
        0 <= i < id.len() ==> ('a' <= #[trigger] id[i] <= 'z' || 'A' <= id[i] <= 'Z' || '0'
            <= id[i] <= '9' || id[i] == '-' || id[i] == '_') {
        assert forall|i: int| 0 <= i < id.len() implies super::id_char(#[trigger] id[i]) by {}
    }
}

/// A wire protocol that is named is configured; where none is, it is the one that the
/// endpoint speaks, and it is not known where nothing answers.
pub proof fn a_named_protocol_is_configured(wire: WireChoice, endpoint: Option<EndpointView>)
    ensures
        chosen_wire(WireChoice::Chat, endpoint) == Some(WireApi::Chat),
        chosen_wire(WireChoice::Responses, endpoint) == Some(WireApi::Responses),
        match endpoint {
            Some(endpoint) => chosen_wire(WireChoice::Auto, Some(endpoint)) == Some(
                endpoint.wire_api,
            ),
            None => chosen_wire(WireChoice::Auto, None) is None,
        },
        wire_text(WireApi::Chat) == "chat"@,
        wire_text(WireApi::Responses) == "responses"@,
{
}

/// Providers are those that are listed, and of two under one id the later counts.
pub proof fn the_later_provider_counts(
    entries: Seq<(String, ModelProviderInfo)>,
    entry: (String, ModelProviderInfo),
    id: Seq<char>,
)
    ensures
        providers_view(Seq::empty()) == Map::<Seq<char>, ProviderView>::empty(),
        ({
            let before = providers_view(entries);
            let after = providers_view(entries.push(entry));
            if id == entry.0@ {
                after.contains_key(id) && after[id] == entry.1@
            } else {
                &&& after.contains_key(id) == before.contains_key(id)
                &&& before.contains_key(id) ==> after[id] == before[id]
            }
        }),
{
    assert(entries.push(entry).drop_last() =~= entries);
}

/// A line of the table says of a provider what is configured: its wire protocol,
/// whether it is authorized, and where it is; and it is to be probed where that is on
/// this host.
pub proof fn a_row_says_what_is_configured(
    providers: Map<Seq<char>, ProviderView>,
    allowed: Seq<Seq<char>>,
    id: Seq<char>,
)
    ensures
        ({
            let row = row_of(providers, allowed, id);
            &&& row.id == id
            &&& row.wire_api == providers[id].wire_api
            &&& row.routable == allowed.contains(id)
            &&& row.base_url == match providers[id].base_url {
                Some(base_url) => base_url,
                None => "(built-in endpoint)"@,
            }
            &&& row.local == loopback(row.base_url)
        }),
{
}

/// The table is written row by row: the id, the protocol, whether agents may be routed
/// there, the endpoint and, where it was probed, whether it answers and how many models
/// it holds.
pub proof fn the_table_is_written_row_by_row(
    rows: Seq<RowView>,
    row: RowView,
    width: usize,
    answers: Seq<Option<usize>>,
    answer: Option<usize>,
    count: usize,
    allowed: Seq<Seq<char>>,
)
    requires
        rows.len() < answers.len(),
    ensures
        rows_text(Seq::empty(), width, answers) == Seq::<char>::empty(),
        rows_text(rows.push(row), width, answers) == rows_text(rows, width, answers) + row_text(
            row,
            width,
            answers[rows.len() as int],
        ),
        row_text(row, width, answer) == crate::text::padded(row.id, width as nat) + " "@
            + crate::text::padded(wire_name(row.wire_api), 10) + " "@ + crate::text::padded(
            if row.routable {
                "yes"@
            } else {
                "no"@
            },
            9,
        ) + " "@ + row.base_url + reachability(row.local, answer) + "\n"@,
        reachability(false, answer) == Seq::<char>::empty(),
        reachability(true, None) == "  (not answering)"@,
        reachability(true, Some(1)) == "  (1 model)"@,
        count != 1 ==> reachability(true, Some(count)) == "  ("@ + decimal(count as nat)
            + " models)"@,
        allowed.len() > 0 ==> footer_text(allowed) == Seq::<char>::empty(),
        allowed.len() == 0 ==> footer_text(allowed)
            == "\nNo provider is authorized for agent routing yet, so every agent runs on the session's own endpoint.\n"@,
        heading_text(width) == crate::text::padded("PROVIDER"@, width as nat) + " "@
            + crate::text::padded("WIRE"@, 10) + " "@ + crate::text::padded("ROUTABLE"@, 9)
            + " ENDPOINT\n"@,
{
    assert(rows.push(row).drop_last() =~= rows);
}

/// The model is of the family that is preferred: its name holds `nemotron`, whatever the
/// case of its letters.
pub open spec fn of_the_family(model: Seq<char>) -> bool {
    exists|i: int| #[trigger] stands_at(lower(model), "nemotron"@, i)
}

/// A single model is chosen, whatever it is. Of several the first of the preferred
/// family is chosen, and none where there is none.
pub proof fn the_first_of_the_family_is_chosen(models: Seq<Seq<char>>, first: int)
    ensures
        models.len() == 1 ==> chosen_model(models) == Some(models[0]),
        models.len() != 1 && 0 <= first < models.len() && of_the_family(models[first]) && (forall|
            i: int,
        |
            0 <= i < first ==> !of_the_family(#[trigger] models[i])) ==> chosen_model(models)
            == Some(models[first]),
        models.len() != 1 && (forall|i: int|
            0 <= i < models.len() ==> !of_the_family(#[trigger] models[i])) ==> chosen_model(models)
            is None,
{
    lemma_first(models, first);
}

proof fn lemma_first(models: Seq<Seq<char>>, first: int)
    ensures
        0 <= first < models.len() && of_the_family(models[first]) && (forall|i: int|
            0 <= i < first ==> !of_the_family(#[trigger] models[i]))
            ==> super::workers::first_preferred(models) == Some(models[first]),
        (forall|i: int| 0 <= i < models.len() ==> !of_the_family(#[trigger] models[i]))
            ==> super::workers::first_preferred(models) is None,
    decreases models.len(),
{
    if models.len() > 0 {
        a_piece_is_found_where_it_stands(lower(models[0]), "nemotron"@);
        assert(of_the_family(models[0]) == super::workers::preferred(models[0]));
        let rest = models.drop_first();
        lemma_first(rest, first - 1);
        assert forall|i: int| 0 <= i < rest.len() implies #[trigger] rest[i] == models[i + 1] by {}
        if forall|i: int| 0 <= i < first ==> !of_the_family(#[trigger] models[i]) {
            assert forall|i: int| 0 <= i < first - 1 && i < rest.len() implies !of_the_family(
                #[trigger] rest[i],
            ) by {
                assert(!of_the_family(models[i + 1]));
            }
        }
        if forall|i: int| 0 <= i < models.len() ==> !of_the_family(#[trigger] models[i]) {
            assert(!of_the_family(models[0]));
            assert forall|i: int| 0 <= i < rest.len() implies !of_the_family(
                #[trigger] rest[i],
            ) by {
                assert(!of_the_family(models[i + 1]));
            }
        }
    }
}

/// Workers run on the provider that is named, where it is authorized, and on the one
/// that is authorized where none is named; else it is said what is wrong.
pub proof fn workers_run_on_what_is_named(
    allowed: Seq<Seq<char>>,
    local_provider: Option<Seq<char>>,
)
    ensures
        match local_provider {
            Some(id) => worker_provider(allowed, local_provider) == (if allowed.contains(id) {
                Ok(id)
            } else {
                Err(
                    "`"@ + id + "` is not authorized for agent routing; run `codex fleet add "@ + id
                        + " …` or add it to agents.allowed_model_providers"@,
                )
            }),
            None => worker_provider(allowed, local_provider) == sole_authorized(allowed),
        },
        allowed.len() == 1 ==> sole_authorized(allowed) == Ok::<Seq<char>, Seq<char>>(allowed[0]),
        allowed.len() == 0 ==> sole_authorized(allowed) == Err::<Seq<char>, Seq<char>>(
            "no endpoint is authorized for agent routing yet. Run `codex fleet scan --write` first."@,
        ),
        allowed.len() > 1 ==> sole_authorized(allowed) == Err::<Seq<char>, Seq<char>>(
            "several endpoints are authorized; choose one with --local-provider"@,
        ),
{
}

/// Workers run a model that is chosen among those their endpoint serves; else it is
/// said that the endpoint does not answer, or how many models it serves.
pub proof fn workers_run_what_is_served(
    provider_id: Seq<char>,
    base_url: Seq<char>,
    answer: Option<EndpointView>,
)
    ensures
        served_model(provider_id, base_url, answer) == match answer {
            None => Err(
                base_url
                    + " did not answer, so its models are unknown. Start it, or name the model with --local-model."@,
            ),
            Some(endpoint) => match chosen_model(endpoint.models) {
                Some(model) => Ok(model),
                None => Err(
                    "`"@ + provider_id + "` serves "@ + decimal(endpoint.models.len())
                        + " models; pick one with --local-model"@,
                ),
            },
        },
{
}

/// Installing a team describes both roles, points each at its file, and sets the depth;
/// it sets nothing else.
pub proof fn a_team_is_declared_as_it_is(
    depth: i32,
    lead_path: Seq<char>,
    worker_path: Seq<char>,
)
    ensures
        ({
            let edits = team_edits_of(depth, lead_path, worker_path);
            &&& edits.len() == 5
            &&& sets(
                edits,
                seq!["agents"@, "lead"@, "description"@],
                ValueView::Text(LEAD_DESCRIPTION@),
            )
            &&& sets(
                edits,
                seq!["agents"@, "lead"@, "config_file"@],
                ValueView::Text(slashed(lead_path)),
            )
            &&& sets(
                edits,
                seq!["agents"@, "worker"@, "description"@],
                ValueView::Text(WORKER_DESCRIPTION@),
            )
            &&& sets(
                edits,
                seq!["agents"@, "worker"@, "config_file"@],
                ValueView::Text(slashed(worker_path)),
            )
            &&& sets(
                edits,
                seq!["agents"@, "max_depth"@],
                ValueView::Integer(depth as i64),
            )
        }),
{
    reveal_strlit("lead");
    reveal_strlit("worker");
    reveal_strlit("description");
    reveal_strlit("config_file");
    assert("lead"@.len() == 4 && "worker"@.len() == 6);
    assert("description"@[0] == 'd' && "config_file"@[0] == 'c');
    let edits = team_edits_of(depth, lead_path, worker_path);
    let one = seq!["agents"@, "lead"@, "description"@];
    let two = seq!["agents"@, "lead"@, "config_file"@];
    let three = seq!["agents"@, "worker"@, "description"@];
    let four = seq!["agents"@, "worker"@, "config_file"@];
    let five = seq!["agents"@, "max_depth"@];
    assert(edits[0].segments =~= one);
    assert(edits[1].segments =~= two);
    assert(edits[2].segments =~= three);
    assert(edits[3].segments =~= four);
    assert(edits[4].segments =~= five);
    assert(one[1] != three[1] && one[1] != four[1] && two[1] != three[1] && two[1] != four[1]);
    assert(one[2] != two[2] && three[2] != four[2]);
    assert(five.len() == 2 && one.len() == 3 && two.len() == 3 && three.len() == 3 && four.len()
        == 3);
}

/// A path is written with slashes for backslashes, and is otherwise left alone; a file
/// is written as it is seen from the home directory, where it is under it.
pub proof fn a_path_is_written_with_slashes(
    path: Seq<char>,
    i: int,
    relative: Option<Seq<char>>,
)
    ensures
        slashed(path).len() == path.len(),
        0 <= i < path.len() ==> slashed(path)[i] == (if path[i] == '\\' {
            '/'
        } else {
            path[i]
        }),
        preferred_text(relative, path) == match relative {
            Some(relative) => relative,
            None => path,
        },
{
}

/// A role file is in the way where it is there already and may not be replaced.
pub proof fn only_force_replaces_a_role_file(path: Seq<char>, exists: bool, force: bool)
    ensures
        in_the_way(path, exists, force) is Some <==> exists && !force,
        in_the_way(path, exists, force) matches Some(message) ==> message == path
            + " already exists; edit it directly, or pass --force to replace it"@,
{
}

/// A team is described before it is installed: who leads, what the workers run and
/// where, how deep it goes and, where nothing is to be written yet, what would be.
pub proof fn a_team_is_described(
    write: bool,
    provider_id: Seq<char>,
    model: Seq<char>,
    depth: i32,
    lead_path: Seq<char>,
    worker_path: Seq<char>,
)
    ensures
        team_report_text(write, provider_id, model, depth, lead_path, worker_path)
            == "lead    your model, inherited from the session\nworker  "@ + model + " on `"@
            + provider_id + "`\ndepth   "@ + signed_decimal(depth as int)
            + " — leads may run teams of their own\n\n"@ + (if write {
            Seq::empty()
        } else {
            "Would write:\n  "@ + lead_path + "\n  "@ + worker_path
                + "\n  agents.lead, agents.worker, agents.max_depth in config.toml\n\nRe-run with --write to install them.\n"@
        }),
{
    let text = team_report_text(write, provider_id, model, depth, lead_path, worker_path);
    assert(text + Seq::<char>::empty() =~= text);
}

/// The first of what was written is what the next steps speak of.
pub proof fn the_next_steps_name_the_first(ids: Seq<Seq<char>>)
    ensures
        ids.len() == 0 ==> next_steps_text(ids) == Seq::<char>::empty(),
        ids.len() > 0 ==> next_steps_text(ids)
            == "\nGive a role its own endpoint by adding `model_provider = \""@ + ids[0]
            + "\"` to its file under ~/.codex/agents/, then spawn agents with that role.\n"@,
{
}

/// Every endpoint that is found is given an id, in order.
pub proof fn every_endpoint_is_given_an_id(
    built_ins: Seq<(String, ModelProviderInfo)>,
    providers: Map<Seq<char>, ProviderView>,
    found: Seq<EndpointView>,
    i: int,
)
    ensures
        assignments_of(built_ins, providers, found).len() == found.len(),
        0 <= i < found.len() ==> assignments_of(built_ins, providers, found)[i].1 == found[i]
            && assignments_of(built_ins, providers, found)[i].0 == assigned_id(
            built_ins,
            providers,
            found[i],
        ),
        assigned_ids(assignments_of(built_ins, providers, found)).len() == found.len(),
        0 <= i < found.len() ==> assigned_ids(assignments_of(built_ins, providers, found))[i]
            == assigned_id(built_ins, providers, found[i]),
{
}

/// What is written is what declares the providers, and then the allowlist: it holds what
/// was authorized before, the providers that are written, and nothing else.
pub proof fn providers_are_written_and_authorized(
    edits: Seq<EditView>,
    declared: Seq<EditView>,
    existing: Seq<Seq<char>>,
    ids: Seq<Seq<char>>,
)
    requires
        edits_then_allowlist(edits, declared, existing, ids),
    ensures
        edits.len() > 0,
        edits.drop_last() == declared,
        edits.last().segments == seq!["agents"@, "allowed_model_providers"@],
        edits.last().value matches ValueView::List(allowed) && crate::order::ascending(allowed)
            && forall|id: Seq<char>| #[trigger]
            allowed.contains(id) <==> existing.contains(id) || ids.contains(id),
{
    let allowed = choose|allowed: Seq<Seq<char>>|
        edits.last() == #[trigger] allowlist_edit_of(allowed) && authorizes(
            allowed,
            existing,
            ids,
        );
    assert(edits.last() == allowlist_edit_of(allowed));
    assert forall|id: Seq<char>| #[trigger] allowed.contains(id) <==> existing.contains(id)
        || ids.contains(id) by {
        the_allowlist_holds_what_it_should(allowed, existing, ids, id);
    }
}

/// Adding an endpoint declares it under its id, at its URL without the slashes at its
/// end, with the protocol that is chosen and the variable that is named, after what it
/// turned out to be, and authorizes it beside what was authorized before. It fails where
/// no protocol is known.
pub proof fn an_endpoint_is_added_as_it_is(
    plan: Result<Plan, String>,
    allowed: Seq<Seq<char>>,
    args: AddArgs,
    answer: Option<EndpointView>,
)
    requires
        planned_addition(plan, allowed, args, answer),
    ensures
        plan is Err <==> chosen_wire(args.wire, answer) is None,
        plan matches Err(message) ==> message@ == without_trailing_slashes(args.url@)
            + " did not answer, so its wire protocol is unknown. Start the server, or pass --wire chat|responses to configure it anyway."@,
        plan matches Ok(plan) ==> {
            let id = args.id@;
            let name = super::probe::label_of(
                match answer {
                    Some(endpoint) => endpoint.runtime,
                    None => Runtime::Unknown,
                },
            );
            &&& plan.edits matches Some(edits)
            &&& {
                let edits = edits_view(edits@);
                let declared = edits.drop_last();
                &&& edits.len() > 0
                &&& sets(
                    declared,
                    provider_path(id, "base_url"@),
                    ValueView::Text(without_trailing_slashes(args.url@)),
                )
                &&& sets(
                    declared,
                    provider_path(id, "wire_api"@),
                    ValueView::Text(wire_name(chosen_wire(args.wire, answer)->0)),
                )
                &&& sets(declared, provider_path(id, "name"@), ValueView::Text(name))
                &&& match args.api_key_env {
                    Some(env) => sets(
                        declared,
                        provider_path(id, "env_key"@),
                        ValueView::Text(env@),
                    ),
                    None => leaves(declared, provider_path(id, "env_key"@)),
                }
                &&& edits.last().segments == seq!["agents"@, "allowed_model_providers"@]
                &&& edits.last().value matches ValueView::List(list) && forall|other: Seq<char>|
                    #[trigger] list.contains(other) <==> allowed.contains(other) || other == id
            }
            &&& plan.report@ == match answer {
                Some(endpoint) => endpoint_text(id, endpoint),
                None => id + "  "@ + without_trailing_slashes(args.url@) + "  (not answering)\n"@,
            }
            &&& plan.closing@ == "Added `"@ + id + "` and authorized it for agent routing.\n"@
                + next_steps_text(seq![id])
        },
{
    if let Ok(plan) = plan {
        let id = args.id@;
        let base_url = without_trailing_slashes(args.url@);
        let wire_api = chosen_wire(args.wire, answer)->0;
        let name = super::commands::added_label(answer);
        let env = crate::text::text_option(args.api_key_env);
        let edits = edits_view(plan.edits->0@);
        let declared = provider_edits_of(id, base_url, name, wire_api, env);
        a_provider_is_declared_as_it_is(id, base_url, name, wire_api, env);
        providers_are_written_and_authorized(edits, declared, allowed, seq![id]);
        let list = edits.last().value->List_0;
        assert forall|other: Seq<char>| #[trigger] list.contains(other) <==> allowed.contains(other)
            || other == id by {
            assert(seq![id][0] == id);
            assert(seq![id].contains(other) <==> other == id);
        }
    }
}

/// Where it is left to the answers, every authorized provider that is declared and has a
/// URL is asked, in order, and no other.
pub proof fn candidates_are_asked_in_order(
    allowed: Seq<Seq<char>>,
    providers: Map<Seq<char>, ProviderView>,
    id: Seq<char>,
)
    ensures
        candidates_of(Seq::empty(), providers).len() == 0,
        candidates_of(allowed.push(id), providers) == (if providers.contains_key(id)
            && providers[id].base_url is Some {
            candidates_of(allowed, providers).push((id, providers[id].base_url->0))
        } else {
            candidates_of(allowed, providers)
        }),
{
    assert(allowed.push(id).drop_last() =~= allowed);
}

/// What the workers run on, where it can be told without asking: a provider that is
/// declared and has a URL, and the model that is named or else whatever is served there.
/// A provider that is not declared, or has no URL, is an error that says so.
pub proof fn workers_run_on_what_is_declared(
    allowed: Seq<Seq<char>>,
    providers: Map<Seq<char>, ProviderView>,
    local_provider: Option<Seq<char>>,
    local_model: Option<Seq<char>>,
)
    ensures
        ({
            let runtime = worker_runtime(allowed, providers, local_provider, local_model);
            if local_provider is None && allowed.len() > 1 {
                runtime == Ok::<WorkerView, Seq<char>>(
                    WorkerView::Answering { candidates: candidates_of(allowed, providers) },
                )
            } else {
                match worker_provider(allowed, local_provider) {
                    Err(message) => runtime == Err::<WorkerView, Seq<char>>(message),
                    Ok(id) => if !providers.contains_key(id) {
                        runtime == Err::<WorkerView, Seq<char>>(
                            "`"@ + id
                                + "` is authorized for routing but not declared under model_providers"@,
                        )
                    } else {
                        match (providers[id].base_url, local_model) {
                            (None, _) => runtime == Err::<WorkerView, Seq<char>>(
                                "`"@ + id + "` has no base_url, so its models cannot be listed"@,
                            ),
                            (Some(_), Some(model)) => runtime == Ok::<WorkerView, Seq<char>>(
                                WorkerView::Named { provider_id: id, model },
                            ),
                            (Some(base_url), None) => runtime == Ok::<WorkerView, Seq<char>>(
                                WorkerView::Served { provider_id: id, base_url },
                            ),
                        }
                    },
                }
            }
        }),
{
}

/// Every declared provider has one row in the table, in the order of the ids, and there
/// is no other row.
pub proof fn every_provider_has_one_row(
    rows: Seq<RowView>,
    providers: Map<Seq<char>, ProviderView>,
    allowed: Seq<Seq<char>>,
    id: Seq<char>,
    i: int,
    j: int,
)
    requires
        lists(rows, providers, allowed),
    ensures
        providers.contains_key(id) <==> exists|k: int|
            0 <= k < rows.len() && (#[trigger] rows[k]).id == id,
        0 <= i < rows.len() ==> rows[i] == row_of(providers, allowed, rows[i].id),
        0 <= i < j < rows.len() ==> crate::order::before(rows[i].id, rows[j].id),
{
    let ids = rows.map_values(|row: RowView| row.id);
    assert(ids.len() == rows.len());
    assert(ids.contains(id) <==> providers.contains_key(id));
    if ids.contains(id) {
        let k = choose|k: int| 0 <= k < ids.len() && ids[k] == id;
        assert(rows[k].id == id);
    }
    if exists|k: int| 0 <= k < rows.len() && (#[trigger] rows[k]).id == id {
        let k = choose|k: int| 0 <= k < rows.len() && (#[trigger] rows[k]).id == id;
        assert(ids[k] == id);
    }
    if 0 <= i < j < rows.len() {
        assert(ids[i] == rows[i].id && ids[j] == rows[j].id);
        assert(crate::order::before(ids[i], ids[j]));
    }
}

/// The first column is as wide as it has to be: as the widest id, or as its heading.
pub proof fn the_first_column_is_as_wide_as_it_has_to_be(rows: Seq<RowView>)
    ensures
        id_width(rows) >= crate::text::byte_len("PROVIDER"@),
        forall|i: int|
            0 <= i < rows.len() ==> crate::text::byte_len((#[trigger] rows[i]).id) <= id_width(rows),
        id_width(rows) == crate::text::byte_len("PROVIDER"@) || exists|i: int|
            0 <= i < rows.len() && crate::text::byte_len((#[trigger] rows[i]).id) == id_width(rows),
    decreases rows.len(),
{
    if rows.len() > 0 {
        let rest = rows.drop_last();
        the_first_column_is_as_wide_as_it_has_to_be(rest);
        assert(rows[rows.len() - 1] == rows.last());
        assert forall|i: int| 0 <= i < rows.len() implies crate::text::byte_len(
            (#[trigger] rows[i]).id,
        ) <= id_width(rows) by {
            if i < rest.len() {
                assert(rest[i] == rows[i]);
            }
        }
        if id_width(rows) == id_width(rest) && id_width(rest) != crate::text::byte_len(
            "PROVIDER"@,
        ) {
            let i = choose|i: int|
                0 <= i < rest.len() && crate::text::byte_len((#[trigger] rest[i]).id) == id_width(
                    rest,
                );
            assert(rows[i] == rest[i]);
        }
    }
}

/// What a role file says is its name, the model and the provider where they are given,
/// and the instructions, in this order and nothing else; its contents are the literals
/// of these behind their keys.
pub proof fn a_role_file_says_what_it_is_given(
    name: Seq<char>,
    instructions: Seq<char>,
    model: Option<Seq<char>>,
    model_provider: Option<Seq<char>>,
)
    ensures
        role_entries(name, instructions, model, model_provider) == match (model, model_provider) {
            (None, None) => seq![("name"@, name), ("developer_instructions"@, instructions)],
            (Some(model), None) => seq![
                ("name"@, name),
                ("model"@, model),
                ("developer_instructions"@, instructions),
            ],
            (None, Some(provider)) => seq![
                ("name"@, name),
                ("model_provider"@, provider),
                ("developer_instructions"@, instructions),
            ],
            (Some(model), Some(provider)) => seq![
                ("name"@, name),
                ("model"@, model),
                ("model_provider"@, provider),
                ("developer_instructions"@, instructions),
            ],
        },
{
    let entries = role_entries(name, instructions, model, model_provider);
    match (model, model_provider) {
        (None, None) => {
            assert(entries =~= seq![("name"@, name), ("developer_instructions"@, instructions)]);
        },
        (Some(model), None) => {
            assert(entries =~= seq![
                ("name"@, name),
                ("model"@, model),
                ("developer_instructions"@, instructions),
            ]);
        },
        (None, Some(provider)) => {
            assert(entries =~= seq![
                ("name"@, name),
                ("model_provider"@, provider),
                ("developer_instructions"@, instructions),
            ]);
        },
        (Some(model), Some(provider)) => {
            assert(entries =~= seq![
                ("name"@, name),
                ("model"@, model),
                ("model_provider"@, provider),
                ("developer_instructions"@, instructions),
            ]);
        },
    }
}

/// A role file is written as it is seen from the home directory, where it is under it,
/// and as a whole where it is not.
pub proof fn a_role_file_is_seen_from_home(
    roles_dir: Seq<char>,
    codex_home: Seq<char>,
    file_name: Seq<char>,
    path: Seq<char>,
)
    requires
        written_path(roles_dir, codex_home, file_name, path),
    ensures
        exists|file: Seq<char>, relative: Option<Seq<char>>|
            #![trigger joins_to(roles_dir, file_name, file), strips_to(file, codex_home, relative)]
            {
                &&& joins_to(roles_dir, file_name, file)
                &&& strips_to(file, codex_home, relative)
                &&& match relative {
                    Some(relative) => path == relative,
                    None => path == file,
                }
            },
{
    let (file, relative) = choose|file: Seq<char>, relative: Option<Seq<char>>|
        #![trigger joins_to(roles_dir, file_name, file), strips_to(file, codex_home, relative)]
        joins_to(roles_dir, file_name, file) && strips_to(file, codex_home, relative) && path
            == preferred_text(relative, file);
    assert(joins_to(roles_dir, file_name, file) && strips_to(file, codex_home, relative));
}

/// A depth at which leads have no teams of their own is refused, and no other.
pub proof fn only_a_flat_depth_is_refused(depth: int)
    ensures
        depth_refused(depth) is Some <==> depth < 2,
        depth_refused(depth) matches Some(message) ==> message
            == "--depth must be at least 2 for leads to run teams of their own"@,
{
}

/// A team is installed under these names: its roles, the directory of their files, and
/// the feature it exists under.
pub proof fn a_team_is_known_by_these_names()
    ensures
        LEAD_ROLE@ == "lead"@,
        WORKER_ROLE@ == "worker"@,
        ROLES_DIR@ == "agents"@,
        TEAM_FEATURE@ == "multi_agent_v2"@,
{
}

} // verus!
