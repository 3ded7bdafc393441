//! What a probe finds, read off the replies it gets.

use vstd::prelude::*;
use crate::json::{field, parsed, JsonView};
use crate::text::{decimal, without_trailing_slashes};
use crate::text_laws::{only_slashes_at_the_end_are_dropped, only_the_suffix_is_dropped};
use super::commands::{scan_url, scanned_ports};
use super::config::WireApi;
use super::probe::{
    a_probe_tells_models_runtime_and_wire, advanced, first_success, fresh_probe, ids_of,
    known_ports, label_of, models_listed, port_of, probed, request_of, requests_left, root_of,
    slug_of, AdvanceView, Method, PhaseView, ProbeView, ReplyView, Runtime,
};

verus! {

/// The string under `id` of an entry, where there is one.
pub open spec fn id_in(entry: JsonView) -> Option<Seq<char>> {
    match field(entry, "id"@) {
        Some(JsonView::Text(id)) => Some(id),
        _ => None,
    }
}

/// The strings under `id` of entries, in order and as often as they are listed.
pub open spec fn ids_in(entries: Seq<JsonView>) -> Seq<Seq<char>>
    decreases entries.len(),
{
    if entries.len() == 0 {
        Seq::empty()
    } else {
        match id_in(entries[0]) {
            Some(id) => seq![id] + ids_in(entries.drop_first()),
            None => ids_in(entries.drop_first()),
        }
    }
}

proof fn lemma_ids_push(entries: Seq<JsonView>, entry: JsonView)
    ensures
        ids_in(entries.push(entry)) == match id_in(entry) {
            Some(id) => ids_in(entries).push(id),
            None => ids_in(entries),
        },
    decreases entries.len(),
{
    let longer = entries.push(entry);
    if entries.len() == 0 {
        assert(longer.drop_first() =~= Seq::<JsonView>::empty());
        assert(ids_in(longer.drop_first()) =~= Seq::<Seq<char>>::empty());
        assert(longer[0] == entry);
        assert(ids_in(longer) =~= match id_in(entry) {
            Some(id) => ids_in(entries).push(id),
            None => ids_in(entries),
        });
    } else {
        assert(longer[0] == entries[0]);
        assert(longer.drop_first() =~= entries.drop_first().push(entry));
        lemma_ids_push(entries.drop_first(), entry);
        assert(ids_in(longer) =~= match id_in(entry) {
            Some(id) => ids_in(entries).push(id),
            None => ids_in(entries),
        });
    }
}

/// Every model that is listed is found, in order and as often as it is listed: one more
/// entry with an id is one more model behind the others, and an entry without one is
/// none.
pub proof fn every_listed_model_is_found(entries: Seq<JsonView>, entry: JsonView)
    ensures
        ids_of(Seq::empty()) == Seq::<Seq<char>>::empty(),
        ids_of(entries) == ids_in(entries),
        ids_of(entries.push(entry)) == match id_in(entry) {
            Some(id) => ids_of(entries).push(id),
            None => ids_of(entries),
        },
    decreases entries.len(),
{
    assert(entries.push(entry).drop_last() =~= entries);
    if entries.len() > 0 {
        let rest = entries.drop_last();
        every_listed_model_is_found(rest, entries.last());
        lemma_ids_push(rest, entries.last());
        assert(rest.push(entries.last()) =~= entries);
    }
}

/// The models that a reply lists: those under `data[].id` of the document that its body
/// is, where the reply is a success and its body is a document.
pub open spec fn models_in_reply(reply: ReplyView) -> Option<Seq<Seq<char>>> {
    match reply {
        ReplyView::Answer { status, body: Some(body) } => if status / 100 == 2 {
            match parsed(body) {
                Ok(document) => match field(document, "data"@) {
                    Some(JsonView::Array(entries)) => Some(ids_in(entries)),
                    _ => Some(Seq::empty()),
                },
                Err(_) => None,
            }
        } else {
            None
        },
        _ => None,
    }
}

/// A list of models is read whole, from a reply that is a success and from no other.
pub proof fn a_list_of_models_is_read_whole(reply: ReplyView)
    ensures
        models_listed(reply) == models_in_reply(reply),
{
    if let ReplyView::Answer { status, body: Some(body) } = reply {
        if let Ok(document) = parsed(body) {
            if let Some(JsonView::Array(entries)) = field(document, "data"@) {
                every_listed_model_is_found(entries, JsonView::Null);
            }
        }
    }
}

/// A reply is a success.
pub open spec fn is_success(reply: ReplyView) -> bool {
    reply matches ReplyView::Answer { status, .. } && status / 100 == 2
}

/// The runtime that replies of the four private endpoints tell: the first that is a
/// success decides.
pub open spec fn runtime_told(replies: Seq<ReplyView>) -> Runtime {
    if is_success(replies[0]) {
        Runtime::Ollama
    } else if is_success(replies[1]) {
        Runtime::LmStudio
    } else if is_success(replies[2]) {
        Runtime::Vllm
    } else if is_success(replies[3]) {
        Runtime::LlamaCpp
    } else {
        Runtime::Unknown
    }
}

/// The wire protocol that a reply of the Responses route tells: Chat Completions where
/// there is no such route or nothing answers, and Responses where anything else is
/// said.
pub open spec fn wire_told(reply: ReplyView) -> WireApi {
    match reply {
        ReplyView::Silence => WireApi::Chat,
        ReplyView::Answer { status, .. } => if status == 404 || status == 405 || status == 501 {
            WireApi::Chat
        } else {
            WireApi::Responses
        },
    }
}

/// How many of the private endpoints are asked: up to the first that answers with
/// success.
pub open spec fn asked_of(replies: Seq<ReplyView>) -> int {
    if is_success(replies[0]) {
        1
    } else if is_success(replies[1]) {
        2
    } else if is_success(replies[2]) {
        3
    } else {
        4
    }
}

/// A probe finds what the replies tell: every model that is listed, the runtime whose
/// private endpoint is the first to answer with success, and the wire protocol. Without
/// a list of models it finds nothing.
pub proof fn a_probe_finds_what_the_replies_tell(
    base_url: Seq<char>,
    api_key: Option<Seq<char>>,
    listing: ReplyView,
    channels: Seq<ReplyView>,
    last: ReplyView,
)
    requires
        channels.len() == 4,
    ensures
        ({
            let replies = seq![listing] + channels.take(asked_of(channels)) + seq![last];
            let found = probed(
                ProbeView { base_url, api_key, phase: PhaseView::Models },
                replies,
            );
            match models_in_reply(listing) {
                None => found is None,
                Some(models) => {
                    &&& found matches Some(endpoint)
                    &&& endpoint.models == models
                    &&& endpoint.runtime == runtime_told(channels)
                    &&& endpoint.wire_api == wire_told(last)
                    &&& endpoint.base_url == without_trailing_slashes(base_url)
                },
            }
        }),
{
    a_list_of_models_is_read_whole(listing);
    a_probe_tells_models_runtime_and_wire(base_url, api_key, listing, channels, last);
    reveal_with_fuel(first_success, 5);
    let one = channels.drop_first();
    let two = one.drop_first();
    let three = two.drop_first();
    assert(one[0] == channels[1] && two[0] == channels[2] && three[0] == channels[3]);
    assert(three.drop_first().len() == 0);
    assert(channels.take(4) =~= channels);
}

/// A probe asks for the models with its key, then each private endpoint in turn and
/// without it, and last for a reply to a request that is not one, which nothing can
/// run.
pub proof fn a_probe_asks_what_it_has_to_know(
    base_url: Seq<char>,
    api_key: Option<Seq<char>>,
    models: Seq<Seq<char>>,
    tried: nat,
    runtime: Runtime,
)
    ensures
        ({
            let url = without_trailing_slashes(base_url);
            let header = match api_key {
                Some(api_key) => Some("Bearer "@ + api_key),
                None => None,
            };
            let first = request_of(ProbeView { base_url, api_key, phase: PhaseView::Models });
            let side = request_of(
                ProbeView { base_url, api_key, phase: PhaseView::Identity { models, tried } },
            );
            let wire = request_of(
                ProbeView { base_url, api_key, phase: PhaseView::Wire { models, runtime } },
            );
            &&& first.method == Method::Get && first.url == url + "/models"@
            &&& first.authorization == header && first.body is None
            &&& side.method == Method::Get && side.authorization is None && side.body is None
            &&& tried == 0 ==> side.url == root_of(base_url) + "/api/tags"@
            &&& tried == 1 ==> side.url == root_of(base_url) + "/api/v0/models"@
            &&& tried == 2 ==> side.url == root_of(base_url) + "/version"@
            &&& tried == 3 ==> side.url == root_of(base_url) + "/props"@
            &&& wire.method == Method::Post && wire.url == url + "/responses"@
            &&& wire.authorization == header && wire.body == Some("{}"@)
        }),
{
}

/// The private endpoints stand at the root of the server: the base URL without the
/// slashes at its end and, where it ends in `/v1` then, without that.
pub proof fn the_root_is_the_url_without_its_version(base_url: Seq<char>, front: Seq<char>)
    ensures
        without_trailing_slashes(base_url) == front + "/v1"@ ==> root_of(base_url) == front,
        (forall|other: Seq<char>| #[trigger] (other + "/v1"@) != without_trailing_slashes(base_url))
            ==> root_of(base_url) == without_trailing_slashes(base_url),
{
    only_slashes_at_the_end_are_dropped(base_url);
    only_the_suffix_is_dropped(front, without_trailing_slashes(base_url), "/v1"@);
}

/// Every runtime has its name, its token and its port, and the ports that are tried are
/// those and no others.
pub proof fn runtimes_are_known_by_these(port: u16)
    ensures
        label_of(Runtime::Ollama) == "Ollama"@,
        label_of(Runtime::LmStudio) == "LM Studio"@,
        label_of(Runtime::Vllm) == "vLLM"@,
        label_of(Runtime::LlamaCpp) == "llama.cpp / Unsloth Studio"@,
        label_of(Runtime::Unknown) == "OpenAI-compatible server"@,
        slug_of(Runtime::Ollama) == "ollama"@,
        slug_of(Runtime::LmStudio) == "lmstudio"@,
        slug_of(Runtime::Vllm) == "vllm"@,
        slug_of(Runtime::LlamaCpp) == "llamacpp"@,
        slug_of(Runtime::Unknown) == "openai-compat"@,
        port_of(Runtime::Ollama) == Some(11434u16),
        port_of(Runtime::LmStudio) == Some(1234u16),
        port_of(Runtime::Vllm) == Some(8000u16),
        port_of(Runtime::LlamaCpp) == Some(8080u16),
        port_of(Runtime::Unknown) is None,
        known_ports().contains(port) <==> exists|runtime: Runtime| #[trigger]
            port_of(runtime) == Some(port),
        known_ports().len() == 4,
{
    let ports = known_ports();
    assert(ports[0] == 11434 && ports[1] == 1234 && ports[2] == 8000 && ports[3] == 8080);
    assert(port_of(Runtime::Ollama) == Some(ports[0]));
    assert(port_of(Runtime::LmStudio) == Some(ports[1]));
    assert(port_of(Runtime::Vllm) == Some(ports[2]));
    assert(port_of(Runtime::LlamaCpp) == Some(ports[3]));
}

/// A scan asks at the ports it is given, and at those of the known runtimes where it is
/// given none, each under the host's name over HTTP.
pub proof fn a_scan_asks_at_every_port(host: Seq<char>, ports: Seq<u16>, port: u16)
    ensures
        ports.len() > 0 ==> scanned_ports(ports) == ports,
        ports.len() == 0 ==> scanned_ports(ports) == known_ports(),
        scan_url(host, port) == "http://"@ + host + ":"@ + decimal(port as nat) + "/v1"@,
{
}

/// A probe goes on at the same URL and with the same key, and what it has found out it
/// keeps.
pub proof fn a_probe_keeps_what_it_has(probe: ProbeView, reply: ReplyView)
    ensures
        advanced(probe, reply) matches AdvanceView::Ask(next) ==> {
            &&& next.base_url == probe.base_url
            &&& next.api_key == probe.api_key
            &&& match (probe.phase, next.phase) {
                (PhaseView::Models, PhaseView::Identity { models, tried }) => tried == 0
                    && models_in_reply(reply) == Some(models),
                (
                    PhaseView::Identity { models, tried },
                    PhaseView::Identity { models: kept, tried: now },
                ) => kept == models && now == tried + 1 && now < 4 && !is_success(reply),
                (
                    PhaseView::Identity { models, tried },
                    PhaseView::Wire { models: kept, runtime },
                ) => kept == models && (is_success(reply) || tried + 1 >= 4),
                _ => false,
            }
        },
        advanced(probe, reply) matches AdvanceView::Done(found) ==> match probe.phase {
            PhaseView::Models => found is None && models_in_reply(reply) is None,
            PhaseView::Identity { .. } => false,
            PhaseView::Wire { models, runtime } => {
                &&& found matches Some(endpoint)
                &&& endpoint.models == models
                &&& endpoint.runtime == runtime
                &&& endpoint.wire_api == wire_told(reply)
                &&& endpoint.base_url == without_trailing_slashes(probe.base_url)
            },
        },
        fresh_probe(probe.base_url, probe.api_key) == (ProbeView {
            base_url: probe.base_url,
            api_key: probe.api_key,
            phase: PhaseView::Models,
        }),
{
    a_list_of_models_is_read_whole(reply);
}

/// A reply that never comes is silence: a probe finds the same whether it is told of it
/// or not.
pub proof fn a_reply_that_never_comes_is_silence(probe: ProbeView, replies: Seq<ReplyView>)
    ensures
        probed(probe, replies.push(ReplyView::Silence)) == probed(probe, replies),
    decreases requests_left(probe.phase),
{
    let told = replies.push(ReplyView::Silence);
    if replies.len() == 0 {
        assert(told.drop_first() =~= replies);
    } else {
        assert(told.drop_first() =~= replies.drop_first().push(ReplyView::Silence));
        if let AdvanceView::Ask(next) = advanced(probe, replies[0]) {
            a_reply_that_never_comes_is_silence(next, replies.drop_first());
        }
    }
}

} // verus!
