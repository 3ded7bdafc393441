//! Discovery of OpenAI-compatible inference endpoints.
//!
//! A fleet is the set of endpoints a session can hand work to. Rather than make
//! people hand-write provider blocks, each candidate endpoint is asked what it
//! is, which models it holds, and which wire protocol it speaks.

use vstd::prelude::*;
use crate::json::{
    as_items, field, items_view, lemma_items_view, outcome_view, parse, parsed, text_field, Json,
    JsonView,
};
use crate::text::{
    copy_list, own_option, str_option, strip_suffix, text_option, texts, trim_end_slashes,
    without_suffix, without_trailing_slashes,
};
use super::config::WireApi;

verus! {

/// A locally servable inference runtime, identified by its own side-channel API.
#[derive(Clone, Copy, Debug, PartialEq, Eq, Structural)]
pub enum Runtime {
    Ollama,
    LmStudio,
    Vllm,
    /// llama.cpp's server, which is also what Unsloth Studio serves through.
    LlamaCpp,
    /// Speaks the OpenAI API but did not identify itself.
    Unknown,
}

/// The name a runtime is shown under.
pub open spec fn label_of(runtime: Runtime) -> Seq<char> {
    match runtime {
        Runtime::Ollama => "Ollama"@,
        Runtime::LmStudio => "LM Studio"@,
        Runtime::Vllm => "vLLM"@,
        Runtime::LlamaCpp => "llama.cpp / Unsloth Studio"@,
        Runtime::Unknown => "OpenAI-compatible server"@,
    }
}

/// The token a runtime gives to a generated provider id.
pub open spec fn slug_of(runtime: Runtime) -> Seq<char> {
    match runtime {
        Runtime::Ollama => "ollama"@,
        Runtime::LmStudio => "lmstudio"@,
        Runtime::Vllm => "vllm"@,
        Runtime::LlamaCpp => "llamacpp"@,
        Runtime::Unknown => "openai-compat"@,
    }
}

/// The port a runtime listens on out of the box.
pub open spec fn port_of(runtime: Runtime) -> Option<u16> {
    match runtime {
        Runtime::Ollama => Some(11434),
        Runtime::LmStudio => Some(1234),
        Runtime::Vllm => Some(8000),
        Runtime::LlamaCpp => Some(8080),
        Runtime::Unknown => None,
    }
}

impl Runtime {
    /// The name the runtime is shown under.
    pub fn label(self) -> (label: &'static str)
        ensures
            label@ == label_of(self),
    {
        match self {
            Runtime::Ollama => "Ollama",
            Runtime::LmStudio => "LM Studio",
            Runtime::Vllm => "vLLM",
            Runtime::LlamaCpp => "llama.cpp / Unsloth Studio",
            Runtime::Unknown => "OpenAI-compatible server",
        }
    }

    /// Short, stable token used when naming a generated provider id.
    pub fn slug(self) -> (slug: &'static str)
        ensures
            slug@ == slug_of(self),
    {
        match self {
            Runtime::Ollama => "ollama",
            Runtime::LmStudio => "lmstudio",
            Runtime::Vllm => "vllm",
            Runtime::LlamaCpp => "llamacpp",
            Runtime::Unknown => "openai-compat",
        }
    }

    /// Port the runtime listens on out of the box.
    pub fn default_port(self) -> (port: Option<u16>)
        ensures
            port == port_of(self),
    {
        match self {
            Runtime::Ollama => Some(11434),
            Runtime::LmStudio => Some(1234),
            Runtime::Vllm => Some(8000),
            Runtime::LlamaCpp => Some(8080),
            Runtime::Unknown => None,
        }
    }
}

/// The ports the runtimes listen on out of the box.
pub open spec fn known_ports() -> Seq<u16> {
    seq![11434u16, 1234u16, 8000u16, 8080u16]
}

/// Ports worth trying when no explicit endpoint is given.
pub fn default_ports() -> (ports: Vec<u16>)
    ensures
        ports@ == known_ports(),
{
    let runtimes: [Runtime; 4] = [
        Runtime::Ollama,
        Runtime::LmStudio,
        Runtime::Vllm,
        Runtime::LlamaCpp,
    ];
    let mut ports: Vec<u16> = Vec::new();
    for i in 0..4usize
        invariant
            runtimes@ == seq![Runtime::Ollama, Runtime::LmStudio, Runtime::Vllm, Runtime::LlamaCpp],
            ports@ == known_ports().take(i as int),
    {
        if let Some(port) = runtimes[i].default_port() {
            ports.push(port);
        }
        assert(ports@ =~= known_ports().take(i + 1));
    }
    assert(ports@ =~= known_ports());
    ports
}

/// What a reachable endpoint turned out to be.
#[derive(Debug, PartialEq, Eq)]
pub struct Endpoint {
    pub base_url: String,
    pub runtime: Runtime,
    pub models: Vec<String>,
    pub wire_api: WireApi,
}

/// What is known of an endpoint.
pub struct EndpointView {
    pub base_url: Seq<char>,
    pub runtime: Runtime,
    pub models: Seq<Seq<char>>,
    pub wire_api: WireApi,
}

impl Endpoint {
    pub open spec fn view(&self) -> EndpointView {
        EndpointView {
            base_url: self.base_url@,
            runtime: self.runtime,
            models: texts(self.models@),
            wire_api: self.wire_api,
        }
    }

    /// The same endpoint again.
    pub fn copy(&self) -> (endpoint: Endpoint)
        ensures
            endpoint@ == self@,
    {
        Endpoint {
            base_url: self.base_url.clone(),
            runtime: self.runtime,
            models: copy_list(&self.models),
            wire_api: self.wire_api,
        }
    }
}

/// The server root of an OpenAI-style base URL.
pub open spec fn root_of(base_url: Seq<char>) -> Seq<char> {
    without_suffix(without_trailing_slashes(base_url), "/v1"@)
}

/// Returns the server root of an OpenAI-style base URL, which is the URL without
/// the slashes and the `/v1` at its end.
pub fn host_root(base_url: &str) -> (root: String)
    ensures
        root@ == root_of(base_url@),
{
    strip_suffix(trim_end_slashes(base_url), "/v1").to_owned()
}

/// A status that says there is no such route.
pub open spec fn route_missing(status: u16) -> bool {
    status == 404 || status == 405 || status == 501
}

/// Whether a status says that there is no such route.
pub fn responses_route_missing(status: u16) -> (missing: bool)
    ensures
        missing == route_missing(status),
{
    status == 404 || status == 405 || status == 501
}

/// How a request is made.
#[derive(Clone, Copy, Debug, PartialEq, Eq, Structural)]
pub enum Method {
    Get,
    Post,
}

/// A request a probe asks to be made.
#[derive(Debug, PartialEq, Eq)]
pub struct ProbeRequest {
    pub method: Method,
    pub url: String,
    /// The `authorization` header, where the request carries one.
    pub authorization: Option<String>,
    /// The JSON body, where the request has one.
    pub body: Option<String>,
}

/// What a request asks for.
pub struct RequestView {
    pub method: Method,
    pub url: Seq<char>,
    pub authorization: Option<Seq<char>>,
    pub body: Option<Seq<char>>,
}

impl ProbeRequest {
    pub open spec fn view(&self) -> RequestView {
        RequestView {
            method: self.method,
            url: self.url@,
            authorization: text_option(self.authorization),
            body: text_option(self.body),
        }
    }
}

/// What came of a request.
#[derive(Debug, PartialEq, Eq)]
pub enum Reply {
    /// The server answered. The body is there where it could be read as text.
    Answer { status: u16, body: Option<String> },
    /// Nothing answered.
    Silence,
}

/// What a reply says.
pub enum ReplyView {
    Answer { status: u16, body: Option<Seq<char>> },
    Silence,
}

impl Reply {
    pub open spec fn view(&self) -> ReplyView {
        match self {
            Reply::Answer { status, body } => ReplyView::Answer {
                status: *status,
                body: text_option(*body),
            },
            Reply::Silence => ReplyView::Silence,
        }
    }
}

/// What a run of replies says.
pub open spec fn replies_view(replies: Seq<Reply>) -> Seq<ReplyView> {
    replies.map_values(|reply: Reply| reply@)
}

/// The server answered, and with success.
pub open spec fn succeeded(reply: ReplyView) -> bool {
    reply matches ReplyView::Answer { status, .. } && 200 <= status <= 299
}

/// Whether the server answered, and with success.
fn is_success(reply: &Reply) -> (success: bool)
    ensures
        success == succeeded(reply@),
{
    match reply {
        Reply::Answer { status, .. } => 200 <= *status && *status <= 299,
        Reply::Silence => false,
    }
}

/// The ids of the entries that have one, in order.
pub open spec fn ids_of(entries: Seq<JsonView>) -> Seq<Seq<char>>
    decreases entries.len(),
{
    if entries.len() == 0 {
        Seq::empty()
    } else {
        match text_field(entries.last(), "id"@) {
            Some(id) => ids_of(entries.drop_last()).push(id),
            None => ids_of(entries.drop_last()),
        }
    }
}

/// The models that the document of a model list names, where there is a document.
pub open spec fn models_in(document: Result<JsonView, Seq<char>>) -> Option<Seq<Seq<char>>> {
    match document {
        Ok(document) => match as_items(field(document, "data"@)) {
            Some(entries) => Some(ids_of(entries)),
            None => Some(Seq::empty()),
        },
        Err(_) => None,
    }
}

/// The view of a list that may be absent.
pub open spec fn list_option(list: Option<Vec<String>>) -> Option<Seq<Seq<char>>> {
    match list {
        Some(list) => Some(texts(list@)),
        None => None,
    }
}

/// Reads the models out of a model list, given what its text reads as.
pub fn models_of_document(document: &Result<Json, String>) -> (models: Option<Vec<String>>)
    ensures
        list_option(models) == models_in(outcome_view(*document)),
{
    let document = match document {
        Ok(document) => document,
        Err(_) => return None,
    };
    let mut models: Vec<String> = Vec::new();
    assert(texts(models@) =~= Seq::<Seq<char>>::empty());
    if let Some(data) = document.get("data") {
        if let Some(entries) = data.as_array() {
            let ghost says = items_view(entries@);
            proof {
                lemma_items_view(entries@);
                assert(says.take(0) =~= Seq::empty());
            }
            for i in 0..entries.len()
                invariant
                    says == items_view(entries@),
                    says.len() == entries@.len(),
                    texts(models@) == ids_of(says.take(i as int)),
            {
                let ghost earlier = models@;
                proof {
                    lemma_items_view(entries@);
                    assert(says.take(i + 1).drop_last() =~= says.take(i as int));
                    assert(says.take(i + 1).last() == entries@[i as int]@);
                }
                if let Some(id) = entries[i].get_text("id") {
                    models.push(id.to_owned());
                    assert(texts(models@) =~= texts(earlier).push(id@));
                }
            }
            assert(says.take(says.len() as int) =~= says);
        }
    }
    Some(models)
}

/// The models a reply lists. A reply that is no success, or whose body is no
/// JSON, lists none at all.
pub open spec fn models_listed(reply: ReplyView) -> Option<Seq<Seq<char>>> {
    match reply {
        ReplyView::Answer { status, body: Some(body) } => if 200 <= status <= 299 {
            models_in(parsed(body))
        } else {
            None
        },
        _ => None,
    }
}

/// Reads the models out of a reply.
fn list_models(reply: &Reply) -> (models: Option<Vec<String>>)
    ensures
        list_option(models) == models_listed(reply@),
{
    if !is_success(reply) {
        return None;
    }
    match reply {
        Reply::Answer { body: Some(body), .. } => models_of_document(&parse(body.as_str())),
        _ => None,
    }
}

/// How many runtimes expose a private endpoint to be known by.
pub const SIDE_CHANNELS: usize = 4;

/// The private endpoint that a runtime exposes alongside its OpenAI-compatible
/// surface, in the order in which they are tried.
pub open spec fn side_channel_path(tried: nat) -> Seq<char> {
    if tried == 0 {
        "/api/tags"@
    } else if tried == 1 {
        "/api/v0/models"@
    } else if tried == 2 {
        "/version"@
    } else {
        "/props"@
    }
}

/// The runtime that answers there; none does behind the last of them.
pub open spec fn side_channel_runtime(tried: nat) -> Runtime {
    if tried == 0 {
        Runtime::Ollama
    } else if tried == 1 {
        Runtime::LmStudio
    } else if tried == 2 {
        Runtime::Vllm
    } else if tried == 3 {
        Runtime::LlamaCpp
    } else {
        Runtime::Unknown
    }
}

fn channel_path(tried: usize) -> (path: &'static str)
    ensures
        path@ == side_channel_path(tried as nat),
{
    if tried == 0 {
        "/api/tags"
    } else if tried == 1 {
        "/api/v0/models"
    } else if tried == 2 {
        "/version"
    } else {
        "/props"
    }
}

fn channel_runtime(tried: usize) -> (runtime: Runtime)
    ensures
        runtime == side_channel_runtime(tried as nat),
{
    if tried == 0 {
        Runtime::Ollama
    } else if tried == 1 {
        Runtime::LmStudio
    } else if tried == 2 {
        Runtime::Vllm
    } else if tried == 3 {
        Runtime::LlamaCpp
    } else {
        Runtime::Unknown
    }
}

/// The wire protocol a reply to an incomplete request calls for. A route that is
/// there rejects the request; where the probe itself fails, Chat Completions is
/// the safer assumption, for every such server implements it.
pub open spec fn wire_api_of(reply: ReplyView) -> WireApi {
    match reply {
        ReplyView::Answer { status, .. } => if route_missing(status) {
            WireApi::Chat
        } else {
            WireApi::Responses
        },
        ReplyView::Silence => WireApi::Chat,
    }
}

/// Decides which wire protocol to configure for an endpoint.
fn detect_wire_api(reply: &Reply) -> (wire_api: WireApi)
    ensures
        wire_api == wire_api_of(reply@),
{
    match reply {
        Reply::Answer { status, .. } => if responses_route_missing(*status) {
            WireApi::Chat
        } else {
            WireApi::Responses
        },
        Reply::Silence => WireApi::Chat,
    }
}

/// What a probe is finding out.
#[derive(Debug, PartialEq, Eq)]
pub enum Phase {
    /// Which models the endpoint holds.
    Models,
    /// Which runtime it is; so many have been tried.
    Identity { models: Vec<String>, tried: usize },
    /// Which wire protocol it speaks.
    Wire { models: Vec<String>, runtime: Runtime },
}

/// How far a probe has come.
pub enum PhaseView {
    Models,
    Identity { models: Seq<Seq<char>>, tried: nat },
    Wire { models: Seq<Seq<char>>, runtime: Runtime },
}

impl Phase {
    pub open spec fn view(&self) -> PhaseView {
        match self {
            Phase::Models => PhaseView::Models,
            Phase::Identity { models, tried } => PhaseView::Identity {
                models: texts(models@),
                tried: *tried as nat,
            },
            Phase::Wire { models, runtime } => PhaseView::Wire {
                models: texts(models@),
                runtime: *runtime,
            },
        }
    }
}

/// The `authorization` header for an API key.
pub open spec fn bearer(api_key: Option<Seq<char>>) -> Option<Seq<char>> {
    match api_key {
        Some(api_key) => Some("Bearer "@ + api_key),
        None => None,
    }
}

fn bearer_header(api_key: &Option<String>) -> (header: Option<String>)
    ensures
        text_option(header) == bearer(text_option(*api_key)),
{
    match api_key {
        Some(api_key) => {
            let mut header = String::from_str("Bearer ");
            header.append(api_key.as_str());
            Some(header)
        },
        None => None,
    }
}

/// A probe of one endpoint: where it is, the key it is asked with, and what it is to
/// be asked next.
pub struct ProbeView {
    pub base_url: Seq<char>,
    pub api_key: Option<Seq<char>>,
    pub phase: PhaseView,
}

/// The request to make next. The one that tells the wire protocol is incomplete on
/// purpose, so that nothing runs.
pub open spec fn request_of(probe: ProbeView) -> RequestView {
    match probe.phase {
        PhaseView::Models => RequestView {
            method: Method::Get,
            url: without_trailing_slashes(probe.base_url) + "/models"@,
            authorization: bearer(probe.api_key),
            body: None,
        },
        PhaseView::Identity { tried, .. } => RequestView {
            method: Method::Get,
            url: root_of(probe.base_url) + side_channel_path(tried),
            authorization: None,
            body: None,
        },
        PhaseView::Wire { .. } => RequestView {
            method: Method::Post,
            url: without_trailing_slashes(probe.base_url) + "/responses"@,
            authorization: bearer(probe.api_key),
            body: Some("{}"@),
        },
    }
}

/// A probe that has asked nothing yet.
pub open spec fn fresh_probe(base_url: Seq<char>, api_key: Option<Seq<char>>) -> ProbeView {
    ProbeView { base_url, api_key, phase: PhaseView::Models }
}

/// Where a reply leads: to another request, or to what the endpoint turned out to
/// be, which is nothing where no models were listed.
pub enum AdvanceView {
    Ask(ProbeView),
    Done(Option<EndpointView>),
}

/// Another request of the same probe.
pub open spec fn asks(probe: ProbeView, phase: PhaseView) -> AdvanceView {
    AdvanceView::Ask(ProbeView { base_url: probe.base_url, api_key: probe.api_key, phase })
}

/// Where a reply leads.
pub open spec fn advanced(probe: ProbeView, reply: ReplyView) -> AdvanceView {
    match probe.phase {
        PhaseView::Models => match models_listed(reply) {
            Some(models) => asks(probe, PhaseView::Identity { models, tried: 0 }),
            None => AdvanceView::Done(None),
        },
        PhaseView::Identity { models, tried } => if succeeded(reply) {
            asks(probe, PhaseView::Wire { models, runtime: side_channel_runtime(tried) })
        } else if tried + 1 < SIDE_CHANNELS {
            asks(probe, PhaseView::Identity { models, tried: tried + 1 })
        } else {
            asks(probe, PhaseView::Wire { models, runtime: Runtime::Unknown })
        },
        PhaseView::Wire { models, runtime } => AdvanceView::Done(
            Some(
                EndpointView {
                    base_url: without_trailing_slashes(probe.base_url),
                    runtime,
                    models,
                    wire_api: wire_api_of(reply),
                },
            ),
        ),
    }
}

/// A probe of one endpoint. It says which request to make, and takes what came of
/// it.
#[derive(Debug, PartialEq, Eq)]
pub struct Probe {
    pub base_url: String,
    pub api_key: Option<String>,
    pub phase: Phase,
}

/// Where a reply led.
#[derive(Debug, PartialEq, Eq)]
pub enum Advance {
    /// To another request.
    Ask(Probe),
    /// To the end of the probe. Nothing answering is the expected outcome for most
    /// candidate ports.
    Done(Option<Endpoint>),
}

/// The view of an endpoint that may be absent.
pub open spec fn endpoint_option(endpoint: Option<Endpoint>) -> Option<EndpointView> {
    match endpoint {
        Some(endpoint) => Some(endpoint@),
        None => None,
    }
}

impl Advance {
    pub open spec fn view(&self) -> AdvanceView {
        match self {
            Advance::Ask(probe) => AdvanceView::Ask(probe@),
            Advance::Done(endpoint) => AdvanceView::Done(endpoint_option(*endpoint)),
        }
    }
}

impl Probe {
    pub open spec fn view(&self) -> ProbeView {
        ProbeView {
            base_url: self.base_url@,
            api_key: text_option(self.api_key),
            phase: self.phase@,
        }
    }

    /// A probe that has asked nothing yet.
    pub fn new(base_url: &str, api_key: Option<&str>) -> (probe: Probe)
        ensures
            probe@ == fresh_probe(base_url@, str_option(api_key)),
    {
        Probe { base_url: base_url.to_owned(), api_key: own_option(api_key), phase: Phase::Models }
    }

    /// The request to make next.
    pub fn request(&self) -> (request: ProbeRequest)
        ensures
            request@ == request_of(self@),
    {
        match &self.phase {
            Phase::Models => {
                let mut url = trim_end_slashes(self.base_url.as_str()).to_owned();
                url.append("/models");
                ProbeRequest {
                    method: Method::Get,
                    url,
                    authorization: bearer_header(&self.api_key),
                    body: None,
                }
            },
            Phase::Identity { tried, .. } => {
                let mut url = host_root(self.base_url.as_str());
                url.append(channel_path(*tried));
                ProbeRequest { method: Method::Get, url, authorization: None, body: None }
            },
            Phase::Wire { .. } => {
                let mut url = trim_end_slashes(self.base_url.as_str()).to_owned();
                url.append("/responses");
                ProbeRequest {
                    method: Method::Post,
                    url,
                    authorization: bearer_header(&self.api_key),
                    body: Some("{}".to_owned()),
                }
            },
        }
    }

    /// Takes what came of the request.
    pub fn advance(self, reply: &Reply) -> (advance: Advance)
        ensures
            advance@ == advanced(self@, reply@),
    {
        let Probe { base_url, api_key, phase } = self;
        match phase {
            Phase::Models => match list_models(reply) {
                Some(models) => Advance::Ask(
                    Probe { base_url, api_key, phase: Phase::Identity { models, tried: 0 } },
                ),
                None => Advance::Done(None),
            },
            Phase::Identity { models, tried } => {
                let phase = if is_success(reply) {
                    Phase::Wire { models, runtime: channel_runtime(tried) }
                } else if tried < SIDE_CHANNELS - 1 {
                    Phase::Identity { models, tried: tried + 1 }
                } else {
                    Phase::Wire { models, runtime: Runtime::Unknown }
                };
                Advance::Ask(Probe { base_url, api_key, phase })
            },
            Phase::Wire { models, runtime } => Advance::Done(
                Some(
                    Endpoint {
                        base_url: trim_end_slashes(base_url.as_str()).to_owned(),
                        runtime,
                        models,
                        wire_api: detect_wire_api(reply),
                    },
                ),
            ),
        }
    }
}

/// How many requests a probe can still make.
pub open spec fn requests_left(phase: PhaseView) -> int {
    match phase {
        PhaseView::Models => 6,
        PhaseView::Identity { tried, .. } => if tried + 1 < SIDE_CHANNELS {
            5 - tried
        } else {
            2
        },
        PhaseView::Wire { .. } => 1,
    }
}

/// What the replies to the requests of a probe tell, one after the other. Where
/// they run out, nothing answers any more.
pub open spec fn probed(probe: ProbeView, replies: Seq<ReplyView>) -> Option<EndpointView>
    decreases requests_left(probe.phase),
{
    let reply = if replies.len() == 0 {
        ReplyView::Silence
    } else {
        replies[0]
    };
    let rest = if replies.len() == 0 {
        replies
    } else {
        replies.drop_first()
    };
    match advanced(probe, reply) {
        AdvanceView::Ask(next) => probed(next, rest),
        AdvanceView::Done(endpoint) => endpoint,
    }
}

/// Asks one endpoint what it is, given what comes of each request in turn.
pub fn probe(base_url: &str, api_key: Option<&str>, replies: &Vec<Reply>) -> (endpoint: Option<
    Endpoint,
>)
    ensures
        endpoint_option(endpoint) == probed(
            fresh_probe(base_url@, str_option(api_key)),
            replies_view(replies@),
        ),
{
    let mut state = Probe::new(base_url, api_key);
    let ghost all = replies_view(replies@);
    let silence = Reply::Silence;
    let mut i: usize = 0;
    proof {
        assert(all.skip(0) =~= all);
    }
    loop
        invariant
            all == replies_view(replies@),
            i <= replies@.len(),
            silence@ == ReplyView::Silence,
            probed(state@, all.skip(i as int)) == probed(
                fresh_probe(base_url@, str_option(api_key)),
                all,
            ),
        decreases requests_left(state.phase@),
    {
        let ghost rest = all.skip(i as int);
        let reply: &Reply = if i < replies.len() {
            assert(rest[0] == replies@[i as int]@);
            assert(rest.drop_first() =~= all.skip(i + 1));
            i = i + 1;
            &replies[i - 1]
        } else {
            &silence
        };
        match state.advance(reply) {
            Advance::Ask(next) => {
                state = next;
            },
            Advance::Done(endpoint) => return endpoint,
        }
    }
}

/// The position of the first reply that is a success, or how many there are.
pub open spec fn first_success(replies: Seq<ReplyView>) -> nat
    decreases replies.len(),
{
    if replies.len() == 0 || succeeded(replies[0]) {
        0
    } else {
        1 + first_success(replies.drop_first())
    }
}

/// What a probe finds out: the models from the first reply, without which there is
/// no endpoint; the runtime from the first side channel that answers, where one
/// does; and the wire protocol from the last reply.
pub proof fn a_probe_tells_models_runtime_and_wire(
    base_url: Seq<char>,
    api_key: Option<Seq<char>>,
    listing: ReplyView,
    channels: Seq<ReplyView>,
    last: ReplyView,
)
    requires
        channels.len() == SIDE_CHANNELS,
    ensures
        ({
            let known_by = first_success(channels);
            let asked = if known_by < SIDE_CHANNELS {
                channels.take(known_by + 1int)
            } else {
                channels
            };
            probed(fresh_probe(base_url, api_key), seq![listing] + asked + seq![last])
                == match models_listed(listing) {
                Some(models) => Some(
                    EndpointView {
                        base_url: without_trailing_slashes(base_url),
                        runtime: side_channel_runtime(known_by),
                        models,
                        wire_api: wire_api_of(last),
                    },
                ),
                None => None,
            }
        }),
{
    let known_by = first_success(channels);
    let asked = if known_by < SIDE_CHANNELS {
        channels.take(known_by + 1int)
    } else {
        channels
    };
    let replies = seq![listing] + asked + seq![last];
    assert(replies.drop_first() =~= asked + seq![last]);
    if let Some(models) = models_listed(listing) {
        lemma_identity(base_url, api_key, models, 0, channels, last);
        assert(channels.skip(0) =~= channels);
        assert(asked.skip(0) =~= asked);
    }
}

proof fn lemma_identity(
    base_url: Seq<char>,
    api_key: Option<Seq<char>>,
    models: Seq<Seq<char>>,
    tried: nat,
    channels: Seq<ReplyView>,
    last: ReplyView,
)
    requires
        channels.len() == SIDE_CHANNELS,
        tried < SIDE_CHANNELS,
    ensures
        ({
            let known_by = tried + first_success(channels.skip(tried as int));
            let asked = if known_by < SIDE_CHANNELS {
                channels.take(known_by + 1int)
            } else {
                channels
            };
            probed(
                (ProbeView { base_url, api_key, phase: PhaseView::Identity { models, tried } }),
                asked.skip(tried as int) + seq![last],
            ) == Some(
                EndpointView {
                    base_url: without_trailing_slashes(base_url),
                    runtime: side_channel_runtime(known_by),
                    models,
                    wire_api: wire_api_of(last),
                },
            )
        }),
    decreases SIDE_CHANNELS - tried,
{
    reveal_with_fuel(probed, 2);
    let rest = channels.skip(tried as int);
    let known_by = tried + first_success(rest);
    let asked = if known_by < SIDE_CHANNELS {
        channels.take(known_by + 1int)
    } else {
        channels
    };
    let replies = asked.skip(tried as int) + seq![last];
    assert(rest[0] == channels[tried as int]);
    assert(rest.drop_first() =~= channels.skip(tried + 1int));
    lemma_first_success(rest);
    assert(replies[0] == channels[tried as int]);
    assert(replies.drop_first() =~= asked.skip(tried + 1int) + seq![last]);
    if succeeded(channels[tried as int]) {
        assert(replies.drop_first() =~= seq![last]);
    } else if tried + 1 < SIDE_CHANNELS {
        lemma_identity(base_url, api_key, models, tried + 1, channels, last);
    } else {
        assert(first_success(channels.skip(tried + 1int)) == 0);
        assert(replies.drop_first() =~= seq![last]);
    }
}

proof fn lemma_first_success(replies: Seq<ReplyView>)
    ensures
        first_success(replies) <= replies.len(),
    decreases replies.len(),
{
    if replies.len() > 0 && !succeeded(replies[0]) {
        lemma_first_success(replies.drop_first());
    }
}

/// The default ports cover every runtime that has one.
pub proof fn default_ports_cover_every_runtime(runtime: Runtime)
    ensures
        port_of(runtime) matches Some(port) ==> known_ports().contains(port),
{
    let ports = known_ports();
    assert(ports[0] == 11434 && ports[1] == 1234 && ports[2] == 8000 && ports[3] == 8080);
}

/// Runtimes are told apart by their slugs, and by their labels.
pub proof fn runtimes_are_told_apart(one: Runtime, other: Runtime)
    ensures
        slug_of(one) == slug_of(other) <==> one == other,
        label_of(one) == label_of(other) <==> one == other,
{
    reveal_strlit("ollama");
    reveal_strlit("lmstudio");
    reveal_strlit("vllm");
    reveal_strlit("llamacpp");
    reveal_strlit("openai-compat");
    reveal_strlit("Ollama");
    reveal_strlit("LM Studio");
    reveal_strlit("vLLM");
    reveal_strlit("llama.cpp / Unsloth Studio");
    reveal_strlit("OpenAI-compatible server");
    assert("ollama"@.len() == 6 && "lmstudio"@.len() == 8 && "vllm"@.len() == 4
        && "llamacpp"@.len() == 8 && "openai-compat"@.len() == 13);
    assert("lmstudio"@[1] == 'm' && "llamacpp"@[1] == 'l');
    assert("Ollama"@.len() == 6 && "LM Studio"@.len() == 9 && "vLLM"@.len() == 4
        && "llama.cpp / Unsloth Studio"@.len() == 26 && "OpenAI-compatible server"@.len() == 24);
}

} // verus!
