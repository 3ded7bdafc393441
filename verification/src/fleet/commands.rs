//! What the fleet commands are given, and what each of them says and writes.
//!
//! A command is planned here, from its arguments, the configuration and what
//! probing told; printing the report and applying the edits is left to the caller.

use vstd::prelude::*;
use crate::text::{
    borrow_option, decimal, decimal_text, join, join_first, same_text, text_option, texts,
    trim_end_slashes, without_trailing_slashes,
};
use super::config::{
    edits_view, find_provider, providers_view, push_edit, wire_text, Config, ConfigEdit, EditView,
    ModelProviderInfo, ProviderView, WireApi,
};
use super::probe::{default_ports, known_ports, label_of, Endpoint, EndpointView, Runtime};
use super::setup::{
    allowlist_edit, assign_provider_ids, assigned_id, authorizing_edit, provider_edits,
    provider_edits_of,
};
use super::team::TeamArgs;
use super::{valid_provider_id, validate_provider_id};

verus! {

/// The built-in providers whose endpoint may be overridden.
pub const NEBIUS_PROVIDER_ID: &'static str = "nebius";

pub const NEBIUS_CHAT_PROVIDER_ID: &'static str = "nebius-chat";

/// A fleet command.
#[derive(Debug, PartialEq, Eq)]
pub struct FleetCommand {
    pub action: FleetAction,
}

/// What a fleet command does.
#[derive(Debug, PartialEq, Eq)]
pub enum FleetAction {
    /// Find inference endpoints running nearby and configure them.
    Scan(ScanArgs),
    /// Configure one endpoint by URL, for a GPU box that is not on this host.
    Add(AddArgs),
    /// Show the configured endpoints and whether they are answering.
    List,
    /// Install the lead and worker roles that make a hierarchy an org.
    Team(TeamArgs),
    /// Check that the configured fleet will actually run.
    Doctor,
}

/// What to scan.
#[derive(Debug, PartialEq, Eq)]
pub struct ScanArgs {
    pub host: String,
    /// Ports to try; where there are none, the ones the known runtimes use.
    pub ports: Vec<u16>,
    /// Write the discovered endpoints instead of only listing them.
    pub write: bool,
}

/// What to add.
#[derive(Debug, PartialEq, Eq)]
pub struct AddArgs {
    /// Provider id to write, as roles will refer to it.
    pub id: String,
    /// OpenAI-compatible base URL, including the `/v1` suffix.
    pub url: String,
    pub wire: WireChoice,
    /// Environment variable holding the API key, for endpoints that need one.
    pub api_key_env: Option<String>,
}

/// Which wire protocol to configure.
#[derive(Clone, Copy, Debug, PartialEq, Eq, Structural)]
pub enum WireChoice {
    /// Ask the endpoint which protocols it serves.
    Auto,
    Chat,
    Responses,
}

/// What a command says before it writes, what it writes, and what it says then.
#[derive(Debug, PartialEq, Eq)]
pub struct Plan {
    pub report: String,
    /// Nothing is written, and nothing more is said, where there are no edits.
    pub edits: Option<Vec<ConfigEdit>>,
    pub closing: String,
}

/// The models of an endpoint, of which at most three are shown.
pub open spec fn models_text(models: Seq<Seq<char>>) -> Seq<char> {
    if models.len() == 0 {
        "no models loaded"@
    } else if models.len() <= 3 {
        join(models, ", "@)
    } else {
        join(models.take(3), ", "@) + ", +"@ + decimal((models.len() - 3) as nat) + " more"@
    }
}

/// Shows the models of an endpoint.
fn shown_models(models: &Vec<String>) -> (text: String)
    ensures
        text@ == models_text(texts(models@)),
{
    if models.is_empty() {
        return "no models loaded".to_owned();
    }
    if models.len() <= 3 {
        assert(texts(models@).take(models@.len() as int) =~= texts(models@));
        return join_first(models, models.len(), ", ");
    }
    let mut text = join_first(models, 3, ", ");
    text.append(", +");
    text.append(decimal_text((models.len() - 3) as u64).as_str());
    text.append(" more");
    text
}

/// What is shown of an endpoint.
pub open spec fn endpoint_text(id: Seq<char>, endpoint: EndpointView) -> Seq<char> {
    id + "  "@ + label_of(endpoint.runtime) + "  "@ + endpoint.base_url + "  wire="@ + wire_text(
        endpoint.wire_api,
    ) + "\n    "@ + models_text(endpoint.models) + "\n"@
}

/// Shows an endpoint.
pub fn print_endpoint(id: &str, endpoint: &Endpoint) -> (text: String)
    ensures
        text@ == endpoint_text(id@, endpoint@),
{
    let mut text = String::from_str(id);
    text.append("  ");
    text.append(endpoint.runtime.label());
    text.append("  ");
    text.append(endpoint.base_url.as_str());
    text.append("  wire=");
    text.append(endpoint.wire_api.text());
    text.append("\n    ");
    text.append(shown_models(&endpoint.models).as_str());
    text.append("\n");
    text
}

/// What to do once providers have been written.
pub open spec fn next_steps_text(ids: Seq<Seq<char>>) -> Seq<char> {
    if ids.len() == 0 {
        Seq::empty()
    } else {
        "\nGive a role its own endpoint by adding `model_provider = \""@ + ids[0]
            + "\"` to its file under ~/.codex/agents/, then spawn agents with that role.\n"@
    }
}

/// Says what to do once providers have been written.
pub fn print_next_steps(ids: &Vec<String>) -> (text: String)
    ensures
        text@ == next_steps_text(texts(ids@)),
{
    if ids.is_empty() {
        let text = String::new();
        assert(text@ =~= next_steps_text(texts(ids@)));
        return text;
    }
    let mut text = String::from_str(
        "\nGive a role its own endpoint by adding `model_provider = \"",
    );
    text.append(ids[0].as_str());
    text.append("\"` to its file under ~/.codex/agents/, then spawn agents with that role.\n");
    text
}

/// The ports a scan tries.
pub open spec fn scanned_ports(ports: Seq<u16>) -> Seq<u16> {
    if ports.len() == 0 {
        known_ports()
    } else {
        ports
    }
}

/// The base URL a scan asks at a port.
pub open spec fn scan_url(host: Seq<char>, port: u16) -> Seq<char> {
    "http://"@ + host + ":"@ + decimal(port as nat) + "/v1"@
}

/// The ports a scan tries.
pub fn scan_ports(args: &ScanArgs) -> (ports: Vec<u16>)
    ensures
        ports@ == scanned_ports(args.ports@),
{
    if args.ports.is_empty() {
        return default_ports();
    }
    let mut ports: Vec<u16> = Vec::new();
    for i in 0..args.ports.len()
        invariant
            ports@ == args.ports@.take(i as int),
    {
        ports.push(args.ports[i]);
        assert(ports@ =~= args.ports@.take(i + 1));
    }
    assert(ports@ =~= args.ports@);
    ports
}

/// The base URLs a scan asks, one for each port.
pub fn scan_urls(args: &ScanArgs) -> (urls: Vec<String>)
    ensures
        texts(urls@) == scanned_ports(args.ports@).map_values(|port: u16| scan_url(args.host@, port)),
{
    let ports = scan_ports(args);
    let mut urls: Vec<String> = Vec::new();
    for i in 0..ports.len()
        invariant
            urls@.len() == i,
            forall|j: int| 0 <= j < i ==> (#[trigger] urls@[j])@ == scan_url(args.host@, ports@[j]),
    {
        let mut url = String::from_str("http://");
        url.append(args.host.as_str());
        url.append(":");
        url.append(decimal_text(ports[i] as u64).as_str());
        url.append("/v1");
        urls.push(url);
    }
    assert(texts(urls@) =~= scanned_ports(args.ports@).map_values(
        |port: u16| scan_url(args.host@, port),
    ));
    urls
}

/// What a scan says before it asks.
pub fn scan_opening(args: &ScanArgs) -> (text: String)
    ensures
        text@ == "Scanning "@ + args.host@ + " on "@ + decimal(scanned_ports(args.ports@).len())
            + " port(s)…\n\n"@,
{
    let ports = scan_ports(args);
    let mut text = String::from_str("Scanning ");
    text.append(args.host.as_str());
    text.append(" on ");
    text.append(decimal_text(ports.len() as u64).as_str());
    text.append(" port(s)…\n\n");
    text
}

/// The warning that a server disagrees with the provider it is known as. A
/// built-in provider carries a fixed wire protocol, so such a server would fail at
/// request time with nothing pointing at the cause.
pub open spec fn warning_text(id: Seq<char>, configured: WireApi, detected: WireApi) -> Seq<char> {
    "    warning: `"@ + id + "` is configured for "@ + wire_text(configured)
        + ", but this server answers "@ + wire_text(detected)
        + ". Configure it under another id with `codex fleet add`.\n"@
}

/// What a scan says of an endpoint it found.
pub open spec fn found_text(
    providers: Map<Seq<char>, ProviderView>,
    id: Seq<char>,
    endpoint: EndpointView,
) -> Seq<char> {
    if providers.contains_key(id) && providers[id].wire_api != endpoint.wire_api {
        endpoint_text(id, endpoint) + warning_text(id, providers[id].wire_api, endpoint.wire_api)
    } else {
        endpoint_text(id, endpoint)
    }
}

/// Says what a scan found.
fn report_found(config: &Config, id: &str, endpoint: &Endpoint) -> (text: String)
    ensures
        text@ == found_text(providers_view(config.model_providers@), id@, endpoint@),
{
    let mut text = print_endpoint(id, endpoint);
    if let Some(configured) = find_provider(&config.model_providers, id) {
        if configured.wire_api != endpoint.wire_api {
            let mut warning = String::from_str("    warning: `");
            warning.append(id);
            warning.append("` is configured for ");
            warning.append(configured.wire_api.text());
            warning.append(", but this server answers ");
            warning.append(endpoint.wire_api.text());
            warning.append(". Configure it under another id with `codex fleet add`.\n");
            text.append(warning.as_str());
        }
    }
    text
}

/// Endpoints with the ids they are written under.
pub open spec fn assigned(assignments: Seq<(String, Endpoint)>) -> Seq<(Seq<char>, EndpointView)> {
    assignments.map_values(|assignment: (String, Endpoint)| (assignment.0@, assignment.1@))
}

/// The endpoints found, each with the id it is written under.
pub open spec fn assignments_of(
    built_ins: Seq<(String, ModelProviderInfo)>,
    providers: Map<Seq<char>, ProviderView>,
    found: Seq<EndpointView>,
) -> Seq<(Seq<char>, EndpointView)> {
    found.map_values(
        |endpoint: EndpointView| (assigned_id(built_ins, providers, endpoint), endpoint),
    )
}

/// What endpoints are, in order.
pub open spec fn endpoints_view(found: Seq<Endpoint>) -> Seq<EndpointView> {
    found.map_values(|endpoint: Endpoint| endpoint@)
}

/// What a scan says of all the endpoints it found.
pub open spec fn scan_text(
    providers: Map<Seq<char>, ProviderView>,
    assignments: Seq<(Seq<char>, EndpointView)>,
) -> Seq<char>
    decreases assignments.len(),
{
    if assignments.len() == 0 {
        Seq::empty()
    } else {
        scan_text(providers, assignments.drop_last()) + found_text(
            providers,
            assignments.last().0,
            assignments.last().1,
        )
    }
}

/// The changes that declare the endpoints found, except those under an id that is
/// declared already.
pub open spec fn scan_edits(
    providers: Map<Seq<char>, ProviderView>,
    assignments: Seq<(Seq<char>, EndpointView)>,
) -> Seq<EditView>
    decreases assignments.len(),
{
    if assignments.len() == 0 {
        Seq::empty()
    } else {
        let earlier = scan_edits(providers, assignments.drop_last());
        let (id, endpoint) = assignments.last();
        if providers.contains_key(id) {
            earlier
        } else {
            earlier + provider_edits_of(
                id,
                endpoint.base_url,
                label_of(endpoint.runtime),
                endpoint.wire_api,
                None,
            )
        }
    }
}

/// The ids that endpoints are written under.
pub open spec fn assigned_ids(assignments: Seq<(Seq<char>, EndpointView)>) -> Seq<Seq<char>> {
    assignments.map_values(|assignment: (Seq<char>, EndpointView)| assignment.0)
}

/// `edits` are the given changes, and then the one that authorizes the ids beside
/// what was authorized before.
pub open spec fn edits_then_allowlist(
    edits: Seq<EditView>,
    declared: Seq<EditView>,
    existing: Seq<Seq<char>>,
    ids: Seq<Seq<char>>,
) -> bool {
    &&& edits.len() == declared.len() + 1
    &&& edits.drop_last() == declared
    &&& authorizing_edit(edits.last(), existing, ids)
}

/// Plans what a scan says and writes, given what it found.
pub fn plan_scan(
    config: &Config,
    built_ins: &Vec<(String, ModelProviderInfo)>,
    found: &Vec<Endpoint>,
    write: bool,
) -> (plan: Plan)
    ensures
        ({
            let providers = providers_view(config.model_providers@);
            let assignments = assignments_of(built_ins@, providers, endpoints_view(found@));
            let ids = assigned_ids(assignments);
            &&& plan.edits is None ==> plan.closing@ == Seq::<char>::empty()
            &&& found@.len() == 0 ==> plan.edits is None && plan.report@
                == "No inference endpoints answered.\nStart one, or point at another machine with --host.\n"@
            &&& found@.len() > 0 && !write ==> plan.edits is None && plan.report@ == scan_text(
                providers,
                assignments,
            ) + "Re-run with --write to add these to config.toml.\n"@
            &&& found@.len() > 0 && write ==> {
                &&& plan.report@ == scan_text(providers, assignments)
                &&& plan.edits matches Some(edits) && edits_then_allowlist(
                    edits_view(edits@),
                    scan_edits(providers, assignments),
                    config.agent_allowed_model_providers@,
                    ids,
                )
                &&& plan.closing@ == "Wrote "@ + decimal(found@.len())
                    + " endpoint(s) to config.toml and authorized them for agent routing.\n"@
                    + next_steps_text(ids)
            }
        }),
{
    if found.is_empty() {
        return Plan {
            report: String::from_str(
                "No inference endpoints answered.\nStart one, or point at another machine with --host.\n",
            ),
            edits: None,
            closing: String::new(),
        };
    }
    let assignments = assign_provider_ids(config, built_ins, found);
    let ghost providers = providers_view(config.model_providers@);
    let ghost says = assigned(assignments@);
    assert(says =~= assignments_of(built_ins@, providers, endpoints_view(found@)));
    let mut report = String::new();
    let mut edits: Vec<ConfigEdit> = Vec::new();
    let mut written: Vec<String> = Vec::new();
    proof {
        assert(says.take(0) =~= Seq::empty());
        assert(edits_view(edits@) =~= Seq::empty());
        assert(texts(written@) =~= assigned_ids(says.take(0)));
    }
    for i in 0..assignments.len()
        invariant
            says == assigned(assignments@),
            providers == providers_view(config.model_providers@),
            report@ == scan_text(providers, says.take(i as int)),
            edits_view(edits@) == scan_edits(providers, says.take(i as int)),
            texts(written@) == assigned_ids(says.take(i as int)),
    {
        let id: &str = assignments[i].0.as_str();
        let endpoint: &Endpoint = &assignments[i].1;
        let ghost earlier = written@;
        let ghost before = edits@;
        proof {
            assert(says.take(i + 1).drop_last() =~= says.take(i as int));
            assert(says.take(i + 1).last() == (id@, endpoint@));
        }
        report.append(report_found(config, id, endpoint).as_str());
        if find_provider(&config.model_providers, id).is_none() {
            let mut more = provider_edits(
                id,
                endpoint.base_url.as_str(),
                endpoint.runtime.label(),
                endpoint.wire_api,
                None,
            );
            let ghost added = more@;
            edits.append(&mut more);
            assert(edits_view(edits@) =~= edits_view(before) + edits_view(added));
        }
        written.push(id.to_owned());
        proof {
            assert(texts(written@) =~= texts(earlier).push(id@));
            assert(assigned_ids(says.take(i + 1)) =~= assigned_ids(says.take(i as int)).push(id@));
        }
    }
    assert(says.take(says.len() as int) =~= says);
    if !write {
        report.append("Re-run with --write to add these to config.toml.\n");
        return Plan { report, edits: None, closing: String::new() };
    }
    let ghost declared = edits_view(edits@);
    push_edit(&mut edits, allowlist_edit(&config.agent_allowed_model_providers, &written));
    assert(edits_view(edits@).drop_last() =~= declared);
    let mut closing = String::from_str("Wrote ");
    closing.append(decimal_text(written.len() as u64).as_str());
    closing.append(" endpoint(s) to config.toml and authorized them for agent routing.\n");
    closing.append(print_next_steps(&written).as_str());
    Plan { report, edits: Some(edits), closing }
}

/// Whether an id is that of a built-in provider.
pub open spec fn built_in_id(built_ins: Seq<(String, ModelProviderInfo)>, id: Seq<char>) -> bool {
    providers_view(built_ins).contains_key(id)
}

/// Why an id cannot be written, where it cannot.
pub open spec fn id_refused(built_ins: Seq<(String, ModelProviderInfo)>, id: Seq<char>) -> Option<
    Seq<char>,
> {
    if !valid_provider_id(id) {
        Some("provider id must be non-empty and use only letters, digits, `-` and `_`"@)
    } else if built_in_id(built_ins, id) && id != NEBIUS_PROVIDER_ID@ && id
        != NEBIUS_CHAT_PROVIDER_ID@ {
        Some(
            "`"@ + id + "` is a built-in provider and cannot be redefined; choose another id"@,
        )
    } else {
        None
    }
}

/// The error of a check that may have passed.
pub open spec fn refusal(checked: Result<(), String>) -> Option<Seq<char>> {
    match checked {
        Ok(_) => None,
        Err(message) => Some(message@),
    }
}

/// Checks that a provider may be written under an id.
pub fn check_new_id(built_ins: &Vec<(String, ModelProviderInfo)>, id: &str) -> (checked: Result<
    (),
    String,
>)
    ensures
        refusal(checked) == id_refused(built_ins@, id@),
{
    validate_provider_id(id)?;
    if find_provider(built_ins, id).is_some() && !same_text(id, NEBIUS_PROVIDER_ID) && !same_text(
        id,
        NEBIUS_CHAT_PROVIDER_ID,
    ) {
        let mut message = String::from_str("`");
        message.append(id);
        message.append("` is a built-in provider and cannot be redefined; choose another id");
        return Err(message);
    }
    Ok(())
}

/// The wire protocol to configure, where it is known.
pub open spec fn chosen_wire(wire: WireChoice, endpoint: Option<EndpointView>) -> Option<WireApi> {
    match wire {
        WireChoice::Chat => Some(WireApi::Chat),
        WireChoice::Responses => Some(WireApi::Responses),
        WireChoice::Auto => match endpoint {
            Some(endpoint) => Some(endpoint.wire_api),
            None => None,
        },
    }
}

/// What is said of the endpoint to be added.
pub open spec fn added_text(
    id: Seq<char>,
    base_url: Seq<char>,
    endpoint: Option<EndpointView>,
) -> Seq<char> {
    match endpoint {
        Some(endpoint) => endpoint_text(id, endpoint),
        None => id + "  "@ + base_url + "  (not answering)\n"@,
    }
}

/// The label of the endpoint to be added.
pub open spec fn added_label(endpoint: Option<EndpointView>) -> Seq<char> {
    label_of(
        match endpoint {
            Some(endpoint) => endpoint.runtime,
            None => Runtime::Unknown,
        },
    )
}

/// The view of a borrowed endpoint that may be absent.
pub open spec fn endpoint_ref(endpoint: Option<&Endpoint>) -> Option<EndpointView> {
    match endpoint {
        Some(endpoint) => Some(endpoint@),
        None => None,
    }
}

/// The plan to add an endpoint: an error where its wire protocol is not known, and
/// else the provider and its authorization.
pub open spec fn planned_addition(
    plan: Result<Plan, String>,
    allowed: Seq<Seq<char>>,
    args: AddArgs,
    answer: Option<EndpointView>,
) -> bool {
    let base_url = without_trailing_slashes(args.url@);
    match chosen_wire(args.wire, answer) {
        None => plan matches Err(message) && message@ == base_url
            + " did not answer, so its wire protocol is unknown. Start the server, or pass --wire chat|responses to configure it anyway."@,
        Some(wire_api) => {
            &&& plan matches Ok(plan)
            &&& plan.report@ == added_text(args.id@, base_url, answer)
            &&& plan.edits matches Some(edits)
            &&& edits_then_allowlist(
                edits_view(edits@),
                provider_edits_of(
                    args.id@,
                    base_url,
                    added_label(answer),
                    wire_api,
                    text_option(args.api_key_env),
                ),
                allowed,
                seq![args.id@],
            )
            &&& plan.closing@ == "Added `"@ + args.id@
                + "` and authorized it for agent routing.\n"@ + next_steps_text(seq![args.id@])
        },
    }
}

/// Plans what adding an endpoint says and writes, given what probing it told. The id
/// is taken as it is; [`plan_new_provider`] checks it first.
pub fn plan_add(config: &Config, args: &AddArgs, endpoint: Option<&Endpoint>) -> (plan: Result<
    Plan,
    String,
>)
    ensures
        planned_addition(
            plan,
            config.agent_allowed_model_providers@,
            *args,
            endpoint_ref(endpoint),
        ),
{
    let base_url = trim_end_slashes(args.url.as_str());
    let wire_api = match args.wire {
        WireChoice::Chat => WireApi::Chat,
        WireChoice::Responses => WireApi::Responses,
        WireChoice::Auto => match endpoint {
            Some(endpoint) => endpoint.wire_api,
            None => {
                let mut message = base_url.to_owned();
                message.append(
                    " did not answer, so its wire protocol is unknown. Start the server, or pass --wire chat|responses to configure it anyway.",
                );
                return Err(message);
            },
        },
    };
    let report = match endpoint {
        Some(endpoint) => print_endpoint(args.id.as_str(), endpoint),
        None => {
            let mut text = args.id.clone();
            text.append("  ");
            text.append(base_url);
            text.append("  (not answering)\n");
            text
        },
    };
    let label = match endpoint {
        Some(endpoint) => endpoint.runtime.label(),
        None => Runtime::Unknown.label(),
    };
    let mut edits = provider_edits(
        args.id.as_str(),
        base_url,
        label,
        wire_api,
        borrow_option(&args.api_key_env),
    );
    let ghost declared = edits_view(edits@);
    let mut ids: Vec<String> = Vec::new();
    ids.push(args.id.clone());
    assert(texts(ids@) =~= seq![args.id@]);
    push_edit(&mut edits, allowlist_edit(&config.agent_allowed_model_providers, &ids));
    assert(edits_view(edits@).drop_last() =~= declared);
    let mut closing = String::from_str("Added `");
    closing.append(args.id.as_str());
    closing.append("` and authorized it for agent routing.\n");
    closing.append(print_next_steps(&ids).as_str());
    Ok(Plan { report, edits: Some(edits), closing })
}

/// Plans what adding an endpoint says and writes, unless its id may not be written.
/// An error writes nothing.
pub fn plan_new_provider(
    config: &Config,
    built_ins: &Vec<(String, ModelProviderInfo)>,
    args: &AddArgs,
    endpoint: Option<&Endpoint>,
) -> (plan: Result<Plan, String>)
    ensures
        plan is Err <==> id_refused(built_ins@, args.id@) is Some || chosen_wire(
            args.wire,
            endpoint_ref(endpoint),
        ) is None,
        match id_refused(built_ins@, args.id@) {
            Some(refused) => plan matches Err(message) && message@ == refused,
            None => planned_addition(
                plan,
                config.agent_allowed_model_providers@,
                *args,
                endpoint_ref(endpoint),
            ),
        },
{
    if let Err(message) = check_new_id(built_ins, args.id.as_str()) {
        return Err(message);
    }
    plan_add(config, args, endpoint)
}

} // verus!
