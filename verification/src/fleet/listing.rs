//! The table of configured endpoints.

use vstd::prelude::*;
use crate::order::ascending;
use crate::text::{append_padded, byte_len, decimal, decimal_text, padded, texts};
use super::config::{
    find_provider, providers_view, wire_text, Config, ModelProviderInfo, ProviderSet, ProviderView,
    WireApi,
};
use super::urls::{is_loopback_url, loopback};

verus! {

/// One line of the table.
#[derive(Debug, PartialEq, Eq)]
pub struct ListRow {
    pub id: String,
    pub wire_api: WireApi,
    /// Whether roles may route their agents to the provider.
    pub routable: bool,
    /// The endpoint as it is shown.
    pub base_url: String,
    /// Whether the endpoint is to be probed. Only local ones are: a hosted one needs
    /// credentials, and an unauthenticated request would report a misleading
    /// failure.
    pub local: bool,
}

/// What a line of the table says.
pub struct RowView {
    pub id: Seq<char>,
    pub wire_api: WireApi,
    pub routable: bool,
    pub base_url: Seq<char>,
    pub local: bool,
}

impl ListRow {
    pub open spec fn view(&self) -> RowView {
        RowView {
            id: self.id@,
            wire_api: self.wire_api,
            routable: self.routable,
            base_url: self.base_url@,
            local: self.local,
        }
    }
}

/// What the lines of the table say.
pub open spec fn rows_view(rows: Seq<ListRow>) -> Seq<RowView> {
    rows.map_values(|row: ListRow| row@)
}

/// The endpoint as it is shown. A provider with no configured URL still resolves
/// one at request time.
pub open spec fn shown_url(base_url: Option<Seq<char>>) -> Seq<char> {
    match base_url {
        Some(base_url) => base_url,
        None => "(built-in endpoint)"@,
    }
}

/// The line of the table for a provider.
pub open spec fn row_of(
    providers: Map<Seq<char>, ProviderView>,
    allowed: Seq<Seq<char>>,
    id: Seq<char>,
) -> RowView {
    RowView {
        id,
        wire_api: providers[id].wire_api,
        routable: allowed.contains(id),
        base_url: shown_url(providers[id].base_url),
        local: loopback(shown_url(providers[id].base_url)),
    }
}

/// `ids` are those of the providers, in order.
pub open spec fn ids_in_order(ids: Seq<Seq<char>>, providers: Map<Seq<char>, ProviderView>) -> bool {
    &&& ascending(ids)
    &&& forall|id: Seq<char>| #[trigger] ids.contains(id) <==> providers.contains_key(id)
}

proof fn lemma_provider_ids(entries: Seq<(String, ModelProviderInfo)>, id: Seq<char>)
    ensures
        providers_view(entries).contains_key(id) <==> exists|i: int|
            0 <= i < entries.len() && (#[trigger] entries[i]).0@ == id,
    decreases entries.len(),
{
    if entries.len() > 0 {
        let shorter = entries.drop_last();
        lemma_provider_ids(shorter, id);
        if providers_view(entries).contains_key(id) {
            if entries.last().0@ == id {
                assert(entries[entries.len() - 1].0@ == id);
            } else {
                let i = choose|i: int| 0 <= i < shorter.len() && (#[trigger] shorter[i]).0@ == id;
                assert(entries[i].0@ == id);
            }
        }
        if exists|i: int| 0 <= i < entries.len() && (#[trigger] entries[i]).0@ == id {
            let i = choose|i: int| 0 <= i < entries.len() && (#[trigger] entries[i]).0@ == id;
            if i < shorter.len() {
                assert(shorter[i].0@ == id);
            }
        }
    }
}

/// The ids of the declared providers, in order.
fn provider_ids(config: &Config) -> (ids: Vec<String>)
    ensures
        ids_in_order(texts(ids@), providers_view(config.model_providers@)),
{
    let mut ids: Vec<String> = Vec::new();
    let entries: &Vec<(String, ModelProviderInfo)> = &config.model_providers;
    for i in 0..entries.len()
        invariant
            entries == &config.model_providers,
            ids@.len() == i,
            forall|j: int| 0 <= j < i ==> (#[trigger] ids@[j])@ == entries@[j].0@,
    {
        ids.push(entries[i].0.clone());
    }
    let sorted = ProviderSet::from_list(&ids).to_list();
    assert forall|id: Seq<char>| #[trigger] texts(sorted@).contains(id) <==> providers_view(
        entries@,
    ).contains_key(id) by {
        lemma_provider_ids(entries@, id);
        assert(texts(sorted@).contains(id) <==> texts(ids@).contains(id));
        if texts(ids@).contains(id) {
            let i = choose|i: int| 0 <= i < texts(ids@).len() && texts(ids@)[i] == id;
            assert(entries@[i].0@ == id);
        }
        if exists|i: int| 0 <= i < entries@.len() && (#[trigger] entries@[i]).0@ == id {
            let i = choose|i: int| 0 <= i < entries@.len() && (#[trigger] entries@[i]).0@ == id;
            assert(texts(ids@)[i] == ids@[i]@);
        }
    }
    sorted
}

/// `rows` is the table of the providers: a line for each, in the order of their
/// ids.
pub open spec fn lists(
    rows: Seq<RowView>,
    providers: Map<Seq<char>, ProviderView>,
    allowed: Seq<Seq<char>>,
) -> bool {
    &&& ids_in_order(rows.map_values(|row: RowView| row.id), providers)
    &&& forall|i: int|
        0 <= i < rows.len() ==> #[trigger] rows[i] == row_of(providers, allowed, rows[i].id)
}

/// Makes the table of the configured endpoints.
pub fn list_rows(config: &Config) -> (rows: Vec<ListRow>)
    ensures
        lists(
            rows_view(rows@),
            providers_view(config.model_providers@),
            config.agent_allowed_model_providers@,
        ),
{
    let ids = provider_ids(config);
    let ghost providers = providers_view(config.model_providers@);
    let ghost allowed = config.agent_allowed_model_providers@;
    let mut rows: Vec<ListRow> = Vec::new();
    for i in 0..ids.len()
        invariant
            ids_in_order(texts(ids@), providers),
            providers == providers_view(config.model_providers@),
            allowed == config.agent_allowed_model_providers@,
            rows@.len() == i,
            forall|j: int|
                0 <= j < i ==> (#[trigger] rows@[j])@ == row_of(providers, allowed, ids@[j]@),
    {
        let id: &str = ids[i].as_str();
        proof {
            assert(texts(ids@)[i as int] == id@);
            assert(texts(ids@).contains(id@));
        }
        if let Some(provider) = find_provider(&config.model_providers, id) {
            let base_url: &str = match &provider.base_url {
                Some(base_url) => base_url.as_str(),
                None => "(built-in endpoint)",
            };
            rows.push(
                ListRow {
                    id: id.to_owned(),
                    wire_api: provider.wire_api,
                    routable: config.agent_allowed_model_providers.contains(id),
                    base_url: base_url.to_owned(),
                    local: is_loopback_url(base_url),
                },
            );
        }
    }
    proof {
        let says = rows_view(rows@);
        assert(says.map_values(|row: RowView| row.id) =~= texts(ids@));
        assert forall|i: int| 0 <= i < says.len() implies #[trigger] says[i] == row_of(
            providers,
            allowed,
            says[i].id,
        ) by {
            assert(rows@[i]@ == row_of(providers, allowed, ids@[i]@));
        }
    }
    rows
}

/// The width of the first column: that of the longest id, and of its heading at
/// least.
pub open spec fn id_width(rows: Seq<RowView>) -> usize
    decreases rows.len(),
{
    if rows.len() == 0 {
        byte_len("PROVIDER"@)
    } else {
        let earlier = id_width(rows.drop_last());
        let width = byte_len(rows.last().id);
        if width > earlier {
            width
        } else {
            earlier
        }
    }
}

fn widest_id(rows: &Vec<ListRow>) -> (width: usize)
    ensures
        width == id_width(rows_view(rows@)),
{
    let mut width: usize = "PROVIDER".len();
    let ghost says = rows_view(rows@);
    assert(says.take(0) =~= Seq::empty());
    for i in 0..rows.len()
        invariant
            says == rows_view(rows@),
            width == id_width(says.take(i as int)),
    {
        proof {
            assert(says.take(i + 1).drop_last() =~= says.take(i as int));
            assert(says.take(i + 1).last() == rows@[i as int]@);
        }
        let own: usize = rows[i].id.as_str().len();
        if own > width {
            width = own;
        }
    }
    assert(says.take(says.len() as int) =~= says);
    width
}

/// What probing a local endpoint told: how many models it serves, where it
/// answered.
pub open spec fn reachability(local: bool, answer: Option<usize>) -> Seq<char> {
    if !local {
        Seq::empty()
    } else {
        match answer {
            Some(count) => if count == 1 {
                "  (1 model)"@
            } else {
                "  ("@ + decimal(count as nat) + " models)"@
            },
            None => "  (not answering)"@,
        }
    }
}

/// One line of the table as text.
pub open spec fn row_text(row: RowView, width: usize, answer: Option<usize>) -> Seq<char> {
    padded(row.id, width as nat) + " "@ + padded(wire_text(row.wire_api), 10) + " "@ + padded(
        if row.routable {
            "yes"@
        } else {
            "no"@
        },
        9,
    ) + " "@ + row.base_url + reachability(row.local, answer) + "\n"@
}

/// The lines of the table as text.
pub open spec fn rows_text(rows: Seq<RowView>, width: usize, answers: Seq<Option<usize>>) -> Seq<
    char,
>
    decreases rows.len(),
{
    if rows.len() == 0 {
        Seq::empty()
    } else {
        rows_text(rows.drop_last(), width, answers) + row_text(
            rows.last(),
            width,
            answers[rows.len() - 1],
        )
    }
}

/// The heading of the table.
pub open spec fn heading_text(width: usize) -> Seq<char> {
    padded("PROVIDER"@, width as nat) + " "@ + padded("WIRE"@, 10) + " "@ + padded("ROUTABLE"@, 9)
        + " ENDPOINT\n"@
}

/// What is said where no provider may be routed to.
pub open spec fn footer_text(allowed: Seq<Seq<char>>) -> Seq<char> {
    if allowed.len() == 0 {
        "\nNo provider is authorized for agent routing yet, so every agent runs on the session's own endpoint.\n"@
    } else {
        Seq::empty()
    }
}

fn write_reachability(out: &mut String, local: bool, answer: Option<usize>)
    ensures
        final(out)@ == old(out)@ + reachability(local, answer),
{
    if local {
        match answer {
            Some(count) => {
                if count == 1 {
                    out.append("  (1 model)");
                } else {
                    let mut text = String::from_str("  (");
                    text.append(decimal_text(count as u64).as_str());
                    text.append(" models)");
                    out.append(text.as_str());
                }
            },
            None => out.append("  (not answering)"),
        }
    }
    assert(out@ =~= old(out)@ + reachability(local, answer));
}

fn write_row(out: &mut String, row: &ListRow, width: usize, answer: Option<usize>)
    ensures
        final(out)@ == old(out)@ + row_text(row@, width, answer),
{
    append_padded(out, row.id.as_str(), width);
    out.append(" ");
    append_padded(out, row.wire_api.text(), 10);
    out.append(" ");
    let routable: &str = if row.routable {
        "yes"
    } else {
        "no"
    };
    append_padded(out, routable, 9);
    out.append(" ");
    out.append(row.base_url.as_str());
    write_reachability(out, row.local, answer);
    out.append("\n");
    assert(out@ =~= old(out)@ + row_text(row@, width, answer));
}

/// Writes the table, given what probing the local endpoints told.
pub fn list_text(config: &Config, rows: &Vec<ListRow>, answers: &Vec<Option<usize>>) -> (text:
    String)
    requires
        answers@.len() == rows@.len(),
    ensures
        ({
            let says = rows_view(rows@);
            let width = id_width(says);
            text@ == heading_text(width) + rows_text(says, width, answers@) + footer_text(
                config.agent_allowed_model_providers@,
            )
        }),
{
    let width: usize = widest_id(rows);
    let mut text = String::new();
    append_padded(&mut text, "PROVIDER", width);
    text.append(" ");
    append_padded(&mut text, "WIRE", 10);
    text.append(" ");
    append_padded(&mut text, "ROUTABLE", 9);
    text.append(" ENDPOINT\n");
    let ghost says = rows_view(rows@);
    proof {
        assert(text@ =~= heading_text(width));
        assert(says.take(0) =~= Seq::empty());
        assert(text@ =~= heading_text(width) + rows_text(says.take(0), width, answers@));
    }
    for i in 0..rows.len()
        invariant
            answers@.len() == rows@.len(),
            says == rows_view(rows@),
            text@ == heading_text(width) + rows_text(says.take(i as int), width, answers@),
    {
        let ghost so_far = rows_text(says.take(i as int), width, answers@);
        proof {
            assert(says.take(i + 1).drop_last() =~= says.take(i as int));
            assert(says.take(i + 1).last() == rows@[i as int]@);
        }
        write_row(&mut text, &rows[i], width, answers[i]);
        proof {
            let line = row_text(rows@[i as int]@, width, answers@[i as int]);
            assert(heading_text(width) + so_far + line =~= heading_text(width) + (so_far + line));
        }
    }
    assert(says.take(says.len() as int) =~= says);
    if config.agent_allowed_model_providers.is_empty() {
        text.append(
            "\nNo provider is authorized for agent routing yet, so every agent runs on the session's own endpoint.\n",
        );
    }
    assert(text@ =~= heading_text(width) + rows_text(says, width, answers@) + footer_text(
        config.agent_allowed_model_providers@,
    ));
    text
}

} // verus!
