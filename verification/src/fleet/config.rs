//! The configuration a fleet is read from, and the edits that are made to it.

use vstd::prelude::*;
use crate::order::{ascending, before, is_before, lemma_total, lemma_transitive};
use crate::text::{same_text, text_option, texts};

verus! {

/// The protocol an endpoint is spoken to in.
#[derive(Clone, Copy, Debug, PartialEq, Eq, Structural)]
pub enum WireApi {
    /// The Responses API, at `/v1/responses`.
    Responses,
    /// Chat Completions, at `/v1/chat/completions`.
    Chat,
}

/// The name a protocol has in the configuration.
pub open spec fn wire_text(wire_api: WireApi) -> Seq<char> {
    match wire_api {
        WireApi::Responses => "responses"@,
        WireApi::Chat => "chat"@,
    }
}

impl WireApi {
    /// The name the protocol has in the configuration.
    pub fn text(self) -> (text: &'static str)
        ensures
            text@ == wire_text(self),
    {
        match self {
            WireApi::Responses => "responses",
            WireApi::Chat => "chat",
        }
    }
}

/// What the configuration says of a provider.
#[derive(Debug, PartialEq, Eq)]
pub struct ModelProviderInfo {
    /// A provider without one resolves its endpoint at request time.
    pub base_url: Option<String>,
    /// Environment variable that holds the API key, for endpoints that need one.
    pub env_key: Option<String>,
    pub wire_api: WireApi,
}

/// What is known of a provider.
pub struct ProviderView {
    pub base_url: Option<Seq<char>>,
    pub env_key: Option<Seq<char>>,
    pub wire_api: WireApi,
}

impl ModelProviderInfo {
    pub open spec fn view(&self) -> ProviderView {
        ProviderView {
            base_url: text_option(self.base_url),
            env_key: text_option(self.env_key),
            wire_api: self.wire_api,
        }
    }
}

impl Default for ModelProviderInfo {
    fn default() -> (provider: Self)
        ensures
            provider@ == (ProviderView {
                base_url: None,
                env_key: None,
                wire_api: WireApi::Responses,
            }),
    {
        ModelProviderInfo { base_url: None, env_key: None, wire_api: WireApi::Responses }
    }
}

/// The providers of a list of entries; where an id stands twice, the later entry
/// counts.
pub open spec fn providers_view(entries: Seq<(String, ModelProviderInfo)>) -> Map<
    Seq<char>,
    ProviderView,
>
    decreases entries.len(),
{
    if entries.len() == 0 {
        Map::empty()
    } else {
        providers_view(entries.drop_last()).insert(entries.last().0@, entries.last().1@)
    }
}

/// Finds a provider by its id.
pub fn find_provider<'a>(entries: &'a Vec<(String, ModelProviderInfo)>, id: &str) -> (provider:
    Option<&'a ModelProviderInfo>)
    ensures
        match provider {
            Some(provider) => providers_view(entries@).contains_key(id@) && providers_view(
                entries@,
            )[id@] == provider@,
            None => !providers_view(entries@).contains_key(id@),
        },
{
    let mut i: usize = entries.len();
    assert(entries@.take(i as int) =~= entries@);
    while i > 0
        invariant
            i <= entries@.len(),
            providers_view(entries@).contains_key(id@) == providers_view(
                entries@.take(i as int),
            ).contains_key(id@),
            providers_view(entries@).contains_key(id@) ==> providers_view(entries@)[id@]
                == providers_view(entries@.take(i as int))[id@],
        decreases i,
    {
        assert(entries@.take(i as int).drop_last() =~= entries@.take(i - 1));
        assert(entries@.take(i as int).last() == entries@[i - 1]);
        i = i - 1;
        if same_text(entries[i].0.as_str(), id) {
            return Some(&entries[i].1);
        }
    }
    None
}

/// A set of provider ids, kept in order.
#[derive(Debug, PartialEq, Eq)]
pub struct ProviderSet {
    ids: Vec<String>,
}

impl ProviderSet {
    /// The ids, in order.
    pub closed spec fn view(&self) -> Seq<Seq<char>> {
        texts(self.ids@)
    }

    /// Each id stands once, and in its place.
    #[verifier::type_invariant]
    pub open spec fn in_order(self) -> bool {
        ascending(self@)
    }

    /// No ids.
    pub fn new() -> (set: ProviderSet)
        ensures
            set@ == Seq::<Seq<char>>::empty(),
    {
        let set = ProviderSet { ids: Vec::new() };
        assert(set@ =~= Seq::<Seq<char>>::empty());
        set
    }

    /// How many ids there are.
    pub fn len(&self) -> (count: usize)
        ensures
            count == self@.len(),
    {
        self.ids.len()
    }

    /// Whether there are no ids.
    pub fn is_empty(&self) -> (empty: bool)
        ensures
            empty == (self@.len() == 0),
    {
        self.ids.len() == 0
    }

    /// The id at a position.
    pub fn get(&self, i: usize) -> (id: &str)
        requires
            i < self@.len(),
        ensures
            id@ == self@[i as int],
    {
        self.ids[i].as_str()
    }

    /// Whether the id is in the set.
    pub fn contains(&self, id: &str) -> (found: bool)
        ensures
            found == self@.contains(id@),
    {
        crate::text::list_contains(&self.ids, id)
    }

    /// The ids as a list, in order.
    pub fn to_list(&self) -> (list: Vec<String>)
        ensures
            texts(list@) == self@,
            ascending(texts(list@)),
    {
        proof {
            use_type_invariant(self);
        }
        crate::text::copy_list(&self.ids)
    }

    /// The same ids again.
    pub fn copy(&self) -> (set: ProviderSet)
        ensures
            set@ == self@,
    {
        ProviderSet { ids: self.to_list() }
    }

    /// Adds an id.
    pub fn insert(&mut self, id: &str)
        ensures
            ascending(final(self)@),
            forall|text: Seq<char>| #[trigger]
                final(self)@.contains(text) <==> old(self)@.contains(text) || text == id@,
    {
        proof {
            use_type_invariant(&*self);
        }
        let mut ids: Vec<String> = Vec::new();
        std::mem::swap(&mut ids, &mut self.ids);
        let ghost earlier = texts(ids@);
        let mut at: usize = 0;
        while at < ids.len() && is_before(ids[at].as_str(), id)
            invariant
                at <= ids@.len(),
                earlier == texts(ids@),
                forall|i: int| 0 <= i < at ==> before(#[trigger] earlier[i], id@),
            decreases ids@.len() - at,
        {
            at = at + 1;
        }
        if at < ids.len() && same_text(ids[at].as_str(), id) {
            assert(earlier[at as int] == id@);
            self.ids = ids;
            return;
        }
        let ghost inserted = earlier.insert(at as int, id@);
        ids.insert(at, id.to_owned());
        proof {
            assert(texts(ids@) =~= inserted);
            lemma_inserted(earlier, at as int, id@);
        }
        self.ids = ids;
    }

    /// A set of the given ids.
    pub fn from_list(list: &Vec<String>) -> (set: ProviderSet)
        ensures
            ascending(set@),
            forall|text: Seq<char>| #[trigger]
                set@.contains(text) <==> texts(list@).contains(text),
    {
        let mut set = ProviderSet::new();
        set.insert_all(list);
        assert forall|text: Seq<char>| #[trigger] set@.contains(text) <==> texts(list@).contains(
            text,
        ) by {
            assert(!Seq::<Seq<char>>::empty().contains(text));
        }
        set
    }

    /// Adds ids.
    pub fn insert_all(&mut self, list: &Vec<String>)
        ensures
            ascending(final(self)@),
            forall|text: Seq<char>| #[trigger]
                final(self)@.contains(text) <==> old(self)@.contains(text) || texts(
                    list@,
                ).contains(text),
    {
        proof {
            use_type_invariant(&*self);
        }
        let ghost said = texts(list@);
        for i in 0..list.len()
            invariant
                said == texts(list@),
                ascending(self@),
                forall|text: Seq<char>| #[trigger]
                    self@.contains(text) <==> old(self)@.contains(text) || said.take(
                        i as int,
                    ).contains(text),
        {
            let ghost so_far = self@;
            self.insert(list[i].as_str());
            assert forall|text: Seq<char>| #[trigger] self@.contains(text) <==> old(
                self,
            )@.contains(text) || said.take(i + 1).contains(text) by {
                lemma_take_contains(said, i as int, text);
                assert(so_far.contains(text) <==> old(self)@.contains(text) || said.take(
                    i as int,
                ).contains(text));
            }
        }
        assert(said.take(said.len() as int) =~= said);
    }
}

/// What one more element of a list adds to what it holds.
proof fn lemma_take_contains(list: Seq<Seq<char>>, i: int, text: Seq<char>)
    requires
        0 <= i < list.len(),
    ensures
        list.take(i + 1).contains(text) <==> list.take(i).contains(text) || text == list[i],
{
    let longer = list.take(i + 1);
    let shorter = list.take(i);
    if longer.contains(text) {
        let j = choose|j: int| 0 <= j < longer.len() && longer[j] == text;
        if j < i {
            assert(shorter[j] == text);
        }
    }
    if shorter.contains(text) {
        let j = choose|j: int| 0 <= j < shorter.len() && shorter[j] == text;
        assert(longer[j] == text);
    }
    if text == list[i] {
        assert(longer[i] == text);
    }
}

/// Inserting a text behind all that come before it, and before one that does not,
/// keeps the order.
proof fn lemma_inserted(list: Seq<Seq<char>>, at: int, text: Seq<char>)
    requires
        ascending(list),
        0 <= at <= list.len(),
        forall|i: int| 0 <= i < at ==> before(#[trigger] list[i], text),
        at < list.len() ==> !before(list[at], text) && list[at] != text,
    ensures
        ascending(list.insert(at, text)),
        forall|other: Seq<char>| #[trigger]
            list.insert(at, text).contains(other) <==> list.contains(other) || other == text,
{
    let longer = list.insert(at, text);
    if at < list.len() {
        lemma_total(text, list[at]);
    }
    assert forall|i: int, j: int|
        #![trigger longer[i], longer[j]]
        0 <= i < j < longer.len() implies before(longer[i], longer[j]) by {
        if j < at {
            assert(before(list[i], list[j]));
        } else if j == at {
            assert(before(list[i], text));
        } else if i < at {
            assert(before(list[i], list[j - 1]));
        } else if i == at {
            if j - 1 > at {
                assert(before(list[at], list[j - 1]));
                lemma_transitive(text, list[at], list[j - 1]);
            }
        } else {
            assert(before(list[i - 1], list[j - 1]));
        }
    }
    assert forall|other: Seq<char>| #[trigger] longer.contains(other) <==> list.contains(other)
        || other == text by {
        if list.contains(other) {
            let i = choose|i: int| 0 <= i < list.len() && list[i] == other;
            if i < at {
                assert(longer[i] == other);
            } else {
                assert(longer[i + 1] == other);
            }
        }
        if other == text {
            assert(longer[at] == other);
        }
        if longer.contains(other) && other != text {
            let i = choose|i: int| 0 <= i < longer.len() && longer[i] == other;
            if i < at {
                assert(list[i] == other);
            } else {
                assert(list[i - 1] == other);
            }
        }
    }
}

/// What a fleet is run from.
#[derive(Debug, PartialEq, Eq)]
pub struct Config {
    pub model_provider_id: String,
    pub model_provider: ModelProviderInfo,
    pub model: Option<String>,
    /// Declared providers, by id.
    pub model_providers: Vec<(String, ModelProviderInfo)>,
    /// Providers that roles may route their agents to.
    pub agent_allowed_model_providers: ProviderSet,
    /// Whether the multi-agent backend is enabled.
    pub multi_agent_v2: bool,
    /// How many levels of agents may spawn further agents.
    pub agent_max_depth: i32,
}

/// A value written to the configuration.
#[derive(Debug, PartialEq, Eq)]
pub enum ConfigValue {
    Text(String),
    List(Vec<String>),
    Integer(i64),
}

/// What a value says.
pub enum ValueView {
    Text(Seq<char>),
    List(Seq<Seq<char>>),
    Integer(i64),
}

impl ConfigValue {
    pub open spec fn view(&self) -> ValueView {
        match self {
            ConfigValue::Text(text) => ValueView::Text(text@),
            ConfigValue::List(list) => ValueView::List(texts(list@)),
            ConfigValue::Integer(n) => ValueView::Integer(*n),
        }
    }
}

/// One change to the configuration.
#[derive(Debug, PartialEq, Eq)]
pub enum ConfigEdit {
    /// Sets what stands at a path.
    SetPath { segments: Vec<String>, value: ConfigValue },
}

/// What a change says.
pub struct EditView {
    pub segments: Seq<Seq<char>>,
    pub value: ValueView,
}

impl ConfigEdit {
    pub open spec fn view(&self) -> EditView {
        match self {
            ConfigEdit::SetPath { segments, value } => EditView {
                segments: texts(segments@),
                value: value@,
            },
        }
    }
}

/// What a run of changes says.
pub open spec fn edits_view(edits: Seq<ConfigEdit>) -> Seq<EditView> {
    edits.map_values(|edit: ConfigEdit| edit@)
}

/// The change that sets a text at a path of three segments.
pub open spec fn text_edit(
    first: Seq<char>,
    second: Seq<char>,
    third: Seq<char>,
    text: Seq<char>,
) -> EditView {
    EditView { segments: seq![first, second, third], value: ValueView::Text(text) }
}

/// Makes the change that sets a text at a path of three segments.
pub(crate) fn set_text(first: &str, second: &str, third: &str, text: &str) -> (edit: ConfigEdit)
    ensures
        edit@ == text_edit(first@, second@, third@, text@),
{
    let mut segments: Vec<String> = Vec::new();
    segments.push(first.to_owned());
    segments.push(second.to_owned());
    segments.push(third.to_owned());
    assert(texts(segments@) =~= seq![first@, second@, third@]);
    ConfigEdit::SetPath { segments, value: ConfigValue::Text(text.to_owned()) }
}

/// Adds a change.
pub(crate) fn push_edit(edits: &mut Vec<ConfigEdit>, edit: ConfigEdit)
    ensures
        edits_view(final(edits)@) == edits_view(old(edits)@).push(edit@),
{
    edits.push(edit);
    assert(edits_view(edits@) =~= edits_view(old(edits)@).push(edit@));
}

} // verus!
