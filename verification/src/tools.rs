//! Tool names on the wire, and the way back from them.
//!
//! Chat Completions has no notion of a namespace, so a namespaced tool travels
//! under a flattened name. The bindings remember what each name stood for.

use vstd::prelude::*;
use crate::text::{contains, occurs_at, str_option, text_option};

verus! {

/// Parts a namespace from a tool name on the wire.
pub const NAMESPACE_SEPARATOR: &'static str = "__";

/// The parameter that carries a freeform tool's single string argument.
pub const FREEFORM_INPUT_PARAM: &'static str = "input";

/// How a wire-level function name maps back onto a tool.
#[derive(Debug, PartialEq, Eq)]
pub struct ChatToolBinding {
    /// Namespace the tool was declared in, if it was namespaced.
    pub namespace: Option<String>,
    /// Tool name as the agent knows it, without the namespace prefix.
    pub name: String,
    /// Freeform tools take a raw string rather than a JSON argument object.
    pub freeform: bool,
}

/// What a binding says.
pub struct BindingView {
    pub namespace: Option<Seq<char>>,
    pub name: Seq<char>,
    pub freeform: bool,
}

impl ChatToolBinding {
    pub open spec fn view(&self) -> BindingView {
        BindingView {
            namespace: text_option(self.namespace),
            name: self.name@,
            freeform: self.freeform,
        }
    }
}

/// The bindings of a list of entries; where a name is bound twice, the later
/// entry counts.
pub open spec fn entries_view(entries: Seq<(String, ChatToolBinding)>) -> Map<
    Seq<char>,
    BindingView,
>
    decreases entries.len(),
{
    if entries.len() == 0 {
        Map::empty()
    } else {
        entries_view(entries.drop_last()).insert(entries.last().0@, entries.last().1@)
    }
}

/// Wire-level function names, each with the tool it stands for.
#[derive(Debug, PartialEq, Eq)]
pub struct ToolBindings {
    pub entries: Vec<(String, ChatToolBinding)>,
}

impl View for ToolBindings {
    type V = Map<Seq<char>, BindingView>;

    open spec fn view(&self) -> Map<Seq<char>, BindingView> {
        entries_view(self.entries@)
    }
}

impl ToolBindings {
    /// No bindings.
    pub fn new() -> (bindings: ToolBindings)
        ensures
            bindings@ == Map::<Seq<char>, BindingView>::empty(),
    {
        ToolBindings { entries: Vec::new() }
    }

    /// Binds a wire name, in place of what it stood for before.
    pub fn insert(&mut self, wire_name: String, binding: ChatToolBinding)
        ensures
            final(self)@ == old(self)@.insert(wire_name@, binding@),
    {
        self.entries.push((wire_name, binding));
        assert(self.entries@.drop_last() =~= old(self).entries@);
    }

    /// The tool a wire name stands for.
    pub fn get(&self, wire_name: &str) -> (binding: Option<&ChatToolBinding>)
        ensures
            match binding {
                Some(binding) => self@.contains_key(wire_name@) && self@[wire_name@] == binding@,
                None => !self@.contains_key(wire_name@),
            },
    {
        let mut i: usize = self.entries.len();
        assert(self.entries@.take(i as int) =~= self.entries@);
        while i > 0
            invariant
                i <= self.entries@.len(),
                self@.contains_key(wire_name@) == entries_view(
                    self.entries@.take(i as int),
                ).contains_key(wire_name@),
                self@.contains_key(wire_name@) ==> self@[wire_name@] == entries_view(
                    self.entries@.take(i as int),
                )[wire_name@],
            decreases i,
        {
            assert(self.entries@.take(i as int).drop_last() =~= self.entries@.take(i - 1));
            assert(self.entries@.take(i as int).last() == self.entries@[i - 1]);
            i = i - 1;
            if *self.entries[i].0.as_str() == *wire_name {
                return Some(&self.entries[i].1);
            }
        }
        None
    }

    /// Whether nothing is bound.
    pub fn is_empty(&self) -> (empty: bool)
        ensures
            empty == (self@ == Map::<Seq<char>, BindingView>::empty()),
    {
        proof {
            if self.entries@.len() > 0 {
                assert(self@.contains_key(self.entries@.last().0@));
            }
        }
        self.entries.len() == 0
    }
}

/// The single name a tool travels under: its namespace, where it has a nonempty
/// one, then the separator, then its own name.
pub open spec fn wire_name(namespace: Option<Seq<char>>, name: Seq<char>) -> Seq<char> {
    match namespace {
        Some(namespace) => if namespace.len() > 0 {
            namespace + NAMESPACE_SEPARATOR@ + name
        } else {
            name
        },
        None => name,
    }
}

/// Flattens `namespace` and `name` into the single name sent on the wire.
pub fn wire_tool_name(namespace: Option<&str>, name: &str) -> (wire: String)
    ensures
        wire@ == wire_name(str_option(namespace), name@),
{
    match namespace {
        Some(namespace) => {
            if namespace.is_empty() {
                name.to_owned()
            } else {
                let mut wire = String::from_str(namespace);
                wire.append(NAMESPACE_SEPARATOR);
                wire.append(name);
                wire
            }
        },
        None => name.to_owned(),
    }
}

/// A name in which no two underscores stand side by side.
pub open spec fn single_underscores(name: Seq<char>) -> bool {
    !contains(name, NAMESPACE_SEPARATOR@)
}

/// The namespace a tool travels under: an empty one is none.
pub open spec fn spoken(namespace: Option<Seq<char>>) -> Option<Seq<char>> {
    match namespace {
        Some(namespace) => if namespace.len() > 0 {
            Some(namespace)
        } else {
            None
        },
        None => None,
    }
}

/// The second tool is the first with the underscore that starts its name moved to the
/// end of its namespace: next to the separator the two cannot be told apart.
pub open spec fn blurred(
    namespace: Option<Seq<char>>,
    name: Seq<char>,
    other_namespace: Option<Seq<char>>,
    other_name: Seq<char>,
) -> bool {
    &&& spoken(namespace) matches Some(short)
    &&& other_namespace == Some(short.push('_'))
    &&& name == seq!['_'] + other_name
}

/// Flattened names never collide: tool names use single underscores, so the last
/// double underscore tells where the namespace ends, whatever the namespace holds.
/// The one exception is an underscore that the namespace of one tool ends with and
/// the name of the other starts with. An empty namespace is as good as none.
pub proof fn flattened_names_never_collide(
    one_namespace: Option<Seq<char>>,
    one_name: Seq<char>,
    other_namespace: Option<Seq<char>>,
    other_name: Seq<char>,
)
    requires
        single_underscores(one_name),
        single_underscores(other_name),
        !blurred(one_namespace, one_name, other_namespace, other_name),
        !blurred(other_namespace, other_name, one_namespace, one_name),
    ensures
        wire_name(one_namespace, one_name) == wire_name(other_namespace, other_name) <==> (spoken(
            one_namespace,
        ) == spoken(other_namespace) && one_name == other_name),
{
    let one = wire_name(one_namespace, one_name);
    let other = wire_name(other_namespace, other_name);
    reveal_strlit("__");
    if one == other {
        match (spoken(one_namespace), spoken(other_namespace)) {
            (Some(first), Some(second)) => {
                if first.len() < second.len() {
                    lemma_longer_namespace(first, one_name, second, other_name);
                } else if second.len() < first.len() {
                    lemma_longer_namespace(second, other_name, first, one_name);
                } else {
                    assert(first =~= one.take(first.len() as int));
                    assert(second =~= other.take(first.len() as int));
                    assert(one_name =~= one.skip(first.len() + 2int));
                    assert(other_name =~= other.skip(first.len() + 2int));
                }
            },
            (Some(first), None) => {
                assert(other.subrange(first.len() as int, first.len() + 2int) =~= "__"@);
                assert(occurs_at(other_name, "__"@, first.len() as int));
            },
            (None, Some(second)) => {
                assert(one.subrange(second.len() as int, second.len() + 2int) =~= "__"@);
                assert(occurs_at(one_name, "__"@, second.len() as int));
            },
            (None, None) => {},
        }
    }
}

/// Where the exception is met, the names do collide.
pub proof fn blurred_names_collide(
    namespace: Option<Seq<char>>,
    name: Seq<char>,
    other_namespace: Option<Seq<char>>,
    other_name: Seq<char>,
)
    requires
        blurred(namespace, name, other_namespace, other_name),
    ensures
        wire_name(namespace, name) == wire_name(other_namespace, other_name),
{
    reveal_strlit("__");
    assert(wire_name(namespace, name) =~= wire_name(other_namespace, other_name));
}

proof fn lemma_longer_namespace(
    short: Seq<char>,
    short_name: Seq<char>,
    long: Seq<char>,
    long_name: Seq<char>,
)
    requires
        short.len() < long.len(),
        single_underscores(short_name),
        short + NAMESPACE_SEPARATOR@ + short_name == long + NAMESPACE_SEPARATOR@ + long_name,
    ensures
        long == short.push('_'),
        short_name == seq!['_'] + long_name,
{
    reveal_strlit("__");
    let wire = short + "__"@ + short_name;
    let same = long + "__"@ + long_name;
    let at = long.len() as int;
    assert(wire == same && wire.len() == same.len());
    assert(same[at] == '_' && same[at + 1] == '_');
    if at >= short.len() + 2 {
        let from = at - short.len() - 2;
        assert(short_name[from] == wire[at] && short_name[from + 1] == wire[at + 1]);
        assert(short_name.subrange(from, from + 2) =~= "__"@);
        assert(occurs_at(short_name, "__"@, from));
    } else {
        assert forall|i: int| 0 <= i < at implies #[trigger] long[i] == short.push('_')[i] by {
            assert(same[i] == wire[i]);
        }
        assert(long =~= short.push('_'));
        assert(short_name.len() == long_name.len() + 1);
        assert forall|i: int| 0 <= i < short_name.len() implies #[trigger] short_name[i] == (
        seq!['_'] + long_name)[i] by {
            assert(wire[short.len() + 2 + i] == same[short.len() + 2 + i]);
        }
        assert(short_name =~= seq!['_'] + long_name);
    }
}

} // verus!
