//! Tool calls, reassembled from the fragments they are streamed in.

use vstd::prelude::*;
use std::collections::HashMap;
use crate::json::{as_integer, field, text_field, Json, JsonView};
use crate::text::{copy_option, same_text, str_option, text_option, text_or_empty};

verus! {

broadcast use vstd::std_specs::hash::group_hash_axioms;

/// A tool call reassembled from `delta.tool_calls` fragments.
#[derive(Debug)]
pub struct ToolCallAccumulator {
    pub id: Option<String>,
    pub name: Option<String>,
    pub arguments: String,
}

/// What is known of a tool call so far.
pub struct CallView {
    pub id: Option<Seq<char>>,
    pub name: Option<Seq<char>>,
    pub arguments: Seq<char>,
}

impl ToolCallAccumulator {
    pub open spec fn view(&self) -> CallView {
        CallView {
            id: text_option(self.id),
            name: text_option(self.name),
            arguments: self.arguments@,
        }
    }
}

/// A call of which nothing is known yet.
pub open spec fn blank_call() -> CallView {
    CallView { id: None, name: None, arguments: Seq::empty() }
}

/// The tool calls of a turn, in the order in which they were first mentioned.
#[derive(Debug)]
pub struct ToolCallBuffer {
    pub calls: Vec<ToolCallAccumulator>,
    /// Wire `index` values seen so far, mapped to positions in `calls`.
    pub positions: HashMap<i64, usize>,
}

/// The buffered tool calls, and where each wire `index` seen so far stands.
pub struct BufferView {
    pub calls: Seq<CallView>,
    pub positions: Map<i64, usize>,
}

/// What the buffered calls say.
pub open spec fn calls_view(calls: Seq<ToolCallAccumulator>) -> Seq<CallView> {
    calls.map_values(|call: ToolCallAccumulator| call@)
}

/// Every wire `index` has a call of its own.
pub open spec fn buffer_wf(buffer: BufferView) -> bool {
    &&& forall|index: i64| #[trigger]
        buffer.positions.contains_key(index) ==> buffer.positions[index] < buffer.calls.len()
    &&& forall|one: i64, other: i64|
        #![trigger buffer.positions[one], buffer.positions[other]]
        buffer.positions.contains_key(one) && buffer.positions.contains_key(other)
            && buffer.positions[one] == buffer.positions[other] ==> one == other
}

/// The call at `position` carries the given id.
pub open spec fn has_id(calls: Seq<CallView>, id: Seq<char>, position: int) -> bool {
    0 <= position < calls.len() && calls[position].id == Some(id)
}

/// `position` is the first whose call carries the given id.
pub open spec fn first_with_id(calls: Seq<CallView>, id: Seq<char>, position: int) -> bool {
    &&& has_id(calls, id, position)
    &&& forall|earlier: int| 0 <= earlier < position ==> !has_id(calls, id, earlier)
}

/// The buffer with a blank call at its end.
pub open spec fn with_blank(buffer: BufferView) -> BufferView {
    BufferView { calls: buffer.calls.push(blank_call()), ..buffer }
}

/// Where a fragment belongs, and the buffer with room for it.
///
/// A known `index` keeps its call and a new one opens a call. Without an index
/// the id decides in the same way, and without either the fragment extends the
/// most recent call.
pub open spec fn slot_for(buffer: BufferView, index: Option<i64>, id: Option<Seq<char>>) -> (
    BufferView,
    int,
) {
    let end = buffer.calls.len() as int;
    match (index, id) {
        (Some(index), _) => if buffer.positions.contains_key(index) {
            (buffer, buffer.positions[index] as int)
        } else {
            (
                BufferView {
                    positions: buffer.positions.insert(index, end as usize),
                    ..with_blank(buffer)
                },
                end,
            )
        },
        (None, Some(id)) => if exists|position: int| first_with_id(buffer.calls, id, position) {
            (buffer, choose|position: int| first_with_id(buffer.calls, id, position))
        } else {
            (with_blank(buffer), end)
        },
        (None, None) => if end == 0 {
            (with_blank(buffer), 0)
        } else {
            (buffer, end - 1)
        },
    }
}

/// The text under `function.<key>` of a fragment.
pub open spec fn function_text(fragment: JsonView, key: Seq<char>) -> Option<Seq<char>> {
    match field(fragment, "function"@) {
        Some(function) => text_field(function, key),
        None => None,
    }
}

/// A call after a fragment: the id and a nonempty name replace what was known,
/// the arguments extend it.
pub open spec fn extended(call: CallView, fragment: JsonView) -> CallView {
    CallView {
        id: match text_field(fragment, "id"@) {
            Some(id) => Some(id),
            None => call.id,
        },
        name: match function_text(fragment, "name"@) {
            Some(name) => if name.len() > 0 {
                Some(name)
            } else {
                call.name
            },
            None => call.name,
        },
        arguments: call.arguments + text_or_empty(function_text(fragment, "arguments"@)),
    }
}

/// The buffer after a fragment.
pub open spec fn with_fragment(buffer: BufferView, fragment: JsonView) -> BufferView {
    let (roomy, position) = slot_for(
        buffer,
        as_integer(field(fragment, "index"@)),
        text_field(fragment, "id"@),
    );
    BufferView {
        calls: roomy.calls.update(position, extended(roomy.calls[position], fragment)),
        ..roomy
    }
}

/// The buffer after a run of fragments.
pub open spec fn with_fragments(buffer: BufferView, fragments: Seq<JsonView>) -> BufferView
    decreases fragments.len(),
{
    if fragments.len() == 0 {
        buffer
    } else {
        with_fragment(with_fragments(buffer, fragments.drop_last()), fragments.last())
    }
}

impl ToolCallBuffer {
    pub open spec fn view(&self) -> BufferView {
        BufferView { calls: calls_view(self.calls@), positions: self.positions@ }
    }

    /// Every wire `index` has a call of its own.
    pub open spec fn wf(&self) -> bool {
        buffer_wf(self@)
    }

    /// No calls.
    pub fn new() -> (buffer: ToolCallBuffer)
        ensures
            buffer.wf(),
            buffer@.calls == Seq::<CallView>::empty(),
            buffer@.positions == Map::<i64, usize>::empty(),
    {
        let buffer = ToolCallBuffer { calls: Vec::new(), positions: HashMap::new() };
        assert(buffer@.calls =~= Seq::<CallView>::empty());
        buffer
    }

    fn push_blank(&mut self)
        ensures
            final(self)@ == with_blank(old(self)@),
            final(self).positions == old(self).positions,
    {
        self.calls.push(ToolCallAccumulator { id: None, name: None, arguments: String::new() });
        assert(calls_view(self.calls@) =~= calls_view(old(self).calls@).push(blank_call()));
    }

    /// The first call that carries the given id.
    fn position_of_id(&self, id: &str) -> (position: Option<usize>)
        ensures
            match position {
                Some(position) => first_with_id(self@.calls, id@, position as int),
                None => forall|position: int| !has_id(self@.calls, id@, position),
            },
    {
        for i in 0..self.calls.len()
            invariant
                forall|earlier: int| 0 <= earlier < i ==> !has_id(self@.calls, id@, earlier),
        {
            if let Some(known) = &self.calls[i].id {
                if same_text(known.as_str(), id) {
                    return Some(i);
                }
            }
        }
        None
    }

    /// Resolves the slot a fragment belongs to.
    ///
    /// Well-behaved servers key fragments by `index`. Some send whole tool calls
    /// with no index at all, so fall back to matching on `id` and finally to
    /// extending the most recent call.
    pub fn slot(&mut self, index: Option<i64>, id: Option<&str>) -> (position: usize)
        requires
            old(self).wf(),
        ensures
            final(self).wf(),
            (final(self)@, position as int) == slot_for(old(self)@, index, str_option(id)),
            position < final(self)@.calls.len(),
    {
        if let Some(index) = index {
            if let Some(position) = self.positions.get(&index) {
                return *position;
            }
            let position: usize = self.calls.len();
            self.push_blank();
            self.positions.insert(index, position);
            return position;
        }
        if let Some(id) = id {
            if let Some(position) = self.position_of_id(id) {
                return position;
            }
            let position: usize = self.calls.len();
            self.push_blank();
            return position;
        }
        if self.calls.is_empty() {
            self.push_blank();
        }
        assert(self@.calls.len() == self.calls@.len());
        self.calls.len() - 1
    }

    /// Whether no call was mentioned yet.
    pub fn is_empty(&self) -> (empty: bool)
        ensures
            empty == (self@.calls.len() == 0),
    {
        self.calls.is_empty()
    }
}

/// Adds a `delta.tool_calls` fragment to the call it belongs to.
pub fn apply_tool_call_fragment(fragment: &Json, buffer: &mut ToolCallBuffer)
    requires
        old(buffer).wf(),
    ensures
        final(buffer).wf(),
        final(buffer)@ == with_fragment(old(buffer)@, fragment@),
{
    let index = match fragment.get("index") {
        Some(index) => index.as_i64(),
        None => None,
    };
    let id = fragment.get_text("id");
    let position: usize = buffer.slot(index, id);
    let ghost roomy = buffer@;
    let mut call = ToolCallAccumulator {
        id: copy_option(&buffer.calls[position].id),
        name: copy_option(&buffer.calls[position].name),
        arguments: buffer.calls[position].arguments.clone(),
    };
    assert(call@ == roomy.calls[position as int]);
    if let Some(id) = id {
        call.id = Some(id.to_owned());
    }
    if let Some(function) = fragment.get("function") {
        if let Some(name) = function.get_text("name") {
            if !name.is_empty() {
                call.name = Some(name.to_owned());
            }
        }
        if let Some(arguments) = function.get_text("arguments") {
            call.arguments.append(arguments);
        }
    }
    assert(call@.arguments =~= extended(roomy.calls[position as int], fragment@).arguments);
    assert(call@ == extended(roomy.calls[position as int], fragment@));
    buffer.calls.set(position, call);
    assert(buffer@.calls =~= roomy.calls.update(position as int, call@));
}

} // verus!
