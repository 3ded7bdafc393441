//! What comes back is what was sent: the flattening of a request is undone when
//! its reply is decoded.

use vstd::prelude::*;
use crate::json::{parsed, reads_as, written};
use crate::protocol::ItemView;
use crate::requests::declarations::{bound, Declaration};
use crate::requests::messages::{call_json, call_of, freeform_object};
use crate::sse::finish::{arguments_of, call_id_of, item_of_call, tool_of, unwrapped};
use crate::sse::tool_calls::CallView;
use crate::tools::{
    blurred, flattened_names_never_collide, single_underscores, spoken, wire_name, BindingView,
};

verus! {

/// Different tools, no two of whose flattened names can be mistaken for one another.
pub open spec fn told_apart(tools: Seq<Declaration>) -> bool {
    forall|i: int, j: int|
        #![trigger tools[i], tools[j]]
        0 <= i < tools.len() && 0 <= j < tools.len() ==> {
            &&& single_underscores(tools[i].name)
            &&& i != j ==> {
                &&& !blurred(
                    tools[i].namespace,
                    tools[i].name,
                    tools[j].namespace,
                    tools[j].name,
                )
                &&& spoken(tools[i].namespace) != spoken(tools[j].namespace) || tools[i].name
                    != tools[j].name
            }
        }
}

/// No later declaration takes the wire name of the tool at `i`.
pub open spec fn keeps_its_name(tools: Seq<Declaration>, i: int) -> bool {
    &&& 0 <= i < tools.len()
    &&& forall|j: int| i < j < tools.len() ==> (#[trigger] tools[j]).wire_name()
        != tools[i].wire_name()
}

/// The last of the declarations that share a wire name is what the name stands
/// for.
pub proof fn the_last_declaration_counts(
    bindings: Map<Seq<char>, BindingView>,
    tools: Seq<Declaration>,
    i: int,
)
    requires
        keeps_its_name(tools, i),
    ensures
        bound(bindings, tools).contains_key(tools[i].wire_name()),
        bound(bindings, tools)[tools[i].wire_name()] == tools[i].binding(),
    decreases tools.len(),
{
    if i < tools.len() - 1 {
        assert(tools[tools.len() - 1].wire_name() != tools[i].wire_name());
        assert forall|j: int| i < j < tools.drop_last().len() implies (
        #[trigger] tools.drop_last()[j]).wire_name() != tools.drop_last()[i].wire_name() by {
            assert(tools[j].wire_name() != tools[i].wire_name());
        }
        the_last_declaration_counts(bindings, tools.drop_last(), i);
    }
}

/// Every one of tools that can be told apart keeps its name, and is found again under
/// it.
pub proof fn every_declared_tool_is_bound(tools: Seq<Declaration>, i: int)
    requires
        told_apart(tools),
        0 <= i < tools.len(),
    ensures
        keeps_its_name(tools, i),
        bound(Map::empty(), tools).contains_key(tools[i].wire_name()),
        bound(Map::empty(), tools)[tools[i].wire_name()] == tools[i].binding(),
{
    assert forall|j: int| i < j < tools.len() implies (#[trigger] tools[j]).wire_name()
        != tools[i].wire_name() by {
        assert(single_underscores(tools[i].name) && single_underscores(tools[j].name));
        flattened_names_never_collide(
            tools[i].namespace,
            tools[i].name,
            tools[j].namespace,
            tools[j].name,
        );
    }
    the_last_declaration_counts(Map::empty(), tools, i);
}

/// A call to a declared tool comes back under the namespace and name the tool was
/// declared by, and in the form it was declared in, whatever its namespace and name,
/// as long as no later declaration takes its wire name.
pub proof fn a_call_comes_back_as_the_tool_it_names(
    tools: Seq<Declaration>,
    i: int,
    call: CallView,
    position: int,
)
    requires
        keeps_its_name(tools, i),
        call.name == Some(tools[i].wire_name()),
    ensures
        item_of_call(call, position, bound(Map::empty(), tools)) == Some(
            if tools[i].freeform {
                ItemView::CustomToolCall {
                    call_id: call_id_of(call, position, tools[i].wire_name()),
                    name: tools[i].name,
                    namespace: tools[i].namespace,
                    input: unwrapped(parsed(call.arguments), call.arguments),
                }
            } else {
                ItemView::FunctionCall {
                    name: tools[i].name,
                    namespace: tools[i].namespace,
                    arguments: arguments_of(call.arguments),
                    call_id: call_id_of(call, position, tools[i].wire_name()),
                }
            },
        ),
{
    the_last_declaration_counts(Map::empty(), tools, i);
}

/// A freeform tool's raw input survives the argument object it travels in.
pub proof fn raw_input_survives(arguments: Seq<char>, input: Seq<char>)
    requires
        reads_as(arguments, freeform_object(input)),
    ensures
        unwrapped(parsed(arguments), arguments) == input,
{
}

/// Every name is bound to a tool that travels under it.
pub open spec fn faithful(bindings: Map<Seq<char>, BindingView>) -> bool {
    forall|name: Seq<char>|
        bindings.contains_key(name) ==> wire_name(
            (#[trigger] bindings[name]).namespace,
            bindings[name].name,
        ) == name
}

/// Declaring tools binds every name to a tool that travels under it.
pub proof fn bindings_are_faithful(bindings: Map<Seq<char>, BindingView>, tools: Seq<Declaration>)
    requires
        faithful(bindings),
    ensures
        faithful(bound(bindings, tools)),
    decreases tools.len(),
{
    if tools.len() > 0 {
        bindings_are_faithful(bindings, tools.drop_last());
    }
}

/// A call that came back goes out again, in the next turn, under the name it came
/// by and with the same id, so that its reply still matches.
pub proof fn a_call_goes_out_as_it_came(
    tools: Seq<Declaration>,
    call: CallView,
    position: int,
    name: Seq<char>,
)
    requires
        call.name == Some(name),
    ensures
        ({
            let bindings = bound(Map::empty(), tools);
            let item = item_of_call(call, position, bindings)->0;
            &&& item_of_call(call, position, bindings) is Some
            &&& call_of(item) == Some(
                call_json(
                    call_id_of(call, position, name),
                    name,
                    if tool_of(bindings, name).freeform {
                        written(freeform_object(unwrapped(parsed(call.arguments), call.arguments)))
                    } else {
                        arguments_of(call.arguments)
                    },
                ),
            )
        }),
{
    bindings_are_faithful(Map::empty(), tools);
}

} // verus!
