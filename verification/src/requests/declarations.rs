//! Tool declarations in the shape Chat Completions takes.
//!
//! Namespaced tools are flattened to plain function names, and a freeform tool is
//! projected onto a function with one string parameter. Tools that run on the
//! server have no counterpart and are dropped.

use vstd::prelude::*;
use crate::json::{
    as_items, field, items_view, lemma_items_push, lemma_items_view, put, text_field, Json,
    JsonView,
};
use crate::requests::messages::json_option;
use crate::text::{own_option, same_text, str_option, text_or_empty};
use crate::tools::{
    wire_name, wire_tool_name, BindingView, ChatToolBinding, ToolBindings, FREEFORM_INPUT_PARAM,
};

verus! {

/// A tool as it is declared to the server.
pub struct Declaration {
    pub namespace: Option<Seq<char>>,
    pub name: Seq<char>,
    pub description: Seq<char>,
    pub parameters: JsonView,
    pub freeform: bool,
}

impl Declaration {
    /// The name the tool travels under.
    pub open spec fn wire_name(self) -> Seq<char> {
        wire_name(self.namespace, self.name)
    }

    /// What that name stands for.
    pub open spec fn binding(self) -> BindingView {
        BindingView { namespace: self.namespace, name: self.name, freeform: self.freeform }
    }

    /// The declaration on the wire.
    pub open spec fn json(self) -> JsonView {
        JsonView::Object(
            map![
                "type"@ => JsonView::Text("function"@),
                "function"@ => JsonView::Object(
                    map![
                        "name"@ => JsonView::Text(self.wire_name()),
                        "description"@ => JsonView::Text(self.description),
                        "parameters"@ => self.parameters,
                    ],
                ),
            ],
        )
    }
}

/// The schema of a tool that takes nothing.
pub open spec fn no_parameters() -> JsonView {
    JsonView::Object(
        map![
            "type"@ => JsonView::Text("object"@),
            "properties"@ => JsonView::Object(map![]),
            "additionalProperties"@ => JsonView::Bool(false),
        ],
    )
}

/// The schema of a tool that takes one string, its raw input.
pub open spec fn freeform_parameters() -> JsonView {
    JsonView::Object(
        map![
            "type"@ => JsonView::Text("object"@),
            "properties"@ => JsonView::Object(
                map![
                    FREEFORM_INPUT_PARAM@ => JsonView::Object(
                        map![
                            "type"@ => JsonView::Text("string"@),
                            "description"@ => JsonView::Text(
                                "Raw tool input, passed through verbatim."@,
                            ),
                        ],
                    ),
                ],
            ),
            "required"@ => JsonView::Array(seq![JsonView::Text(FREEFORM_INPUT_PARAM@)]),
            "additionalProperties"@ => JsonView::Bool(false),
        ],
    )
}

/// The declaration a function or freeform tool becomes, where it has a name.
pub open spec fn declaration(
    tool: JsonView,
    namespace: Option<Seq<char>>,
    freeform: bool,
) -> Option<Declaration> {
    match text_field(tool, "name"@) {
        Some(name) => Some(
            Declaration {
                namespace,
                name,
                description: text_or_empty(text_field(tool, "description"@)),
                parameters: if freeform {
                    freeform_parameters()
                } else {
                    match field(tool, "parameters"@) {
                        Some(parameters) => parameters,
                        None => no_parameters(),
                    }
                },
                freeform,
            },
        ),
        None => None,
    }
}

/// The declaration, where there is one, at the end of the list.
pub open spec fn with_declaration(
    list: Seq<Declaration>,
    declaration: Option<Declaration>,
) -> Seq<Declaration> {
    match declaration {
        Some(declaration) => list.push(declaration),
        None => list,
    }
}

/// Whether a tool is declared to be of the given type.
pub open spec fn of_type(tool: JsonView, wanted: Seq<char>) -> bool {
    text_field(tool, "type"@) == Some(wanted)
}

/// The declarations of the tools of a namespace. Whatever is not freeform is a
/// function there.
pub open spec fn nested_declarations(namespace: Seq<char>, tools: Seq<JsonView>) -> Seq<Declaration>
    decreases tools.len(),
{
    if tools.len() == 0 {
        Seq::empty()
    } else {
        with_declaration(
            nested_declarations(namespace, tools.drop_last()),
            declaration(tools.last(), Some(namespace), of_type(tools.last(), "custom"@)),
        )
    }
}

/// The declarations that one declared tool becomes.
pub open spec fn declarations_of(tool: JsonView) -> Seq<Declaration> {
    if of_type(tool, "function"@) {
        with_declaration(Seq::empty(), declaration(tool, None, false))
    } else if of_type(tool, "custom"@) {
        with_declaration(Seq::empty(), declaration(tool, None, true))
    } else if of_type(tool, "namespace"@) {
        match (text_field(tool, "name"@), as_items(field(tool, "tools"@))) {
            (Some(namespace), Some(tools)) => nested_declarations(namespace, tools),
            _ => Seq::empty(),
        }
    } else {
        Seq::empty()
    }
}

/// The declarations that a list of declared tools becomes.
pub open spec fn declarations(tools: Seq<JsonView>) -> Seq<Declaration>
    decreases tools.len(),
{
    if tools.len() == 0 {
        Seq::empty()
    } else {
        declarations(tools.drop_last()) + declarations_of(tools.last())
    }
}

/// The declarations on the wire.
pub open spec fn declared_json(list: Seq<Declaration>) -> Seq<JsonView> {
    list.map_values(|declaration: Declaration| declaration.json())
}

/// The bindings with those of the declarations; the later of two that share a wire
/// name counts.
pub open spec fn bound(
    bindings: Map<Seq<char>, BindingView>,
    list: Seq<Declaration>,
) -> Map<Seq<char>, BindingView>
    decreases list.len(),
{
    if list.len() == 0 {
        bindings
    } else {
        bound(bindings, list.drop_last()).insert(list.last().wire_name(), list.last().binding())
    }
}

/// Maps a Responses `tool_choice` onto its Chat Completions spelling.
pub open spec fn tool_choice_of(tool_choice: Seq<char>) -> Seq<char> {
    if tool_choice == "none"@ || tool_choice == "required"@ {
        tool_choice
    } else {
        "auto"@
    }
}

/// Maps a Responses `tool_choice` onto its Chat Completions spelling.
pub fn chat_tool_choice<'a>(tool_choice: &'a str) -> (choice: &'a str)
    ensures
        choice@ == tool_choice_of(tool_choice@),
{
    if same_text(tool_choice, "none") || same_text(tool_choice, "required") {
        tool_choice
    } else {
        "auto"
    }
}

fn is_of_type(tool: &Json, wanted: &str) -> (r: bool)
    ensures
        r == of_type(tool@, wanted@),
{
    match tool.get_text("type") {
        Some(kind) => same_text(kind, wanted),
        None => false,
    }
}

/// The schema of a tool that takes nothing.
pub fn empty_parameters() -> (schema: Json)
    ensures
        schema@ == no_parameters(),
{
    let mut fields: Vec<(String, Json)> = Vec::new();
    put(&mut fields, "type", Json::text("object"));
    put(&mut fields, "properties", Json::Object(Vec::new()));
    put(&mut fields, "additionalProperties", Json::Bool(false));
    Json::Object(fields)
}

fn raw_input_parameters() -> (schema: Json)
    ensures
        schema@ == freeform_parameters(),
{
    let mut input: Vec<(String, Json)> = Vec::new();
    put(&mut input, "type", Json::text("string"));
    put(&mut input, "description", Json::text("Raw tool input, passed through verbatim."));
    let mut properties: Vec<(String, Json)> = Vec::new();
    put(&mut properties, FREEFORM_INPUT_PARAM, Json::Object(input));
    let mut required: Vec<Json> = Vec::new();
    let name = Json::text(FREEFORM_INPUT_PARAM);
    proof {
        lemma_items_push(required@, name);
        assert(items_view(required@.push(name)) =~= seq![JsonView::Text(FREEFORM_INPUT_PARAM@)]);
    }
    required.push(name);
    let mut fields: Vec<(String, Json)> = Vec::new();
    put(&mut fields, "type", Json::text("object"));
    put(&mut fields, "properties", Json::Object(properties));
    put(&mut fields, "required", Json::Array(required));
    put(&mut fields, "additionalProperties", Json::Bool(false));
    Json::Object(fields)
}

/// Writes and binds a tool whose name is known.
fn declare(
    tool: &Json,
    name: &str,
    namespace: Option<&str>,
    parameters: Json,
    bindings: &mut ToolBindings,
    freeform: bool,
) -> (declared: Json)
    ensures
        ({
            let says = Declaration {
                namespace: str_option(namespace),
                name: name@,
                description: text_or_empty(text_field(tool@, "description"@)),
                parameters: parameters@,
                freeform,
            };
            &&& declared@ == says.json()
            &&& final(bindings)@ == old(bindings)@.insert(says.wire_name(), says.binding())
        }),
{
    let wire = wire_tool_name(namespace, name);
    let description: &str = match tool.get_text("description") {
        Some(description) => description,
        None => "",
    };
    proof {
        reveal_strlit("");
        assert(description@ =~= text_or_empty(text_field(tool@, "description"@)));
    }
    let mut function: Vec<(String, Json)> = Vec::new();
    put(&mut function, "name", Json::text(wire.as_str()));
    put(&mut function, "description", Json::text(description));
    put(&mut function, "parameters", parameters);
    let mut fields: Vec<(String, Json)> = Vec::new();
    put(&mut fields, "type", Json::text("function"));
    put(&mut fields, "function", Json::Object(function));
    bindings.insert(
        wire,
        ChatToolBinding { namespace: own_option(namespace), name: name.to_owned(), freeform },
    );
    Json::Object(fields)
}

/// The outcome of converting one tool: a declaration on the wire and its binding,
/// or neither.
pub open spec fn converts_to(
    wanted: Option<Declaration>,
    converted: Option<JsonView>,
    before: Map<Seq<char>, BindingView>,
    after: Map<Seq<char>, BindingView>,
) -> bool {
    match wanted {
        Some(declaration) => {
            &&& converted == Some(declaration.json())
            &&& after == before.insert(declaration.wire_name(), declaration.binding())
        },
        None => converted is None && after == before,
    }
}

/// Converts a tool that takes a JSON argument object, where it has a name.
///
/// `strict` is not forwarded: several servers reject the schemas it would be sent
/// with.
pub fn convert_function_tool(
    tool: &Json,
    namespace: Option<&str>,
    bindings: &mut ToolBindings,
) -> (converted: Option<Json>)
    ensures
        converts_to(
            declaration(tool@, str_option(namespace), false),
            json_option(converted),
            old(bindings)@,
            final(bindings)@,
        ),
{
    let name = match tool.get_text("name") {
        Some(name) => name,
        None => return None,
    };
    let parameters = match tool.get("parameters") {
        Some(parameters) => parameters.clone(),
        None => empty_parameters(),
    };
    Some(declare(tool, name, namespace, parameters, bindings, false))
}

/// Converts a tool that takes its input raw, where it has a name.
pub fn convert_freeform_tool(
    tool: &Json,
    namespace: Option<&str>,
    bindings: &mut ToolBindings,
) -> (converted: Option<Json>)
    ensures
        converts_to(
            declaration(tool@, str_option(namespace), true),
            json_option(converted),
            old(bindings)@,
            final(bindings)@,
        ),
{
    let name = match tool.get_text("name") {
        Some(name) => name,
        None => return None,
    };
    Some(declare(tool, name, namespace, raw_input_parameters(), bindings, true))
}

/// The tools and bindings under construction are those of a list of declarations.
spec fn declared_so_far(
    tools: Seq<Json>,
    before: Map<Seq<char>, BindingView>,
    after: Map<Seq<char>, BindingView>,
    list: Seq<Declaration>,
) -> bool {
    &&& items_view(tools) == declared_json(list)
    &&& after == bound(before, list)
}

/// Adds the outcome of converting one tool.
fn push_converted(
    tools: &mut Vec<Json>,
    converted: Option<Json>,
    Ghost(list): Ghost<Seq<Declaration>>,
    Ghost(wanted): Ghost<Option<Declaration>>,
)
    requires
        items_view(old(tools)@) == declared_json(list),
        json_option(converted) == match wanted {
            Some(declaration) => Some(declaration.json()),
            None => None,
        },
    ensures
        items_view(final(tools)@) == declared_json(with_declaration(list, wanted)),
{
    if let Some(converted) = converted {
        proof {
            lemma_items_push(tools@, converted);
            assert(declared_json(list.push(wanted->0)) =~= declared_json(list).push(converted@));
        }
        tools.push(converted);
    }
}

/// Converts the tools of a namespace.
fn convert_nested_tools(
    inner: &Vec<Json>,
    namespace: &str,
    tools: &mut Vec<Json>,
    bindings: &mut ToolBindings,
    Ghost(list): Ghost<Seq<Declaration>>,
    Ghost(before): Ghost<Map<Seq<char>, BindingView>>,
)
    requires
        declared_so_far(old(tools)@, before, old(bindings)@, list),
    ensures
        declared_so_far(
            final(tools)@,
            before,
            final(bindings)@,
            list + nested_declarations(namespace@, items_view(inner@)),
        ),
{
    let ghost nested = items_view(inner@);
    proof {
        lemma_items_view(inner@);
        assert(list + nested_declarations(namespace@, nested.take(0)) =~= list);
    }
    for i in 0..inner.len()
        invariant
            nested == items_view(inner@),
            nested.len() == inner@.len(),
            declared_so_far(
                tools@,
                before,
                bindings@,
                list + nested_declarations(namespace@, nested.take(i as int)),
            ),
    {
        let ghost so_far = list + nested_declarations(namespace@, nested.take(i as int));
        let tool: &Json = &inner[i];
        let freeform: bool = is_of_type(tool, "custom");
        let ghost wanted = declaration(tool@, Some(namespace@), freeform);
        proof {
            lemma_items_view(inner@);
            assert(nested.take(i + 1).drop_last() =~= nested.take(i as int));
            assert(nested.take(i + 1).last() == tool@);
            assert(list + nested_declarations(namespace@, nested.take(i + 1)) =~= with_declaration(
                so_far,
                wanted,
            ));
            if wanted is Some {
                assert(so_far.push(wanted->0).drop_last() =~= so_far);
            }
        }
        let converted = if freeform {
            convert_freeform_tool(tool, Some(namespace), bindings)
        } else {
            convert_function_tool(tool, Some(namespace), bindings)
        };
        push_converted(tools, converted, Ghost(so_far), Ghost(wanted));
    }
    assert(nested.take(nested.len() as int) =~= nested);
}

/// Converts declared tools, and binds the names they travel under.
pub fn convert_tools(declared: &Vec<Json>, bindings: &mut ToolBindings) -> (tools: Vec<Json>)
    ensures
        items_view(tools@) == declared_json(declarations(items_view(declared@))),
        final(bindings)@ == bound(old(bindings)@, declarations(items_view(declared@))),
{
    let mut tools: Vec<Json> = Vec::new();
    let ghost before = bindings@;
    let ghost says = items_view(declared@);
    proof {
        lemma_items_view(declared@);
        assert(declared_json(declarations(says.take(0))) =~= Seq::<JsonView>::empty());
    }
    for i in 0..declared.len()
        invariant
            says == items_view(declared@),
            says.len() == declared@.len(),
            declared_so_far(tools@, before, bindings@, declarations(says.take(i as int))),
    {
        let tool: &Json = &declared[i];
        let ghost so_far = declarations(says.take(i as int));
        proof {
            lemma_items_view(declared@);
            assert(says.take(i + 1).drop_last() =~= says.take(i as int));
            assert(says.take(i + 1).last() == tool@);
            assert(so_far + Seq::<Declaration>::empty() =~= so_far);
        }
        if is_of_type(tool, "function") {
            let ghost wanted = declaration(tool@, None, false);
            let converted = convert_function_tool(tool, None, bindings);
            push_converted(&mut tools, converted, Ghost(so_far), Ghost(wanted));
            proof {
                lemma_with_declaration(before, so_far, wanted);
            }
        } else if is_of_type(tool, "custom") {
            let ghost wanted = declaration(tool@, None, true);
            let converted = convert_freeform_tool(tool, None, bindings);
            push_converted(&mut tools, converted, Ghost(so_far), Ghost(wanted));
            proof {
                lemma_with_declaration(before, so_far, wanted);
            }
        } else if is_of_type(tool, "namespace") {
            let inner = match tool.get("tools") {
                Some(inner) => inner.as_array(),
                None => None,
            };
            if let (Some(namespace), Some(inner)) = (tool.get_text("name"), inner) {
                convert_nested_tools(
                    inner,
                    namespace,
                    &mut tools,
                    bindings,
                    Ghost(so_far),
                    Ghost(before),
                );
            }
        }
    }
    assert(says.take(says.len() as int) =~= says);
    tools
}

/// Adding a declaration that may be absent, in the two ways it is written.
proof fn lemma_with_declaration(
    before: Map<Seq<char>, BindingView>,
    list: Seq<Declaration>,
    wanted: Option<Declaration>,
)
    ensures
        with_declaration(list, wanted) == list + with_declaration(Seq::empty(), wanted),
        wanted matches Some(declaration) ==> bound(before, list.push(declaration)) == bound(
            before,
            list,
        ).insert(declaration.wire_name(), declaration.binding()),
{
    assert(with_declaration(list, wanted) =~= list + with_declaration(Seq::empty(), wanted));
    if let Some(declaration) = wanted {
        assert(list.push(declaration).drop_last() =~= list);
    }
}

} // verus!
