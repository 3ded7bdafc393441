//! What a request says, read back off the JSON that is sent.
//!
//! Every message, tool call, reply and declaration is stated here by the fields that
//! a server finds in it, against the item or the declared tool it stands for.

use vstd::prelude::*;
use crate::json::{field, written, JsonView};
use crate::protocol::{ContentView, ItemView};
use super::declarations::{bound, declarations, declared_json, nested_declarations, Declaration};
use super::messages::{
    call_of, flushed, message_of, messages_of, opening, with_item, with_items, Progress,
};
use super::payload::{payload_of, FormatView, RequestView};
use crate::tools::BindingView;

verus! {

/// The document holds the string under the key.
pub open spec fn holds_text(json: JsonView, key: Seq<char>, text: Seq<char>) -> bool {
    field(json, key) == Some(JsonView::Text(text))
}

/// The string under a key, where there is one.
pub open spec fn string_at(json: JsonView, key: Seq<char>) -> Option<Seq<char>> {
    match field(json, key) {
        Some(JsonView::Text(text)) => Some(text),
        _ => None,
    }
}

/// The elements under a key, where there is an array.
pub open spec fn array_at(json: JsonView, key: Seq<char>) -> Option<Seq<JsonView>> {
    match field(json, key) {
        Some(JsonView::Array(elements)) => Some(elements),
        _ => None,
    }
}

/// The text that a part of a message is, where it is one.
pub open spec fn text_in(part: ContentView) -> Option<Seq<char>> {
    match part {
        ContentView::InputText(text) => Some(text),
        ContentView::OutputText(text) => Some(text),
        ContentView::InputImage(_) => None,
        ContentView::InputAudio => None,
    }
}

/// The image that a part of a message is, where it is one.
pub open spec fn image_in(part: ContentView) -> Option<Seq<char>> {
    match part {
        ContentView::InputImage(url) => Some(url),
        _ => None,
    }
}

/// The texts of a message, in order.
pub open spec fn texts_in(content: Seq<ContentView>) -> Seq<Seq<char>>
    decreases content.len(),
{
    if content.len() == 0 {
        Seq::empty()
    } else {
        match text_in(content.last()) {
            Some(text) => texts_in(content.drop_last()).push(text),
            None => texts_in(content.drop_last()),
        }
    }
}

/// The images of a message, in order.
pub open spec fn images_in(content: Seq<ContentView>) -> Seq<Seq<char>>
    decreases content.len(),
{
    if content.len() == 0 {
        Seq::empty()
    } else {
        match image_in(content.last()) {
            Some(url) => images_in(content.drop_last()).push(url),
            None => images_in(content.drop_last()),
        }
    }
}

/// The texts, one per line.
pub open spec fn lines(texts: Seq<Seq<char>>) -> Seq<char>
    decreases texts.len(),
{
    if texts.len() == 0 {
        Seq::empty()
    } else if texts.len() == 1 {
        texts[0]
    } else {
        lines(texts.drop_last()) + seq!['\n'] + texts.last()
    }
}

/// The part is sent as this text.
pub open spec fn sends_text(part: JsonView, text: Seq<char>) -> bool {
    holds_text(part, "type"@, "text"@) && holds_text(part, "text"@, text)
}

/// The part is sent as the image at this URL.
pub open spec fn sends_image(part: JsonView, url: Seq<char>) -> bool {
    &&& holds_text(part, "type"@, "image_url"@)
    &&& field(part, "image_url"@) matches Some(image)
    &&& holds_text(image, "url"@, url)
}

/// The parts are sent as these texts, and then these images.
pub open spec fn sends_parts(
    parts: Seq<JsonView>,
    texts: Seq<Seq<char>>,
    images: Seq<Seq<char>>,
) -> bool {
    &&& parts.len() == texts.len() + images.len()
    &&& forall|i: int| 0 <= i < texts.len() ==> sends_text(#[trigger] parts[i], texts[i])
    &&& forall|i: int|
        texts.len() <= i < parts.len() ==> sends_image(
            #[trigger] parts[i],
            images[i - texts.len()],
        )
}

/// The message is sent under its role, and holds its texts and images. Where it has
/// images and its role takes them, it holds both in parts; else it holds its texts,
/// one per line.
pub open spec fn sends_message(
    sent: JsonView,
    role: Seq<char>,
    texts: Seq<Seq<char>>,
    images: Seq<Seq<char>>,
) -> bool {
    &&& holds_text(
        sent,
        "role"@,
        if role == "developer"@ {
            "system"@
        } else {
            role
        },
    )
    &&& forall|key: Seq<char>| #[trigger]
        field(sent, key) is Some <==> key == "role"@ || key == "content"@
    &&& if images.len() > 0 && (role == "user"@ || role == "system"@ || role == "tool"@ || role
        == "developer"@) {
        array_at(sent, "content"@) matches Some(parts) && sends_parts(parts, texts, images)
    } else {
        holds_text(sent, "content"@, lines(texts))
    }
}

proof fn lemma_split(content: Seq<ContentView>)
    ensures
        super::messages::texts_of(content) == texts_in(content),
        super::messages::images_of(content) == images_in(content),
    decreases content.len(),
{
    if content.len() > 0 {
        lemma_split(content.drop_last());
    }
}

proof fn lemma_lines(texts: Seq<Seq<char>>)
    ensures
        crate::text::join(texts, "\n"@) == lines(texts),
    decreases texts.len(),
{
    reveal_strlit("\n");
    assert("\n"@ =~= seq!['\n']);
    if texts.len() > 1 {
        lemma_lines(texts.drop_last());
    }
}

/// What the fields of a message, a part, a call and a reply are called tells them
/// apart.
proof fn lemma_names()
    ensures
        "role"@.len() == 4,
        "content"@.len() == 7,
        "type"@.len() == 4,
        "type"@[0] == 't',
        "text"@.len() == 4,
        "text"@[1] == 'e',
        "type"@[1] == 'y',
        "role"@[0] == 'r',
        "image_url"@.len() == 9,
        "url"@.len() == 3,
        "id"@.len() == 2,
        "function"@.len() == 8,
        "name"@.len() == 4,
        "name"@[0] == 'n',
        "arguments"@.len() == 9,
        "tool_calls"@.len() == 10,
        "tool_call_id"@.len() == 12,
        "description"@.len() == 11,
        "parameters"@.len() == 10,
        "developer"@.len() == 9,
        "system"@.len() == 6,
        "user"@.len() == 4,
        "tool"@.len() == 4,
{
    reveal_strlit("role");
    reveal_strlit("content");
    reveal_strlit("type");
    reveal_strlit("text");
    reveal_strlit("image_url");
    reveal_strlit("url");
    reveal_strlit("id");
    reveal_strlit("function");
    reveal_strlit("name");
    reveal_strlit("arguments");
    reveal_strlit("tool_calls");
    reveal_strlit("tool_call_id");
    reveal_strlit("description");
    reveal_strlit("parameters");
    reveal_strlit("developer");
    reveal_strlit("system");
    reveal_strlit("user");
    reveal_strlit("tool");
}

/// A message that is sent reads back as the message: its role, all of its texts and
/// all of its images, in order. It is not sent exactly where it has neither.
pub proof fn a_message_reads_back(role: Seq<char>, content: Seq<ContentView>)
    ensures
        match message_of(role, content) {
            None => texts_in(content).len() == 0 && images_in(content).len() == 0,
            Some(sent) => {
                &&& texts_in(content).len() > 0 || images_in(content).len() > 0
                &&& sends_message(sent, role, texts_in(content), images_in(content))
            },
        },
{
    lemma_split(content);
    lemma_lines(texts_in(content));
    lemma_names();
    if let Some(sent) = message_of(role, content) {
        if let Some(parts) = array_at(sent, "content"@) {
            let texts = texts_in(content);
            let images = images_in(content);
            assert forall|i: int| 0 <= i < texts.len() implies sends_text(
                #[trigger] parts[i],
                texts[i],
            ) by {
                assert(parts[i] == super::messages::text_part(texts[i]));
            }
            assert forall|i: int| texts.len() <= i < parts.len() implies sends_image(
                #[trigger] parts[i],
                images[i - texts.len()],
            ) by {
                assert(parts[i] == super::messages::image_part(images[i - texts.len()]));
            }
        }
    }
}

/// Texts and images are added where they stand: one more part at the end of a message
/// is one more text or one more image behind those before it.
pub proof fn one_more_part_is_one_more_to_send(content: Seq<ContentView>, part: ContentView)
    ensures
        texts_in(content.push(part)) == match part {
            ContentView::InputText(text) => texts_in(content).push(text),
            ContentView::OutputText(text) => texts_in(content).push(text),
            _ => texts_in(content),
        },
        images_in(content.push(part)) == match part {
            ContentView::InputImage(url) => images_in(content).push(url),
            _ => images_in(content),
        },
{
    assert(content.push(part).drop_last() =~= content);
}

/// The name a tool travels under.
pub open spec fn travels_as(namespace: Option<Seq<char>>, name: Seq<char>) -> Seq<char> {
    match namespace {
        Some(namespace) if namespace.len() > 0 => namespace + "__"@ + name,
        _ => name,
    }
}

/// The call is sent with this id, name and arguments.
pub open spec fn sends_call(
    call: JsonView,
    call_id: Seq<char>,
    name: Seq<char>,
    arguments: Seq<char>,
) -> bool {
    &&& holds_text(call, "id"@, call_id)
    &&& holds_text(call, "type"@, "function"@)
    &&& field(call, "function"@) matches Some(function)
    &&& holds_text(function, "name"@, name)
    &&& holds_text(function, "arguments"@, arguments)
}

/// A tool call that is sent reads back as the call: its id, the name its tool travels
/// under, and its arguments. The raw input of a freeform tool travels in an object,
/// under `input`. Every function call and every freeform call is sent, and so is a
/// local shell call that has an id; nothing else is sent as a call.
pub proof fn a_call_reads_back(item: ItemView)
    ensures
        match item {
            ItemView::FunctionCall { name, namespace, arguments, call_id } => {
                &&& call_of(item) matches Some(call)
                &&& sends_call(call, call_id, travels_as(namespace, name), arguments)
            },
            ItemView::CustomToolCall { call_id, name, namespace, input } => {
                &&& call_of(item) matches Some(call)
                &&& sends_call(
                    call,
                    call_id,
                    travels_as(namespace, name),
                    written(JsonView::Object(map!["input"@ => JsonView::Text(input)])),
                )
            },
            ItemView::LocalShellCall { call_id: Some(call_id), action } => {
                &&& call_of(item) matches Some(call)
                &&& sends_call(
                    call,
                    call_id,
                    "local_shell"@,
                    match action {
                        Some(action) => action,
                        None => "{}"@,
                    },
                )
            },
            _ => call_of(item) is None,
        },
{
    lemma_names();
}

/// The reply is sent to the call it answers.
pub open spec fn sends_reply(
    message: JsonView,
    call_id: Seq<char>,
    output: Option<Seq<char>>,
) -> bool {
    &&& holds_text(message, "role"@, "tool"@)
    &&& holds_text(message, "tool_call_id"@, call_id)
    &&& holds_text(
        message,
        "content"@,
        match output {
            Some(output) => output,
            None => Seq::empty(),
        },
    )
}

/// The message carries these calls, and says nothing.
pub open spec fn sends_calls(message: JsonView, calls: Seq<JsonView>) -> bool {
    &&& holds_text(message, "role"@, "assistant"@)
    &&& field(message, "content"@) == Some(JsonView::Null)
    &&& array_at(message, "tool_calls"@) == Some(calls)
}

/// The item is one that a message of its own stands for: a message, or a reply to a
/// call that is known.
pub open spec fn stands_alone(item: ItemView) -> bool {
    match item {
        ItemView::Message { .. } => true,
        ItemView::FunctionCallOutput { call_id, .. } => call_id is Some,
        ItemView::CustomToolCallOutput { .. } => true,
        _ => false,
    }
}

/// What a turn of one item that stands alone is sent as: a message where it has
/// anything to send, and a reply always.
pub proof fn an_item_that_stands_alone_reads_back(item: ItemView)
    requires
        stands_alone(item),
    ensures
        match item {
            ItemView::Message { role, content } => {
                let sent = messages_of(Seq::empty(), seq![item]);
                if texts_in(content).len() == 0 && images_in(content).len() == 0 {
                    sent.len() == 0
                } else {
                    sent.len() == 1 && sends_message(
                        sent[0],
                        role,
                        texts_in(content),
                        images_in(content),
                    )
                }
            },
            ItemView::FunctionCallOutput { call_id: Some(call_id), output } => {
                let sent = messages_of(Seq::empty(), seq![item]);
                sent.len() == 1 && sends_reply(sent[0], call_id, output)
            },
            ItemView::CustomToolCallOutput { call_id, output } => {
                let sent = messages_of(Seq::empty(), seq![item]);
                sent.len() == 1 && sends_reply(sent[0], call_id, output)
            },
            _ => true,
        },
{
    lemma_names();
    let start = opening(Seq::empty());
    lemma_one(start, item);
    if let ItemView::Message { role, content } = item {
        a_message_reads_back(role, content);
    }
}

proof fn lemma_one(progress: Progress, item: ItemView)
    ensures
        with_items(progress, seq![item]) == with_item(progress, item),
{
    assert(seq![item].drop_last() =~= Seq::<ItemView>::empty());
    assert(with_items(progress, Seq::<ItemView>::empty()) == progress);
    assert(seq![item].last() == item);
}

/// The calls among items that do not stand alone, in order.
pub open spec fn calls_among(items: Seq<ItemView>) -> Seq<JsonView>
    decreases items.len(),
{
    if items.len() == 0 {
        Seq::empty()
    } else {
        match call_of(items.last()) {
            Some(call) => calls_among(items.drop_last()).push(call),
            None => calls_among(items.drop_last()),
        }
    }
}

proof fn lemma_waiting(progress: Progress, items: Seq<ItemView>)
    requires
        forall|i: int| 0 <= i < items.len() ==> !stands_alone(#[trigger] items[i]),
    ensures
        with_items(progress, items).messages == progress.messages,
        with_items(progress, items).pending == progress.pending + calls_among(items),
    decreases items.len(),
{
    if items.len() == 0 {
        assert(progress.pending + calls_among(items) =~= progress.pending);
    } else {
        assert(!stands_alone(items[items.len() - 1]));
        assert forall|i: int| 0 <= i < items.drop_last().len() implies !stands_alone(
            #[trigger] items.drop_last()[i],
        ) by {
            assert(!stands_alone(items[i]));
        }
        lemma_waiting(progress, items.drop_last());
        assert(with_items(progress, items).pending =~= progress.pending + calls_among(items));
    }
}

/// A run of items none of which stands alone is sent as one assistant message with all
/// of its calls in order, and as nothing where there are none.
pub proof fn a_run_of_calls_reads_back(items: Seq<ItemView>)
    requires
        forall|i: int| 0 <= i < items.len() ==> !stands_alone(#[trigger] items[i]),
    ensures
        ({
            let sent = messages_of(Seq::empty(), items);
            if calls_among(items).len() == 0 {
                sent.len() == 0
            } else {
                sent.len() == 1 && sends_calls(sent[0], calls_among(items))
            }
        }),
{
    lemma_names();
    lemma_waiting(opening(Seq::empty()), items);
    let progress = with_items(opening(Seq::empty()), items);
    assert(progress.pending =~= calls_among(items));
}

proof fn lemma_concat(progress: Progress, first: Seq<ItemView>, second: Seq<ItemView>)
    ensures
        with_items(progress, first + second) == with_items(with_items(progress, first), second),
    decreases second.len(),
{
    if second.len() == 0 {
        assert(first + second =~= first);
    } else {
        assert((first + second).drop_last() =~= first + second.drop_last());
        lemma_concat(progress, first, second.drop_last());
    }
}

/// What was written before stays in front, and has no say in what comes after.
proof fn lemma_behind(lead: Seq<JsonView>, items: Seq<ItemView>)
    ensures
        ({
            let with = with_items(Progress { messages: lead, pending: Seq::empty() }, items);
            let without = with_items(opening(Seq::empty()), items);
            with.messages == lead + without.messages && with.pending == without.pending
        }),
    decreases items.len(),
{
    let start = Progress { messages: lead, pending: Seq::<JsonView>::empty() };
    if items.len() == 0 {
        assert(lead + Seq::<JsonView>::empty() =~= lead);
    } else {
        lemma_behind(lead, items.drop_last());
        let with = with_items(start, items.drop_last());
        let without = with_items(opening(Seq::empty()), items.drop_last());
        let item = items.last();
        assert(with_item(with, item).messages =~= lead + with_item(without, item).messages);
        assert(with_item(with, item).pending =~= with_item(without, item).pending);
    }
}

/// A turn is sent piece by piece, in order: it may be split before any item that stands
/// alone and behind any such item, and what is sent of the whole is what is sent of
/// the first piece and then what is sent of the second.
pub proof fn a_turn_is_sent_piece_by_piece(
    instructions: Seq<char>,
    first: Seq<ItemView>,
    second: Seq<ItemView>,
)
    requires
        (second.len() > 0 && stands_alone(second[0])) || (first.len() > 0 && stands_alone(
            first.last(),
        )),
    ensures
        messages_of(instructions, first + second) == messages_of(instructions, first)
            + messages_of(Seq::empty(), second),
{
    let start = opening(instructions);
    let middle = with_items(start, first);
    lemma_concat(start, first, second);
    if first.len() > 0 && stands_alone(first.last()) {
        assert(middle.pending =~= Seq::<JsonView>::empty());
        lemma_behind(middle.messages, second);
        assert(middle == (Progress { messages: middle.messages, pending: Seq::empty() }));
        assert(flushed(middle).messages == middle.messages);
    } else {
        let head = second.take(1);
        let rest = second.skip(1);
        assert(head =~= seq![second[0]]);
        assert(second =~= head + rest);
        lemma_concat(middle, head, rest);
        lemma_one(middle, second[0]);
        let clear = flushed(middle);
        lemma_one(clear, second[0]);
        lemma_concat(clear, head, rest);
        assert(with_item(middle, second[0]) == with_item(clear, second[0]));
        lemma_behind(clear.messages, second);
        assert(clear.pending =~= Seq::<JsonView>::empty());
        assert(clear == (Progress { messages: clear.messages, pending: Seq::empty() }));
        assert(with_items(middle, second) == with_items(clear, second));
    }
    let whole = with_items(start, first + second);
    let alone = with_items(opening(Seq::empty()), second);
    assert(flushed(whole).messages =~= flushed(middle).messages + flushed(alone).messages);
}

/// The instructions are sent first, where there are any, as what the system says; the
/// rest of the turn is sent as it would be without them.
pub proof fn instructions_come_first(instructions: Seq<char>, items: Seq<ItemView>)
    ensures
        ({
            let sent = messages_of(instructions, items);
            let rest = messages_of(Seq::empty(), items);
            if instructions.len() == 0 {
                sent == rest
            } else {
                &&& sent.len() == rest.len() + 1
                &&& sent.skip(1) == rest
                &&& holds_text(sent[0], "role"@, "system"@)
                &&& holds_text(sent[0], "content"@, instructions)
            }
        }),
{
    lemma_names();
    let lead = opening(instructions).messages;
    lemma_behind(lead, items);
    let with = with_items(opening(instructions), items);
    let without = with_items(opening(Seq::empty()), items);
    assert(flushed(with).messages =~= lead + flushed(without).messages);
    assert((lead + flushed(without).messages).skip(lead.len() as int) =~= flushed(
        without,
    ).messages);
    if instructions.len() == 0 {
        assert(messages_of(instructions, items) =~= messages_of(Seq::empty(), items));
    }
}

/// The schema says that nothing is taken.
pub open spec fn takes_nothing(schema: JsonView) -> bool {
    &&& holds_text(schema, "type"@, "object"@)
    &&& field(schema, "properties"@) == Some(
        JsonView::Object(Map::<Seq<char>, JsonView>::empty()),
    )
    &&& field(schema, "additionalProperties"@) == Some(JsonView::Bool(false))
}

/// The schema says that one string is taken, and has to be: the raw input.
pub open spec fn takes_raw_input(schema: JsonView) -> bool {
    &&& holds_text(schema, "type"@, "object"@)
    &&& field(schema, "additionalProperties"@) == Some(JsonView::Bool(false))
    &&& array_at(schema, "required"@) == Some(seq![JsonView::Text("input"@)])
    &&& field(schema, "properties"@) matches Some(properties)
    &&& forall|key: Seq<char>| #[trigger] field(properties, key) is Some <==> key == "input"@
    &&& field(properties, "input"@) matches Some(input)
    &&& holds_text(input, "type"@, "string"@)
    &&& holds_text(input, "description"@, "Raw tool input, passed through verbatim."@)
}

/// The declaration that is sent for a tool: under the name it travels by, with its own
/// description, and with its own parameters, or those of a freeform tool.
pub open spec fn sends_tool(
    sent: JsonView,
    tool: JsonView,
    namespace: Option<Seq<char>>,
    name: Seq<char>,
    freeform: bool,
) -> bool {
    &&& holds_text(sent, "type"@, "function"@)
    &&& field(sent, "function"@) matches Some(function)
    &&& holds_text(function, "name"@, travels_as(namespace, name))
    &&& holds_text(
        function,
        "description"@,
        match string_at(tool, "description"@) {
            Some(description) => description,
            None => Seq::empty(),
        },
    )
    &&& forall|key: Seq<char>| #[trigger]
        field(function, key) is Some <==> key == "name"@ || key == "description"@ || key
            == "parameters"@
    &&& field(function, "parameters"@) matches Some(parameters)
    &&& if freeform {
        takes_raw_input(parameters)
    } else {
        match field(tool, "parameters"@) {
            Some(own) => parameters == own,
            None => takes_nothing(parameters),
        }
    }
}

/// The list is what one tool is declared as: one declaration where the tool has a name,
/// and none where it has none.
pub open spec fn declares_one(
    list: Seq<Declaration>,
    tool: JsonView,
    namespace: Option<Seq<char>>,
    freeform: bool,
) -> bool {
    match string_at(tool, "name"@) {
        None => list.len() == 0,
        Some(name) => {
            &&& list.len() == 1
            &&& declared_json(list).len() == 1
            &&& sends_tool(declared_json(list)[0], tool, namespace, name, freeform)
            &&& bound(Map::empty(), list) == Map::<Seq<char>, BindingView>::empty().insert(
                travels_as(namespace, name),
                BindingView { namespace, name, freeform },
            )
        },
    }
}

proof fn lemma_schema_names()
    ensures
        "type"@.len() == 4,
        "properties"@.len() == 10,
        "required"@.len() == 8,
        "additionalProperties"@.len() == 20,
        "description"@.len() == 11,
        "input"@.len() == 5,
{
    reveal_strlit("type");
    reveal_strlit("properties");
    reveal_strlit("required");
    reveal_strlit("additionalProperties");
    reveal_strlit("description");
    reveal_strlit("input");
}

proof fn lemma_schemas()
    ensures
        takes_nothing(super::declarations::no_parameters()),
        takes_raw_input(super::declarations::freeform_parameters()),
{
    lemma_schema_names();
    assert(field(super::declarations::no_parameters(), "properties"@)->0->Object_0 =~= Map::<
        Seq<char>,
        JsonView,
    >::empty());
}

proof fn lemma_declares_one(
    list: Seq<Declaration>,
    tool: JsonView,
    namespace: Option<Seq<char>>,
    freeform: bool,
)
    requires
        list == super::declarations::with_declaration(
            Seq::empty(),
            super::declarations::declaration(tool, namespace, freeform),
        ),
    ensures
        declares_one(list, tool, namespace, freeform),
{
    lemma_names();
    lemma_schemas();
    if string_at(tool, "name"@) is Some {
        assert(list.drop_last() =~= Seq::<Declaration>::empty());
        assert(bound(Map::empty(), list.drop_last()) == Map::<Seq<char>, BindingView>::empty());
    }
}

/// Declared tools are sent in order: what two lists of them are declared as is what the
/// one is and then what the other is.
pub proof fn tools_are_declared_in_order(first: Seq<JsonView>, second: Seq<JsonView>)
    ensures
        declarations(first + second) == declarations(first) + declarations(second),
        declared_json(declarations(first + second)) == declared_json(declarations(first))
            + declared_json(declarations(second)),
    decreases second.len(),
{
    if second.len() == 0 {
        assert(first + second =~= first);
        assert(declarations(first) + declarations(second) =~= declarations(first));
    } else {
        assert((first + second).drop_last() =~= first + second.drop_last());
        tools_are_declared_in_order(first, second.drop_last());
        assert(declarations(first + second) =~= declarations(first) + declarations(second));
    }
    assert(declared_json(declarations(first) + declarations(second)) =~= declared_json(
        declarations(first),
    ) + declared_json(declarations(second)));
}

/// A declared tool reads back off its declaration: a function tool with its own
/// parameters and description, a freeform tool as one that takes its raw input, and a
/// namespace as its tools, in order. Any other tool is not declared.
pub proof fn a_declared_tool_reads_back(tool: JsonView)
    ensures
        ({
            let list = declarations(seq![tool]);
            match string_at(tool, "type"@) {
                Some(kind) => if kind == "function"@ {
                    declares_one(list, tool, None, false)
                } else if kind == "custom"@ {
                    declares_one(list, tool, None, true)
                } else if kind == "namespace"@ {
                    match (string_at(tool, "name"@), array_at(tool, "tools"@)) {
                        (Some(namespace), Some(inner)) => list == nested_declarations(
                            namespace,
                            inner,
                        ),
                        _ => list.len() == 0,
                    }
                } else {
                    list.len() == 0
                },
                None => list.len() == 0,
            }
        }),
{
    let list = declarations(seq![tool]);
    assert(seq![tool].drop_last() =~= Seq::<JsonView>::empty());
    assert(seq![tool].last() == tool);
    assert(declarations(Seq::<JsonView>::empty()) =~= Seq::<Declaration>::empty());
    assert(list =~= super::declarations::declarations_of(tool));
    reveal_strlit("function");
    reveal_strlit("custom");
    reveal_strlit("namespace");
    assert("function"@.len() == 8 && "custom"@.len() == 6 && "namespace"@.len() == 9);
    if string_at(tool, "type"@) == Some("function"@) {
        lemma_declares_one(list, tool, None, false);
    } else if string_at(tool, "type"@) == Some("custom"@) {
        lemma_declares_one(list, tool, None, true);
    }
}

/// The tools of a namespace are declared in order, each under the namespace: one more
/// of them is one more declaration behind the others, of a freeform tool where it is
/// of the type `custom` and of a function where it is of any other or of none.
pub proof fn a_nested_tool_reads_back(namespace: Seq<char>, inner: Seq<JsonView>, tool: JsonView)
    ensures
        nested_declarations(namespace, Seq::empty()).len() == 0,
        ({
            let before = nested_declarations(namespace, inner);
            let after = nested_declarations(namespace, inner.push(tool));
            &&& after.len() >= before.len()
            &&& after.take(before.len() as int) == before
            &&& declares_one(
                after.skip(before.len() as int),
                tool,
                Some(namespace),
                string_at(tool, "type"@) == Some("custom"@),
            )
        }),
{
    let before = nested_declarations(namespace, inner);
    let after = nested_declarations(namespace, inner.push(tool));
    let freeform = string_at(tool, "type"@) == Some("custom"@);
    assert(inner.push(tool).drop_last() =~= inner);
    assert(after.take(before.len() as int) =~= before);
    let added = after.skip(before.len() as int);
    assert(added =~= super::declarations::with_declaration(
        Seq::empty(),
        super::declarations::declaration(tool, Some(namespace), freeform),
    ));
    lemma_declares_one(added, tool, Some(namespace), freeform);
}

/// Declared tools are bound one by one: each binds the name that it is sent under, in
/// place of what the name stood for, and no other.
pub proof fn tools_are_bound_one_by_one(
    bindings: Map<Seq<char>, BindingView>,
    list: Seq<Declaration>,
    declaration: Declaration,
)
    ensures
        bound(bindings, Seq::empty()) == bindings,
        bound(bindings, list.push(declaration)) == bound(bindings, list).insert(
            travels_as(declaration.namespace, declaration.name),
            BindingView {
                namespace: declaration.namespace,
                name: declaration.name,
                freeform: declaration.freeform,
            },
        ),
{
    assert(list.push(declaration).drop_last() =~= list);
}

/// The format is sent as a JSON schema, with its name and strictness.
pub open spec fn sends_format(sent: JsonView, format: FormatView) -> bool {
    &&& holds_text(sent, "type"@, "json_schema"@)
    &&& field(sent, "json_schema"@) matches Some(schema)
    &&& holds_text(schema, "name"@, format.name)
    &&& field(schema, "strict"@) == Some(JsonView::Bool(format.strict))
    &&& field(schema, "schema"@) == Some(format.schema)
}

proof fn lemma_body_names()
    ensures
        "model"@.len() == 5,
        "model"@[0] == 'm',
        "tools"@.len() == 5,
        "tools"@[0] == 't',
        "stream"@.len() == 6,
        "messages"@.len() == 8,
        "tool_choice"@.len() == 11,
        "json_schema"@.len() == 11,
        "stream_options"@.len() == 14,
        "response_format"@.len() == 15,
        "reasoning_effort"@.len() == 16,
        "parallel_tool_calls"@.len() == 19,
        "name"@.len() == 4,
        "strict"@.len() == 6,
        "strict"@[2] == 'r',
        "schema"@.len() == 6,
        "schema"@[1] == 'c',
        "strict"@[1] == 't',
        "type"@.len() == 4,
        "include_usage"@.len() == 13,
{
    reveal_strlit("model");
    reveal_strlit("tools");
    reveal_strlit("stream");
    reveal_strlit("messages");
    reveal_strlit("tool_choice");
    reveal_strlit("json_schema");
    reveal_strlit("stream_options");
    reveal_strlit("response_format");
    reveal_strlit("reasoning_effort");
    reveal_strlit("parallel_tool_calls");
    reveal_strlit("name");
    reveal_strlit("strict");
    reveal_strlit("schema");
    reveal_strlit("type");
    reveal_strlit("include_usage");
}

/// The body says what the turn asks for: its model, its messages, whether it is to be
/// streamed and, on a stream, that usage is wanted. Where any tool is left to declare
/// it says which, how they are to be chosen, and whether side by side; the choice is
/// `none` or `required` where the turn says so, and `auto` where it says anything else.
/// It says in which format the turn wants its text, and with how much effort, where the
/// turn wants either and the provider takes the latter.
pub proof fn the_body_says_what_the_turn_asks_for(
    request: RequestView,
    send_reasoning_effort: bool,
    declared: Seq<JsonView>,
)
    ensures
        ({
            let payload = payload_of(request, send_reasoning_effort, Map::empty(), declared);
            let body = payload.body;
            let tools = declared_json(declarations(declared));
            &&& holds_text(body, "model"@, request.model)
            &&& array_at(body, "messages"@) == Some(
                messages_of(request.instructions, request.input),
            )
            &&& field(body, "stream"@) == Some(JsonView::Bool(request.stream))
            &&& match field(body, "stream_options"@) {
                Some(options) => request.stream && field(options, "include_usage"@) == Some(
                    JsonView::Bool(true),
                ),
                None => !request.stream,
            }
            &&& if tools.len() == 0 {
                &&& field(body, "tools"@) is None
                &&& field(body, "tool_choice"@) is None
                &&& field(body, "parallel_tool_calls"@) is None
            } else {
                &&& array_at(body, "tools"@) == Some(tools)
                &&& holds_text(
                    body,
                    "tool_choice"@,
                    if request.tool_choice == "none"@ {
                        "none"@
                    } else if request.tool_choice == "required"@ {
                        "required"@
                    } else {
                        "auto"@
                    },
                )
                &&& field(body, "parallel_tool_calls"@) == Some(
                    JsonView::Bool(request.parallel_tool_calls),
                )
            }
            &&& match (field(body, "response_format"@), request.format) {
                (Some(sent), Some(format)) => sends_format(sent, format),
                (None, None) => true,
                _ => false,
            }
            &&& field(body, "reasoning_effort"@) == match request.effort {
                Some(effort) => if send_reasoning_effort {
                    Some(JsonView::Text(effort))
                } else {
                    None
                },
                None => None,
            }
            &&& payload.tool_bindings == bound(Map::empty(), declarations(declared))
        }),
{
    lemma_body_names();
    assert(declared_json(declarations(declared)).len() == declarations(declared).len());
}

/// What a provider adds to the body is in it as the provider gave it, and anything else
/// is as it would be without.
pub proof fn what_is_added_stands(
    request: RequestView,
    send_reasoning_effort: bool,
    extra_body: Map<Seq<char>, JsonView>,
    declared: Seq<JsonView>,
    key: Seq<char>,
)
    ensures
        ({
            let with = payload_of(request, send_reasoning_effort, extra_body, declared);
            let without = payload_of(request, send_reasoning_effort, Map::empty(), declared);
            &&& field(with.body, key) == if extra_body.contains_key(key) {
                Some(extra_body[key])
            } else {
                field(without.body, key)
            }
            &&& with.tool_bindings == without.tool_bindings
        }),
{
}

} // verus!
