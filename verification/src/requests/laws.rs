//! What holds of every request.

use vstd::prelude::*;
use crate::json::{as_items, field, JsonView};
use crate::protocol::ItemView;
use super::declarations::{declarations, declared_json, of_type, Declaration};
use super::messages::{
    call_of, calls_message, flushed, message_json, message_of, messages_of, opening, reply_message,
    with_item, with_items, with_message, Progress,
};
use super::payload::{own_fields, payload_of, RequestView};

verus! {

/// An item that leaves the messages as they are: a tool call waits for its
/// message, and an item without a chat counterpart leaves no trace.
pub open spec fn waits(item: ItemView) -> bool {
    match item {
        ItemView::Message { .. } => false,
        ItemView::FunctionCallOutput { call_id, .. } => call_id is None,
        ItemView::CustomToolCallOutput { .. } => false,
        _ => true,
    }
}

/// The tool calls among the items of a turn, in order.
pub open spec fn calls_in(items: Seq<ItemView>) -> Seq<JsonView>
    decreases items.len(),
{
    if items.len() == 0 {
        Seq::empty()
    } else {
        match call_of(items.last()) {
            Some(call) => calls_in(items.drop_last()).push(call),
            None => calls_in(items.drop_last()),
        }
    }
}

/// The reply a tool's output becomes.
pub open spec fn reply_of(item: ItemView) -> Option<JsonView> {
    match item {
        ItemView::FunctionCallOutput { call_id: Some(call_id), output } => Some(
            reply_message(call_id, output),
        ),
        ItemView::CustomToolCallOutput { call_id, output } => Some(reply_message(call_id, output)),
        _ => None,
    }
}

/// The replies among the items of a turn, in order.
pub open spec fn replies_in(items: Seq<ItemView>) -> Seq<JsonView>
    decreases items.len(),
{
    if items.len() == 0 {
        Seq::empty()
    } else {
        match reply_of(items.last()) {
            Some(reply) => replies_in(items.drop_last()).push(reply),
            None => replies_in(items.drop_last()),
        }
    }
}

/// The tool calls that a message carries.
pub open spec fn calls_of_message(message: JsonView) -> Seq<JsonView> {
    match as_items(field(message, "tool_calls"@)) {
        Some(calls) => calls,
        None => Seq::empty(),
    }
}

/// The tool calls that a run of messages carries, in order.
pub open spec fn calls_of_messages(messages: Seq<JsonView>) -> Seq<JsonView>
    decreases messages.len(),
{
    if messages.len() == 0 {
        Seq::empty()
    } else {
        calls_of_messages(messages.drop_last()) + calls_of_message(messages.last())
    }
}

/// Whether a message answers a tool call.
pub open spec fn answers(message: JsonView) -> bool {
    field(message, "tool_call_id"@) is Some
}

/// The replies among a run of messages, in order.
pub open spec fn replies_of_messages(messages: Seq<JsonView>) -> Seq<JsonView>
    decreases messages.len(),
{
    if messages.len() == 0 {
        Seq::empty()
    } else if answers(messages.last()) {
        replies_of_messages(messages.drop_last()).push(messages.last())
    } else {
        replies_of_messages(messages.drop_last())
    }
}

/// A message that neither carries tool calls nor answers one.
pub open spec fn speaks(message: JsonView) -> bool {
    field(message, "tool_calls"@) is None && !answers(message)
}

/// The messages among a run of them that neither carry tool calls nor answer one.
pub open spec fn spoken_messages(messages: Seq<JsonView>) -> Seq<JsonView>
    decreases messages.len(),
{
    if messages.len() == 0 {
        Seq::empty()
    } else if speaks(messages.last()) {
        spoken_messages(messages.drop_last()).push(messages.last())
    } else {
        spoken_messages(messages.drop_last())
    }
}

/// The chat messages of the messages among the items of a turn that have anything
/// to send, in order.
pub open spec fn messages_in(items: Seq<ItemView>) -> Seq<JsonView>
    decreases items.len(),
{
    if items.len() == 0 {
        Seq::empty()
    } else {
        let earlier = messages_in(items.drop_last());
        match items.last() {
            ItemView::Message { role, content } => match message_of(role, content) {
                Some(message) => earlier.push(message),
                None => earlier,
            },
            _ => earlier,
        }
    }
}

/// Converting two runs of items in turn converts both.
proof fn lemma_concat(progress: Progress, first: Seq<ItemView>, second: Seq<ItemView>)
    ensures
        with_items(progress, first + second) == with_items(with_items(progress, first), second),
    decreases second.len(),
{
    if second.len() == 0 {
        assert(first + second =~= first);
    } else {
        assert((first + second).drop_last() =~= first + second.drop_last());
        lemma_concat(progress, first, second.drop_last());
    }
}

/// A run of waiting items leaves the messages as they are, and its calls wait in
/// order.
proof fn lemma_waiting(progress: Progress, run: Seq<ItemView>)
    requires
        forall|i: int| 0 <= i < run.len() ==> waits(#[trigger] run[i]),
    ensures
        with_items(progress, run).messages == progress.messages,
        with_items(progress, run).pending == progress.pending + calls_in(run),
    decreases run.len(),
{
    if run.len() == 0 {
        assert(progress.pending + calls_in(run) =~= progress.pending);
    } else {
        assert(waits(run[run.len() - 1]));
        assert forall|i: int| 0 <= i < run.drop_last().len() implies waits(
            #[trigger] run.drop_last()[i],
        ) by {
            assert(waits(run[i]));
        }
        lemma_waiting(progress, run.drop_last());
        assert(with_items(progress, run).pending =~= progress.pending + calls_in(run));
    }
}

/// Replies to which no call is waiting are written one after the other.
proof fn lemma_replies(progress: Progress, replies: Seq<ItemView>)
    requires
        progress.pending.len() == 0,
        forall|i: int| 0 <= i < replies.len() ==> reply_of(#[trigger] replies[i]) is Some,
    ensures
        with_items(progress, replies).messages == progress.messages + replies_in(replies),
        with_items(progress, replies).pending.len() == 0,
    decreases replies.len(),
{
    if replies.len() == 0 {
        assert(progress.messages + replies_in(replies) =~= progress.messages);
    } else {
        assert(reply_of(replies[replies.len() - 1]) is Some);
        assert forall|i: int| 0 <= i < replies.drop_last().len() implies reply_of(
            #[trigger] replies.drop_last()[i],
        ) is Some by {
            assert(reply_of(replies[i]) is Some);
        }
        lemma_replies(progress, replies.drop_last());
        assert(with_items(progress, replies).messages =~= progress.messages + replies_in(replies));
    }
}

/// Consecutive tool calls share one assistant message, and the replies that follow
/// them line up behind it in order: the shape Chat Completions requires of
/// parallel tool calls.
pub proof fn consecutive_calls_share_one_message(
    progress: Progress,
    run: Seq<ItemView>,
    replies: Seq<ItemView>,
)
    requires
        progress.pending.len() == 0,
        forall|i: int| 0 <= i < run.len() ==> waits(#[trigger] run[i]),
        calls_in(run).len() > 0,
        replies.len() > 0,
        forall|i: int| 0 <= i < replies.len() ==> reply_of(#[trigger] replies[i]) is Some,
    ensures
        with_items(progress, run + replies) == (Progress {
            messages: progress.messages.push(calls_message(calls_in(run))) + replies_in(replies),
            pending: Seq::empty(),
        }),
{
    lemma_waiting(progress, run);
    lemma_concat(progress, run, replies);
    let waiting = with_items(progress, run);
    assert(waiting.pending =~= calls_in(run));
    let first = replies.take(1);
    let rest = replies.skip(1);
    assert(replies =~= first + rest);
    lemma_concat(waiting, first, rest);
    let reply = reply_of(replies[0])->0;
    let clear = flushed(waiting);
    assert(first.drop_last() =~= Seq::<ItemView>::empty());
    assert(with_items(waiting, Seq::empty()) == waiting);
    assert(with_items(waiting, first) == with_item(waiting, replies[0]));
    assert(with_items(waiting, first) == with_message(waiting, reply));
    assert forall|i: int| 0 <= i < rest.len() implies reply_of(#[trigger] rest[i]) is Some by {
        assert(reply_of(replies[i + 1]) is Some);
    }
    lemma_replies(with_message(waiting, reply), rest);
    lemma_replies_concat(first, rest);
    assert(replies_in(first) =~= seq![reply]) by {
        assert(replies_in(first.drop_last()) =~= Seq::<JsonView>::empty());
    }
    let whole = with_items(progress, run + replies);
    assert(whole.messages =~= progress.messages.push(calls_message(calls_in(run))) + replies_in(
        replies,
    ));
    assert(whole.pending =~= Seq::<JsonView>::empty());
}

proof fn lemma_replies_concat(first: Seq<ItemView>, second: Seq<ItemView>)
    ensures
        replies_in(first + second) == replies_in(first) + replies_in(second),
    decreases second.len(),
{
    if second.len() == 0 {
        assert(first + second =~= first);
        assert(replies_in(first) + replies_in(second) =~= replies_in(first));
    } else {
        assert((first + second).drop_last() =~= first + second.drop_last());
        lemma_replies_concat(first, second.drop_last());
        assert(replies_in(first + second) =~= replies_in(first) + replies_in(second));
    }
}

/// What messages of each kind carry.
proof fn lemma_message_kinds(
    role: Seq<char>,
    content: JsonView,
    call_id: Seq<char>,
    output: Option<Seq<char>>,
    calls: Seq<JsonView>,
)
    ensures
        calls_of_message(message_json(role, content)) == Seq::<JsonView>::empty(),
        speaks(message_json(role, content)),
        calls_of_message(reply_message(call_id, output)) == Seq::<JsonView>::empty(),
        answers(reply_message(call_id, output)),
        calls_of_message(calls_message(calls)) == calls,
        !answers(calls_message(calls)) && !speaks(calls_message(calls)),
{
    reveal_strlit("role");
    reveal_strlit("content");
    reveal_strlit("tool_calls");
    reveal_strlit("tool_call_id");
    assert("role"@.len() == 4 && "content"@.len() == 7 && "tool_calls"@.len() == 10
        && "tool_call_id"@.len() == 12);
}

/// Putting the waiting calls into a message keeps the calls in order, and adds no
/// reply.
proof fn lemma_flushed(progress: Progress)
    ensures
        calls_of_messages(flushed(progress).messages) + flushed(progress).pending
            == calls_of_messages(progress.messages) + progress.pending,
        flushed(progress).pending.len() == 0,
        replies_of_messages(flushed(progress).messages) == replies_of_messages(progress.messages),
        spoken_messages(flushed(progress).messages) == spoken_messages(progress.messages),
{
    if progress.pending.len() > 0 {
        lemma_message_kinds(
            Seq::empty(),
            JsonView::Null,
            Seq::empty(),
            None,
            progress.pending,
        );
        let messages = flushed(progress).messages;
        assert(messages.drop_last() =~= progress.messages);
        assert(calls_of_messages(messages) + Seq::<JsonView>::empty() =~= calls_of_messages(
            progress.messages,
        ) + progress.pending);
    }
}

/// A message that carries no calls leaves those of the others in order.
proof fn lemma_with_message(progress: Progress, message: JsonView)
    requires
        calls_of_message(message) == Seq::<JsonView>::empty(),
    ensures
        calls_of_messages(with_message(progress, message).messages) + with_message(
            progress,
            message,
        ).pending == calls_of_messages(progress.messages) + progress.pending,
        replies_of_messages(with_message(progress, message).messages) == (if answers(message) {
            replies_of_messages(progress.messages).push(message)
        } else {
            replies_of_messages(progress.messages)
        }),
        spoken_messages(with_message(progress, message).messages) == (if speaks(message) {
            spoken_messages(progress.messages).push(message)
        } else {
            spoken_messages(progress.messages)
        }),
{
    lemma_flushed(progress);
    let clear = flushed(progress);
    let messages = clear.messages.push(message);
    assert(messages.drop_last() =~= clear.messages);
    assert(calls_of_messages(messages) =~= calls_of_messages(clear.messages));
}

proof fn lemma_conserved(progress: Progress, items: Seq<ItemView>)
    ensures
        calls_of_messages(with_items(progress, items).messages) + with_items(
            progress,
            items,
        ).pending == calls_of_messages(progress.messages) + progress.pending + calls_in(items),
        replies_of_messages(with_items(progress, items).messages) == replies_of_messages(
            progress.messages,
        ) + replies_in(items),
        spoken_messages(with_items(progress, items).messages) == spoken_messages(progress.messages)
            + messages_in(items),
    decreases items.len(),
{
    let before = calls_of_messages(progress.messages) + progress.pending;
    let replied = replies_of_messages(progress.messages);
    let said = spoken_messages(progress.messages);
    if items.len() == 0 {
        assert(said + messages_in(items) =~= said);
        assert(before + calls_in(items) =~= before);
        assert(replied + replies_in(items) =~= replied);
    } else {
        let earlier = items.drop_last();
        let item = items.last();
        let so_far = with_items(progress, earlier);
        lemma_conserved(progress, earlier);
        match item {
            ItemView::Message { role, content } => {
                match message_of(role, content) {
                    Some(message) => {
                        lemma_message_of(role, content);
                        lemma_with_message(so_far, message);
                        assert(said + messages_in(items) =~= (said + messages_in(earlier)).push(
                            message,
                        ));
                    },
                    None => {
                        lemma_flushed(so_far);
                    },
                }
            },
            _ => {
                match reply_of(item) {
                    Some(reply) => {
                        lemma_reply_kind(item);
                        lemma_with_message(so_far, reply);
                        assert(replied + replies_in(items) =~= (replied + replies_in(
                            earlier,
                        )).push(reply));
                    },
                    None => {
                        if let Some(call) = call_of(item) {
                            assert(calls_of_messages(so_far.messages) + so_far.pending.push(call)
                                =~= (calls_of_messages(so_far.messages) + so_far.pending).push(
                                call,
                            ));
                            assert(before + calls_in(items) =~= (before + calls_in(earlier)).push(
                                call,
                            ));
                        }
                    },
                }
            },
        }
    }
}

proof fn lemma_message_of(role: Seq<char>, content: Seq<crate::protocol::ContentView>)
    requires
        message_of(role, content) is Some,
    ensures
        calls_of_message(message_of(role, content)->0) == Seq::<JsonView>::empty(),
        speaks(message_of(role, content)->0),
{
    let message = message_of(role, content)->0;
    let sent = super::messages::chat_role(role);
    lemma_message_kinds(
        sent,
        JsonView::Text(crate::text::join(super::messages::texts_of(content), "\n"@)),
        Seq::empty(),
        None,
        Seq::empty(),
    );
    lemma_message_kinds(
        sent,
        JsonView::Array(super::messages::parts_of(content)),
        Seq::empty(),
        None,
        Seq::empty(),
    );
}

proof fn lemma_reply_kind(item: ItemView)
    requires
        reply_of(item) is Some,
    ensures
        calls_of_message(reply_of(item)->0) == Seq::<JsonView>::empty(),
        answers(reply_of(item)->0),
        call_of(item) is None,
{
    match item {
        ItemView::FunctionCallOutput { call_id: Some(call_id), output } => {
            lemma_message_kinds(Seq::empty(), JsonView::Null, call_id, output, Seq::empty());
        },
        ItemView::CustomToolCallOutput { call_id, output } => {
            lemma_message_kinds(Seq::empty(), JsonView::Null, call_id, output, Seq::empty());
        },
        _ => {},
    }
}

/// Nothing of a turn is lost, doubled or put out of order: every tool call is sent
/// once, and in order, and so is every reply and every message that has anything to
/// send.
pub proof fn a_turn_is_sent_whole_and_in_order(instructions: Seq<char>, items: Seq<ItemView>)
    ensures
        spoken_messages(messages_of(instructions, items)) == opening(instructions).messages
            + messages_in(items),
        calls_of_messages(messages_of(instructions, items)) == calls_in(items),
        replies_of_messages(messages_of(instructions, items)) == replies_in(items),
{
    let start = opening(instructions);
    lemma_conserved(start, items);
    let progress = with_items(start, items);
    lemma_flushed(progress);
    assert(calls_of_messages(start.messages) =~= Seq::<JsonView>::empty() && replies_of_messages(
        start.messages,
    ) =~= Seq::<JsonView>::empty()) by {
        if instructions.len() > 0 {
            lemma_message_kinds(
                "system"@,
                JsonView::Text(instructions),
                Seq::empty(),
                None,
                Seq::empty(),
            );
            let lead = message_json("system"@, JsonView::Text(instructions));
            assert(start.messages.last() == lead);
            assert(start.messages.drop_last() =~= Seq::<JsonView>::empty());
            assert(calls_of_messages(start.messages.drop_last()) =~= Seq::<JsonView>::empty());
            assert(replies_of_messages(start.messages.drop_last()) =~= Seq::<JsonView>::empty());
            assert(calls_of_messages(start.messages) =~= calls_of_message(lead));
        }
    }
    assert(spoken_messages(start.messages) =~= start.messages) by {
        if instructions.len() > 0 {
            lemma_message_kinds(
                "system"@,
                JsonView::Text(instructions),
                Seq::empty(),
                None,
                Seq::empty(),
            );
            assert(start.messages.last() == message_json("system"@, JsonView::Text(instructions)));
            assert(start.messages.drop_last() =~= Seq::<JsonView>::empty());
            assert(spoken_messages(start.messages.drop_last()) =~= Seq::<JsonView>::empty());
        }
    }
    let last = flushed(progress);
    assert(calls_of_messages(last.messages) + last.pending =~= calls_of_messages(last.messages));
    assert(calls_of_messages(start.messages) + start.pending + calls_in(items) =~= calls_in(items));
    assert(replies_of_messages(start.messages) + replies_in(items) =~= replies_in(items));
}

/// Instructions are a leading system message, and change nothing else.
pub proof fn instructions_lead(instructions: Seq<char>, items: Seq<ItemView>)
    ensures
        messages_of(instructions, items) == opening(instructions).messages + messages_of(
            Seq::empty(),
            items,
        ),
{
    lemma_instructions(instructions, items);
    let with = with_items(opening(instructions), items);
    let without = with_items(opening(Seq::empty()), items);
    assert(flushed(with).messages =~= opening(instructions).messages + flushed(without).messages);
}

proof fn lemma_instructions(instructions: Seq<char>, items: Seq<ItemView>)
    ensures
        with_items(opening(instructions), items).messages == opening(instructions).messages
            + with_items(opening(Seq::empty()), items).messages,
        with_items(opening(instructions), items).pending == with_items(
            opening(Seq::empty()),
            items,
        ).pending,
    decreases items.len(),
{
    let lead = opening(instructions).messages;
    if items.len() == 0 {
        assert(lead + Seq::<JsonView>::empty() =~= lead);
    } else {
        lemma_instructions(instructions, items.drop_last());
        let with = with_items(opening(instructions), items.drop_last());
        let without = with_items(opening(Seq::empty()), items.drop_last());
        let item = items.last();
        assert(with_item(with, item).messages =~= lead + with_item(without, item).messages);
        assert(with_item(with, item).pending =~= with_item(without, item).pending);
    }
}

/// A provider's extra fields go on top: what it sets stands, and what it does not
/// set is as the turn calls for.
pub proof fn extra_fields_go_on_top(
    request: RequestView,
    send_reasoning_effort: bool,
    extra_body: Map<Seq<char>, JsonView>,
    declared: Seq<JsonView>,
    key: Seq<char>,
)
    ensures
        ({
            let body = payload_of(request, send_reasoning_effort, extra_body, declared).body;
            let own = own_fields(request, send_reasoning_effort, declarations(declared));
            field(body, key) == (if extra_body.contains_key(key) {
                Some(extra_body[key])
            } else {
                field(JsonView::Object(own), key)
            })
        }),
{
}

/// The keys of the fields a turn calls for are all different.
proof fn lemma_keys_differ()
    ensures
        "model"@.len() == 5,
        "model"@[0] == 'm',
        "tools"@.len() == 5,
        "tools"@[0] == 't',
        "stream"@.len() == 6,
        "messages"@.len() == 8,
        "tool_choice"@.len() == 11,
        "stream_options"@.len() == 14,
        "response_format"@.len() == 15,
        "reasoning_effort"@.len() == 16,
        "parallel_tool_calls"@.len() == 19,
{
    reveal_strlit("model");
    reveal_strlit("tools");
    reveal_strlit("stream");
    reveal_strlit("messages");
    reveal_strlit("tool_choice");
    reveal_strlit("stream_options");
    reveal_strlit("response_format");
    reveal_strlit("reasoning_effort");
    reveal_strlit("parallel_tool_calls");
}

/// Optional fields are sent when they are called for, and only then: tools and
/// what goes with them where any tool is left to declare, the request for usage on
/// a stream, the format where the turn asks for one, and the effort where the turn
/// selects one and the provider takes it.
pub proof fn optional_fields_are_sent_when_called_for(
    request: RequestView,
    send_reasoning_effort: bool,
    tools: Seq<Declaration>,
)
    ensures
        ({
            let own = own_fields(request, send_reasoning_effort, tools);
            let sent = |key: Seq<char>| own.contains_key(key);
            &&& sent("model"@) && sent("messages"@) && sent("stream"@)
            &&& sent("tools"@) == (tools.len() > 0)
            &&& sent("tool_choice"@) == (tools.len() > 0)
            &&& sent("parallel_tool_calls"@) == (tools.len() > 0)
            &&& sent("stream_options"@) == request.stream
            &&& sent("response_format"@) == (request.format is Some)
            &&& sent("reasoning_effort"@) == (send_reasoning_effort && request.effort is Some)
        }),
        own_fields(request, send_reasoning_effort, tools)["messages"@] == JsonView::Array(
            messages_of(request.instructions, request.input),
        ),
        own_fields(request, send_reasoning_effort, tools)["model"@] == JsonView::Text(
            request.model,
        ),
        tools.len() > 0 ==> own_fields(request, send_reasoning_effort, tools)["tools"@]
            == JsonView::Array(declared_json(tools)),
{
    lemma_keys_differ();
}

/// Tools that run on the server have no counterpart: a declared tool of another
/// type than a function, a freeform tool or a namespace is dropped.
pub proof fn other_tools_are_dropped(tool: JsonView, before: Seq<JsonView>, after: Seq<JsonView>)
    requires
        !of_type(tool, "function"@),
        !of_type(tool, "custom"@),
        !of_type(tool, "namespace"@),
    ensures
        declarations(before.push(tool) + after) == declarations(before + after),
    decreases after.len(),
{
    let with = before.push(tool) + after;
    let without = before + after;
    if after.len() == 0 {
        assert(with.drop_last() =~= before);
        assert(without =~= before);
        assert(declarations(before) + Seq::<Declaration>::empty() =~= declarations(before));
    } else {
        assert(with.drop_last() =~= before.push(tool) + after.drop_last());
        assert(without.drop_last() =~= before + after.drop_last());
        other_tools_are_dropped(tool, before, after.drop_last());
    }
}

} // verus!
