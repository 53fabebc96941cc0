//! Laws of the OpenAI API.
use crate::error::ErrorView;
use crate::json::{parsed_text, rendered, JsonView};
use crate::laws::text::law_prefix_and_rest;
use crate::message::{BlockView, EventView, MessageView, ToolDefView};
use crate::openai::{
    assistant_block_item, assistant_text_item, block_text, call_input, call_item, chat_call_event,
    choice_events, configured, held_arguments, input_items, is_text, item_events, joined_text,
    message_calls, message_items, message_text, output_events, output_item, reply_events,
    request_body, request_headers, stream_events, stream_items, user_block_item, user_text_item,
    OpenAiProvider,
};
use crate::sequence::{
    gather, lemma_gather_all, lemma_gather_concat, lemma_gather_contains, piece,
};
use crate::settings::token_limit;
use crate::text::{after_prefix, begins_with, lines};
use vstd::prelude::*;

verus! {

/// The keys and kinds of an input item differ.
proof fn lemma_item_keys()
    ensures
        "type"@ != "text"@,
        "type"@ != "role"@,
        "type"@ != "content"@,
        "role"@ != "content"@,
        "type"@ != "annotations"@,
        "text"@ != "annotations"@,
        "type"@ != "call_id"@,
        "type"@ != "name"@,
        "type"@ != "arguments"@,
        "call_id"@ != "name"@,
        "call_id"@ != "arguments"@,
        "name"@ != "arguments"@,
        "function_call"@ != "message"@,
{
    reveal_strlit("type");
    reveal_strlit("text");
    reveal_strlit("role");
    reveal_strlit("content");
    reveal_strlit("annotations");
    reveal_strlit("call_id");
    reveal_strlit("name");
    reveal_strlit("arguments");
    reveal_strlit("function_call");
    reveal_strlit("message");
    assert("type"@[1] != "text"@[1]);
    assert("type"@[0] != "role"@[0]);
    assert("type"@[0] != "name"@[0]);
    assert("type"@.len() == 4);
    assert("text"@.len() == 4);
    assert("role"@.len() == 4);
    assert("name"@.len() == 4);
    assert("content"@.len() == 7);
    assert("annotations"@.len() == 11);
    assert("call_id"@.len() == 7);
    assert("arguments"@.len() == 9);
    assert("function_call"@.len() == 13);
    assert("message"@.len() == 7);
}

/// An assistant's text that is sent would be read as the same text.
pub proof fn law_text_reads_back(text: Seq<char>)
    ensures
        item_events(assistant_text_item(text)) == seq![EventView::Text(text)],
{
    lemma_item_keys();
    let item = assistant_text_item(text);
    let content = item.items_at("content"@)->0;
    assert(content.len() == 1);
    let f = |i: int, block: JsonView| piece(crate::openai::block_text(block));
    assert(content.drop_last() =~= Seq::<JsonView>::empty());
    assert(gather(content.drop_last(), f) =~= Seq::<EventView>::empty());
    assert(crate::openai::block_text(content[0]) == Some(EventView::Text(text)));
    assert(item_events(item) =~= seq![EventView::Text(text)]);
}

/// A tool call that is sent would be read as the same call: its id, its name, and as its input
/// what its arguments text holds.
pub proof fn law_call_reads_back(id: Seq<char>, name: Seq<char>, arguments: Seq<char>)
    ensures
        item_events(call_item(id, name, arguments)) == seq![
            EventView::ToolUse {
                id,
                name,
                input: call_input(parsed_text(arguments)),
                thought_signature: None,
            },
        ],
{
    lemma_item_keys();
}

/// A tool call without an arguments text has an object without entries as its input, in either
/// format.
pub proof fn law_missing_arguments_are_empty(item: JsonView, call: JsonView)
    ensures
        item.text_at("type"@) == Some("function_call"@) && item.text_at("arguments"@) is None
            ==> item_events(item) == seq![
            EventView::ToolUse {
                id: item.text_or("call_id"@, ""@),
                name: item.text_or("name"@, ""@),
                input: JsonView::Object(Map::empty()),
                thought_signature: None,
            },
        ],
        call.child("function"@).text_at("arguments"@) is None ==> chat_call_event(
            call,
            held_arguments(call.child("function"@)),
        )->ToolUse_input == JsonView::Object(Map::empty()),
{
    lemma_item_keys();
}

/// Every tool call of an assistant's message is sent, with its input as a JSON text.
pub proof fn law_every_call_is_sent(message: MessageView, at: int)
    requires
        message.role == "assistant"@,
        0 <= at < message.content.len(),
        message.content[at] is ToolUse,
    ensures
        message_items(message).contains(
            call_item(
                message.content[at]->ToolUse_id,
                message.content[at]->ToolUse_name,
                rendered(message.content[at]->ToolUse_input),
            ),
        ),
{
    reveal_strlit("user");
    reveal_strlit("assistant");
    assert("user"@.len() != "assistant"@.len());
    let f = |i: int, block: BlockView| piece(assistant_block_item(block));
    lemma_gather_contains(message.content, f, at, 0);
}

/// Every tool result of a user's message is sent, under the id of its call.
pub proof fn law_every_result_is_sent(message: MessageView, at: int)
    requires
        message.role == "user"@,
        0 <= at < message.content.len(),
        message.content[at] is ToolResult,
    ensures
        message_items(message).contains(
            output_item(
                message.content[at]->ToolResult_tool_use_id,
                message.content[at]->ToolResult_content,
            ),
        ),
{
    let f = |i: int, block: BlockView| piece(user_block_item(block));
    lemma_gather_contains(message.content, f, at, 0);
    let rest = gather(message.content, f);
    let item = f(at, message.content[at])[0];
    let k = choose|k: int| 0 <= k < rest.len() && rest[k] == item;
    let first = message_items(message).len() - rest.len();
    assert(message_items(message)[first + k] == item);
}

/// The items of a longer conversation begin with those of its beginning: what a message is sent
/// as does not depend on the others.
pub proof fn law_conversation_grows_at_the_end(earlier: Seq<MessageView>, later: Seq<MessageView>)
    ensures
        input_items(earlier + later) == input_items(earlier) + input_items(later),
{
    let f = |i: int, message: MessageView| message_items(message);
    lemma_gather_concat(earlier, later, f);
}

/// Events of a Responses API reply: the last is a stop, no other is, and none carries a signature.
pub proof fn law_output_ends_with_stop(output: Seq<JsonView>)
    ensures
        output_events(output).len() > 0,
        output_events(output).last() is Stop,
        forall|i: int|
            0 <= i < output_events(output).len() - 1 ==> {
                ||| (#[trigger] output_events(output)[i]) is Text
                ||| output_events(output)[i] is ToolUse
                    && output_events(output)[i]->ToolUse_thought_signature is None
            },
{
    let f = |i: int, item: JsonView| item_events(item);
    let p = |event: EventView|
        event is Text || (event is ToolUse && event->ToolUse_thought_signature is None);
    assert forall|i: int, k: int| 0 <= i < output.len() && 0 <= k < f(i, output[i]).len() implies p(
        #[trigger] f(i, output[i])[k],
    ) by {
        lemma_item_events(output[i]);
    }
    lemma_gather_all(output, f, p);
    let list = gather(output, f);
    assert forall|i: int| 0 <= i < output_events(output).len() - 1 implies p(
        #[trigger] output_events(output)[i],
    ) by {
        assert(output_events(output)[i] == list[i]);
        assert(p(list[i]));
    }
}

proof fn lemma_item_events(item: JsonView)
    ensures
        forall|k: int|
            0 <= k < item_events(item).len() ==> {
                ||| (#[trigger] item_events(item)[k]) is Text
                ||| item_events(item)[k] is ToolUse
                    && item_events(item)[k]->ToolUse_thought_signature is None
            },
{
    if let Some(content) = item.items_at("content"@) {
        let g = |i: int, block: JsonView| piece(crate::openai::block_text(block));
        let p = |event: EventView| event is Text;
        lemma_gather_all(content, g, p);
        let list = gather(content, g);
        assert forall|k: int| 0 <= k < list.len() implies (#[trigger] list[k]) is Text by {
            assert(p(list[k]));
        }
    }
}

/// A chat completion stops exactly where its finish reason is not a tool call; a stop stands
/// nowhere but at the end, and no event carries a signature.
pub proof fn law_chat_stop_follows_reason(choice: JsonView, message: JsonView)
    ensures
        ({
            let events = choice_events(choice, message);
            &&& forall|i: int| 0 <= i < events.len() - 1 ==> (#[trigger] events[i]) !is Stop
            &&& (events.len() > 0 && events.last() is Stop) <==> choice.text_or(
                "finish_reason"@,
                "stop"@,
            ) != "tool_calls"@
            &&& forall|i: int|
                0 <= i < events.len() && (#[trigger] events[i]) is ToolUse
                    ==> events[i]->ToolUse_thought_signature is None
        }),
{
    let events = choice_events(choice, message);
    let list = piece(message_text(message)) + message_calls(message);
    assert forall|i: int| 0 <= i < list.len() implies ((#[trigger] events[i]) is Text || (events[i]
        is ToolUse && events[i]->ToolUse_thought_signature is None)) by {
        assert(events[i] == list[i]);
    }
    if choice.text_or("finish_reason"@, "stop"@) == "tool_calls"@ {
        assert(events =~= list);
        if events.len() > 0 {
            assert(events[events.len() - 1] !is Stop);
        }
    } else {
        assert(events.last() is Stop);
    }
}

/// Nothing counts after the end marker of a stream.
pub proof fn law_end_marker_ends_the_stream(
    before: Seq<Seq<char>>,
    marker: Seq<char>,
    after: Seq<Seq<char>>,
)
    requires
        after_prefix(marker, "data: "@) == Some("[DONE]"@),
    ensures
        stream_items(before.push(marker) + after) == stream_items(before),
    decreases before.len(),
{
    let all = before.push(marker) + after;
    if before.len() == 0 {
        assert(all[0] == marker);
    } else {
        assert(all[0] == before[0]);
        assert(all.skip(1) =~= before.skip(1).push(marker) + after);
        law_end_marker_ends_the_stream(before.skip(1), marker, after);
    }
}

/// Lines of a stream that hold no data do not count.
pub proof fn law_other_lines_do_not_count(
    before: Seq<Seq<char>>,
    line: Seq<char>,
    after: Seq<Seq<char>>,
)
    requires
        after_prefix(line, "data: "@) is None,
    ensures
        stream_items(before.push(line) + after) == stream_items(before + after),
    decreases before.len(),
{
    let all = before.push(line) + after;
    if before.len() == 0 {
        assert(all[0] == line);
        assert(all.skip(1) =~= after);
        assert(before + after =~= after);
    } else {
        assert(all[0] == before[0]);
        assert((before + after)[0] == before[0]);
        assert(all.skip(1) =~= before.skip(1).push(line) + after);
        assert((before + after).skip(1) =~= before.skip(1) + after);
        law_other_lines_do_not_count(before.skip(1), line, after);
    }
}

/// Tools are named exactly where there are some.
pub proof fn law_tools_are_named(
    model: Seq<char>,
    system: Seq<char>,
    messages: Seq<MessageView>,
    tools: Seq<ToolDefView>,
)
    ensures
        request_body(model, system, messages, tools).get("tools"@) is Some <==> tools.len() > 0,
{
    reveal_strlit("model");
    reveal_strlit("store");
    reveal_strlit("stream");
    reveal_strlit("instructions");
    reveal_strlit("input");
    reveal_strlit("tool_choice");
    reveal_strlit("parallel_tool_calls");
    reveal_strlit("tools");
    assert("tools"@.len() == 5);
    assert("tools"@[0] != "model"@[0]);
    assert("tools"@[0] != "store"@[0]);
    assert("tools"@[0] != "input"@[0]);
    assert("stream"@.len() == 6);
    assert("instructions"@.len() == 12);
    assert("tool_choice"@.len() == 11);
    assert("parallel_tool_calls"@.len() == 19);
}

/// The keys of a request body differ.
proof fn lemma_request_keys()
    ensures
        "model"@ != "store"@,
        "model"@ != "stream"@,
        "model"@ != "instructions"@,
        "model"@ != "input"@,
        "model"@ != "tool_choice"@,
        "model"@ != "parallel_tool_calls"@,
        "model"@ != "tools"@,
        "store"@ != "stream"@,
        "store"@ != "instructions"@,
        "store"@ != "input"@,
        "store"@ != "tool_choice"@,
        "store"@ != "parallel_tool_calls"@,
        "store"@ != "tools"@,
        "stream"@ != "instructions"@,
        "stream"@ != "input"@,
        "stream"@ != "tool_choice"@,
        "stream"@ != "parallel_tool_calls"@,
        "stream"@ != "tools"@,
        "instructions"@ != "input"@,
        "instructions"@ != "tool_choice"@,
        "instructions"@ != "parallel_tool_calls"@,
        "instructions"@ != "tools"@,
        "input"@ != "tool_choice"@,
        "input"@ != "parallel_tool_calls"@,
        "input"@ != "tools"@,
        "tool_choice"@ != "parallel_tool_calls"@,
        "tool_choice"@ != "tools"@,
        "parallel_tool_calls"@ != "tools"@,
{
    reveal_strlit("model");
    reveal_strlit("store");
    reveal_strlit("stream");
    reveal_strlit("instructions");
    reveal_strlit("input");
    reveal_strlit("tool_choice");
    reveal_strlit("parallel_tool_calls");
    reveal_strlit("tools");
    assert("model"@.len() == 5);
    assert("store"@.len() == 5);
    assert("stream"@.len() == 6);
    assert("instructions"@.len() == 12);
    assert("input"@.len() == 5);
    assert("tool_choice"@.len() == 11);
    assert("parallel_tool_calls"@.len() == 19);
    assert("tools"@.len() == 5);
    assert("model"@[0] != "store"@[0]);
    assert("model"@[0] != "input"@[0]);
    assert("model"@[0] != "tools"@[0]);
    assert("store"@[0] != "input"@[0]);
    assert("store"@[0] != "tools"@[0]);
    assert("input"@[0] != "tools"@[0]);
}

/// The keys of input items and tools differ.
proof fn lemma_inner_keys()
    ensures
        "type"@ != "role"@,
        "type"@ != "content"@,
        "type"@ != "text"@,
        "type"@ != "annotations"@,
        "type"@ != "call_id"@,
        "type"@ != "output"@,
        "type"@ != "name"@,
        "type"@ != "arguments"@,
        "type"@ != "description"@,
        "type"@ != "parameters"@,
        "role"@ != "content"@,
        "role"@ != "text"@,
        "role"@ != "annotations"@,
        "role"@ != "call_id"@,
        "role"@ != "output"@,
        "role"@ != "name"@,
        "role"@ != "arguments"@,
        "role"@ != "description"@,
        "role"@ != "parameters"@,
        "content"@ != "text"@,
        "content"@ != "annotations"@,
        "content"@ != "call_id"@,
        "content"@ != "output"@,
        "content"@ != "name"@,
        "content"@ != "arguments"@,
        "content"@ != "description"@,
        "content"@ != "parameters"@,
        "text"@ != "annotations"@,
        "text"@ != "call_id"@,
        "text"@ != "output"@,
        "text"@ != "name"@,
        "text"@ != "arguments"@,
        "text"@ != "description"@,
        "text"@ != "parameters"@,
        "annotations"@ != "call_id"@,
        "annotations"@ != "output"@,
        "annotations"@ != "name"@,
        "annotations"@ != "arguments"@,
        "annotations"@ != "description"@,
        "annotations"@ != "parameters"@,
        "call_id"@ != "output"@,
        "call_id"@ != "name"@,
        "call_id"@ != "arguments"@,
        "call_id"@ != "description"@,
        "call_id"@ != "parameters"@,
        "output"@ != "name"@,
        "output"@ != "arguments"@,
        "output"@ != "description"@,
        "output"@ != "parameters"@,
        "name"@ != "arguments"@,
        "name"@ != "description"@,
        "name"@ != "parameters"@,
        "arguments"@ != "description"@,
        "arguments"@ != "parameters"@,
        "description"@ != "parameters"@,
{
    reveal_strlit("type");
    reveal_strlit("role");
    reveal_strlit("content");
    reveal_strlit("text");
    reveal_strlit("annotations");
    reveal_strlit("call_id");
    reveal_strlit("output");
    reveal_strlit("name");
    reveal_strlit("arguments");
    reveal_strlit("description");
    reveal_strlit("parameters");
    assert("type"@.len() == 4);
    assert("role"@.len() == 4);
    assert("content"@.len() == 7);
    assert("text"@.len() == 4);
    assert("annotations"@.len() == 11);
    assert("call_id"@.len() == 7);
    assert("output"@.len() == 6);
    assert("name"@.len() == 4);
    assert("arguments"@.len() == 9);
    assert("description"@.len() == 11);
    assert("parameters"@.len() == 10);
    assert("type"@[0] != "role"@[0]);
    assert("type"@[1] != "text"@[1]);
    assert("type"@[0] != "name"@[0]);
    assert("role"@[0] != "text"@[0]);
    assert("role"@[0] != "name"@[0]);
    assert("content"@[1] != "call_id"@[1]);
    assert("text"@[0] != "name"@[0]);
    assert("annotations"@[0] != "description"@[0]);
}

/// A request goes to the Codex address under the base URL, with the token, as JSON, from this
/// agent; the account is named exactly where it is known.
pub proof fn law_request_is_addressed(
    provider: OpenAiProvider,
    token: Seq<char>,
    account: Seq<char>,
)
    ensures
        provider.request_url() == provider.base_url@ + "/codex/responses"@,
        ({
            let bare = request_headers(token, None);
            let named = request_headers(token, Some(account));
            &&& bare.len() == 3
            &&& bare[0] == ("Authorization"@, "Bearer "@ + token)
            &&& bare[1] == ("Content-Type"@, "application/json"@)
            &&& bare[2] == ("originator"@, "openab-agent"@)
            &&& named == bare.push(("chatgpt-account-id"@, account))
        }),
{
    let bare = request_headers(token, None);
    assert(request_headers(token, Some(account)) =~= bare.push(("chatgpt-account-id"@, account)));
}

/// A request names the provider's model and holds the system prompt as its instructions, the
/// items of the conversation and, exactly where there are some, the tools. It is streamed and not
/// stored, the model chooses among the tools, and may call several at once. Nothing else is sent.
pub proof fn law_request_holds_everything(
    provider: OpenAiProvider,
    system: Seq<char>,
    messages: Seq<MessageView>,
    tools: Seq<ToolDefView>,
)
    ensures
        provider.request(system, messages, tools) is Object,
        ({
            let body = provider.request(system, messages, tools)->Object_0;
            let fixed = set![
                "model"@,
                "store"@,
                "stream"@,
                "instructions"@,
                "input"@,
                "tool_choice"@,
                "parallel_tool_calls"@,
            ];
            &&& tools.len() == 0 ==> body.dom() =~= fixed
            &&& tools.len() > 0 ==> body.dom() =~= fixed.insert("tools"@)
            &&& body["model"@] == JsonView::Text(provider.model@)
            &&& body["store"@] == JsonView::Bool(false)
            &&& body["stream"@] == JsonView::Bool(true)
            &&& body["instructions"@] == JsonView::Text(system)
            &&& body["input"@] == JsonView::Array(input_items(messages))
            &&& body["tool_choice"@] == JsonView::Text("auto"@)
            &&& body["parallel_tool_calls"@] == JsonView::Bool(true)
        }),
{
    lemma_request_keys();
}

/// Each tool stands in its place as a function, with its own name, description and schema.
pub proof fn law_tool_keeps_its_schema(
    provider: OpenAiProvider,
    system: Seq<char>,
    messages: Seq<MessageView>,
    tools: Seq<ToolDefView>,
    i: int,
)
    requires
        0 <= i < tools.len(),
    ensures
        ({
            let body = provider.request(system, messages, tools)->Object_0;
            let list = body["tools"@]->Array_0;
            let sent = list[i]->Object_0;
            &&& body["tools"@] is Array
            &&& list.len() == tools.len()
            &&& list[i] is Object
            &&& sent.dom() =~= set!["type"@, "name"@, "description"@, "parameters"@]
            &&& sent["type"@] == JsonView::Text("function"@)
            &&& sent["name"@] == JsonView::Text(tools[i].name)
            &&& sent["description"@] == JsonView::Text(tools[i].description)
            &&& sent["parameters"@] == tools[i].input_schema
        }),
{
    lemma_request_keys();
    lemma_inner_keys();
}

/// The items of a conversation are those of its messages, one after another.
pub proof fn law_items_of_each_message(messages: Seq<MessageView>, message: MessageView)
    ensures
        input_items(Seq::empty()) == Seq::<JsonView>::empty(),
        input_items(messages.push(message)) == input_items(messages) + message_items(message),
{
    assert(messages.push(message).drop_last() =~= messages);
}

/// One more block of a user's message adds to its items what the block is: a text goes to the end
/// of the one text item, which stands first; a result becomes the last item; a call adds nothing.
pub proof fn law_user_message_block_by_block(content: Seq<BlockView>, block: BlockView)
    ensures
        ({
            let before = message_items(MessageView { role: "user"@, content });
            let after = message_items(MessageView { role: "user"@, content: content.push(block) });
            let texts = exists|i: int| 0 <= i < content.len() && (#[trigger] content[i]) is Text;
            match block {
                BlockView::Text { text } => if texts {
                    &&& before.len() > 0
                    &&& before[0] == user_text_item(joined_text(content))
                    &&& after == before.update(0, user_text_item(joined_text(content) + text))
                } else {
                    &&& after == seq![user_text_item(text)] + before
                },
                BlockView::ToolResult { tool_use_id, content: output, .. } => after == before.push(
                    output_item(tool_use_id, output),
                ),
                BlockView::ToolUse { .. } => after == before,
            }
        }),
        message_items(MessageView { role: "user"@, content: Seq::empty() }) == Seq::<
            JsonView,
        >::empty(),
        block matches BlockView::Text { text } ==> joined_text(content.push(block)) == joined_text(
            content,
        ) + text,
        block !is Text ==> joined_text(content.push(block)) == joined_text(content),
        joined_text(Seq::empty()) == Seq::<char>::empty(),
{
    let more = content.push(block);
    assert(more.drop_last() =~= content);
    assert(joined_text(content) + Seq::<char>::empty() =~= joined_text(content));
    let f = |i: int, b: BlockView| piece(user_block_item(b));
    let g = |i: int, b: BlockView|
        match b {
            BlockView::Text { text } => text,
            _ => Seq::<char>::empty(),
        };
    let results = gather(content, f);
    assert(gather(more, f) == results + piece(user_block_item(block)));
    let texts = exists|i: int| 0 <= i < content.len() && is_text(#[trigger] content[i]);
    let texts_more = exists|i: int| 0 <= i < more.len() && is_text(#[trigger] more[i]);
    if texts {
        let i = choose|i: int| 0 <= i < content.len() && is_text(#[trigger] content[i]);
        assert(is_text(more[i]));
    }
    if block is Text {
        assert(is_text(more[content.len() as int]));
    }
    if texts_more && block !is Text {
        let i = choose|i: int| 0 <= i < more.len() && is_text(#[trigger] more[i]);
        assert(is_text(content[i]));
    }
    if !texts {
        lemma_no_texts(content);
    }
    let before = message_items(MessageView { role: "user"@, content });
    let after = message_items(MessageView { role: "user"@, content: more });
    let head = piece(
        if texts {
            Some(user_text_item(joined_text(content)))
        } else {
            None
        },
    );
    assert(before == head + results);
    match block {
        BlockView::Text { text } => {
            assert(results + Seq::<JsonView>::empty() =~= results);
            assert(after == seq![user_text_item(joined_text(content) + text)] + results);
            if texts {
                assert(after =~= before.update(0, user_text_item(joined_text(content) + text)));
            } else {
                assert(joined_text(content) + text =~= text);
                assert(before =~= results);
            }
        },
        BlockView::ToolResult { tool_use_id, content: output, .. } => {
            assert(after =~= before.push(output_item(tool_use_id, output)));
        },
        BlockView::ToolUse { .. } => {
            assert(after =~= before);
        },
    }
    let none = Seq::<BlockView>::empty();
    assert(message_items(MessageView { role: "user"@, content: none }) =~= Seq::<
        JsonView,
    >::empty());
}

proof fn lemma_no_texts(content: Seq<BlockView>)
    requires
        forall|i: int| 0 <= i < content.len() ==> !is_text(#[trigger] content[i]),
    ensures
        joined_text(content) == Seq::<char>::empty(),
    decreases content.len(),
{
    if content.len() > 0 {
        let front = content.drop_last();
        assert forall|i: int| 0 <= i < front.len() implies !is_text(#[trigger] front[i]) by {
            assert(front[i] == content[i]);
        }
        lemma_no_texts(front);
        assert(!is_text(content[content.len() - 1]));
        assert(joined_text(content) =~= Seq::<char>::empty());
    }
}

/// One more block of an assistant's message adds its item at the end: a text or a call, with the
/// input of the call rendered as its arguments. A result adds nothing.
pub proof fn law_assistant_message_block_by_block(content: Seq<BlockView>, block: BlockView)
    ensures
        ({
            let before = message_items(MessageView { role: "assistant"@, content });
            let after = message_items(
                MessageView { role: "assistant"@, content: content.push(block) },
            );
            match block {
                BlockView::Text { text } => after == before.push(assistant_text_item(text)),
                BlockView::ToolUse { id, name, input, .. } => after == before.push(
                    call_item(id, name, rendered(input)),
                ),
                BlockView::ToolResult { .. } => after == before,
            }
        }),
        message_items(MessageView { role: "assistant"@, content: Seq::empty() }) == Seq::<
            JsonView,
        >::empty(),
{
    reveal_strlit("user");
    reveal_strlit("assistant");
    assert("user"@.len() != "assistant"@.len());
    let more = content.push(block);
    assert(more.drop_last() =~= content);
    let f = |i: int, b: BlockView| piece(assistant_block_item(b));
    assert(gather(more, f) == gather(content, f) + piece(assistant_block_item(block)));
    let before = message_items(MessageView { role: "assistant"@, content });
    let after = message_items(MessageView { role: "assistant"@, content: more });
    assert(before == gather(content, f));
    match block {
        BlockView::Text { text } => {
            assert(after =~= before.push(assistant_text_item(text)));
        },
        BlockView::ToolUse { id, name, input, .. } => {
            assert(after =~= before.push(call_item(id, name, rendered(input))));
        },
        BlockView::ToolResult { .. } => {
            assert(after =~= before);
        },
    }
}

/// A message of any other role is not sent.
pub proof fn law_other_roles_are_not_sent(message: MessageView)
    requires
        message.role != "user"@,
        message.role != "assistant"@,
    ensures
        message_items(message).len() == 0,
{
}

/// An item is sent with its kind and all that the kind has: a text its author and its text, a
/// call its id, name and arguments, a result its call's id and its output.
pub proof fn law_item_is_sent_whole(
    text: Seq<char>,
    id: Seq<char>,
    name: Seq<char>,
    arguments: Seq<char>,
)
    ensures
        user_text_item(text) is Object,
        ({
            let item = user_text_item(text)->Object_0;
            let part = item["content"@]->Array_0[0]->Object_0;
            &&& item.dom() =~= set!["role"@, "content"@]
            &&& item["role"@] == JsonView::Text("user"@)
            &&& item["content"@] is Array
            &&& item["content"@]->Array_0.len() == 1
            &&& item["content"@]->Array_0[0] is Object
            &&& part.dom() =~= set!["type"@, "text"@]
            &&& part["type"@] == JsonView::Text("input_text"@)
            &&& part["text"@] == JsonView::Text(text)
        }),
        assistant_text_item(text) is Object,
        ({
            let item = assistant_text_item(text)->Object_0;
            let part = item["content"@]->Array_0[0]->Object_0;
            &&& item.dom() =~= set!["type"@, "role"@, "content"@]
            &&& item["type"@] == JsonView::Text("message"@)
            &&& item["role"@] == JsonView::Text("assistant"@)
            &&& item["content"@] is Array
            &&& item["content"@]->Array_0.len() == 1
            &&& item["content"@]->Array_0[0] is Object
            &&& part.dom() =~= set!["type"@, "text"@, "annotations"@]
            &&& part["type"@] == JsonView::Text("output_text"@)
            &&& part["text"@] == JsonView::Text(text)
            &&& part["annotations"@] is Array
            &&& part["annotations"@]->Array_0.len() == 0
        }),
        call_item(id, name, arguments) is Object,
        ({
            let item = call_item(id, name, arguments)->Object_0;
            &&& item.dom() =~= set!["type"@, "call_id"@, "name"@, "arguments"@]
            &&& item["type"@] == JsonView::Text("function_call"@)
            &&& item["call_id"@] == JsonView::Text(id)
            &&& item["name"@] == JsonView::Text(name)
            &&& item["arguments"@] == JsonView::Text(arguments)
        }),
        output_item(id, text) is Object,
        ({
            let item = output_item(id, text)->Object_0;
            &&& item.dom() =~= set!["type"@, "call_id"@, "output"@]
            &&& item["type"@] == JsonView::Text("function_call_output"@)
            &&& item["call_id"@] == JsonView::Text(id)
            &&& item["output"@] == JsonView::Text(text)
        }),
{
    lemma_inner_keys();
}

/// The text under a key of an object, empty where there is none.
pub open spec fn own_text(fields: Map<Seq<char>, JsonView>, key: Seq<char>) -> Seq<char> {
    if fields.contains_key(key) && fields[key] is Text {
        fields[key]->Text_0
    } else {
        Seq::empty()
    }
}

/// What the arguments text under a key of an object holds, an object without entries where there
/// is no such text or it holds nothing.
pub open spec fn own_input(fields: Map<Seq<char>, JsonView>) -> JsonView {
    if fields.contains_key("arguments"@) && fields["arguments"@] is Text && parsed_text(
        fields["arguments"@]->Text_0,
    ) is Some {
        parsed_text(fields["arguments"@]->Text_0)->0
    } else {
        JsonView::Object(Map::empty())
    }
}

/// An output item is read by its kind alone, whatever other keys it has: a call as its id, name
/// and input; a message as the texts of its content in their order. Other items are no events.
pub proof fn law_item_is_read_by_its_kind(item: Map<Seq<char>, JsonView>)
    ensures
        item.contains_key("type"@) && item["type"@] == JsonView::Text("function_call"@)
            ==> item_events(JsonView::Object(item)) == seq![
            EventView::ToolUse {
                id: own_text(item, "call_id"@),
                name: own_text(item, "name"@),
                input: own_input(item),
                thought_signature: None,
            },
        ],
        item.contains_key("type"@) && item["type"@] == JsonView::Text("message"@) ==> {
            let told = item.contains_key("content"@) && item["content"@] is Array;
            &&& told ==> item_events(JsonView::Object(item)) == gather(
                item["content"@]->Array_0,
                |i: int, block: JsonView| piece(block_text(block)),
            )
            &&& !told ==> item_events(JsonView::Object(item)).len() == 0
        },
        !item.contains_key("type"@) || (item["type"@] != JsonView::Text("function_call"@)
            && item["type"@] != JsonView::Text("message"@)) ==> item_events(
            JsonView::Object(item),
        ).len() == 0,
{
    lemma_item_keys();
    reveal_strlit("");
    assert(""@ =~= Seq::<char>::empty());
}

/// A content block of a message is its text exactly where it is of the kind `output_text`; an
/// empty text counts. Neither an item nor a block that is no object is an event.
pub proof fn law_block_is_its_text(block: Map<Seq<char>, JsonView>, other: JsonView)
    ensures
        ({
            let told = block.contains_key("type"@) && block["type"@] == JsonView::Text(
                "output_text"@,
            ) && block.contains_key("text"@) && block["text"@] is Text;
            &&& told ==> block_text(JsonView::Object(block)) == Some(
                EventView::Text(block["text"@]->Text_0),
            )
            &&& !told ==> block_text(JsonView::Object(block)) is None
        }),
        other !is Object ==> block_text(other) is None && item_events(other).len() == 0,
{
}

/// A reply with an array as its output is read as every item of it, in their order, and a stop,
/// whatever other keys it has.
pub proof fn law_every_item_is_read(reply: Map<Seq<char>, JsonView>, output: Seq<JsonView>)
    requires
        reply.contains_key("output"@),
        reply["output"@] == JsonView::Array(output),
    ensures
        reply_events(JsonView::Object(reply)) == Ok::<_, ErrorView>(
            gather(output, |i: int, item: JsonView| item_events(item)).push(EventView::Stop),
        ),
{
}

/// Without an output array, a reply is read as its first choice, whatever other keys it has: the
/// text of its message, unless that is empty; each tool call in its place; and a stop unless the
/// finish reason is the text `tool_calls`.
pub proof fn law_first_choice_is_read(
    reply: Map<Seq<char>, JsonView>,
    choices: Seq<JsonView>,
    choice: Map<Seq<char>, JsonView>,
    message: Map<Seq<char>, JsonView>,
)
    requires
        !reply.contains_key("output"@) || reply["output"@] !is Array,
        reply.contains_key("choices"@),
        reply["choices"@] == JsonView::Array(choices),
        choices.len() > 0,
        choices[0] == JsonView::Object(choice),
        choice.contains_key("message"@),
        choice["message"@] == JsonView::Object(message),
    ensures
        reply_events(JsonView::Object(reply)) is Ok,
        ({
            let events = reply_events(JsonView::Object(reply))->Ok_0;
            let text = own_text(message, "content"@);
            let calls = if message.contains_key("tool_calls"@) && message["tool_calls"@] is Array {
                message["tool_calls"@]->Array_0
            } else {
                Seq::empty()
            };
            let waits = choice.contains_key("finish_reason"@) && choice["finish_reason"@]
                == JsonView::Text("tool_calls"@);
            let first: int = if text.len() > 0 {
                1
            } else {
                0
            };
            &&& events.len() == first + calls.len() + if waits {
                0int
            } else {
                1int
            }
            &&& text.len() > 0 ==> events[0] == EventView::Text(text)
            &&& forall|i: int|
                0 <= i < calls.len() ==> (#[trigger] events[first + i]) == read_call(calls[i])
            &&& !waits ==> events.last() == EventView::Stop
        }),
{
    reveal_strlit("stop");
    reveal_strlit("tool_calls");
    assert("stop"@.len() != "tool_calls"@.len());
    let events = reply_events(JsonView::Object(reply))->Ok_0;
    let text = own_text(message, "content"@);
    let holder = JsonView::Object(message);
    let list = message_calls(holder);
    assert(events == choice_events(choices[0], holder));
    assert(message_text(holder) == if text.len() > 0 {
        Some(EventView::Text(text))
    } else {
        None
    });
    if message.contains_key("tool_calls"@) && message["tool_calls"@] is Array {
        let calls = message["tool_calls"@]->Array_0;
        let first: int = if text.len() > 0 {
            1
        } else {
            0
        };
        assert forall|i: int| 0 <= i < calls.len() implies (#[trigger] events[first + i])
            == read_call(calls[i]) by {
            assert(events[first + i] == list[i]);
            lemma_read_call(calls[i]);
        }
    }
}

/// What a tool call of a chat completion says: its id, and the name and the arguments in its
/// function. What is missing is empty.
pub open spec fn read_call(call: JsonView) -> EventView {
    let fields = if call is Object {
        call->Object_0
    } else {
        Map::empty()
    };
    let function = if fields.contains_key("function"@) && fields["function"@] is Object {
        fields["function"@]->Object_0
    } else {
        Map::empty()
    };
    EventView::ToolUse {
        id: own_text(fields, "id"@),
        name: own_text(function, "name"@),
        input: own_input(function),
        thought_signature: None,
    }
}

proof fn lemma_read_call(call: JsonView)
    ensures
        chat_call_event(call, held_arguments(call.child("function"@))) == read_call(call),
{
    reveal_strlit("");
    assert(""@ =~= Seq::<char>::empty());
}

/// A message that is no object has no events but, possibly, the stop.
pub proof fn law_message_that_is_no_object(choice: JsonView, message: JsonView)
    requires
        message !is Object,
    ensures
        choice_events(choice, message).len() <= 1,
        message_text(message) is None,
        message_calls(message).len() == 0,
{
}

/// A reply has events exactly where it has an output array or a first choice with a message; a
/// missing choice and a missing message are told apart.
pub proof fn law_errors_of_a_reply(reply: JsonView)
    ensures
        ({
            let fields = reply->Object_0;
            let output = reply is Object && fields.contains_key("output"@) && fields["output"@]
                is Array;
            let chosen = reply is Object && fields.contains_key("choices"@) && fields["choices"@]
                is Array && fields["choices"@]->Array_0.len() > 0;
            let choice = fields["choices"@]->Array_0[0];
            let message = choice is Object && choice->Object_0.contains_key("message"@);
            &&& reply_events(reply) is Ok <==> output || (chosen && message)
            &&& !output && !chosen ==> reply_events(reply) == Err::<Seq<EventView>, _>(
                ErrorView::NoChoices,
            )
            &&& !output && chosen && !message ==> reply_events(reply) == Err::<Seq<EventView>, _>(
                ErrorView::NoMessage,
            )
        }),
{
}

/// The items of a stream are those of its lines, one after another: what comes before any end
/// marker counts in full, and so does what follows it.
pub proof fn law_stream_is_read_line_after_line(a: Seq<Seq<char>>, b: Seq<Seq<char>>)
    requires
        forall|i: int| 0 <= i < a.len() ==> (#[trigger] a[i]) != "data: [DONE]"@,
    ensures
        stream_items(a + b) == stream_items(a) + stream_items(b),
    decreases a.len(),
{
    if a.len() == 0 {
        assert(a + b =~= b);
        assert(stream_items(a) + stream_items(b) =~= stream_items(b));
    } else {
        let rest = a.skip(1);
        assert((a + b)[0] == a[0]);
        assert((a + b).skip(1) =~= rest + b);
        assert forall|i: int| 0 <= i < rest.len() implies (#[trigger] rest[i])
            != "data: [DONE]"@ by {
            assert(rest[i] == a[i + 1]);
        }
        law_stream_is_read_line_after_line(rest, b);
        lemma_end_marker();
        law_prefix_and_rest(a[0], "data: "@, "[DONE]"@);
        assert(a[0] != "data: [DONE]"@);
        match after_prefix(a[0], "data: "@) {
            Some(data) => {
                let item = piece(crate::openai::delivered_item(parsed_text(data)));
                assert(item + (stream_items(rest) + stream_items(b)) =~= item + stream_items(rest)
                    + stream_items(b));
            },
            None => {},
        }
    }
}

proof fn lemma_end_marker()
    ensures
        "data: "@ + "[DONE]"@ == "data: [DONE]"@,
{
    reveal_strlit("data: ");
    reveal_strlit("[DONE]");
    reveal_strlit("data: [DONE]");
    assert("data: "@ + "[DONE]"@ =~= "data: [DONE]"@);
}

/// A data line delivers exactly the item of its event where the event is of the type
/// `response.output_item.done` and has one, and nothing otherwise. A line without data and the end
/// marker deliver nothing.
pub proof fn law_line_delivers_its_item(data: Seq<char>, line: Seq<char>)
    ensures
        data != "[DONE]"@ ==> {
            let event = parsed_text(data);
            let fields = event->0->Object_0;
            let done = event is Some && event->0 is Object && fields.contains_key("type"@)
                && fields["type"@] == JsonView::Text("response.output_item.done"@)
                && fields.contains_key("item"@);
            &&& done ==> stream_items(seq!["data: "@ + data]) == seq![fields["item"@]]
            &&& !done ==> stream_items(seq!["data: "@ + data]).len() == 0
        },
        !begins_with(line, "data: "@) ==> stream_items(seq![line]).len() == 0,
        stream_items(seq!["data: [DONE]"@]).len() == 0,
        stream_items(Seq::empty()).len() == 0,
{
    lemma_end_marker();
    law_prefix_and_rest("data: "@ + data, "data: "@, data);
    law_prefix_and_rest("data: [DONE]"@, "data: "@, "[DONE]"@);
    reveal_strlit("");
    reveal_strlit("response.output_item.done");
    assert(""@.len() == 0);
    assert("response.output_item.done"@.len() == 25);
    let one = seq!["data: "@ + data];
    assert(one.skip(1) =~= Seq::<Seq<char>>::empty());
    assert(seq![line].skip(1) =~= Seq::<Seq<char>>::empty());
    let none = stream_items(Seq::<Seq<char>>::empty());
    let item = crate::openai::delivered_item(parsed_text(data));
    assert(piece(item) + none =~= piece(item));
}

/// A stream whose lines deliver items is read as these items in their order and a stop; one
/// without items is an error that holds all of it.
pub proof fn law_stream_is_its_items(text: Seq<char>)
    ensures
        stream_items(lines(text)).len() == 0 ==> stream_events(text) == Err::<Seq<EventView>, _>(
            ErrorView::NoOutputItems(text),
        ),
        stream_items(lines(text)).len() > 0 ==> stream_events(text) == Ok::<_, ErrorView>(
            gather(
                stream_items(lines(text)),
                |i: int, item: JsonView| item_events(item),
            ).push(EventView::Stop),
        ),
{
}

/// A provider has the base URL that is set, OpenAI's own model setting before the agent's, and the
/// limit that is set, or else the defaults; without tokens there is none.
pub proof fn law_settings_make_the_provider(
    base_url: Option<Seq<char>>,
    own: Option<Seq<char>>,
    shared: Option<Seq<char>>,
    max_tokens: Option<Seq<char>>,
    error: Seq<char>,
)
    ensures
        configured(Ok(()), base_url, own, shared, max_tokens) matches Ok(provider) && provider.0
            == (match base_url {
            Some(base_url) => base_url,
            None => "https://chatgpt.com/backend-api"@,
        }) && provider.1 == (match own {
            Some(model) => model,
            None => match shared {
                Some(model) => model,
                None => "gpt-4.1-nano"@,
            },
        }) && provider.2 == token_limit(max_tokens),
        configured(Err(error), base_url, own, shared, max_tokens) == Err::<
            (Seq<char>, Seq<char>, u32),
            _,
        >(error),
{
}

} // verus!
