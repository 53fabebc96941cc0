//! Laws of the Anthropic API.
use crate::anthropic::{
    block_body, block_event, configured, message_body, reply_events, request_body,
    AnthropicProvider,
};
use crate::error::ErrorView;
use crate::json::JsonView;
use crate::message::{
    history_block, history_blocks, BlockView, EventView, MessageView, ToolDefView,
};
use crate::sequence::{gather, lemma_gather_all, lemma_gather_concat, piece};
use crate::settings::token_limit;
use vstd::prelude::*;

verus! {

/// The keys of a content block differ.
proof fn lemma_block_keys()
    ensures
        "type"@ != "text"@,
        "type"@ != "id"@,
        "type"@ != "name"@,
        "type"@ != "input"@,
        "id"@ != "name"@,
        "id"@ != "input"@,
        "name"@ != "input"@,
        "type"@ != "content"@,
        "type"@ != "tool_use_id"@,
        "type"@ != "is_error"@,
        "content"@ != "is_error"@,
        "tool_use_id"@ != "is_error"@,
        "tool_use"@ != "text"@,
        "tool_result"@ != "text"@,
        "tool_result"@ != "tool_use"@,
{
    reveal_strlit("type");
    reveal_strlit("text");
    reveal_strlit("id");
    reveal_strlit("name");
    reveal_strlit("input");
    reveal_strlit("content");
    reveal_strlit("tool_use_id");
    reveal_strlit("is_error");
    reveal_strlit("tool_use");
    reveal_strlit("tool_result");
    assert("type"@[1] != "text"@[1]);
    assert("type"@[0] != "name"@[0]);
    assert("type"@.len() == 4);
    assert("name"@.len() == 4);
    assert("text"@.len() == 4);
    assert("id"@.len() == 2);
    assert("input"@.len() == 5);
    assert("content"@.len() == 7);
    assert("tool_use_id"@.len() == 11);
    assert("is_error"@.len() == 8);
    assert("tool_use"@.len() == 8);
    assert("tool_result"@.len() == 11);
}

/// The event of a text or tool call, without a signature of another provider. A tool result is no
/// event.
pub open spec fn own_event(block: BlockView) -> Option<EventView> {
    match block {
        BlockView::Text { text } => Some(EventView::Text(text)),
        BlockView::ToolUse { id, name, input, .. } => Some(
            EventView::ToolUse { id, name, input, thought_signature: None },
        ),
        BlockView::ToolResult { .. } => None,
    }
}

/// A block that is sent would be read as the same text or tool call; a signature of another
/// provider is left out, and a tool result is no event.
pub proof fn law_block_reads_back(block: BlockView)
    ensures
        block_event(block_body(block)) == own_event(block),
{
    lemma_block_keys();
}

proof fn lemma_content_reads_back(content: Seq<BlockView>)
    ensures
        gather(
            content.map_values(|b: BlockView| block_body(b)),
            |i: int, block: JsonView| piece(block_event(block)),
        ) == gather(content, |i: int, block: BlockView| piece(own_event(block))),
    decreases content.len(),
{
    let sent = content.map_values(|b: BlockView| block_body(b));
    if content.len() > 0 {
        assert(sent.drop_last() =~= content.drop_last().map_values(|b: BlockView| block_body(b)));
        lemma_content_reads_back(content.drop_last());
        law_block_reads_back(content.last());
    }
}

/// A reply with the content of a message that is sent would be read as the texts and tool calls
/// of that message, all of them in their order, then a stop unless it waits for tool results.
pub proof fn law_message_reads_back(message: MessageView, response: JsonView)
    requires
        response.items_at("content"@) == message_body(message).items_at("content"@),
    ensures
        reply_events(response) == Ok::<Seq<EventView>, ErrorView>(
            gather(message.content, |i: int, block: BlockView| piece(own_event(block))) + piece(
                if response.text_or("stop_reason"@, "end_turn"@) == "tool_use"@ {
                    None
                } else {
                    Some(EventView::Stop)
                },
            ),
        ),
{
    reveal_strlit("role");
    reveal_strlit("content");
    assert("role"@.len() != "content"@.len());
    lemma_content_reads_back(message.content);
}

proof fn lemma_content_is_repeated(content: Seq<BlockView>)
    requires
        forall|i: int| 0 <= i < content.len() ==> (#[trigger] content[i]) !is ToolResult,
    ensures
        history_blocks(
            gather(content, |i: int, block: BlockView| piece(own_event(block))),
        ).map_values(|b: BlockView| block_body(b)) == content.map_values(
            |b: BlockView| block_body(b),
        ),
    decreases content.len(),
{
    let f = |i: int, block: BlockView| piece(own_event(block));
    let h = |i: int, event: EventView| piece(history_block(event));
    let body = |b: BlockView| block_body(b);
    if content.len() == 0 {
        assert(history_blocks(gather(content, f)).map_values(body) =~= content.map_values(body));
    } else {
        let front = content.drop_last();
        assert forall|i: int| 0 <= i < front.len() implies (#[trigger] front[i])
            !is ToolResult by {
            assert(front[i] == content[i]);
        }
        lemma_content_is_repeated(front);
        let event = own_event(content.last())->0;
        assert(gather(content, f) == gather(front, f) + seq![event]);
        let last = seq![event];
        lemma_gather_concat(gather(front, f), last, h);
        assert(last.drop_last() =~= Seq::<EventView>::empty());
        assert(gather(last.drop_last(), h) =~= Seq::<BlockView>::empty());
        let block = history_block(event)->0;
        assert(gather(last, h) =~= seq![block]);
        assert(block_body(block) == block_body(content.last()));
        assert(history_blocks(gather(content, f)) == history_blocks(gather(front, f)) + seq![
            block,
        ]);
        assert((history_blocks(gather(front, f)) + seq![block]).map_values(body)
            =~= history_blocks(gather(front, f)).map_values(body).push(block_body(block)));
        assert(content.map_values(body) =~= front.map_values(body).push(
            block_body(content.last()),
        ));
    }
}

/// A reply of texts and tool calls, carried on in the conversation as a whole, is sent as it was
/// received.
pub proof fn law_reply_is_repeated(message: MessageView, response: JsonView)
    requires
        response.items_at("content"@) == message_body(message).items_at("content"@),
        forall|i: int|
            0 <= i < message.content.len() ==> (#[trigger] message.content[i]) !is ToolResult,
    ensures
        reply_events(response) matches Ok(events) && message_body(
            MessageView { role: message.role, content: history_blocks(events) },
        ) == message_body(message),
{
    law_message_reads_back(message, response);
    lemma_content_is_repeated(message.content);
    let h = |i: int, event: EventView| piece(history_block(event));
    let list = gather(message.content, |i: int, block: BlockView| piece(own_event(block)));
    let events = reply_events(response)->Ok_0;
    let waits = response.text_or("stop_reason"@, "end_turn"@) == "tool_use"@;
    if waits {
        assert(events =~= list);
    } else {
        let stop = seq![EventView::Stop];
        assert(events == list + stop);
        lemma_gather_concat(list, stop, h);
        assert(stop.drop_last() =~= Seq::<EventView>::empty());
        assert(gather(stop.drop_last(), h) =~= Seq::<BlockView>::empty());
        assert(gather(stop, h) =~= Seq::<BlockView>::empty());
        assert(history_blocks(list) + Seq::<BlockView>::empty() =~= history_blocks(list));
    }
}

/// A text or tool call of a reply, carried on in the conversation, is sent as it was received.
pub proof fn law_block_is_repeated(block: BlockView)
    requires
        block !is ToolResult,
    ensures
        block_event(block_body(block)) matches Some(event) && history_block(event) matches Some(
            carried,
        ) && block_body(carried) == block_body(block),
{
    law_block_reads_back(block);
}

/// A tool result is marked as an error exactly where it is one.
pub proof fn law_error_mark(tool_use_id: Seq<char>, content: Seq<char>, is_error: Option<bool>)
    ensures
        block_body(BlockView::ToolResult { tool_use_id, content, is_error }).get("is_error"@) == (
        if is_error == Some(true) {
            Some(JsonView::Bool(true))
        } else {
            None
        }),
{
    lemma_block_keys();
}

/// A reply stops exactly where its stop reason is not a tool use; a stop stands nowhere but at
/// the end, and no event carries a signature.
pub proof fn law_stop_follows_reason(response: JsonView)
    ensures
        reply_events(response) matches Ok(events) ==> {
            &&& forall|i: int| 0 <= i < events.len() - 1 ==> (#[trigger] events[i]) !is Stop
            &&& (events.len() > 0 && events.last() is Stop) <==> response.text_or(
                "stop_reason"@,
                "end_turn"@,
            ) != "tool_use"@
            &&& forall|i: int|
                0 <= i < events.len() && (#[trigger] events[i]) is ToolUse
                    ==> events[i]->ToolUse_thought_signature is None
        },
{
    if let Ok(events) = reply_events(response) {
        let content = response.items_at("content"@)->0;
        let f = |i: int, block: JsonView| piece(block_event(block));
        let p = |event: EventView|
            event is Text || (event is ToolUse && event->ToolUse_thought_signature is None);
        lemma_gather_all(content, f, p);
        let list = gather(content, f);
        assert(forall|i: int| 0 <= i < list.len() ==> p(#[trigger] list[i]));
        let waits = response.text_or("stop_reason"@, "end_turn"@) == "tool_use"@;
        assert(events == list + piece(
            if waits {
                None
            } else {
                Some(EventView::Stop)
            },
        ));
        assert forall|i: int| 0 <= i < list.len() implies p(#[trigger] events[i]) by {
            assert(events[i] == list[i]);
        }
        if waits {
            assert(events =~= list);
            if events.len() > 0 {
                assert(p(events[events.len() - 1]));
            }
        }
    }
}

/// Each message is sent in its order under its own role; tools are named exactly where there are
/// some.
pub proof fn law_request_mirrors_conversation(
    model: Seq<char>,
    max_tokens: int,
    system: Seq<char>,
    messages: Seq<MessageView>,
    tools: Seq<ToolDefView>,
)
    ensures
        ({
            let body = request_body(model, max_tokens, system, messages, tools);
            &&& body.items_at("messages"@) matches Some(sent) && sent.len() == messages.len()
                && forall|i: int|
                0 <= i < messages.len() ==> (#[trigger] sent[i]).text_at("role"@) == Some(
                    messages[i].role,
                )
            &&& body.get("tools"@) is Some <==> tools.len() > 0
        }),
{
    reveal_strlit("model");
    reveal_strlit("max_tokens");
    reveal_strlit("messages");
    reveal_strlit("system");
    reveal_strlit("tools");
    reveal_strlit("role");
    reveal_strlit("content");
    assert("model"@.len() == 5);
    assert("max_tokens"@.len() == 10);
    assert("messages"@.len() == 8);
    assert("system"@.len() == 6);
    assert("tools"@.len() == 5);
    assert("tools"@[0] != "model"@[0]);
    assert("role"@.len() != "content"@.len());
}

/// The keys of a request body differ.
proof fn lemma_request_keys()
    ensures
        "model"@ != "max_tokens"@,
        "model"@ != "messages"@,
        "model"@ != "system"@,
        "model"@ != "tools"@,
        "max_tokens"@ != "messages"@,
        "max_tokens"@ != "system"@,
        "max_tokens"@ != "tools"@,
        "messages"@ != "system"@,
        "messages"@ != "tools"@,
        "system"@ != "tools"@,
{
    reveal_strlit("model");
    reveal_strlit("max_tokens");
    reveal_strlit("messages");
    reveal_strlit("system");
    reveal_strlit("tools");
    assert("model"@.len() == 5);
    assert("max_tokens"@.len() == 10);
    assert("messages"@.len() == 8);
    assert("system"@.len() == 6);
    assert("tools"@.len() == 5);
    assert("model"@[0] != "tools"@[0]);
}

/// The keys of messages and tool definitions differ.
proof fn lemma_inner_keys()
    ensures
        "role"@ != "content"@,
        "role"@ != "name"@,
        "role"@ != "description"@,
        "role"@ != "input_schema"@,
        "content"@ != "name"@,
        "content"@ != "description"@,
        "content"@ != "input_schema"@,
        "name"@ != "description"@,
        "name"@ != "input_schema"@,
        "description"@ != "input_schema"@,
{
    reveal_strlit("role");
    reveal_strlit("content");
    reveal_strlit("name");
    reveal_strlit("description");
    reveal_strlit("input_schema");
    assert("role"@.len() == 4);
    assert("content"@.len() == 7);
    assert("name"@.len() == 4);
    assert("description"@.len() == 11);
    assert("input_schema"@.len() == 12);
    assert("role"@[0] != "name"@[0]);
}

/// A request goes to the Messages API with the provider's key, in the version of 2023-06-01, as
/// JSON.
pub proof fn law_request_is_addressed(provider: AnthropicProvider)
    ensures
        provider.request_url() == "https://api.anthropic.com/v1/messages"@,
        provider.request_headers().len() == 3,
        provider.request_headers()[0] == ("x-api-key"@, provider.api_key@),
        provider.request_headers()[1] == ("anthropic-version"@, "2023-06-01"@),
        provider.request_headers()[2] == ("content-type"@, "application/json"@),
{
}

/// A request names the provider's model and token limit and the given system prompt, and holds
/// every message and every tool, and nothing else. There is a list of tools exactly where there
/// are some.
pub proof fn law_request_holds_everything(
    provider: AnthropicProvider,
    system: Seq<char>,
    messages: Seq<MessageView>,
    tools: Seq<ToolDefView>,
)
    ensures
        ({
            let fields = provider.request(system, messages, tools)->Object_0;
            &&& provider.request(system, messages, tools) is Object
            &&& fields.dom() =~= if tools.len() == 0 {
                set!["model"@, "max_tokens"@, "messages"@, "system"@]
            } else {
                set!["model"@, "max_tokens"@, "messages"@, "system"@, "tools"@]
            }
            &&& fields["model"@] == JsonView::Text(provider.model@)
            &&& fields["max_tokens"@] == JsonView::Integer(provider.max_tokens as int)
            &&& fields["system"@] == JsonView::Text(system)
            &&& fields["messages"@] is Array
            &&& fields["messages"@]->Array_0.len() == messages.len()
            &&& tools.len() > 0 ==> fields["tools"@] is Array && fields["tools"@]->Array_0.len()
                == tools.len()
        }),
{
    lemma_request_keys();
    let fields = provider.request(system, messages, tools)->Object_0;
    if tools.len() == 0 {
        assert(fields.dom() =~= set!["model"@, "max_tokens"@, "messages"@, "system"@]);
    } else {
        assert(fields.dom() =~= set!["model"@, "max_tokens"@, "messages"@, "system"@, "tools"@]);
    }
}

/// Each message of a request stands in its place, under its own role, with each of its blocks in
/// its place.
pub proof fn law_message_keeps_its_place(
    provider: AnthropicProvider,
    system: Seq<char>,
    messages: Seq<MessageView>,
    tools: Seq<ToolDefView>,
    i: int,
)
    requires
        0 <= i < messages.len(),
    ensures
        ({
            let body = provider.request(system, messages, tools)->Object_0;
            let sent = body["messages"@]->Array_0[i]->Object_0;
            &&& body["messages"@]->Array_0[i] is Object
            &&& sent.dom() =~= set!["role"@, "content"@]
            &&& sent["role"@] == JsonView::Text(messages[i].role)
            &&& sent["content"@] is Array
            &&& sent["content"@]->Array_0.len() == messages[i].content.len()
            &&& forall|j: int|
                0 <= j < messages[i].content.len() ==> (#[trigger] sent["content"@]->Array_0[j])
                    == block_body(messages[i].content[j])
        }),
{
    lemma_request_keys();
    lemma_inner_keys();
}

/// Each tool of a request stands in its place, with its own name, description and schema.
pub proof fn law_tool_keeps_its_schema(
    provider: AnthropicProvider,
    system: Seq<char>,
    messages: Seq<MessageView>,
    tools: Seq<ToolDefView>,
    i: int,
)
    requires
        0 <= i < tools.len(),
    ensures
        ({
            let body = provider.request(system, messages, tools)->Object_0;
            let sent = body["tools"@]->Array_0[i]->Object_0;
            &&& body["tools"@]->Array_0[i] is Object
            &&& sent.dom() =~= set!["name"@, "description"@, "input_schema"@]
            &&& sent["name"@] == JsonView::Text(tools[i].name)
            &&& sent["description"@] == JsonView::Text(tools[i].description)
            &&& sent["input_schema"@] == tools[i].input_schema
        }),
{
    lemma_request_keys();
    lemma_inner_keys();
}

/// A block is sent with its kind and all that the kind has: a text its text; a tool call its id,
/// name and input; a tool result its call's id, its content and, where it is one, the mark of an
/// error.
pub proof fn law_block_is_sent_whole(block: BlockView)
    ensures
        block_body(block) is Object,
        ({
            let sent = block_body(block)->Object_0;
            match block {
                BlockView::Text { text } => {
                    &&& sent.dom() =~= set!["type"@, "text"@]
                    &&& sent["type"@] == JsonView::Text("text"@)
                    &&& sent["text"@] == JsonView::Text(text)
                },
                BlockView::ToolUse { id, name, input, .. } => {
                    &&& sent.dom() =~= set!["type"@, "id"@, "name"@, "input"@]
                    &&& sent["type"@] == JsonView::Text("tool_use"@)
                    &&& sent["id"@] == JsonView::Text(id)
                    &&& sent["name"@] == JsonView::Text(name)
                    &&& sent["input"@] == input
                },
                BlockView::ToolResult { tool_use_id, content, is_error } => {
                    &&& sent["type"@] == JsonView::Text("tool_result"@)
                    &&& sent["tool_use_id"@] == JsonView::Text(tool_use_id)
                    &&& sent["content"@] == JsonView::Text(content)
                    &&& is_error == Some(true) ==> sent["is_error"@] == JsonView::Bool(true)
                        && sent.dom() =~= set!["type"@, "tool_use_id"@, "content"@, "is_error"@]
                    &&& is_error != Some(true) ==> sent.dom() =~= set![
                        "type"@,
                        "tool_use_id"@,
                        "content"@,
                    ]
                },
            }
        }),
{
    lemma_block_keys();
    reveal_strlit("tool_use_id");
    reveal_strlit("content");
    assert("tool_use_id"@.len() == 11);
    assert("content"@.len() == 7);
}

/// A block of a reply is read by its kind alone, whatever other keys it has: a text block as its
/// text, a tool use as its id, name and input. Of a tool use, a missing id or name is empty, and a
/// missing input is an object without entries.
pub proof fn law_block_is_read_by_its_kind(block: Map<Seq<char>, JsonView>)
    requires
        block.contains_key("type"@),
    ensures
        block["type"@] == JsonView::Text("text"@) ==> {
            &&& block.contains_key("text"@) && block["text"@] is Text ==> block_event(
                JsonView::Object(block),
            ) == Some(EventView::Text(block["text"@]->Text_0))
            &&& !(block.contains_key("text"@) && block["text"@] is Text) ==> block_event(
                JsonView::Object(block),
            ) is None
        },
        block["type"@] == JsonView::Text("tool_use"@) ==> {
            let event = block_event(JsonView::Object(block));
            &&& event matches Some(EventView::ToolUse { id, name, input, thought_signature })
            &&& block.contains_key("id"@) && block["id"@] is Text ==> id == block["id"@]->Text_0
            &&& !(block.contains_key("id"@) && block["id"@] is Text) ==> id.len() == 0
            &&& block.contains_key("name"@) && block["name"@] is Text ==> name
                == block["name"@]->Text_0
            &&& !(block.contains_key("name"@) && block["name"@] is Text) ==> name.len() == 0
            &&& block.contains_key("input"@) ==> input == block["input"@]
            &&& !block.contains_key("input"@) ==> input == JsonView::Object(Map::empty())
            &&& thought_signature is None
        },
        block["type"@] != JsonView::Text("text"@) && block["type"@] != JsonView::Text("tool_use"@)
            ==> block_event(JsonView::Object(block)) is None,
{
    lemma_block_keys();
    reveal_strlit("");
    assert(""@.len() == 0);
}

/// A block without a kind is no event.
pub proof fn law_block_without_a_kind(block: JsonView)
    requires
        block matches JsonView::Object(fields) ==> !fields.contains_key("type"@),
    ensures
        block_event(block) is None,
{
}

/// The events of a reply are those of every block of its content, in their order, whatever other
/// keys it has, and a stop behind them unless its stop reason is the text `tool_use`.
pub proof fn law_every_block_is_read(reply: Map<Seq<char>, JsonView>, content: Seq<JsonView>)
    requires
        reply.contains_key("content"@),
        reply["content"@] == JsonView::Array(content),
    ensures
        ({
            let waits = reply.contains_key("stop_reason"@) && reply["stop_reason"@]
                == JsonView::Text("tool_use"@);
            let list = gather(content, |i: int, block: JsonView| piece(block_event(block)));
            &&& waits ==> reply_events(JsonView::Object(reply)) == Ok::<_, ErrorView>(list)
            &&& !waits ==> reply_events(JsonView::Object(reply)) == Ok::<_, ErrorView>(
                list.push(EventView::Stop),
            )
        }),
{
    reveal_strlit("end_turn");
    reveal_strlit("tool_use");
    assert("end_turn"@[0] != "tool_use"@[0]);
    let list = gather(content, |i: int, block: JsonView| piece(block_event(block)));
    assert(list + Seq::<EventView>::empty() =~= list);
    assert(list + seq![EventView::Stop] =~= list.push(EventView::Stop));
}

/// Only a reply with an array as its content has events.
pub proof fn law_reply_needs_content(reply: JsonView)
    ensures
        reply_events(reply) is Ok <==> (reply matches JsonView::Object(fields)
            && fields.contains_key("content"@) && fields["content"@] is Array),
        reply_events(reply) matches Err(error) ==> error is MissingContent,
{
}

/// A provider has the key that is set, the model that is set or else the default, and the limit
/// that is set; without a key there is none.
pub proof fn law_settings_make_the_provider(
    key: Seq<char>,
    model: Option<Seq<char>>,
    max_tokens: Option<Seq<char>>,
    default_model: Seq<char>,
)
    ensures
        key.len() > 0 ==> (configured(Some(key), model, max_tokens, default_model) matches Ok(
            provider,
        ) && provider.0 == key && provider.1 == (match model {
            Some(model) => model,
            None => default_model,
        }) && provider.2 == token_limit(max_tokens)),
        key.len() == 0 ==> configured(Some(key), model, max_tokens, default_model) == Err::<
            (Seq<char>, Seq<char>, u32),
            _,
        >("ANTHROPIC_API_KEY is empty"@),
        configured(None, model, max_tokens, default_model) == Err::<
            (Seq<char>, Seq<char>, u32),
            _,
        >("ANTHROPIC_API_KEY not set"@),
{
    reveal_strlit("ANTHROPIC_API_KEY");
    reveal_strlit(" is empty");
    reveal_strlit(" not set");
    reveal_strlit("ANTHROPIC_API_KEY is empty");
    reveal_strlit("ANTHROPIC_API_KEY not set");
    assert("ANTHROPIC_API_KEY"@ + " is empty"@ =~= "ANTHROPIC_API_KEY is empty"@);
    assert("ANTHROPIC_API_KEY"@ + " not set"@ =~= "ANTHROPIC_API_KEY not set"@);
}

} // verus!
