//! The OpenAI Responses API (for a Codex subscription), with chat completions as a fallback:
//! request bodies and replies.
use crate::error::{outcome, ErrorView, LlmError};
use crate::json::{models, parsed_text, rendered, Json, JsonObject, JsonView, PARSED_DEPTH};
use crate::jwt::{extract_account_id_from_jwt, token_account};
use crate::laws::openai::law_call_reads_back;
use crate::message::{
    blocks, conversation, events, optional, toolbox, BlockView, ContentBlock, EventView, LlmEvent,
    Message, MessageView, ToolDef, ToolDefView,
};
use crate::sequence::{gather, lemma_gather_step, piece};
use crate::settings::{
    either, header_texts, read_either, read_setting, read_token_limit, setting, token_limit,
};
use crate::text::{after_prefix, lines, same_text, strip_prefix, text_lines, texts};
use vstd::prelude::*;
use vstd::string::StringExecFns;

verus! {

/// OpenAI-compatible provider.
pub struct OpenAiProvider {
    pub base_url: String,
    pub model: String,
    pub max_tokens: u32,
}

/// The texts of a message, run together.
pub open spec fn joined_text(content: Seq<BlockView>) -> Seq<char> {
    gather(
        content,
        |i: int, block: BlockView|
            match block {
                BlockView::Text { text } => text,
                _ => Seq::empty(),
            },
    )
}

/// A user's text as an input item.
pub open spec fn user_text_item(text: Seq<char>) -> JsonView {
    JsonView::Object(
        map![
            "role"@ => JsonView::Text("user"@),
            "content"@ => JsonView::Array(
                seq![
                    JsonView::Object(
                        map![
                            "type"@ => JsonView::Text("input_text"@),
                            "text"@ => JsonView::Text(text),
                        ],
                    ),
                ],
            ),
        ],
    )
}

/// A tool result as an input item.
pub open spec fn output_item(tool_use_id: Seq<char>, content: Seq<char>) -> JsonView {
    JsonView::Object(
        map![
            "type"@ => JsonView::Text("function_call_output"@),
            "call_id"@ => JsonView::Text(tool_use_id),
            "output"@ => JsonView::Text(content),
        ],
    )
}

/// An assistant's text as an input item.
pub open spec fn assistant_text_item(text: Seq<char>) -> JsonView {
    JsonView::Object(
        map![
            "type"@ => JsonView::Text("message"@),
            "role"@ => JsonView::Text("assistant"@),
            "content"@ => JsonView::Array(
                seq![
                    JsonView::Object(
                        map![
                            "type"@ => JsonView::Text("output_text"@),
                            "text"@ => JsonView::Text(text),
                            "annotations"@ => JsonView::Array(Seq::empty()),
                        ],
                    ),
                ],
            ),
        ],
    )
}

/// A tool call as an input item; its arguments are a JSON text.
pub open spec fn call_item(id: Seq<char>, name: Seq<char>, arguments: Seq<char>) -> JsonView {
    JsonView::Object(
        map![
            "type"@ => JsonView::Text("function_call"@),
            "call_id"@ => JsonView::Text(id),
            "name"@ => JsonView::Text(name),
            "arguments"@ => JsonView::Text(arguments),
        ],
    )
}

/// The block is a text.
pub open spec fn is_text(block: BlockView) -> bool {
    block is Text
}

/// The input item for a block of a user's message, its texts aside.
pub open spec fn user_block_item(block: BlockView) -> Option<JsonView> {
    match block {
        BlockView::ToolResult { tool_use_id, content, .. } => Some(
            output_item(tool_use_id, content),
        ),
        _ => None,
    }
}

/// The input item for a block of an assistant's message.
pub open spec fn assistant_block_item(block: BlockView) -> Option<JsonView> {
    match block {
        BlockView::Text { text } => Some(assistant_text_item(text)),
        BlockView::ToolUse { id, name, input, .. } => Some(call_item(id, name, rendered(input))),
        BlockView::ToolResult { .. } => None,
    }
}

/// The input items for a message: of a user, the texts in one item, then each tool result; of an
/// assistant, each text and tool call. Other roles are left out.
pub open spec fn message_items(message: MessageView) -> Seq<JsonView> {
    if message.role == "user"@ {
        piece(
            if exists|i: int|
                0 <= i < message.content.len() && is_text(#[trigger] message.content[i]) {
                Some(user_text_item(joined_text(message.content)))
            } else {
                None
            },
        ) + gather(message.content, |i: int, block: BlockView| piece(user_block_item(block)))
    } else if message.role == "assistant"@ {
        gather(message.content, |i: int, block: BlockView| piece(assistant_block_item(block)))
    } else {
        Seq::empty()
    }
}

/// The input items for a conversation.
pub open spec fn input_items(messages: Seq<MessageView>) -> Seq<JsonView> {
    gather(messages, |i: int, message: MessageView| message_items(message))
}

/// A tool definition on the wire.
pub open spec fn tool_body(tool: ToolDefView) -> JsonView {
    JsonView::Object(
        map![
            "type"@ => JsonView::Text("function"@),
            "name"@ => JsonView::Text(tool.name),
            "description"@ => JsonView::Text(tool.description),
            "parameters"@ => tool.input_schema,
        ],
    )
}

/// A request body. It names tools only where there are some.
pub open spec fn request_body(
    model: Seq<char>,
    system: Seq<char>,
    messages: Seq<MessageView>,
    tools: Seq<ToolDefView>,
) -> JsonView {
    let fields = map![
        "model"@ => JsonView::Text(model),
        "store"@ => JsonView::Bool(false),
        "stream"@ => JsonView::Bool(true),
        "instructions"@ => JsonView::Text(system),
        "input"@ => JsonView::Array(input_items(messages)),
        "tool_choice"@ => JsonView::Text("auto"@),
        "parallel_tool_calls"@ => JsonView::Bool(true),
    ];
    JsonView::Object(
        if tools.len() > 0 {
            fields.insert(
                "tools"@,
                JsonView::Array(tools.map_values(|t: ToolDefView| tool_body(t))),
            )
        } else {
            fields
        },
    )
}

fn encode_user_text(text: &str) -> (r: Json)
    ensures
        r@ == user_text_item(text@),
{
    let part = Json::Object(
        JsonObject::new().with("type", Json::text("input_text")).with("text", Json::text(text)),
    );
    let ghost part_view = part@;
    let parts: Vec<Json> = vec![part];
    assert(models(parts@) =~= seq![part_view]);
    Json::Object(
        JsonObject::new().with("role", Json::text("user")).with("content", Json::array(parts)),
    )
}

fn encode_output(tool_use_id: &str, content: &str) -> (r: Json)
    ensures
        r@ == output_item(tool_use_id@, content@),
{
    Json::Object(
        JsonObject::new().with("type", Json::text("function_call_output")).with(
            "call_id",
            Json::text(tool_use_id),
        ).with("output", Json::text(content)),
    )
}

fn encode_assistant_text(text: &str) -> (r: Json)
    ensures
        r@ == assistant_text_item(text@),
{
    let none: Vec<Json> = Vec::new();
    assert(models(none@) =~= Seq::<JsonView>::empty());
    let part = Json::Object(
        JsonObject::new().with("type", Json::text("output_text")).with(
            "text",
            Json::text(text),
        ).with("annotations", Json::array(none)),
    );
    let ghost part_view = part@;
    let parts: Vec<Json> = vec![part];
    assert(models(parts@) =~= seq![part_view]);
    Json::Object(
        JsonObject::new().with("type", Json::text("message")).with(
            "role",
            Json::text("assistant"),
        ).with("content", Json::array(parts)),
    )
}

/// The input item for a tool call whose arguments are this JSON text.
pub fn encode_call(id: &str, name: &str, arguments: &str) -> (r: Json)
    ensures
        r@ == call_item(id@, name@, arguments@),
{
    Json::Object(
        JsonObject::new().with("type", Json::text("function_call")).with(
            "call_id",
            Json::text(id),
        ).with("name", Json::text(name)).with("arguments", Json::text(arguments)),
    )
}

/// The input item for a tool call. It would be read as the same call, unless the input holds a
/// floating-point number or is nested too deep.
pub fn encode_tool_use(id: &str, name: &str, input: &Json) -> (r: Json)
    ensures
        r@ == call_item(id@, name@, rendered(input@)),
        input@.is_exact(PARSED_DEPTH as nat) ==> item_events(r@) == seq![
            EventView::ToolUse {
                id: id@,
                name: name@,
                input: input@,
                thought_signature: None,
            },
        ],
{
    let arguments = input.render();
    proof {
        law_call_reads_back(id@, name@, arguments@);
    }
    encode_call(id, name, arguments.as_str())
}

fn join_texts(content: &Vec<ContentBlock>) -> (r: Option<String>)
    ensures
        match r {
            Some(text) => text@ == joined_text(blocks(content@)) && exists|i: int|
                0 <= i < blocks(content@).len() && is_text(#[trigger] blocks(content@)[i]),
            None => forall|i: int|
                0 <= i < blocks(content@).len() ==> !is_text(#[trigger] blocks(content@)[i]),
        },
{
    let ghost all = blocks(content@);
    let ghost f = |i: int, block: BlockView|
        match block {
            BlockView::Text { text } => text,
            _ => Seq::<char>::empty(),
        };
    let mut found = false;
    let mut out = String::new();
    let mut i: usize = 0;
    while i < content.len()
        invariant
            i <= content@.len(),
            all == blocks(content@),
            f == (|i: int, block: BlockView|
                match block {
                    BlockView::Text { text } => text,
                    _ => Seq::<char>::empty(),
                }),
            out@ == gather(all.take(i as int), f),
            found == exists|j: int| 0 <= j < i && is_text(#[trigger] all[j]),
        decreases content@.len() - i,
    {
        proof {
            lemma_gather_step(all, f, i as int);
        }
        assert(all[i as int] == content@[i as int]@);
        match &content[i] {
            ContentBlock::Text { text } => {
                out.append(text.as_str());
                found = true;
                assert(is_text(all[i as int]));
            },
            _ => {
                assert(out@ + Seq::<char>::empty() =~= out@);
                assert(!is_text(all[i as int]));
            },
        }
        i += 1;
    }
    assert(all.take(i as int) =~= all);
    if found {
        Some(out)
    } else {
        None
    }
}

fn push_user_items(content: &Vec<ContentBlock>, out: &mut Vec<Json>)
    ensures
        models(final(out)@) == models(old(out)@) + gather(
            blocks(content@),
            |i: int, block: BlockView| piece(user_block_item(block)),
        ),
{
    let ghost all = blocks(content@);
    let ghost f = |i: int, block: BlockView| piece(user_block_item(block));
    let ghost start = models(out@);
    let mut i: usize = 0;
    assert(start + gather(all.take(0), f) =~= start);
    while i < content.len()
        invariant
            i <= content@.len(),
            all == blocks(content@),
            f == (|i: int, block: BlockView| piece(user_block_item(block))),
            models(out@) == start + gather(all.take(i as int), f),
        decreases content@.len() - i,
    {
        let ghost before = models(out@);
        proof {
            lemma_gather_step(all, f, i as int);
            assert(all[i as int] == content@[i as int]@);
        }
        match &content[i] {
            ContentBlock::ToolResult { tool_use_id, content: result, .. } => {
                out.push(encode_output(tool_use_id.as_str(), result.as_str()));
                assert(models(out@) =~= before + f(i as int, all[i as int]));
            },
            _ => {
                assert(before + f(i as int, all[i as int]) =~= before);
            },
        }
        assert(start + (gather(all.take(i as int), f) + f(i as int, all[i as int])) =~= start
            + gather(all.take(i as int), f) + f(i as int, all[i as int]));
        i += 1;
    }
    assert(all.take(i as int) =~= all);
}

fn push_assistant_items(content: &Vec<ContentBlock>, out: &mut Vec<Json>)
    ensures
        models(final(out)@) == models(old(out)@) + gather(
            blocks(content@),
            |i: int, block: BlockView| piece(assistant_block_item(block)),
        ),
{
    let ghost all = blocks(content@);
    let ghost f = |i: int, block: BlockView| piece(assistant_block_item(block));
    let ghost start = models(out@);
    let mut i: usize = 0;
    assert(start + gather(all.take(0), f) =~= start);
    while i < content.len()
        invariant
            i <= content@.len(),
            all == blocks(content@),
            f == (|i: int, block: BlockView| piece(assistant_block_item(block))),
            models(out@) == start + gather(all.take(i as int), f),
        decreases content@.len() - i,
    {
        let ghost before = models(out@);
        proof {
            lemma_gather_step(all, f, i as int);
            assert(all[i as int] == content@[i as int]@);
        }
        match &content[i] {
            ContentBlock::Text { text } => {
                out.push(encode_assistant_text(text.as_str()));
                assert(models(out@) =~= before + f(i as int, all[i as int]));
            },
            ContentBlock::ToolUse { id, name, input, .. } => {
                out.push(encode_tool_use(id.as_str(), name.as_str(), input));
                assert(models(out@) =~= before + f(i as int, all[i as int]));
            },
            ContentBlock::ToolResult { .. } => {
                assert(before + f(i as int, all[i as int]) =~= before);
            },
        }
        assert(start + (gather(all.take(i as int), f) + f(i as int, all[i as int])) =~= start
            + gather(all.take(i as int), f) + f(i as int, all[i as int]));
        i += 1;
    }
    assert(all.take(i as int) =~= all);
}

fn push_message_items(message: &Message, out: &mut Vec<Json>)
    ensures
        models(final(out)@) == models(old(out)@) + message_items(message@),
{
    let ghost start = models(out@);
    if same_text(message.role.as_str(), "user") {
        let ghost rest = gather(
            message@.content,
            |i: int, block: BlockView| piece(user_block_item(block)),
        );
        match join_texts(&message.content) {
            Some(text) => {
                out.push(encode_user_text(text.as_str()));
                let ghost item = user_text_item(text@);
                assert(models(out@) =~= start + seq![item]);
                push_user_items(&message.content, out);
                assert(start + seq![item] + rest =~= start + (seq![item] + rest));
            },
            None => {
                push_user_items(&message.content, out);
                assert(start + (Seq::<JsonView>::empty() + rest) =~= start + rest);
            },
        }
    } else if same_text(message.role.as_str(), "assistant") {
        push_assistant_items(&message.content, out);
    } else {
        assert(start + Seq::<JsonView>::empty() =~= start);
    }
}

fn encode_tool(tool: &ToolDef) -> (r: Json)
    ensures
        r@ == tool_body(tool@),
{
    Json::Object(
        JsonObject::new().with("type", Json::text("function")).with(
            "name",
            Json::text(tool.name.as_str()),
        ).with("description", Json::text(tool.description.as_str())).with(
            "parameters",
            tool.input_schema.clone(),
        ),
    )
}

/// What a provider is, or why there is none, for these stored tokens and settings: its base URL,
/// model and token limit.
pub open spec fn configured(
    tokens: Result<(), Seq<char>>,
    base_url: Option<Seq<char>>,
    openai_model: Option<Seq<char>>,
    agent_model: Option<Seq<char>>,
    max_tokens: Option<Seq<char>>,
) -> Result<(Seq<char>, Seq<char>, u32), Seq<char>> {
    match tokens {
        Ok(_) => Ok(
            (
                setting(base_url, "https://chatgpt.com/backend-api"@),
                setting(either(openai_model, agent_model), "gpt-4.1-nano"@),
                token_limit(max_tokens),
            ),
        ),
        Err(error) => Err(error),
    }
}

/// The headers of a request with an access token. The token's account is named where it is known.
pub open spec fn request_headers(token: Seq<char>, account: Option<Seq<char>>) -> Seq<
    (Seq<char>, Seq<char>),
> {
    seq![
        ("Authorization"@, "Bearer "@ + token),
        ("Content-Type"@, "application/json"@),
        ("originator"@, "openab-agent"@),
    ] + piece(
        match account {
            Some(account) => Some(("chatgpt-account-id"@, account)),
            None => None,
        },
    )
}

/// The headers of a request with an access token that belongs to this account.
pub fn account_headers(token: &str, account: Option<String>) -> (r: Vec<(String, String)>)
    ensures
        header_texts(r@) == request_headers(token@, optional(account)),
{
    let mut r: Vec<(String, String)> = vec![
        ("Authorization".to_owned(), "Bearer ".to_owned().concat(token)),
        ("Content-Type".to_owned(), "application/json".to_owned()),
        ("originator".to_owned(), "openab-agent".to_owned()),
    ];
    let ghost fixed = seq![
        ("Authorization"@, "Bearer "@ + token@),
        ("Content-Type"@, "application/json"@),
        ("originator"@, "openab-agent"@),
    ];
    assert(header_texts(r@) =~= fixed);
    match account {
        Some(account) => {
            r.push(("chatgpt-account-id".to_owned(), account));
            assert(header_texts(r@) =~= fixed + seq![("chatgpt-account-id"@, account@)]);
        },
        None => {
            assert(fixed + Seq::<(Seq<char>, Seq<char>)>::empty() =~= fixed);
        },
    }
    r
}

impl OpenAiProvider {
    /// Where requests are sent.
    pub open spec fn request_url(self) -> Seq<char> {
        self.base_url@ + "/codex/responses"@
    }

    /// The body of a request.
    pub open spec fn request(
        self,
        system: Seq<char>,
        messages: Seq<MessageView>,
        tools: Seq<ToolDefView>,
    ) -> JsonView {
        request_body(self.model@, system, messages, tools)
    }

    /// The provider for the outcome of loading the stored tokens, and for the values of
    /// `OPENAB_AGENT_OPENAI_BASE_URL`, `OPENAB_AGENT_OPENAI_MODEL`, `OPENAB_AGENT_MODEL` (which
    /// counts where the model before is not set) and `OPENAB_AGENT_MAX_TOKENS`. The tokens only
    /// have to exist: one is fetched for each request.
    pub fn from_auth_store(
        tokens: Result<(), String>,
        base_url: Option<String>,
        openai_model: Option<String>,
        agent_model: Option<String>,
        max_tokens: Option<String>,
    ) -> (r: Result<OpenAiProvider, String>)
        ensures
            configured(
                match tokens {
                    Ok(_) => Ok::<(), Seq<char>>(()),
                    Err(error) => Err(error@),
                },
                optional(base_url),
                optional(openai_model),
                optional(agent_model),
                optional(max_tokens),
            ) == match r {
                Ok(provider) => Ok::<(Seq<char>, Seq<char>, u32), Seq<char>>(
                    (provider.base_url@, provider.model@, provider.max_tokens),
                ),
                Err(error) => Err(error@),
            },
    {
        match tokens {
            Ok(_) => Ok(
                OpenAiProvider {
                    base_url: read_setting(base_url, "https://chatgpt.com/backend-api"),
                    model: read_setting(read_either(openai_model, agent_model), "gpt-4.1-nano"),
                    max_tokens: read_token_limit(max_tokens),
                },
            ),
            Err(error) => Err(error),
        }
    }

    /// Where requests are sent.
    pub fn url(&self) -> (r: String)
        ensures
            r@ == self.request_url(),
    {
        self.base_url.clone().concat("/codex/responses")
    }

    /// The headers of a request with an access token.
    pub fn headers(&self, token: &str) -> (r: Vec<(String, String)>)
        ensures
            header_texts(r@) == request_headers(token@, token_account(token@)),
    {
        account_headers(token, extract_account_id_from_jwt(token))
    }

    /// The body of a request.
    pub fn build_request_body(&self, system: &str, messages: &[Message], tools: &[ToolDef]) -> (r:
        Json)
        ensures
            r@ == self.request(system@, conversation(messages@), toolbox(tools@)),
    {
        let ghost all = conversation(messages@);
        let ghost f = |i: int, message: MessageView| message_items(message);
        let mut input: Vec<Json> = Vec::new();
        let mut i: usize = 0;
        assert(models(input@) =~= gather(all.take(0), f));
        while i < messages.len()
            invariant
                i <= messages@.len(),
                all == conversation(messages@),
                f == (|i: int, message: MessageView| message_items(message)),
                models(input@) == gather(all.take(i as int), f),
            decreases messages@.len() - i,
        {
            proof {
                lemma_gather_step(all, f, i as int);
                assert(all[i as int] == messages@[i as int]@);
            }
            push_message_items(&messages[i], &mut input);
            i += 1;
        }
        assert(all.take(i as int) =~= all);
        let fields = JsonObject::new().with("model", Json::text(self.model.as_str())).with(
            "store",
            Json::Bool(false),
        ).with("stream", Json::Bool(true)).with("instructions", Json::text(system)).with(
            "input",
            Json::array(input),
        ).with("tool_choice", Json::text("auto")).with("parallel_tool_calls", Json::Bool(true));
        if tools.len() == 0 {
            return Json::Object(fields);
        }
        let mut defs: Vec<Json> = Vec::new();
        let mut i: usize = 0;
        while i < tools.len()
            invariant
                i <= tools@.len(),
                defs@.len() == i,
                forall|j: int| 0 <= j < i ==> (#[trigger] defs@[j])@ == tool_body(tools@[j]@),
            decreases tools@.len() - i,
        {
            defs.push(encode_tool(&tools[i]));
            i += 1;
        }
        assert(models(defs@) =~= toolbox(tools@).map_values(|t: ToolDefView| tool_body(t)));
        Json::Object(fields.with("tools", Json::array(defs)))
    }
}

/// The input of a tool call whose arguments text holds this value: an object without entries
/// where it holds none.
pub open spec fn call_input(arguments: Option<JsonView>) -> JsonView {
    match arguments {
        Some(input) => input,
        None => JsonView::Object(Map::empty()),
    }
}

/// The value that the arguments text of a call holds. A call without such a text has none.
pub open spec fn held_arguments(call: JsonView) -> Option<JsonView> {
    match call.text_at("arguments"@) {
        Some(text) => parsed_text(text),
        None => None,
    }
}

/// The tool call of a `function_call` item whose arguments text holds this value.
pub open spec fn call_event(item: JsonView, arguments: Option<JsonView>) -> EventView {
    EventView::ToolUse {
        id: item.text_or("call_id"@, ""@),
        name: item.text_or("name"@, ""@),
        input: call_input(arguments),
        thought_signature: None,
    }
}

/// The tool call of a chat completion whose arguments text holds this value.
pub open spec fn chat_call_event(call: JsonView, arguments: Option<JsonView>) -> EventView {
    EventView::ToolUse {
        id: call.text_or("id"@, ""@),
        name: call.child("function"@).text_or("name"@, ""@),
        input: call_input(arguments),
        thought_signature: None,
    }
}

/// The text of a content block of a message item.
pub open spec fn block_text(block: JsonView) -> Option<EventView> {
    if block.text_at("type"@) == Some("output_text"@) {
        match block.text_at("text"@) {
            Some(text) => Some(EventView::Text(text)),
            None => None,
        }
    } else {
        None
    }
}

/// The texts of content blocks.
pub open spec fn block_texts(content: Seq<JsonView>) -> Seq<EventView> {
    gather(content, |i: int, block: JsonView| piece(block_text(block)))
}

/// The events of an output item: the texts of a message, or a tool call. Other items have none.
pub open spec fn item_events(item: JsonView) -> Seq<EventView> {
    match item.text_at("type"@) {
        Some(kind) => if kind == "message"@ {
            match item.items_at("content"@) {
                Some(content) => block_texts(content),
                None => Seq::empty(),
            }
        } else if kind == "function_call"@ {
            seq![call_event(item, held_arguments(item))]
        } else {
            Seq::empty()
        },
        None => Seq::empty(),
    }
}

/// The events of a Responses API reply: those of its items in their order, then a stop.
pub open spec fn output_events(output: Seq<JsonView>) -> Seq<EventView> {
    gather(output, |i: int, item: JsonView| item_events(item)).push(EventView::Stop)
}

/// The text of a chat completion's message; an empty one does not count.
pub open spec fn message_text(message: JsonView) -> Option<EventView> {
    match message.text_at("content"@) {
        Some(text) => if text.len() > 0 {
            Some(EventView::Text(text))
        } else {
            None
        },
        None => None,
    }
}

/// The tool calls of a chat completion's message.
pub open spec fn message_calls(message: JsonView) -> Seq<EventView> {
    match message.items_at("tool_calls"@) {
        Some(calls) => calls.map_values(
            |call: JsonView| chat_call_event(call, held_arguments(call.child("function"@))),
        ),
        None => Seq::empty(),
    }
}

/// The events of a chat completion's choice: its text, its tool calls, then a stop unless it
/// waits for tool results.
pub open spec fn choice_events(choice: JsonView, message: JsonView) -> Seq<EventView> {
    piece(message_text(message)) + message_calls(message) + piece(
        if choice.text_or("finish_reason"@, "stop"@) == "tool_calls"@ {
            None
        } else {
            Some(EventView::Stop)
        },
    )
}

/// The events of a reply in either format.
pub open spec fn reply_events(response: JsonView) -> Result<Seq<EventView>, ErrorView> {
    match response.items_at("output"@) {
        Some(output) => Ok(output_events(output)),
        None => match response.items_at("choices"@) {
            Some(choices) => if choices.len() > 0 {
                match choices[0].get("message"@) {
                    Some(message) => Ok(choice_events(choices[0], message)),
                    None => Err(ErrorView::NoMessage),
                }
            } else {
                Err(ErrorView::NoChoices)
            },
            None => Err(ErrorView::NoChoices),
        },
    }
}

fn decode_input(arguments: Option<Json>) -> (r: Json)
    ensures
        r@ == call_input(
            match arguments {
                Some(value) => Some(value@),
                None => None,
            },
        ),
{
    match arguments {
        Some(input) => input,
        None => Json::empty_object(),
    }
}

/// The tool call of a `function_call` item whose arguments text holds this value.
pub fn decode_call(item: &Json, arguments: Option<Json>) -> (r: LlmEvent)
    ensures
        r@ == call_event(
            item@,
            match arguments {
                Some(value) => Some(value@),
                None => None,
            },
        ),
{
    LlmEvent::ToolUse {
        id: item.text_or("call_id", ""),
        name: item.text_or("name", ""),
        input: decode_input(arguments),
        thought_signature: None,
    }
}

fn read_arguments(call: &Json) -> (r: Option<Json>)
    ensures
        held_arguments(call@) == match r {
            Some(value) => Some(value@),
            None => None,
        },
{
    match call.str_at("arguments") {
        Some(text) => Json::parse(text),
        None => None,
    }
}

fn child_text_or(value: &Json, key: &str, field: &str, default: &str) -> (r: String)
    ensures
        r@ == value@.child(key@).text_or(field@, default@),
{
    match value.get(key) {
        Some(child) => child.text_or(field, default),
        None => default.to_owned(),
    }
}

/// The tool call of a chat completion whose arguments text holds this value.
pub fn decode_chat_call(call: &Json, arguments: Option<Json>) -> (r: LlmEvent)
    ensures
        r@ == chat_call_event(
            call@,
            match arguments {
                Some(value) => Some(value@),
                None => None,
            },
        ),
{
    LlmEvent::ToolUse {
        id: call.text_or("id", ""),
        name: child_text_or(call, "function", "name", ""),
        input: decode_input(arguments),
        thought_signature: None,
    }
}

fn push_block_texts(content: &Vec<Json>, out: &mut Vec<LlmEvent>)
    ensures
        events(final(out)@) == events(old(out)@) + block_texts(models(content@)),
{
    let ghost all = models(content@);
    let ghost f = |i: int, block: JsonView| piece(block_text(block));
    let ghost start = events(out@);
    let mut i: usize = 0;
    assert(start + gather(all.take(0), f) =~= start);
    while i < content.len()
        invariant
            i <= content@.len(),
            all == models(content@),
            f == (|i: int, block: JsonView| piece(block_text(block))),
            events(out@) == start + gather(all.take(i as int), f),
        decreases content@.len() - i,
    {
        let ghost before = events(out@);
        proof {
            lemma_gather_step(all, f, i as int);
            assert(all[i as int] == content@[i as int]@);
        }
        let block = &content[i];
        let mut found: Option<&str> = None;
        if let Some(kind) = block.str_at("type") {
            if same_text(kind, "output_text") {
                found = block.str_at("text");
            }
        }
        match found {
            Some(text) => {
                out.push(LlmEvent::Text(text.to_owned()));
                assert(events(out@) =~= before + f(i as int, all[i as int]));
            },
            None => {
                assert(before + f(i as int, all[i as int]) =~= before);
            },
        }
        assert(start + (gather(all.take(i as int), f) + f(i as int, all[i as int])) =~= start
            + gather(all.take(i as int), f) + f(i as int, all[i as int]));
        i += 1;
    }
    assert(all.take(i as int) =~= all);
}

fn push_item_events(item: &Json, out: &mut Vec<LlmEvent>)
    ensures
        events(final(out)@) == events(old(out)@) + item_events(item@),
{
    let ghost start = events(out@);
    assert(start + Seq::<EventView>::empty() =~= start);
    if let Some(kind) = item.str_at("type") {
        if same_text(kind, "message") {
            if let Some(content) = item.array_at("content") {
                push_block_texts(content, out);
            }
        } else if same_text(kind, "function_call") {
            out.push(decode_call(item, read_arguments(item)));
            assert(events(out@) =~= start + item_events(item@));
        }
    }
}

fn push_calls(calls: &Vec<Json>, out: &mut Vec<LlmEvent>)
    ensures
        events(final(out)@) == events(old(out)@) + models(calls@).map_values(
            |call: JsonView| chat_call_event(call, held_arguments(call.child("function"@))),
        ),
{
    let ghost all = models(calls@);
    let ghost f = |call: JsonView|
        chat_call_event(call, held_arguments(call.child("function"@)));
    let ghost start = events(out@);
    let mut i: usize = 0;
    assert(start + all.map_values(f).take(0) =~= start);
    while i < calls.len()
        invariant
            i <= calls@.len(),
            all == models(calls@),
            f == (|call: JsonView| chat_call_event(call, held_arguments(call.child("function"@)))),
            events(out@) == start + all.map_values(f).take(i as int),
        decreases calls@.len() - i,
    {
        let ghost before = events(out@);
        let call = &calls[i];
        assert(all[i as int] == call@);
        let arguments = match call.get("function") {
            Some(function) => read_arguments(function),
            None => None,
        };
        let event = decode_chat_call(call, arguments);
        let ghost view = event@;
        out.push(event);
        proof {
            assert(view == all.map_values(f)[i as int]);
            assert(events(out@) =~= before.push(view));
            assert(before.push(view) =~= start + all.map_values(f).take(i + 1));
        }
        i += 1;
    }
    assert(all.map_values(f).take(i as int) =~= all.map_values(f));
}

/// The events of a reply in either format.
pub fn parse_openai_response(response: &Json) -> (r: Result<Vec<LlmEvent>, LlmError>)
    ensures
        outcome(r) == reply_events(response@),
{
    let mut list: Vec<LlmEvent> = Vec::new();
    if let Some(output) = response.array_at("output") {
        let ghost all = models(output@);
        let ghost f = |i: int, item: JsonView| item_events(item);
        let mut i: usize = 0;
        assert(events(list@) =~= gather(all.take(0), f));
        while i < output.len()
            invariant
                i <= output@.len(),
                all == models(output@),
                f == (|i: int, item: JsonView| item_events(item)),
                events(list@) == gather(all.take(i as int), f),
            decreases output@.len() - i,
        {
            proof {
                lemma_gather_step(all, f, i as int);
                assert(all[i as int] == output@[i as int]@);
            }
            push_item_events(&output[i], &mut list);
            i += 1;
        }
        assert(all.take(i as int) =~= all);
        let ghost before = events(list@);
        list.push(LlmEvent::Stop);
        assert(events(list@) =~= before.push(EventView::Stop));
        return Ok(list);
    }
    let choices = match response.array_at("choices") {
        Some(choices) => choices,
        None => return Err(LlmError::NoChoices),
    };
    assert(models(choices@).len() == choices@.len());
    if choices.len() == 0 {
        return Err(LlmError::NoChoices);
    }
    let choice = &choices[0];
    assert(models(choices@)[0] == choice@);
    let message = match choice.get("message") {
        Some(message) => message,
        None => return Err(LlmError::NoMessage),
    };
    let ghost text = piece(message_text(message@));
    if let Some(content) = message.str_at("content") {
        if !content.is_empty() {
            list.push(LlmEvent::Text(content.to_owned()));
        }
    }
    assert(events(list@) =~= text);
    match message.array_at("tool_calls") {
        Some(calls) => push_calls(calls, &mut list),
        None => {
            assert(text + message_calls(message@) =~= text);
        },
    }
    let ghost before = events(list@);
    let reason = choice.text_or("finish_reason", "stop");
    if !same_text(reason.as_str(), "tool_calls") {
        list.push(LlmEvent::Stop);
        assert(events(list@) =~= before + seq![EventView::Stop]);
    } else {
        assert(before + Seq::<EventView>::empty() =~= before);
    }
    Ok(list)
}

/// The output item that an event of a stream delivers, where the event is a finished item.
pub open spec fn delivered_item(event: Option<JsonView>) -> Option<JsonView> {
    match event {
        Some(event) => if event.text_or("type"@, ""@) == "response.output_item.done"@ {
            event.get("item"@)
        } else {
            None
        },
        None => None,
    }
}

/// The output items that the lines of an event stream deliver, up to the end marker.
pub open spec fn stream_items(list: Seq<Seq<char>>) -> Seq<JsonView>
    decreases list.len(),
{
    if list.len() == 0 {
        Seq::empty()
    } else {
        match after_prefix(list[0], "data: "@) {
            Some(data) => if data == "[DONE]"@ {
                Seq::empty()
            } else {
                piece(delivered_item(parsed_text(data))) + stream_items(list.skip(1))
            },
            None => stream_items(list.skip(1)),
        }
    }
}

/// The events of an event stream.
pub open spec fn stream_events(text: Seq<char>) -> Result<Seq<EventView>, ErrorView> {
    let items = stream_items(lines(text));
    if items.len() == 0 {
        Err(ErrorView::NoOutputItems(text))
    } else {
        Ok(output_events(items))
    }
}

/// The output item that an event of a stream delivers, where the event is a finished item.
pub fn delivered(event: Option<Json>) -> (r: Option<Json>)
    ensures
        delivered_item(
            match event {
                Some(event) => Some(event@),
                None => None,
            },
        ) == match r {
            Some(item) => Some(item@),
            None => None,
        },
{
    match event {
        Some(event) => {
            let kind = event.text_or("type", "");
            if same_text(kind.as_str(), "response.output_item.done") {
                match event.get("item") {
                    Some(item) => Some(item.clone()),
                    None => None,
                }
            } else {
                None
            }
        },
        None => None,
    }
}

/// The output items that an event stream delivers.
pub fn read_items(text: &str) -> (r: Vec<Json>)
    ensures
        models(r@) == stream_items(lines(text@)),
{
    let list = text_lines(text);
    let ghost all = lines(text@);
    let mut out: Vec<Json> = Vec::new();
    let mut i: usize = 0;
    assert(all.skip(0) =~= all);
    assert(models(out@) + stream_items(all) =~= stream_items(all));
    while i < list.len()
        invariant
            i <= list@.len(),
            all == lines(text@),
            texts(list@) == all,
            models(out@) + stream_items(all.skip(i as int)) == stream_items(all),
        decreases list@.len() - i,
    {
        let ghost before = models(out@);
        assert(texts(list@)[i as int] == list@[i as int]@);
        assert(all.skip(i as int)[0] == list@[i as int]@);
        assert(all.skip(i as int).skip(1) =~= all.skip(i + 1));
        if let Some(data) = strip_prefix(list[i].as_str(), "data: ") {
            if same_text(data.as_str(), "[DONE]") {
                assert(models(out@) + Seq::<JsonView>::empty() =~= models(out@));
                return out;
            }
            let ghost rest = stream_items(all.skip(i + 1));
            match delivered(Json::parse(data.as_str())) {
                Some(item) => {
                    let ghost view = item@;
                    out.push(item);
                    assert(models(out@) =~= before.push(view));
                    assert(before + (seq![view] + rest) =~= before.push(view) + rest);
                },
                None => {
                    assert(Seq::<JsonView>::empty() + rest =~= rest);
                },
            }
        }
        i += 1;
    }
    assert(all.skip(i as int) =~= Seq::<Seq<char>>::empty());
    assert(models(out@) + Seq::<JsonView>::empty() =~= models(out@));
    out
}

/// The events of an event stream.
pub fn read_stream(text: &str) -> (r: Result<Vec<LlmEvent>, LlmError>)
    ensures
        outcome(r) == stream_events(text@),
{
    let items = read_items(text);
    assert(models(items@).len() == items@.len());
    if items.len() == 0 {
        return Err(LlmError::NoOutputItems(text.to_owned()));
    }
    parse_openai_response(&Json::Object(JsonObject::new().with("output", Json::array(items))))
}

} // verus!
