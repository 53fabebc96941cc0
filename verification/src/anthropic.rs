//! The Anthropic Messages API: request bodies and replies.
use crate::error::{outcome, ErrorView, LlmError};
use crate::json::{models, Json, JsonObject, JsonView};
use crate::message::{
    blocks, conversation, events, optional, toolbox, BlockView, ContentBlock, EventView, LlmEvent,
    Message, MessageView, ToolDef, ToolDefView,
};
use crate::sequence::{gather, lemma_gather_step, piece};
use crate::settings::{
    check_key, checked_key, header_texts, read_setting, read_token_limit, setting, token_limit,
};
use crate::text::same_text;
use vstd::prelude::*;

verus! {

/// Anthropic provider.
pub struct AnthropicProvider {
    pub api_key: String,
    pub model: String,
    pub max_tokens: u32,
}

/// A content block on the wire. A tool result carries `is_error` only where it is set.
pub open spec fn block_body(block: BlockView) -> JsonView {
    match block {
        BlockView::Text { text } => JsonView::Object(
            map!["type"@ => JsonView::Text("text"@), "text"@ => JsonView::Text(text)],
        ),
        BlockView::ToolUse { id, name, input, .. } => JsonView::Object(
            map![
                "type"@ => JsonView::Text("tool_use"@),
                "id"@ => JsonView::Text(id),
                "name"@ => JsonView::Text(name),
                "input"@ => input,
            ],
        ),
        BlockView::ToolResult { tool_use_id, content, is_error } => {
            let fields = map![
                "type"@ => JsonView::Text("tool_result"@),
                "tool_use_id"@ => JsonView::Text(tool_use_id),
                "content"@ => JsonView::Text(content),
            ];
            JsonView::Object(
                if is_error == Some(true) {
                    fields.insert("is_error"@, JsonView::Bool(true))
                } else {
                    fields
                },
            )
        },
    }
}

/// A message on the wire.
pub open spec fn message_body(message: MessageView) -> JsonView {
    JsonView::Object(
        map![
            "role"@ => JsonView::Text(message.role),
            "content"@ => JsonView::Array(message.content.map_values(|b: BlockView| block_body(b))),
        ],
    )
}

/// A tool definition on the wire.
pub open spec fn tool_body(tool: ToolDefView) -> JsonView {
    JsonView::Object(
        map![
            "name"@ => JsonView::Text(tool.name),
            "description"@ => JsonView::Text(tool.description),
            "input_schema"@ => tool.input_schema,
        ],
    )
}

/// A request body. It names tools only where there are some.
pub open spec fn request_body(
    model: Seq<char>,
    max_tokens: int,
    system: Seq<char>,
    messages: Seq<MessageView>,
    tools: Seq<ToolDefView>,
) -> JsonView {
    let fields = map![
        "model"@ => JsonView::Text(model),
        "max_tokens"@ => JsonView::Integer(max_tokens),
        "messages"@ => JsonView::Array(messages.map_values(|m: MessageView| message_body(m))),
        "system"@ => JsonView::Text(system),
    ];
    JsonView::Object(
        if tools.len() > 0 {
            fields.insert(
                "tools"@,
                JsonView::Array(tools.map_values(|t: ToolDefView| tool_body(t))),
            )
        } else {
            fields
        },
    )
}

fn encode_block(block: &ContentBlock) -> (r: Json)
    ensures
        r@ == block_body(block@),
{
    match block {
        ContentBlock::Text { text } => Json::Object(
            JsonObject::new().with("type", Json::text("text")).with(
                "text",
                Json::text(text.as_str()),
            ),
        ),
        ContentBlock::ToolUse { id, name, input, .. } => Json::Object(
            JsonObject::new().with("type", Json::text("tool_use")).with(
                "id",
                Json::text(id.as_str()),
            ).with("name", Json::text(name.as_str())).with("input", input.clone()),
        ),
        ContentBlock::ToolResult { tool_use_id, content, is_error } => {
            let fields = JsonObject::new().with("type", Json::text("tool_result")).with(
                "tool_use_id",
                Json::text(tool_use_id.as_str()),
            ).with("content", Json::text(content.as_str()));
            match is_error {
                Some(true) => Json::Object(fields.with("is_error", Json::Bool(true))),
                _ => Json::Object(fields),
            }
        },
    }
}

fn encode_message(message: &Message) -> (r: Json)
    ensures
        r@ == message_body(message@),
{
    let mut content: Vec<Json> = Vec::new();
    let mut i: usize = 0;
    while i < message.content.len()
        invariant
            i <= message.content@.len(),
            content@.len() == i,
            forall|j: int|
                0 <= j < i ==> (#[trigger] content@[j])@ == block_body(message.content@[j]@),
        decreases message.content@.len() - i,
    {
        content.push(encode_block(&message.content[i]));
        i += 1;
    }
    assert(models(content@) =~= blocks(message.content@).map_values(
        |b: BlockView| block_body(b),
    ));
    Json::Object(
        JsonObject::new().with("role", Json::text(message.role.as_str())).with(
            "content",
            Json::array(content),
        ),
    )
}

fn encode_tool(tool: &ToolDef) -> (r: Json)
    ensures
        r@ == tool_body(tool@),
{
    Json::Object(
        JsonObject::new().with("name", Json::text(tool.name.as_str())).with(
            "description",
            Json::text(tool.description.as_str()),
        ).with("input_schema", tool.input_schema.clone()),
    )
}

/// What a provider is, or why there is none, for these settings.
pub open spec fn configured(
    api_key: Option<Seq<char>>,
    model: Option<Seq<char>>,
    max_tokens: Option<Seq<char>>,
    default_model: Seq<char>,
) -> Result<(Seq<char>, Seq<char>, u32), Seq<char>> {
    match checked_key(api_key, "ANTHROPIC_API_KEY"@) {
        Ok(key) => Ok((key, setting(model, default_model), token_limit(max_tokens))),
        Err(error) => Err(error),
    }
}

impl AnthropicProvider {
    /// Where requests are sent.
    pub open spec fn request_url(self) -> Seq<char> {
        "https://api.anthropic.com/v1/messages"@
    }

    /// The headers of a request.
    pub open spec fn request_headers(self) -> Seq<(Seq<char>, Seq<char>)> {
        seq![
            ("x-api-key"@, self.api_key@),
            ("anthropic-version"@, "2023-06-01"@),
            ("content-type"@, "application/json"@),
        ]
    }

    /// The body of a request.
    pub open spec fn request(
        self,
        system: Seq<char>,
        messages: Seq<MessageView>,
        tools: Seq<ToolDefView>,
    ) -> JsonView {
        request_body(self.model@, self.max_tokens as int, system, messages, tools)
    }

    /// The provider for the values of `ANTHROPIC_API_KEY`, `OPENAB_AGENT_MODEL` and
    /// `OPENAB_AGENT_MAX_TOKENS`, and for the model that is asked where none is set.
    pub fn from_env(
        api_key: Option<String>,
        model: Option<String>,
        max_tokens: Option<String>,
        default_model: &str,
    ) -> (r: Result<AnthropicProvider, String>)
        ensures
            configured(
                optional(api_key),
                optional(model),
                optional(max_tokens),
                default_model@,
            ) == match r {
                Ok(provider) => Ok::<(Seq<char>, Seq<char>, u32), Seq<char>>(
                    (provider.api_key@, provider.model@, provider.max_tokens),
                ),
                Err(error) => Err(error@),
            },
    {
        match check_key(api_key, "ANTHROPIC_API_KEY") {
            Ok(api_key) => Ok(
                AnthropicProvider {
                    api_key,
                    model: read_setting(model, default_model),
                    max_tokens: read_token_limit(max_tokens),
                },
            ),
            Err(error) => Err(error),
        }
    }

    /// Where requests are sent.
    pub fn url(&self) -> (r: String)
        ensures
            r@ == self.request_url(),
    {
        "https://api.anthropic.com/v1/messages".to_owned()
    }

    /// The headers of a request.
    pub fn headers(&self) -> (r: Vec<(String, String)>)
        ensures
            header_texts(r@) == self.request_headers(),
    {
        let r: Vec<(String, String)> = vec![
            ("x-api-key".to_owned(), self.api_key.clone()),
            ("anthropic-version".to_owned(), "2023-06-01".to_owned()),
            ("content-type".to_owned(), "application/json".to_owned()),
        ];
        assert(header_texts(r@) =~= self.request_headers());
        r
    }

    /// The body of a request.
    pub fn build_request_body(&self, system: &str, messages: &[Message], tools: &[ToolDef]) -> (r:
        Json)
        ensures
            r@ == self.request(system@, conversation(messages@), toolbox(tools@)),
    {
        let mut encoded: Vec<Json> = Vec::new();
        let mut i: usize = 0;
        while i < messages.len()
            invariant
                i <= messages@.len(),
                encoded@.len() == i,
                forall|j: int|
                    0 <= j < i ==> (#[trigger] encoded@[j])@ == message_body(messages@[j]@),
            decreases messages@.len() - i,
        {
            encoded.push(encode_message(&messages[i]));
            i += 1;
        }
        assert(models(encoded@) =~= conversation(messages@).map_values(
            |m: MessageView| message_body(m),
        ));
        let fields = JsonObject::new().with("model", Json::text(self.model.as_str())).with(
            "max_tokens",
            Json::integer(self.max_tokens),
        ).with("messages", Json::array(encoded)).with("system", Json::text(system));
        if tools.len() == 0 {
            return Json::Object(fields);
        }
        let mut defs: Vec<Json> = Vec::new();
        let mut i: usize = 0;
        while i < tools.len()
            invariant
                i <= tools@.len(),
                defs@.len() == i,
                forall|j: int| 0 <= j < i ==> (#[trigger] defs@[j])@ == tool_body(tools@[j]@),
            decreases tools@.len() - i,
        {
            defs.push(encode_tool(&tools[i]));
            i += 1;
        }
        assert(models(defs@) =~= toolbox(tools@).map_values(|t: ToolDefView| tool_body(t)));
        Json::Object(fields.with("tools", Json::array(defs)))
    }
}

/// The event that a content block of a reply stands for: a text, or a tool call whose missing
/// parts are empty. Other blocks stand for none.
pub open spec fn block_event(block: JsonView) -> Option<EventView> {
    match block.text_at("type"@) {
        Some(kind) => if kind == "text"@ {
            match block.text_at("text"@) {
                Some(text) => Some(EventView::Text(text)),
                None => None,
            }
        } else if kind == "tool_use"@ {
            Some(
                EventView::ToolUse {
                    id: block.text_or("id"@, ""@),
                    name: block.text_or("name"@, ""@),
                    input: block.get_or_empty("input"@),
                    thought_signature: None,
                },
            )
        } else {
            None
        },
        None => None,
    }
}

/// The events of a reply: those of its blocks in their order, then a stop unless the reply waits
/// for tool results.
pub open spec fn reply_events(response: JsonView) -> Result<Seq<EventView>, ErrorView> {
    match response.items_at("content"@) {
        Some(content) => Ok(
            gather(content, |i: int, block: JsonView| piece(block_event(block))) + piece(
                if response.text_or("stop_reason"@, "end_turn"@) == "tool_use"@ {
                    None
                } else {
                    Some(EventView::Stop)
                },
            ),
        ),
        None => Err(ErrorView::MissingContent),
    }
}

fn decode_block(block: &Json) -> (r: Option<LlmEvent>)
    ensures
        block_event(block@) == match r {
            Some(event) => Some(event@),
            None => None,
        },
{
    match block.str_at("type") {
        Some(kind) => if same_text(kind, "text") {
            match block.str_at("text") {
                Some(text) => Some(LlmEvent::Text(text.to_owned())),
                None => None,
            }
        } else if same_text(kind, "tool_use") {
            Some(
                LlmEvent::ToolUse {
                    id: block.text_or("id", ""),
                    name: block.text_or("name", ""),
                    input: block.get_or_empty("input"),
                    thought_signature: None,
                },
            )
        } else {
            None
        },
        None => None,
    }
}

/// The events of a reply.
pub fn parse_anthropic_response(response: &Json) -> (r: Result<Vec<LlmEvent>, LlmError>)
    ensures
        outcome(r) == reply_events(response@),
{
    let content = match response.array_at("content") {
        Some(content) => content,
        None => return Err(LlmError::MissingContent),
    };
    let ghost f = |i: int, block: JsonView| piece(block_event(block));
    let ghost all = models(content@);
    let mut list: Vec<LlmEvent> = Vec::new();
    let mut i: usize = 0;
    assert(events(list@) =~= gather(all.take(0), f));
    while i < content.len()
        invariant
            i <= content@.len(),
            all == models(content@),
            f == (|i: int, block: JsonView| piece(block_event(block))),
            events(list@) == gather(all.take(i as int), f),
        decreases content@.len() - i,
    {
        let ghost before = events(list@);
        proof {
            lemma_gather_step(all, f, i as int);
        }
        match decode_block(&content[i]) {
            Some(event) => {
                list.push(event);
                assert(events(list@) =~= before + f(i as int, all[i as int]));
            },
            None => {
                assert(before + f(i as int, all[i as int]) =~= before);
            },
        }
        i += 1;
    }
    assert(all.take(i as int) =~= all);
    let ghost before = events(list@);
    let reason = response.text_or("stop_reason", "end_turn");
    if !same_text(reason.as_str(), "tool_use") {
        list.push(LlmEvent::Stop);
        assert(events(list@) =~= before + seq![EventView::Stop]);
    } else {
        assert(before + Seq::<EventView>::empty() =~= before);
    }
    Ok(list)
}

} // verus!
