//! The Gemini `generateContent` API: request bodies and replies.
use crate::error::{outcome, ErrorView, LlmError};
use crate::json::{models, Json, JsonObject, JsonView};
use crate::message::{
    blocks, conversation, events, optional, toolbox, BlockView, ContentBlock, EventView, LlmEvent,
    Message, MessageView, ToolDef, ToolDefView,
};
use crate::sequence::{gather, lemma_gather_step, piece};
use crate::settings::{
    check_key, checked_key, either, header_texts, read_either, read_setting, read_token_limit,
    setting, token_limit,
};
use crate::text::{decimal, decimal_text, same_text};
use vstd::prelude::*;
use vstd::string::StringExecFns;

verus! {

/// Google Gemini provider using the Generative Language REST API.
pub struct GeminiProvider {
    pub api_key: String,
    pub model: String,
    pub max_tokens: u32,
    pub base_url: String,
}

/// The name of the first tool call with an id among some blocks.
pub open spec fn call_name(content: Seq<BlockView>, id: Seq<char>) -> Option<Seq<char>>
    decreases content.len(),
{
    if content.len() == 0 {
        None
    } else {
        match content[0] {
            BlockView::ToolUse { id: call, name, .. } => if call == id {
                Some(name)
            } else {
                call_name(content.skip(1), id)
            },
            _ => call_name(content.skip(1), id),
        }
    }
}

/// The name of the first tool call with an id in a conversation.
pub open spec fn tool_name(messages: Seq<MessageView>, id: Seq<char>) -> Option<Seq<char>>
    decreases messages.len(),
{
    if messages.len() == 0 {
        None
    } else {
        match call_name(messages[0].content, id) {
            Some(name) => Some(name),
            None => tool_name(messages.skip(1), id),
        }
    }
}

/// The name under which a tool result is answered: that of the call it belongs to, else the id.
pub open spec fn result_name(messages: Seq<MessageView>, id: Seq<char>) -> Seq<char> {
    match tool_name(messages, id) {
        Some(name) => name,
        None => id,
    }
}

/// The role on the wire.
pub open spec fn wire_role(role: Seq<char>) -> Seq<char> {
    if role == "assistant"@ {
        "model"@
    } else {
        "user"@
    }
}

/// A text part.
pub open spec fn text_part(text: Seq<char>) -> JsonView {
    JsonView::Object(map!["text"@ => JsonView::Text(text)])
}

/// The fields of a function call part. The signature is echoed where there is one.
pub open spec fn call_part(
    name: Seq<char>,
    input: JsonView,
    thought_signature: Option<Seq<char>>,
) -> JsonView {
    let fields = map![
        "functionCall"@ => JsonView::Object(
            map!["name"@ => JsonView::Text(name), "args"@ => input],
        ),
    ];
    JsonView::Object(
        match thought_signature {
            Some(signature) => fields.insert("thoughtSignature"@, JsonView::Text(signature)),
            None => fields,
        },
    )
}

/// A function response part: an error where the result is one.
pub open spec fn result_part(
    name: Seq<char>,
    content: Seq<char>,
    is_error: Option<bool>,
) -> JsonView {
    let response = if is_error == Some(true) {
        map!["error"@ => JsonView::Text(content)]
    } else {
        map!["result"@ => JsonView::Text(content)]
    };
    JsonView::Object(
        map![
            "functionResponse"@ => JsonView::Object(
                map!["name"@ => JsonView::Text(name), "response"@ => JsonView::Object(response)],
            ),
        ],
    )
}

/// A content block of a conversation on the wire.
pub open spec fn block_part(messages: Seq<MessageView>, block: BlockView) -> JsonView {
    match block {
        BlockView::Text { text } => text_part(text),
        BlockView::ToolUse { name, input, thought_signature, .. } => call_part(
            name,
            input,
            thought_signature,
        ),
        BlockView::ToolResult { tool_use_id, content, is_error } => result_part(
            result_name(messages, tool_use_id),
            content,
            is_error,
        ),
    }
}

/// A message of a conversation on the wire.
pub open spec fn message_body(messages: Seq<MessageView>, message: MessageView) -> JsonView {
    JsonView::Object(
        map![
            "role"@ => JsonView::Text(wire_role(message.role)),
            "parts"@ => JsonView::Array(
                message.content.map_values(|b: BlockView| block_part(messages, b)),
            ),
        ],
    )
}

/// A tool definition on the wire.
pub open spec fn tool_body(tool: ToolDefView) -> JsonView {
    JsonView::Object(
        map![
            "name"@ => JsonView::Text(tool.name),
            "description"@ => JsonView::Text(tool.description),
            "parameters"@ => tool.input_schema,
        ],
    )
}

/// The system prompt on the wire.
pub open spec fn system_body(system: Seq<char>) -> JsonView {
    JsonView::Object(
        map![
            "parts"@ => JsonView::Array(
                seq![JsonView::Object(map!["text"@ => JsonView::Text(system)])],
            ),
        ],
    )
}

/// The tool declarations on the wire.
pub open spec fn tools_body(tools: Seq<ToolDefView>) -> JsonView {
    JsonView::Array(
        seq![
            JsonView::Object(
                map![
                    "functionDeclarations"@ => JsonView::Array(
                        tools.map_values(|t: ToolDefView| tool_body(t)),
                    ),
                ],
            ),
        ],
    )
}

/// A request body. It names tools only where there are some.
pub open spec fn request_body(
    max_tokens: int,
    system: Seq<char>,
    messages: Seq<MessageView>,
    tools: Seq<ToolDefView>,
) -> JsonView {
    let fields = map![
        "contents"@ => JsonView::Array(
            messages.map_values(|m: MessageView| message_body(messages, m)),
        ),
        "systemInstruction"@ => system_body(system),
        "generationConfig"@ => JsonView::Object(
            map!["maxOutputTokens"@ => JsonView::Integer(max_tokens)],
        ),
    ];
    JsonView::Object(
        if tools.len() > 0 {
            fields.insert("tools"@, tools_body(tools))
        } else {
            fields
        },
    )
}

fn find_call(content: &Vec<ContentBlock>, id: &str) -> (r: Option<String>)
    ensures
        optional(r) == call_name(blocks(content@), id@),
{
    let ghost all = blocks(content@);
    let mut i: usize = 0;
    assert(all.skip(0) =~= all);
    while i < content.len()
        invariant
            i <= content@.len(),
            all == blocks(content@),
            call_name(all, id@) == call_name(all.skip(i as int), id@),
        decreases content@.len() - i,
    {
        assert(all.skip(i as int)[0] == content@[i as int]@);
        assert(all.skip(i as int).skip(1) =~= all.skip(i + 1));
        if let ContentBlock::ToolUse { id: call, name, .. } = &content[i] {
            if same_text(call.as_str(), id) {
                return Some(name.clone());
            }
        }
        i += 1;
    }
    None
}

/// Find the tool name for a given tool_use id by scanning the `ToolUse` blocks of the
/// conversation (Gemini function calls carry no id of their own).
pub fn gemini_tool_name(messages: &[Message], id: &str) -> (r: Option<String>)
    ensures
        optional(r) == tool_name(conversation(messages@), id@),
{
    let ghost all = conversation(messages@);
    let mut i: usize = 0;
    assert(all.skip(0) =~= all);
    while i < messages.len()
        invariant
            i <= messages@.len(),
            all == conversation(messages@),
            tool_name(all, id@) == tool_name(all.skip(i as int), id@),
        decreases messages@.len() - i,
    {
        assert(all.skip(i as int)[0] == messages@[i as int]@);
        assert(all.skip(i as int).skip(1) =~= all.skip(i + 1));
        let name = find_call(&messages[i].content, id);
        if name.is_some() {
            return name;
        }
        i += 1;
    }
    None
}

fn encode_call(name: &str, input: &Json, thought_signature: &Option<String>) -> (r: Json)
    ensures
        r@ == call_part(name@, input@, optional(*thought_signature)),
{
    let call = Json::Object(
        JsonObject::new().with("name", Json::text(name)).with("args", input.clone()),
    );
    let fields = JsonObject::new().with("functionCall", call);
    match thought_signature {
        Some(signature) => Json::Object(
            fields.with("thoughtSignature", Json::text(signature.as_str())),
        ),
        None => Json::Object(fields),
    }
}

fn encode_result(name: &str, content: &str, is_error: Option<bool>) -> (r: Json)
    ensures
        r@ == result_part(name@, content@, is_error),
{
    let response = match is_error {
        Some(true) => JsonObject::new().with("error", Json::text(content)),
        _ => JsonObject::new().with("result", Json::text(content)),
    };
    Json::Object(
        JsonObject::new().with(
            "functionResponse",
            Json::Object(
                JsonObject::new().with("name", Json::text(name)).with(
                    "response",
                    Json::Object(response),
                ),
            ),
        ),
    )
}

fn encode_block(messages: &[Message], block: &ContentBlock) -> (r: Json)
    ensures
        r@ == block_part(conversation(messages@), block@),
{
    match block {
        ContentBlock::Text { text } => Json::Object(
            JsonObject::new().with("text", Json::text(text.as_str())),
        ),
        ContentBlock::ToolUse { name, input, thought_signature, .. } => encode_call(
            name.as_str(),
            input,
            thought_signature,
        ),
        ContentBlock::ToolResult { tool_use_id, content, is_error } => {
            let name = match gemini_tool_name(messages, tool_use_id.as_str()) {
                Some(name) => name,
                None => tool_use_id.clone(),
            };
            encode_result(name.as_str(), content.as_str(), *is_error)
        },
    }
}

fn encode_message(messages: &[Message], message: &Message) -> (r: Json)
    ensures
        r@ == message_body(conversation(messages@), message@),
{
    let role = if same_text(message.role.as_str(), "assistant") {
        "model"
    } else {
        "user"
    };
    let mut parts: Vec<Json> = Vec::new();
    let mut i: usize = 0;
    while i < message.content.len()
        invariant
            i <= message.content@.len(),
            parts@.len() == i,
            forall|j: int|
                0 <= j < i ==> (#[trigger] parts@[j])@ == block_part(
                    conversation(messages@),
                    message.content@[j]@,
                ),
        decreases message.content@.len() - i,
    {
        parts.push(encode_block(messages, &message.content[i]));
        i += 1;
    }
    assert(models(parts@) =~= blocks(message.content@).map_values(
        |b: BlockView| block_part(conversation(messages@), b),
    ));
    Json::Object(
        JsonObject::new().with("role", Json::text(role)).with("parts", Json::array(parts)),
    )
}

fn encode_tool(tool: &ToolDef) -> (r: Json)
    ensures
        r@ == tool_body(tool@),
{
    Json::Object(
        JsonObject::new().with("name", Json::text(tool.name.as_str())).with(
            "description",
            Json::text(tool.description.as_str()),
        ).with("parameters", tool.input_schema.clone()),
    )
}

fn encode_tools(tools: &[ToolDef]) -> (r: Json)
    ensures
        r@ == tools_body(toolbox(tools@)),
{
    let mut defs: Vec<Json> = Vec::new();
    let mut i: usize = 0;
    while i < tools.len()
        invariant
            i <= tools@.len(),
            defs@.len() == i,
            forall|j: int| 0 <= j < i ==> (#[trigger] defs@[j])@ == tool_body(tools@[j]@),
        decreases tools@.len() - i,
    {
        defs.push(encode_tool(&tools[i]));
        i += 1;
    }
    assert(models(defs@) =~= toolbox(tools@).map_values(|t: ToolDefView| tool_body(t)));
    let declarations = Json::Object(
        JsonObject::new().with("functionDeclarations", Json::array(defs)),
    );
    let ghost view = declarations@;
    let list: Vec<Json> = vec![declarations];
    assert(models(list@) =~= seq![view]);
    Json::array(list)
}

fn encode_system(system: &str) -> (r: Json)
    ensures
        r@ == system_body(system@),
{
    let part = Json::Object(JsonObject::new().with("text", Json::text(system)));
    let ghost view = part@;
    let parts: Vec<Json> = vec![part];
    assert(models(parts@) =~= seq![view]);
    Json::Object(JsonObject::new().with("parts", Json::array(parts)))
}

/// What a provider is, or why there is none, for these settings: its key, model, token limit and
/// base URL.
pub open spec fn configured(
    gemini_key: Option<Seq<char>>,
    google_key: Option<Seq<char>>,
    model: Option<Seq<char>>,
    max_tokens: Option<Seq<char>>,
    base_url: Option<Seq<char>>,
) -> Result<(Seq<char>, Seq<char>, u32, Seq<char>), Seq<char>> {
    match checked_key(either(gemini_key, google_key), "GEMINI_API_KEY"@) {
        Ok(key) => Ok(
            (
                key,
                setting(model, "gemini-2.5-flash"@),
                token_limit(max_tokens),
                setting(base_url, "https://generativelanguage.googleapis.com/v1beta"@),
            ),
        ),
        Err(error) => Err(error),
    }
}

impl GeminiProvider {
    /// Where requests are sent.
    pub open spec fn request_url(self) -> Seq<char> {
        self.base_url@ + "/models/"@ + self.model@ + ":generateContent"@
    }

    /// The headers of a request.
    pub open spec fn request_headers(self) -> Seq<(Seq<char>, Seq<char>)> {
        seq![("x-goog-api-key"@, self.api_key@), ("content-type"@, "application/json"@)]
    }

    /// The body of a request.
    pub open spec fn request(
        self,
        system: Seq<char>,
        messages: Seq<MessageView>,
        tools: Seq<ToolDefView>,
    ) -> JsonView {
        request_body(self.max_tokens as int, system, messages, tools)
    }

    /// The provider for the values of `GEMINI_API_KEY`, `GOOGLE_API_KEY` (which counts where the
    /// first is not set), `OPENAB_AGENT_MODEL`, `OPENAB_AGENT_MAX_TOKENS` and
    /// `OPENAB_AGENT_GEMINI_BASE_URL`.
    pub fn from_env(
        gemini_key: Option<String>,
        google_key: Option<String>,
        model: Option<String>,
        max_tokens: Option<String>,
        base_url: Option<String>,
    ) -> (r: Result<GeminiProvider, String>)
        ensures
            configured(
                optional(gemini_key),
                optional(google_key),
                optional(model),
                optional(max_tokens),
                optional(base_url),
            ) == match r {
                Ok(provider) => Ok::<(Seq<char>, Seq<char>, u32, Seq<char>), Seq<char>>(
                    (
                        provider.api_key@,
                        provider.model@,
                        provider.max_tokens,
                        provider.base_url@,
                    ),
                ),
                Err(error) => Err(error@),
            },
    {
        match check_key(read_either(gemini_key, google_key), "GEMINI_API_KEY") {
            Ok(api_key) => Ok(
                GeminiProvider {
                    api_key,
                    model: read_setting(model, "gemini-2.5-flash"),
                    max_tokens: read_token_limit(max_tokens),
                    base_url: read_setting(
                        base_url,
                        "https://generativelanguage.googleapis.com/v1beta",
                    ),
                },
            ),
            Err(error) => Err(error),
        }
    }

    /// Where requests are sent.
    pub fn url(&self) -> (r: String)
        ensures
            r@ == self.request_url(),
    {
        self.base_url.clone().concat("/models/").concat(self.model.as_str()).concat(
            ":generateContent",
        )
    }

    /// The headers of a request.
    pub fn headers(&self) -> (r: Vec<(String, String)>)
        ensures
            header_texts(r@) == self.request_headers(),
    {
        let r: Vec<(String, String)> = vec![
            ("x-goog-api-key".to_owned(), self.api_key.clone()),
            ("content-type".to_owned(), "application/json".to_owned()),
        ];
        assert(header_texts(r@) =~= self.request_headers());
        r
    }

    /// The body of a request.
    pub fn build_request_body(&self, system: &str, messages: &[Message], tools: &[ToolDef]) -> (r:
        Json)
        ensures
            r@ == self.request(system@, conversation(messages@), toolbox(tools@)),
    {
        let mut contents: Vec<Json> = Vec::new();
        let mut i: usize = 0;
        while i < messages.len()
            invariant
                i <= messages@.len(),
                contents@.len() == i,
                forall|j: int|
                    0 <= j < i ==> (#[trigger] contents@[j])@ == message_body(
                        conversation(messages@),
                        messages@[j]@,
                    ),
            decreases messages@.len() - i,
        {
            contents.push(encode_message(messages, &messages[i]));
            i += 1;
        }
        assert(models(contents@) =~= conversation(messages@).map_values(
            |m: MessageView| message_body(conversation(messages@), m),
        ));
        let limit = Json::Object(
            JsonObject::new().with("maxOutputTokens", Json::integer(self.max_tokens)),
        );
        let fields = JsonObject::new().with("contents", Json::array(contents)).with(
            "systemInstruction",
            encode_system(system),
        ).with("generationConfig", limit);
        if tools.len() == 0 {
            return Json::Object(fields);
        }
        Json::Object(fields.with("tools", encode_tools(tools)))
    }
}

/// The id that is made up for a function call: the call's name and its place in the reply.
pub open spec fn call_id(name: Seq<char>, place: nat) -> Seq<char> {
    "call_"@ + name + "_"@ + decimal(place)
}

/// The event that a part of a reply at some place stands for: a text, unless it is empty, or a
/// function call. Other parts stand for none.
pub open spec fn part_event(place: int, part: JsonView) -> Option<EventView> {
    match part.text_at("text"@) {
        Some(text) => if text.len() > 0 {
            Some(EventView::Text(text))
        } else {
            None
        },
        None => match part.get("functionCall"@) {
            Some(call) => Some(
                EventView::ToolUse {
                    id: call_id(call.text_or("name"@, ""@), place as nat),
                    name: call.text_or("name"@, ""@),
                    input: call.get_or_empty("args"@),
                    thought_signature: part.text_at("thoughtSignature"@),
                },
            ),
            None => None,
        },
    }
}

/// The parts of a candidate.
pub open spec fn candidate_parts(candidate: JsonView) -> Seq<JsonView> {
    match candidate.child("content"@).items_at("parts"@) {
        Some(parts) => parts,
        None => Seq::empty(),
    }
}

/// The events of parts, in their order.
pub open spec fn part_events(parts: Seq<JsonView>) -> Seq<EventView> {
    gather(parts, |i: int, part: JsonView| piece(part_event(i, part)))
}

/// The part is a function call.
pub open spec fn is_call(part: JsonView) -> bool {
    part.text_at("text"@) is None && part.get("functionCall"@) is Some
}

/// Some part is a function call.
pub open spec fn has_call(parts: Seq<JsonView>) -> bool {
    exists|i: int| 0 <= i < parts.len() && is_call(#[trigger] parts[i])
}

/// The events of a reply: those of its parts, then a stop unless it waits for tool results. An
/// error envelope is an error whatever else is there.
pub open spec fn reply_events(response: JsonView) -> Result<Seq<EventView>, ErrorView> {
    match response.get("error"@) {
        Some(error) => Err(ErrorView::GeminiError(error.text_or("message"@, "unknown error"@))),
        None => match response.items_at("candidates"@) {
            Some(candidates) => if candidates.len() > 0 {
                let parts = candidate_parts(candidates[0]);
                Ok(
                    part_events(parts) + piece(
                        if has_call(parts) {
                            None
                        } else {
                            Some(EventView::Stop)
                        },
                    ),
                )
            } else {
                Err(ErrorView::MissingCandidates)
            },
            None => Err(ErrorView::MissingCandidates),
        },
    }
}

fn make_call_id(name: &str, place: usize) -> (r: String)
    ensures
        r@ == call_id(name@, place as nat),
{
    "call_".to_owned().concat(name).concat("_").concat(decimal_text(place as u64).as_str())
}

fn decode_part(place: usize, part: &Json) -> (r: Option<LlmEvent>)
    ensures
        part_event(place as int, part@) == match r {
            Some(event) => Some(event@),
            None => None,
        },
        r matches Some(LlmEvent::ToolUse { .. }) <==> is_call(part@),
{
    match part.str_at("text") {
        Some(text) => if !text.is_empty() {
            Some(LlmEvent::Text(text.to_owned()))
        } else {
            None
        },
        None => match part.get("functionCall") {
            Some(call) => {
                let name = call.text_or("name", "");
                let thought_signature = match part.str_at("thoughtSignature") {
                    Some(signature) => Some(signature.to_owned()),
                    None => None,
                };
                Some(
                    LlmEvent::ToolUse {
                        id: make_call_id(name.as_str(), place),
                        name,
                        input: call.get_or_empty("args"),
                        thought_signature,
                    },
                )
            },
            None => None,
        },
    }
}

fn push_parts(parts: &Vec<Json>, list: &mut Vec<LlmEvent>) -> (r: bool)
    requires
        old(list)@.len() == 0,
    ensures
        events(final(list)@) == part_events(models(parts@)),
        r == has_call(models(parts@)),
{
    let ghost all = models(parts@);
    let ghost f = |i: int, part: JsonView| piece(part_event(i, part));
    let mut called = false;
    let mut i: usize = 0;
    assert(events(list@) =~= gather(all.take(0), f));
    while i < parts.len()
        invariant
            i <= parts@.len(),
            all == models(parts@),
            f == (|i: int, part: JsonView| piece(part_event(i, part))),
            events(list@) == gather(all.take(i as int), f),
            called == exists|j: int| 0 <= j < i && is_call(#[trigger] all[j]),
        decreases parts@.len() - i,
    {
        let ghost before = events(list@);
        proof {
            lemma_gather_step(all, f, i as int);
            assert(all[i as int] == parts@[i as int]@);
        }
        let found = decode_part(i, &parts[i]);
        let tool = match &found {
            Some(LlmEvent::ToolUse { .. }) => true,
            _ => false,
        };
        called = called || tool;
        match found {
            Some(event) => {
                list.push(event);
                assert(events(list@) =~= before + f(i as int, all[i as int]));
            },
            None => {
                assert(before + f(i as int, all[i as int]) =~= before);
            },
        }
        i += 1;
    }
    assert(all.take(i as int) =~= all);
    called
}

/// The events of a reply.
pub fn parse_gemini_response(response: &Json) -> (r: Result<Vec<LlmEvent>, LlmError>)
    ensures
        outcome(r) == reply_events(response@),
{
    if let Some(error) = response.get("error") {
        return Err(LlmError::GeminiError(error.text_or("message", "unknown error")));
    }
    let candidates = match response.array_at("candidates") {
        Some(candidates) => candidates,
        None => return Err(LlmError::MissingCandidates),
    };
    assert(models(candidates@).len() == candidates@.len());
    if candidates.len() == 0 {
        return Err(LlmError::MissingCandidates);
    }
    let candidate = &candidates[0];
    assert(models(candidates@)[0] == candidate@);
    let mut list: Vec<LlmEvent> = Vec::new();
    let mut called = false;
    assert(events(list@) =~= part_events(Seq::empty()));
    if let Some(content) = candidate.get("content") {
        if let Some(parts) = content.array_at("parts") {
            called = push_parts(parts, &mut list);
        }
    }
    let ghost before = events(list@);
    if !called {
        list.push(LlmEvent::Stop);
        assert(events(list@) =~= before + seq![EventView::Stop]);
    } else {
        assert(before + Seq::<EventView>::empty() =~= before);
    }
    Ok(list)
}

} // verus!
