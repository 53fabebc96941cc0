//! Conversations with a model: messages, tools, and the events of a reply.
use crate::json::{Json, JsonView};
use crate::sequence::{gather, piece};
use vstd::prelude::*;

verus! {

/// A message in the conversation.
#[derive(Debug, Clone)]
pub struct Message {
    pub role: String,
    pub content: Vec<ContentBlock>,
}

/// A content block within a message.
#[derive(Debug, Clone)]
pub enum ContentBlock {
    Text { text: String },
    ToolUse {
        id: String,
        name: String,
        input: Json,
        /// Opaque token returned by Gemini 3.x for functionCall parts that must be echoed back
        /// on subsequent requests in the same turn. `None` for other providers and for
        /// Gemini <= 2.5.
        thought_signature: Option<String>,
    },
    ToolResult { tool_use_id: String, content: String, is_error: Option<bool> },
}

/// Tool definition sent to the model.
#[derive(Debug, Clone)]
pub struct ToolDef {
    pub name: String,
    pub description: String,
    pub input_schema: Json,
}

/// Events of a model's reply.
#[derive(Debug, Clone)]
pub enum LlmEvent {
    Text(String),
    ToolUse {
        id: String,
        name: String,
        input: Json,
        /// See [`ContentBlock::ToolUse::thought_signature`].
        thought_signature: Option<String>,
    },
    Stop,
    Error(String),
}

/// What a message is.
pub struct MessageView {
    pub role: Seq<char>,
    pub content: Seq<BlockView>,
}

/// What a content block is.
pub enum BlockView {
    Text { text: Seq<char> },
    ToolUse {
        id: Seq<char>,
        name: Seq<char>,
        input: JsonView,
        thought_signature: Option<Seq<char>>,
    },
    ToolResult { tool_use_id: Seq<char>, content: Seq<char>, is_error: Option<bool> },
}

/// What a tool definition is.
pub struct ToolDefView {
    pub name: Seq<char>,
    pub description: Seq<char>,
    pub input_schema: JsonView,
}

/// What an event is.
pub enum EventView {
    Text(Seq<char>),
    ToolUse {
        id: Seq<char>,
        name: Seq<char>,
        input: JsonView,
        thought_signature: Option<Seq<char>>,
    },
    Stop,
    Error(Seq<char>),
}

/// What an optional text is.
pub open spec fn optional(text: Option<String>) -> Option<Seq<char>> {
    match text {
        Some(text) => Some(text@),
        None => None,
    }
}

impl View for Message {
    type V = MessageView;

    open spec fn view(&self) -> MessageView {
        MessageView { role: self.role@, content: blocks(self.content@) }
    }
}

impl View for ContentBlock {
    type V = BlockView;

    open spec fn view(&self) -> BlockView {
        match *self {
            ContentBlock::Text { text } => BlockView::Text { text: text@ },
            ContentBlock::ToolUse { id, name, input, thought_signature } => BlockView::ToolUse {
                id: id@,
                name: name@,
                input: input@,
                thought_signature: optional(thought_signature),
            },
            ContentBlock::ToolResult { tool_use_id, content, is_error } => BlockView::ToolResult {
                tool_use_id: tool_use_id@,
                content: content@,
                is_error,
            },
        }
    }
}

impl View for ToolDef {
    type V = ToolDefView;

    open spec fn view(&self) -> ToolDefView {
        ToolDefView {
            name: self.name@,
            description: self.description@,
            input_schema: self.input_schema@,
        }
    }
}

impl View for LlmEvent {
    type V = EventView;

    open spec fn view(&self) -> EventView {
        match *self {
            LlmEvent::Text(text) => EventView::Text(text@),
            LlmEvent::ToolUse { id, name, input, thought_signature } => EventView::ToolUse {
                id: id@,
                name: name@,
                input: input@,
                thought_signature: optional(thought_signature),
            },
            LlmEvent::Stop => EventView::Stop,
            LlmEvent::Error(text) => EventView::Error(text@),
        }
    }
}

/// The block by which the conversation carries an event on.
pub open spec fn history_block(event: EventView) -> Option<BlockView> {
    match event {
        EventView::Text(text) => Some(BlockView::Text { text }),
        EventView::ToolUse { id, name, input, thought_signature } => Some(
            BlockView::ToolUse { id, name, input, thought_signature },
        ),
        _ => None,
    }
}

/// The blocks by which the conversation carries events on, in their order.
pub open spec fn history_blocks(events: Seq<EventView>) -> Seq<BlockView> {
    gather(events, |i: int, event: EventView| piece(history_block(event)))
}

/// What each of some content blocks is.
pub open spec fn blocks(content: Seq<ContentBlock>) -> Seq<BlockView> {
    content.map_values(|b: ContentBlock| b@)
}

/// What each of some messages is.
pub open spec fn conversation(messages: Seq<Message>) -> Seq<MessageView> {
    messages.map_values(|m: Message| m@)
}

/// What each of some tool definitions is.
pub open spec fn toolbox(tools: Seq<ToolDef>) -> Seq<ToolDefView> {
    tools.map_values(|t: ToolDef| t@)
}

/// What each of some events is.
pub open spec fn events(events: Seq<LlmEvent>) -> Seq<EventView> {
    events.map_values(|e: LlmEvent| e@)
}

} // verus!
