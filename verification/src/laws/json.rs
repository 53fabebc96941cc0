//! Laws of JSON values: what their parts are.
use crate::json::{integer_value, map_of, models, Json, JsonView};
use crate::message::{BlockView, ContentBlock, EventView, LlmEvent, Message, ToolDef};
use vstd::prelude::*;

verus! {

/// Each key of an object leads to its own value.
pub proof fn law_key_leads_to_its_value(fields: Map<Seq<char>, JsonView>, key: Seq<char>)
    ensures
        fields.contains_key(key) ==> {
            let value = fields[key];
            &&& JsonView::Object(fields).get(key) == Some(value)
            &&& JsonView::Object(fields).child(key) == value
            &&& JsonView::Object(fields).get_or_empty(key) == value
            &&& value matches JsonView::Array(items) ==> JsonView::Object(fields).items_at(key)
                == Some(items)
            &&& value !is Array ==> JsonView::Object(fields).items_at(key) is None
            &&& value matches JsonView::Text(text) ==> JsonView::Object(fields).text_at(key)
                == Some(text)
            &&& value !is Text ==> JsonView::Object(fields).text_at(key) is None
        },
{
}

/// A key that an object does not have leads to nothing, and so does any key of another value.
pub proof fn law_missing_key_leads_to_nothing(value: JsonView, key: Seq<char>)
    requires
        value matches JsonView::Object(fields) ==> !fields.contains_key(key),
    ensures
        value.get(key) is None,
        value.child(key) is Null,
        value.items_at(key) is None,
        value.text_at(key) is None,
        value.get_or_empty(key) matches JsonView::Object(none) && none.dom() =~= Set::empty(),
{
}

/// A text under a key is taken as it is, and the default counts exactly where there is none.
pub proof fn law_default_stands_in_for_a_text(value: JsonView, key: Seq<char>, default: Seq<char>)
    ensures
        value matches JsonView::Object(fields) ==> (fields.contains_key(key) && fields[key] is Text
            ==> value.text_or(key, default) == fields[key]->Text_0),
        (value matches JsonView::Object(fields) ==> !(fields.contains_key(key) && fields[key]
            is Text)) ==> value.text_or(key, default) == default,
{
}

/// A value is what its variant holds.
pub proof fn law_value_is_what_it_holds(value: Json)
    ensures
        value is Null <==> value@ is Null,
        value matches Json::Bool(b) ==> value@ == JsonView::Bool(b),
        value matches Json::Text(text) ==> value@ == JsonView::Text(text@),
        value matches Json::Number(n) ==> value@ == (match integer_value(n) {
            Some(i) => JsonView::Integer(i),
            None => JsonView::Float(n),
        }),
        value matches Json::Array(items) ==> (value@ matches JsonView::Array(views) && views.len()
            == items@.len() && forall|i: int|
            0 <= i < items@.len() ==> (#[trigger] views[i]) == items@[i]@),
        value matches Json::Object(object) ==> value@ == JsonView::Object(object@),
{
}

/// Each of some values is taken as what it is, in its place.
pub proof fn law_models_keep_their_places(items: Seq<Json>)
    ensures
        models(items).len() == items.len(),
        forall|i: int| 0 <= i < items.len() ==> (#[trigger] models(items)[i]) == items[i]@,
{
}

/// Pairs with distinct keys stand for the map from each key to the value beside it.
pub proof fn law_pairs_make_a_map(pairs: Seq<(Seq<char>, JsonView)>, i: int)
    requires
        0 <= i < pairs.len(),
        forall|a: int, b: int| 0 <= a < b < pairs.len() ==> pairs[a].0 != pairs[b].0,
    ensures
        map_of(pairs).contains_key(pairs[i].0),
        map_of(pairs)[pairs[i].0] == pairs[i].1,
        forall|key: Seq<char>| #[trigger]
            map_of(pairs).contains_key(key) ==> exists|j: int|
                0 <= j < pairs.len() && #[trigger] pairs[j].0 == key,
{
    let k = pairs[i].0;
    let j = choose|j: int| 0 <= j < pairs.len() && #[trigger] pairs[j].0 == k;
    assert(pairs[i].0 == k);
    assert(0 <= j < pairs.len() && pairs[j].0 == k);
}

/// A value is exact at some depth exactly where it holds no floating-point number and each of its
/// parts is exact one level less deep.
pub proof fn law_exactness_descends(value: JsonView, depth: nat)
    ensures
        value is Float ==> !value.is_exact(depth),
        value is Null || value is Bool || value is Integer || value is Text ==> value.is_exact(
            depth,
        ),
        value is Array ==> !value.is_exact(0),
        value is Object ==> !value.is_exact(0),
        value matches JsonView::Array(items) ==> (value.is_exact(depth + 1) <==> forall|i: int|
            0 <= i < items.len() ==> (#[trigger] items[i]).is_exact(depth)),
        value matches JsonView::Object(fields) ==> (value.is_exact(depth + 1) <==> forall|
            key: Seq<char>,
        |
            fields.contains_key(key) ==> (#[trigger] fields[key]).is_exact(depth)),
{
}

/// A content block is what its fields hold; none is left out.
pub proof fn law_block_is_its_fields(block: ContentBlock)
    ensures
        block matches ContentBlock::Text { text } ==> block@ == (BlockView::Text { text: text@ }),
        block matches ContentBlock::ToolUse { id, name, input, thought_signature } ==> {
            &&& block@ matches BlockView::ToolUse {
                id: id_view,
                name: name_view,
                input: input_view,
                thought_signature: signature_view,
            }
            &&& id_view == id@
            &&& name_view == name@
            &&& input_view == input@
            &&& signature_view is Some <==> thought_signature is Some
            &&& thought_signature matches Some(signature) ==> signature_view == Some(signature@)
        },
        block matches ContentBlock::ToolResult { tool_use_id, content, is_error } ==> {
            &&& block@ matches BlockView::ToolResult {
                tool_use_id: id_view,
                content: content_view,
                is_error: error_view,
            }
            &&& id_view == tool_use_id@
            &&& content_view == content@
            &&& error_view == is_error
        },
{
}

/// An event is what its fields hold; none is left out.
pub proof fn law_event_is_its_fields(event: LlmEvent)
    ensures
        event matches LlmEvent::Text(text) ==> event@ == EventView::Text(text@),
        event is Stop <==> event@ is Stop,
        event matches LlmEvent::Error(text) ==> event@ == EventView::Error(text@),
        event matches LlmEvent::ToolUse { id, name, input, thought_signature } ==> {
            &&& event@ matches EventView::ToolUse {
                id: id_view,
                name: name_view,
                input: input_view,
                thought_signature: signature_view,
            }
            &&& id_view == id@
            &&& name_view == name@
            &&& input_view == input@
            &&& signature_view is Some <==> thought_signature is Some
            &&& thought_signature matches Some(signature) ==> signature_view == Some(signature@)
        },
{
}

/// A message is its role and its blocks in their places; a tool is its name, its description and
/// its schema.
pub proof fn law_message_and_tool_are_their_fields(message: Message, tool: ToolDef)
    ensures
        message@.role == message.role@,
        message@.content.len() == message.content@.len(),
        forall|i: int|
            0 <= i < message.content@.len() ==> (#[trigger] message@.content[i])
                == message.content@[i]@,
        tool@.name == tool.name@,
        tool@.description == tool.description@,
        tool@.input_schema == tool.input_schema@,
{
}

/// Conversations, tool boxes and lists of events keep each item in its place.
pub proof fn law_lists_keep_their_places(
    messages: Seq<Message>,
    tools: Seq<ToolDef>,
    events: Seq<LlmEvent>,
)
    ensures
        crate::message::conversation(messages).len() == messages.len(),
        forall|i: int|
            0 <= i < messages.len() ==> (#[trigger] crate::message::conversation(messages)[i])
                == messages[i]@,
        crate::message::toolbox(tools).len() == tools.len(),
        forall|i: int|
            0 <= i < tools.len() ==> (#[trigger] crate::message::toolbox(tools)[i]) == tools[i]@,
        crate::message::events(events).len() == events.len(),
        forall|i: int|
            0 <= i < events.len() ==> (#[trigger] crate::message::events(events)[i])
                == events[i]@,
{
}

} // verus!
