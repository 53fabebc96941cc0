//! Laws of the Gemini API: calls, their results and their signatures keep together.
use crate::error::ErrorView;
use crate::gemini::{
    block_part, call_id, call_name, call_part, candidate_parts, configured, has_call, is_call,
    message_body, part_event, part_events, reply_events, request_body, result_name, text_part,
    tool_name, wire_role, GeminiProvider,
};
use crate::json::JsonView;
use crate::laws::text::law_decimal_reads_back;
use crate::message::{
    history_block, history_blocks, BlockView, EventView, MessageView, ToolDefView,
};
use crate::sequence::{gather, lemma_gather_concat, lemma_gather_step, piece};
use crate::settings::token_limit;
use crate::text::{decimal, is_digit};
use vstd::prelude::*;

verus! {

/// The place of the last underscore of a call's id: its number has none.
proof fn lemma_call_id_shape(name: Seq<char>, place: nat)
    ensures
        call_id(name, place).len() == 6 + name.len() + decimal(place).len(),
        call_id(name, place)[5 + name.len() as int] == '_',
        call_id(name, place).subrange(5, 5 + name.len() as int) == name,
        call_id(name, place).skip(6 + name.len() as int) == decimal(place),
        forall|i: int|
            5 + name.len() < i < call_id(name, place).len() ==> #[trigger] call_id(
                name,
                place,
            )[i] != '_',
{
    reveal_strlit("call_");
    reveal_strlit("_");
    law_decimal_reads_back(place);
    let id = call_id(name, place);
    assert(id.subrange(5, 5 + name.len() as int) =~= name);
    assert(id.skip(6 + name.len() as int) =~= decimal(place));
    assert forall|i: int| 5 + name.len() < i < id.len() implies #[trigger] id[i] != '_' by {
        let j = i - 6 - name.len();
        assert(id[i] == decimal(place)[j]);
        assert(is_digit(decimal(place)[j]));
    }
}

/// The id that is made up for a call tells its name and place: no two calls with another name or
/// place share one.
pub proof fn law_call_id_is_unique(name1: Seq<char>, place1: nat, name2: Seq<char>, place2: nat)
    requires
        call_id(name1, place1) == call_id(name2, place2),
    ensures
        name1 == name2,
        place1 == place2,
{
    lemma_call_id_shape(name1, place1);
    lemma_call_id_shape(name2, place2);
    law_decimal_reads_back(place1);
    law_decimal_reads_back(place2);
    let id = call_id(name1, place1);
    if name1.len() < name2.len() {
        assert(id[5 + name2.len() as int] == '_');
    } else if name2.len() < name1.len() {
        assert(id[5 + name1.len() as int] == '_');
    }
}

/// The id of a tool call.
pub open spec fn event_id(event: EventView) -> Option<Seq<char>> {
    match event {
        EventView::ToolUse { id, .. } => Some(id),
        _ => None,
    }
}

/// The event's id, if it has one, was made up for a place before `end`.
pub open spec fn placed_before(event: EventView, end: int) -> bool {
    event matches EventView::ToolUse { id, name, .. } ==> exists|place: int|
        0 <= place < end && id == #[trigger] call_id(name, place as nat)
}

proof fn lemma_ids_unique_in(parts: Seq<JsonView>, n: int)
    requires
        0 <= n <= parts.len(),
    ensures
        forall|i: int|
            0 <= i < part_events(parts.take(n)).len() ==> placed_before(
                #[trigger] part_events(parts.take(n))[i],
                n,
            ),
        forall|i: int, j: int|
            0 <= i < j < part_events(parts.take(n)).len() && (#[trigger] part_events(
                parts.take(n),
            )[i]) is ToolUse && (#[trigger] part_events(parts.take(n))[j]) is ToolUse ==> event_id(
                part_events(parts.take(n))[i],
            ) != event_id(part_events(parts.take(n))[j]),
    decreases n,
{
    let f = |i: int, part: JsonView| piece(part_event(i, part));
    if n > 0 {
        lemma_ids_unique_in(parts, n - 1);
        lemma_gather_step(parts, f, n - 1);
        let before = part_events(parts.take(n - 1));
        let after = part_events(parts.take(n));
        let more = piece(part_event(n - 1, parts[n - 1]));
        assert(after == before + more);
        assert forall|i: int| 0 <= i < after.len() implies placed_before(
            #[trigger] after[i],
            n,
        ) by {
            if i < before.len() {
                assert(after[i] == before[i]);
                assert(placed_before(before[i], n - 1));
                if let EventView::ToolUse { id, name, .. } = before[i] {
                    let place = choose|place: int|
                        0 <= place < n - 1 && id == #[trigger] call_id(name, place as nat);
                    assert(0 <= place < n && id == call_id(name, place as nat));
                }
            } else {
                assert(after[i] == more[0]);
                if let EventView::ToolUse { id, name, .. } = more[0] {
                    assert(id == call_id(name, (n - 1) as nat));
                }
            }
        }
        assert forall|i: int, j: int|
            0 <= i < j < after.len() && (#[trigger] after[i]) is ToolUse && (
            #[trigger] after[j]) is ToolUse implies event_id(after[i]) != event_id(after[j]) by {
            assert(after[i] == before[i]);
            if j < before.len() {
                assert(after[j] == before[j]);
            } else {
                assert(after[j] == more[0]);
                assert(placed_before(before[i], n - 1));
                let name1 = before[i]->ToolUse_name;
                let id1 = before[i]->ToolUse_id;
                let name2 = more[0]->ToolUse_name;
                let place = choose|place: int|
                    0 <= place < n - 1 && id1 == #[trigger] call_id(name1, place as nat);
                assert(more[0]->ToolUse_id == call_id(name2, (n - 1) as nat));
                if id1 == more[0]->ToolUse_id {
                    law_call_id_is_unique(name1, place as nat, name2, (n - 1) as nat);
                }
            }
        }
    }
}

/// No two tool calls of a reply have the same id.
pub proof fn law_ids_are_unique_in_a_reply(parts: Seq<JsonView>, i: int, j: int)
    requires
        0 <= i < j < part_events(parts).len(),
        part_events(parts)[i] is ToolUse,
        part_events(parts)[j] is ToolUse,
    ensures
        event_id(part_events(parts)[i]) != event_id(part_events(parts)[j]),
{
    lemma_ids_unique_in(parts, parts.len() as int);
    assert(parts.take(parts.len() as int) =~= parts);
}

/// The block is a tool call with an id.
pub open spec fn calls(block: BlockView, id: Seq<char>) -> bool {
    block matches BlockView::ToolUse { id: call, .. } && call == id
}

/// Every tool call with an id has a name.
pub open spec fn calls_agree(messages: Seq<MessageView>, id: Seq<char>, name: Seq<char>) -> bool {
    forall|i: int, j: int|
        0 <= i < messages.len() && 0 <= j < messages[i].content.len() && calls(
            #[trigger] messages[i].content[j],
            id,
        ) ==> messages[i].content[j]->ToolUse_name == name
}

proof fn lemma_call_name(content: Seq<BlockView>, id: Seq<char>)
    ensures
        match call_name(content, id) {
            Some(name) => exists|j: int|
                0 <= j < content.len() && calls(#[trigger] content[j], id)
                    && content[j]->ToolUse_name == name,
            None => forall|j: int| 0 <= j < content.len() ==> !calls(#[trigger] content[j], id),
        },
    decreases content.len(),
{
    if content.len() > 0 {
        let rest = content.skip(1);
        if calls(content[0], id) {
        } else {
            lemma_call_name(rest, id);
            assert(call_name(content, id) == call_name(rest, id));
            match call_name(rest, id) {
                Some(name) => {
                    let j = choose|j: int|
                        0 <= j < rest.len() && calls(#[trigger] rest[j], id)
                            && rest[j]->ToolUse_name == name;
                    assert(content[j + 1] == rest[j]);
                },
                None => {
                    assert forall|j: int| 0 <= j < content.len() implies !calls(
                        #[trigger] content[j],
                        id,
                    ) by {
                        if j > 0 {
                            assert(rest[j - 1] == content[j]);
                        }
                    }
                },
            }
        }
    }
}

proof fn lemma_tool_name(messages: Seq<MessageView>, id: Seq<char>)
    ensures
        match tool_name(messages, id) {
            Some(name) => exists|i: int, j: int|
                0 <= i < messages.len() && 0 <= j < messages[i].content.len() && calls(
                    #[trigger] messages[i].content[j],
                    id,
                ) && messages[i].content[j]->ToolUse_name == name,
            None => forall|i: int, j: int|
                0 <= i < messages.len() && 0 <= j < messages[i].content.len() ==> !calls(
                    #[trigger] messages[i].content[j],
                    id,
                ),
        },
    decreases messages.len(),
{
    if messages.len() > 0 {
        let rest = messages.skip(1);
        lemma_call_name(messages[0].content, id);
        if call_name(messages[0].content, id) is None {
            lemma_tool_name(rest, id);
            match tool_name(rest, id) {
                Some(name) => {
                    let (i, j) = choose|i: int, j: int|
                        0 <= i < rest.len() && 0 <= j < rest[i].content.len() && calls(
                            #[trigger] rest[i].content[j],
                            id,
                        ) && rest[i].content[j]->ToolUse_name == name;
                    assert(messages[i + 1] == rest[i]);
                    assert(calls(messages[i + 1].content[j], id));
                },
                None => {
                    assert forall|i: int, j: int|
                        0 <= i < messages.len() && 0 <= j
                            < messages[i].content.len() implies !calls(
                        #[trigger] messages[i].content[j],
                        id,
                    ) by {
                        if i > 0 {
                            assert(rest[i - 1] == messages[i]);
                            assert(!calls(rest[i - 1].content[j], id));
                        }
                    }
                },
            }
        }
    }
}

/// A tool result is answered under the name of the call it belongs to, wherever in the
/// conversation that call stands; with no such call, under its id.
pub proof fn law_result_answers_its_call(
    messages: Seq<MessageView>,
    id: Seq<char>,
    name: Seq<char>,
)
    requires
        calls_agree(messages, id, name),
    ensures
        (exists|i: int, j: int|
            0 <= i < messages.len() && 0 <= j < messages[i].content.len() && calls(
                #[trigger] messages[i].content[j],
                id,
            )) ==> result_name(messages, id) == name,
        (forall|i: int, j: int|
            0 <= i < messages.len() && 0 <= j < messages[i].content.len() ==> !calls(
                #[trigger] messages[i].content[j],
                id,
            )) ==> result_name(messages, id) == id,
{
    lemma_tool_name(messages, id);
}

/// Every tool call has the id that was made up for it from its name.
pub open spec fn ids_made_up(messages: Seq<MessageView>) -> bool {
    forall|i: int, j: int|
        0 <= i < messages.len() && 0 <= j < messages[i].content.len() && (
        #[trigger] messages[i].content[j]) is ToolUse ==> exists|place: nat|
            messages[i].content[j]->ToolUse_id == #[trigger] call_id(
                messages[i].content[j]->ToolUse_name,
                place,
            )
}

/// In a conversation of calls that came from replies, however many turns it has, a made-up id
/// leads back to the very name that it was made from.
pub proof fn law_made_up_id_leads_back(messages: Seq<MessageView>, name: Seq<char>, place: nat)
    requires
        ids_made_up(messages),
        exists|i: int, j: int|
            0 <= i < messages.len() && 0 <= j < messages[i].content.len() && calls(
                #[trigger] messages[i].content[j],
                call_id(name, place),
            ),
    ensures
        result_name(messages, call_id(name, place)) == name,
{
    let id = call_id(name, place);
    assert forall|i: int, j: int|
        0 <= i < messages.len() && 0 <= j < messages[i].content.len() && calls(
            #[trigger] messages[i].content[j],
            id,
        ) implies messages[i].content[j]->ToolUse_name == name by {
        let other = messages[i].content[j]->ToolUse_name;
        let there = choose|there: nat|
            messages[i].content[j]->ToolUse_id == #[trigger] call_id(other, there);
        law_call_id_is_unique(other, there, name, place);
    }
    law_result_answers_its_call(messages, id, name);
}

/// The keys of a function call part differ.
proof fn lemma_part_keys()
    ensures
        "functionCall"@ != "thoughtSignature"@,
        "functionCall"@ != "text"@,
        "thoughtSignature"@ != "text"@,
        "name"@ != "args"@,
{
    reveal_strlit("functionCall");
    reveal_strlit("thoughtSignature");
    reveal_strlit("text");
    reveal_strlit("name");
    reveal_strlit("args");
    assert("functionCall"@.len() == 12);
    assert("thoughtSignature"@.len() == 16);
    assert("text"@.len() == 4);
    assert("name"@[0] != "args"@[0]);
}

/// A function call that is sent would be read as the same call, with its signature.
pub proof fn law_call_reads_back(
    name: Seq<char>,
    input: JsonView,
    thought_signature: Option<Seq<char>>,
    place: nat,
)
    ensures
        part_event(place as int, call_part(name, input, thought_signature)) == Some(
            EventView::ToolUse { id: call_id(name, place), name, input, thought_signature },
        ),
{
    lemma_part_keys();
}

/// The signature that a reply issues on a call is echoed on every later request that carries the
/// call, and none is added to a call without one.
pub proof fn law_signature_is_echoed(messages: Seq<MessageView>, place: int, part: JsonView)
    requires
        is_call(part),
    ensures
        part_event(place, part) matches Some(event) && history_block(event) matches Some(block)
            && block_part(messages, block).text_at("thoughtSignature"@) == part.text_at(
            "thoughtSignature"@,
        ) && block_part(messages, block).get("thoughtSignature"@) is Some == part.text_at(
            "thoughtSignature"@,
        ) is Some,
{
    lemma_part_keys();
}

/// A call part of a reply, sent again, is the very same part: where the reply holds nothing else
/// than the call's name, its arguments and, possibly, a signature.
pub proof fn law_call_part_is_repeated(
    messages: Seq<MessageView>,
    place: int,
    name: Seq<char>,
    input: JsonView,
    thought_signature: Option<Seq<char>>,
)
    requires
        place >= 0,
    ensures
        part_event(place, call_part(name, input, thought_signature)) matches Some(event)
            && history_block(event) matches Some(block) && block_part(messages, block)
            == call_part(name, input, thought_signature),
{
    law_call_reads_back(name, input, thought_signature, place as nat);
}

/// The part by which a part of a reply is echoed: its text, or its call with the signature. Empty
/// texts and other parts are not echoed.
pub open spec fn echo(part: JsonView) -> Option<JsonView> {
    match part.text_at("text"@) {
        Some(text) => if text.len() > 0 {
            Some(text_part(text))
        } else {
            None
        },
        None => match part.get("functionCall"@) {
            Some(call) => Some(
                call_part(
                    call.text_or("name"@, ""@),
                    call.get_or_empty("args"@),
                    part.text_at("thoughtSignature"@),
                ),
            ),
            None => None,
        },
    }
}

/// The parts by which the parts of a reply are echoed, in their order.
pub open spec fn echoes(parts: Seq<JsonView>) -> Seq<JsonView> {
    gather(parts, |i: int, part: JsonView| piece(echo(part)))
}

proof fn lemma_parts_are_echoed(messages: Seq<MessageView>, parts: Seq<JsonView>)
    ensures
        history_blocks(part_events(parts)).map_values(|b: BlockView| block_part(messages, b))
            == echoes(parts),
    decreases parts.len(),
{
    let f = |i: int, part: JsonView| piece(part_event(i, part));
    let h = |i: int, event: EventView| piece(history_block(event));
    let on_wire = |b: BlockView| block_part(messages, b);
    if parts.len() == 0 {
        assert(history_blocks(part_events(parts)).map_values(on_wire) =~= echoes(parts));
    } else {
        let front = parts.drop_last();
        lemma_parts_are_echoed(messages, front);
        let more = f(parts.len() - 1, parts.last());
        assert(part_events(parts) == part_events(front) + more);
        lemma_gather_concat(part_events(front), more, h);
        let before = history_blocks(part_events(front));
        if more.len() == 0 {
            assert(gather(more, h) =~= Seq::<BlockView>::empty());
            assert(before + gather(more, h) =~= before);
            assert(echoes(front) + piece(echo(parts.last())) =~= echoes(front));
        } else {
            assert(more.drop_last() =~= Seq::<EventView>::empty());
            assert(gather(more.drop_last(), h) =~= Seq::<BlockView>::empty());
            let block = history_block(more[0])->0;
            assert(gather(more, h) =~= seq![block]);
            assert(echo(parts.last()) == Some(block_part(messages, block)));
            assert((before + seq![block]).map_values(on_wire) =~= before.map_values(on_wire)
                + seq![block_part(messages, block)]);
        }
    }
}

/// A reply, carried on in the conversation as a whole, is echoed part by part in its order: every
/// text and every call, each call with its arguments and its signature.
pub proof fn law_reply_is_echoed(messages: Seq<MessageView>, response: JsonView)
    requires
        reply_events(response) is Ok,
    ensures
        message_body(
            messages,
            MessageView {
                role: "assistant"@,
                content: history_blocks(reply_events(response)->Ok_0),
            },
        ) == JsonView::Object(
            map![
                "role"@ => JsonView::Text("model"@),
                "parts"@ => JsonView::Array(
                    echoes(candidate_parts(response.items_at("candidates"@)->0[0])),
                ),
            ],
        ),
{
    let parts = candidate_parts(response.items_at("candidates"@)->0[0]);
    let list = part_events(parts);
    let events = reply_events(response)->Ok_0;
    let h = |i: int, event: EventView| piece(history_block(event));
    lemma_parts_are_echoed(messages, parts);
    if has_call(parts) {
        assert(events =~= list);
    } else {
        let stop = seq![EventView::Stop];
        assert(events == list + stop);
        lemma_gather_concat(list, stop, h);
        assert(stop.drop_last() =~= Seq::<EventView>::empty());
        assert(gather(stop.drop_last(), h) =~= Seq::<BlockView>::empty());
        assert(gather(stop, h) =~= Seq::<BlockView>::empty());
        assert(history_blocks(list) + Seq::<BlockView>::empty() =~= history_blocks(list));
    }
}

/// A part that holds nothing but a text, or nothing but a call's name, its arguments and,
/// possibly, a signature.
pub open spec fn is_plain(part: JsonView) -> bool {
    ||| exists|text: Seq<char>| text.len() > 0 && part == #[trigger] text_part(text)
    ||| exists|name: Seq<char>, input: JsonView, thought_signature: Option<Seq<char>>|
        part == #[trigger] call_part(name, input, thought_signature)
}

/// Parts of a reply that hold nothing but texts and calls are echoed as they were received.
pub proof fn law_plain_parts_are_repeated(parts: Seq<JsonView>)
    requires
        forall|i: int| 0 <= i < parts.len() ==> is_plain(#[trigger] parts[i]),
    ensures
        echoes(parts) == parts,
    decreases parts.len(),
{
    if parts.len() > 0 {
        let front = parts.drop_last();
        assert forall|i: int| 0 <= i < front.len() implies is_plain(#[trigger] front[i]) by {
            assert(front[i] == parts[i]);
        }
        law_plain_parts_are_repeated(front);
        lemma_part_keys();
        assert(is_plain(parts[parts.len() - 1]));
        assert(echo(parts.last()) == Some(parts.last()));
        assert(front + seq![parts.last()] =~= parts);
    }
}

proof fn lemma_part_events(parts: Seq<JsonView>, n: int)
    requires
        0 <= n <= parts.len(),
    ensures
        forall|i: int|
            0 <= i < part_events(parts.take(n)).len() ==> (#[trigger] part_events(
                parts.take(n),
            )[i]) is Text || part_events(parts.take(n))[i] is ToolUse,
        has_call(parts.take(n)) <==> exists|i: int|
            0 <= i < part_events(parts.take(n)).len() && (#[trigger] part_events(
                parts.take(n),
            )[i]) is ToolUse,
    decreases n,
{
    let f = |i: int, part: JsonView| piece(part_event(i, part));
    if n > 0 {
        lemma_part_events(parts, n - 1);
        lemma_gather_step(parts, f, n - 1);
        let before = part_events(parts.take(n - 1));
        let after = part_events(parts.take(n));
        let more = piece(part_event(n - 1, parts[n - 1]));
        assert(after == before + more);
        if has_call(parts.take(n)) {
            let i = choose|i: int| 0 <= i < n && is_call(#[trigger] parts.take(n)[i]);
            if i < n - 1 {
                assert(is_call(parts.take(n - 1)[i]));
                let k = choose|k: int| 0 <= k < before.len() && (#[trigger] before[k]) is ToolUse;
                assert(after[k] is ToolUse);
            } else {
                assert(after[before.len() as int] is ToolUse);
            }
        }
        if exists|i: int| 0 <= i < after.len() && (#[trigger] after[i]) is ToolUse {
            let i = choose|i: int| 0 <= i < after.len() && (#[trigger] after[i]) is ToolUse;
            if i < before.len() {
                assert(before[i] is ToolUse);
                let k = choose|k: int| 0 <= k < n - 1 && is_call(#[trigger] parts.take(n - 1)[k]);
                assert(is_call(parts.take(n)[k]));
            } else {
                assert(is_call(parts.take(n)[n - 1]));
            }
        }
    }
}

/// A reply stops exactly where it waits for no tool result: a stop is its last event if and only
/// if it has no tool call, and stands nowhere else.
pub proof fn law_stop_means_no_call(response: JsonView)
    ensures
        reply_events(response) matches Ok(events) ==> {
            &&& forall|i: int| 0 <= i < events.len() - 1 ==> (#[trigger] events[i]) !is Stop
            &&& (events.len() > 0 && events.last() is Stop) <==> !exists|i: int|
                0 <= i < events.len() && (#[trigger] events[i]) is ToolUse
        },
{
    if let Ok(events) = reply_events(response) {
        let candidates = response.items_at("candidates"@)->0;
        let parts = candidate_parts(candidates[0]);
        lemma_part_events(parts, parts.len() as int);
        assert(parts.take(parts.len() as int) =~= parts);
        let list = part_events(parts);
        if has_call(parts) {
            assert(list + Seq::<EventView>::empty() =~= list);
            let k = choose|k: int| 0 <= k < list.len() && (#[trigger] list[k]) is ToolUse;
            assert(events[k] is ToolUse);
        } else {
            assert(events == list + seq![EventView::Stop]);
            assert(events.last() is Stop);
            assert forall|i: int| 0 <= i < events.len() implies (#[trigger] events[i])
                !is ToolUse by {
                if i < list.len() {
                    assert(events[i] == list[i]);
                }
            }
        }
    }
}

/// Each message is sent as one content, in its order, under the role `model` for the assistant
/// and `user` for everyone else; tools are named exactly where there are some.
pub proof fn law_request_mirrors_conversation(
    max_tokens: int,
    system: Seq<char>,
    messages: Seq<MessageView>,
    tools: Seq<ToolDefView>,
)
    ensures
        ({
            let body = request_body(max_tokens, system, messages, tools);
            &&& body.items_at("contents"@) matches Some(contents) && contents.len()
                == messages.len() && forall|i: int|
                0 <= i < messages.len() ==> (#[trigger] contents[i]).text_at("role"@) == Some(
                    wire_role(messages[i].role),
                )
            &&& body.get("tools"@) is Some <==> tools.len() > 0
        }),
{
    reveal_strlit("contents");
    reveal_strlit("systemInstruction");
    reveal_strlit("generationConfig");
    reveal_strlit("tools");
    reveal_strlit("role");
    reveal_strlit("parts");
    assert("contents"@.len() == 8);
    assert("systemInstruction"@.len() == 17);
    assert("generationConfig"@.len() == 16);
    assert("tools"@.len() == 5);
    assert("role"@.len() != "parts"@.len());
}

/// Either name of the API key serves, and an empty one is refused, not replaced.
pub proof fn law_either_key_serves(
    key: Seq<char>,
    other: Option<Seq<char>>,
    model: Option<Seq<char>>,
    max_tokens: Option<Seq<char>>,
    base_url: Option<Seq<char>>,
)
    ensures
        configured(None, Some(key), model, max_tokens, base_url) == configured(
            Some(key),
            other,
            model,
            max_tokens,
            base_url,
        ),
        configured(Some(key), other, model, max_tokens, base_url) is Err <==> key.len() == 0,
{
}

/// The keys of a request body differ.
proof fn lemma_request_keys()
    ensures
        "contents"@ != "systemInstruction"@,
        "contents"@ != "generationConfig"@,
        "contents"@ != "tools"@,
        "systemInstruction"@ != "generationConfig"@,
        "systemInstruction"@ != "tools"@,
        "generationConfig"@ != "tools"@,
{
    reveal_strlit("contents");
    reveal_strlit("systemInstruction");
    reveal_strlit("generationConfig");
    reveal_strlit("tools");
    assert("contents"@.len() == 8);
    assert("systemInstruction"@.len() == 17);
    assert("generationConfig"@.len() == 16);
    assert("tools"@.len() == 5);
}

/// The keys of messages, tools and function responses differ.
proof fn lemma_inner_keys()
    ensures
        "role"@ != "parts"@,
        "role"@ != "name"@,
        "role"@ != "description"@,
        "role"@ != "parameters"@,
        "role"@ != "args"@,
        "role"@ != "response"@,
        "role"@ != "result"@,
        "role"@ != "error"@,
        "parts"@ != "name"@,
        "parts"@ != "description"@,
        "parts"@ != "parameters"@,
        "parts"@ != "args"@,
        "parts"@ != "response"@,
        "parts"@ != "result"@,
        "parts"@ != "error"@,
        "name"@ != "description"@,
        "name"@ != "parameters"@,
        "name"@ != "args"@,
        "name"@ != "response"@,
        "name"@ != "result"@,
        "name"@ != "error"@,
        "description"@ != "parameters"@,
        "description"@ != "args"@,
        "description"@ != "response"@,
        "description"@ != "result"@,
        "description"@ != "error"@,
        "parameters"@ != "args"@,
        "parameters"@ != "response"@,
        "parameters"@ != "result"@,
        "parameters"@ != "error"@,
        "args"@ != "response"@,
        "args"@ != "result"@,
        "args"@ != "error"@,
        "response"@ != "result"@,
        "response"@ != "error"@,
        "result"@ != "error"@,
{
    reveal_strlit("role");
    reveal_strlit("parts");
    reveal_strlit("name");
    reveal_strlit("description");
    reveal_strlit("parameters");
    reveal_strlit("args");
    reveal_strlit("response");
    reveal_strlit("result");
    reveal_strlit("error");
    assert("role"@.len() == 4);
    assert("parts"@.len() == 5);
    assert("name"@.len() == 4);
    assert("description"@.len() == 11);
    assert("parameters"@.len() == 10);
    assert("args"@.len() == 4);
    assert("response"@.len() == 8);
    assert("result"@.len() == 6);
    assert("error"@.len() == 5);
    assert("role"@[0] != "name"@[0]);
    assert("role"@[0] != "args"@[0]);
    assert("parts"@[0] != "error"@[0]);
    assert("name"@[0] != "args"@[0]);
}

/// A request goes to the model's address under the base URL, with the provider's key, as JSON.
pub proof fn law_request_is_addressed(provider: GeminiProvider)
    ensures
        provider.request_url() == provider.base_url@ + "/models/"@ + provider.model@
            + ":generateContent"@,
        provider.request_headers().len() == 2,
        provider.request_headers()[0] == ("x-goog-api-key"@, provider.api_key@),
        provider.request_headers()[1] == ("content-type"@, "application/json"@),
{
}

/// A request holds the system prompt, the provider's token limit, one content for each message
/// and, exactly where there are tools, one list of all their declarations; and nothing else.
pub proof fn law_request_holds_everything(
    provider: GeminiProvider,
    system: Seq<char>,
    messages: Seq<MessageView>,
    tools: Seq<ToolDefView>,
)
    ensures
        provider.request(system, messages, tools) is Object,
        ({
            let body = provider.request(system, messages, tools)->Object_0;
            let prompt = body["systemInstruction"@]->Object_0;
            let config = body["generationConfig"@]->Object_0;
            &&& body.dom() =~= if tools.len() == 0 {
                set!["contents"@, "systemInstruction"@, "generationConfig"@]
            } else {
                set!["contents"@, "systemInstruction"@, "generationConfig"@, "tools"@]
            }
            &&& body["systemInstruction"@] is Object
            &&& prompt.dom() =~= set!["parts"@]
            &&& prompt["parts"@] is Array
            &&& prompt["parts"@]->Array_0.len() == 1
            &&& prompt["parts"@]->Array_0[0] is Object
            &&& prompt["parts"@]->Array_0[0]->Object_0.dom() =~= set!["text"@]
            &&& prompt["parts"@]->Array_0[0]->Object_0["text"@] == JsonView::Text(system)
            &&& body["generationConfig"@] is Object
            &&& config.dom() =~= set!["maxOutputTokens"@]
            &&& config["maxOutputTokens"@] == JsonView::Integer(provider.max_tokens as int)
            &&& body["contents"@] is Array
            &&& body["contents"@]->Array_0.len() == messages.len()
        }),
{
    lemma_request_keys();
    let body = provider.request(system, messages, tools)->Object_0;
    if tools.len() == 0 {
        assert(body.dom() =~= set!["contents"@, "systemInstruction"@, "generationConfig"@]);
    } else {
        assert(body.dom() =~= set![
            "contents"@,
            "systemInstruction"@,
            "generationConfig"@,
            "tools"@,
        ]);
    }
}

/// Each message stands in its place, the assistant's under the role `model` and every other under
/// `user`, with each of its blocks in its place.
pub proof fn law_message_keeps_its_place(
    provider: GeminiProvider,
    system: Seq<char>,
    messages: Seq<MessageView>,
    tools: Seq<ToolDefView>,
    i: int,
)
    requires
        0 <= i < messages.len(),
    ensures
        ({
            let body = provider.request(system, messages, tools)->Object_0;
            let sent = body["contents"@]->Array_0[i]->Object_0;
            &&& body["contents"@]->Array_0[i] is Object
            &&& sent.dom() =~= set!["role"@, "parts"@]
            &&& messages[i].role == "assistant"@ ==> sent["role"@] == JsonView::Text("model"@)
            &&& messages[i].role != "assistant"@ ==> sent["role"@] == JsonView::Text("user"@)
            &&& sent["parts"@] is Array
            &&& sent["parts"@]->Array_0.len() == messages[i].content.len()
            &&& forall|j: int|
                0 <= j < messages[i].content.len() ==> (#[trigger] sent["parts"@]->Array_0[j])
                    == block_part(messages, messages[i].content[j])
        }),
{
    lemma_request_keys();
    lemma_inner_keys();
}

/// A block is sent with all that its kind has: a text its text; a call its name and its input as
/// the arguments, with the signature exactly where it has one; a result its content, as the
/// result or, where it is one, as the error, under the name it is answered by.
pub proof fn law_block_is_sent_whole(messages: Seq<MessageView>, block: BlockView)
    ensures
        block_part(messages, block) is Object,
        ({
            let sent = block_part(messages, block)->Object_0;
            match block {
                BlockView::Text { text } => {
                    &&& sent.dom() =~= set!["text"@]
                    &&& sent["text"@] == JsonView::Text(text)
                },
                BlockView::ToolUse { name, input, thought_signature, .. } => {
                    let call = sent["functionCall"@]->Object_0;
                    &&& sent["functionCall"@] is Object
                    &&& call.dom() =~= set!["name"@, "args"@]
                    &&& call["name"@] == JsonView::Text(name)
                    &&& call["args"@] == input
                    &&& thought_signature is None ==> sent.dom() =~= set!["functionCall"@]
                    &&& thought_signature matches Some(signature) ==> sent["thoughtSignature"@]
                        == JsonView::Text(signature) && sent.dom() =~= set![
                        "functionCall"@,
                        "thoughtSignature"@,
                    ]
                },
                BlockView::ToolResult { tool_use_id, content, is_error } => {
                    let answer = sent["functionResponse"@]->Object_0;
                    let response = answer["response"@]->Object_0;
                    &&& sent.dom() =~= set!["functionResponse"@]
                    &&& sent["functionResponse"@] is Object
                    &&& answer.dom() =~= set!["name"@, "response"@]
                    &&& answer["name"@] == JsonView::Text(result_name(messages, tool_use_id))
                    &&& answer["response"@] is Object
                    &&& is_error == Some(true) ==> response.dom() =~= set!["error"@]
                        && response["error"@] == JsonView::Text(content)
                    &&& is_error != Some(true) ==> response.dom() =~= set!["result"@]
                        && response["result"@] == JsonView::Text(content)
                },
            }
        }),
{
    lemma_part_keys();
    lemma_inner_keys();
}

/// Tools are declared in one list, each in its place, with its own name, description and schema.
pub proof fn law_tool_keeps_its_schema(
    provider: GeminiProvider,
    system: Seq<char>,
    messages: Seq<MessageView>,
    tools: Seq<ToolDefView>,
    i: int,
)
    requires
        0 <= i < tools.len(),
    ensures
        ({
            let body = provider.request(system, messages, tools)->Object_0;
            let list = body["tools"@]->Array_0;
            let declarations = list[0]->Object_0["functionDeclarations"@]->Array_0;
            let sent = declarations[i]->Object_0;
            &&& body.contains_key("tools"@)
            &&& body["tools"@] is Array
            &&& list.len() == 1
            &&& list[0] is Object
            &&& list[0]->Object_0.dom() =~= set!["functionDeclarations"@]
            &&& list[0]->Object_0["functionDeclarations"@] is Array
            &&& declarations.len() == tools.len()
            &&& declarations[i] is Object
            &&& sent.dom() =~= set!["name"@, "description"@, "parameters"@]
            &&& sent["name"@] == JsonView::Text(tools[i].name)
            &&& sent["description"@] == JsonView::Text(tools[i].description)
            &&& sent["parameters"@] == tools[i].input_schema
        }),
{
    lemma_request_keys();
    lemma_inner_keys();
}

proof fn lemma_first_call_in_message(content: Seq<BlockView>, j: int, id: Seq<char>)
    requires
        0 <= j < content.len(),
        calls(content[j], id),
        forall|k: int| 0 <= k < j ==> !calls(#[trigger] content[k], id),
    ensures
        call_name(content, id) == Some(content[j]->ToolUse_name),
    decreases j,
{
    if j > 0 {
        assert(!calls(content[0], id));
        let rest = content.skip(1);
        assert forall|k: int| 0 <= k < j - 1 implies !calls(#[trigger] rest[k], id) by {
            assert(rest[k] == content[k + 1]);
        }
        assert(rest[j - 1] == content[j]);
        lemma_first_call_in_message(rest, j - 1, id);
    }
}

/// Of several calls with one id, the first in the conversation names the result.
pub proof fn law_first_call_names_the_result(
    messages: Seq<MessageView>,
    i: int,
    j: int,
    id: Seq<char>,
)
    requires
        0 <= i < messages.len(),
        0 <= j < messages[i].content.len(),
        calls(messages[i].content[j], id),
        forall|k: int, l: int|
            0 <= k < messages.len() && 0 <= l < messages[k].content.len() && (k < i || (k == i && l
                < j)) ==> !calls(#[trigger] messages[k].content[l], id),
    ensures
        tool_name(messages, id) == Some(messages[i].content[j]->ToolUse_name),
        result_name(messages, id) == messages[i].content[j]->ToolUse_name,
    decreases i,
{
    if i == 0 {
        lemma_first_call_in_message(messages[0].content, j, id);
    } else {
        lemma_call_name(messages[0].content, id);
        assert forall|l: int| 0 <= l < messages[0].content.len() implies !calls(
            #[trigger] messages[0].content[l],
            id,
        ) by {}
        let rest = messages.skip(1);
        assert forall|k: int, l: int|
            0 <= k < rest.len() && 0 <= l < rest[k].content.len() && (k < i - 1 || (k == i - 1 && l
                < j)) implies !calls(#[trigger] rest[k].content[l], id) by {
            assert(rest[k] == messages[k + 1]);
            assert(!calls(messages[k + 1].content[l], id));
        }
        assert(rest[i - 1] == messages[i]);
        law_first_call_names_the_result(rest, i - 1, j, id);
    }
}

/// A part of a reply is read by what it holds, whatever other keys it has: a text, unless it is
/// empty; or else a function call, with its name, its arguments, its signature and an id from its
/// name and place. A missing name is empty, and missing arguments are an object without entries.
pub proof fn law_part_is_read_by_what_it_holds(part: Map<Seq<char>, JsonView>, place: nat)
    ensures
        ({
            let event = part_event(place as int, JsonView::Object(part));
            let has_text = part.contains_key("text"@) && part["text"@] is Text;
            let signed = part.contains_key("thoughtSignature"@) && part["thoughtSignature"@]
                is Text;
            &&& has_text && part["text"@]->Text_0.len() > 0 ==> event == Some(
                EventView::Text(part["text"@]->Text_0),
            )
            &&& has_text && part["text"@]->Text_0.len() == 0 ==> event is None
            &&& !has_text && !part.contains_key("functionCall"@) ==> event is None
            &&& !has_text && part.contains_key("functionCall"@) ==> {
                &&& event matches Some(EventView::ToolUse { id, name, input, thought_signature })
                &&& id == "call_"@ + name + "_"@ + decimal(place)
                &&& name == function_name(part["functionCall"@])
                &&& input == function_input(part["functionCall"@])
                &&& signed ==> thought_signature == Some(part["thoughtSignature"@]->Text_0)
                &&& !signed ==> thought_signature is None
            }
        }),
{
    reveal_strlit("");
    assert(""@ =~= Seq::<char>::empty());
}

/// The name in a function call, empty where there is none.
pub open spec fn function_name(call: JsonView) -> Seq<char> {
    if call matches JsonView::Object(fields) && fields.contains_key("name"@) && fields["name"@]
        is Text {
        call->Object_0["name"@]->Text_0
    } else {
        Seq::empty()
    }
}

/// The arguments of a function call, without entries where there are none.
pub open spec fn function_input(call: JsonView) -> JsonView {
    if call matches JsonView::Object(fields) && fields.contains_key("args"@) {
        call->Object_0["args"@]
    } else {
        JsonView::Object(Map::empty())
    }
}

/// A part that is no object is no event.
pub proof fn law_other_parts_are_no_events(part: JsonView, place: int)
    requires
        part !is Object,
    ensures
        part_event(place, part) is None,
{
}

/// The events of a reply without an error are those of every part of its first candidate, each by
/// its place, in their order, whatever other keys the reply, the candidate and its content have.
/// A stop is behind them exactly where no part is a function call.
pub proof fn law_every_part_is_read(
    reply: Map<Seq<char>, JsonView>,
    candidates: Seq<JsonView>,
    candidate: Map<Seq<char>, JsonView>,
    content: Map<Seq<char>, JsonView>,
    parts: Seq<JsonView>,
)
    requires
        !reply.contains_key("error"@),
        reply.contains_key("candidates"@),
        reply["candidates"@] == JsonView::Array(candidates),
        candidates.len() > 0,
        candidates[0] == JsonView::Object(candidate),
        candidate.contains_key("content"@),
        candidate["content"@] == JsonView::Object(content),
        content.contains_key("parts"@),
        content["parts"@] == JsonView::Array(parts),
    ensures
        ({
            let list = gather(parts, |i: int, part: JsonView| piece(part_event(i, part)));
            let waits = exists|i: int|
                0 <= i < parts.len() && part_event(i, #[trigger] parts[i]) is Some && part_event(
                    i,
                    parts[i],
                )->0 is ToolUse;
            &&& waits ==> reply_events(JsonView::Object(reply)) == Ok::<_, ErrorView>(list)
            &&& !waits ==> reply_events(JsonView::Object(reply)) == Ok::<_, ErrorView>(
                list.push(EventView::Stop),
            )
        }),
{
    let list = gather(parts, |i: int, part: JsonView| piece(part_event(i, part)));
    assert(list + Seq::<EventView>::empty() =~= list);
    assert(list + seq![EventView::Stop] =~= list.push(EventView::Stop));
    assert forall|i: int| 0 <= i < parts.len() implies (is_call(#[trigger] parts[i]) <==> (
    part_event(i, parts[i]) is Some && part_event(i, parts[i])->0 is ToolUse)) by {}
}

/// A first candidate without an array of parts in its content gives a stop alone.
pub proof fn law_candidate_without_parts_stops(
    reply: Map<Seq<char>, JsonView>,
    candidates: Seq<JsonView>,
)
    requires
        !reply.contains_key("error"@),
        reply.contains_key("candidates"@),
        reply["candidates"@] == JsonView::Array(candidates),
        candidates.len() > 0,
        !({
            let candidate = candidates[0]->Object_0;
            let content = candidate["content"@]->Object_0;
            &&& candidates[0] is Object
            &&& candidate.contains_key("content"@)
            &&& candidate["content"@] is Object
            &&& content.contains_key("parts"@)
            &&& content["parts"@] is Array
        }),
    ensures
        reply_events(JsonView::Object(reply)) == Ok::<_, ErrorView>(seq![EventView::Stop]),
{
    assert(part_events(Seq::empty()) =~= Seq::<EventView>::empty());
    assert(candidate_parts(candidates[0]) =~= Seq::<JsonView>::empty());
    assert(Seq::<EventView>::empty() + seq![EventView::Stop] =~= seq![EventView::Stop]);
}

/// A reply with an error is that error, with its message where it has one, whatever else it
/// holds; without one, a reply needs a candidate.
pub proof fn law_errors_of_a_reply(reply: JsonView)
    ensures
        reply matches JsonView::Object(fields) ==> (fields.contains_key("error"@) ==> {
            let told = fields["error"@] is Object && fields["error"@]->Object_0.contains_key(
                "message"@,
            ) && fields["error"@]->Object_0["message"@] is Text;
            &&& told ==> reply_events(reply) == Err::<Seq<EventView>, _>(
                ErrorView::GeminiError(fields["error"@]->Object_0["message"@]->Text_0),
            )
            &&& !told ==> reply_events(reply) == Err::<Seq<EventView>, _>(
                ErrorView::GeminiError("unknown error"@),
            )
        }),
        (reply matches JsonView::Object(fields) ==> !fields.contains_key("error"@)) ==> {
            &&& reply_events(reply) is Ok <==> (reply matches JsonView::Object(fields)
                && fields.contains_key("candidates"@) && fields["candidates"@] is Array
                && fields["candidates"@]->Array_0.len() > 0)
            &&& reply_events(reply) matches Err(error) ==> error is MissingCandidates
        },
{
}

/// A provider has the key that is set, and the model, limit and base URL that are set or else the
/// defaults; without a key there is none.
pub proof fn law_settings_make_the_provider(
    key: Seq<char>,
    model: Option<Seq<char>>,
    max_tokens: Option<Seq<char>>,
    base_url: Option<Seq<char>>,
)
    ensures
        key.len() > 0 ==> (configured(Some(key), None, model, max_tokens, base_url) matches Ok(
            provider,
        ) && provider.0 == key && provider.1 == (match model {
            Some(model) => model,
            None => "gemini-2.5-flash"@,
        }) && provider.2 == token_limit(max_tokens) && provider.3 == (match base_url {
            Some(base_url) => base_url,
            None => "https://generativelanguage.googleapis.com/v1beta"@,
        })),
        key.len() == 0 ==> configured(Some(key), None, model, max_tokens, base_url) == Err::<
            (Seq<char>, Seq<char>, u32, Seq<char>),
            _,
        >("GEMINI_API_KEY is empty"@),
        configured(None, None, model, max_tokens, base_url) == Err::<
            (Seq<char>, Seq<char>, u32, Seq<char>),
            _,
        >("GEMINI_API_KEY not set"@),
{
    reveal_strlit("GEMINI_API_KEY");
    reveal_strlit(" is empty");
    reveal_strlit(" not set");
    reveal_strlit("GEMINI_API_KEY is empty");
    reveal_strlit("GEMINI_API_KEY not set");
    assert("GEMINI_API_KEY"@ + " is empty"@ =~= "GEMINI_API_KEY is empty"@);
    assert("GEMINI_API_KEY"@ + " not set"@ =~= "GEMINI_API_KEY not set"@);
}

} // verus!
