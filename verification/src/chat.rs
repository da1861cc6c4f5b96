//! What a chat turn with Pi produces: content blocks, tool calls and the
//! events that the chat view receives, and how tool results read as text.

use vstd::prelude::*;
use vstd::string::StringExecFns;
use crate::json::{Json, JsonView, lemma_view_items, pretty_json, pretty_json_text, view_items};
use crate::model::{field_or, get_either, str_of, text_of};

verus! {

/// A piece of an assistant message, in the order it was streamed.
pub enum ContentBlock {
    Text { text: String },
    Thinking { thinking: String },
    ToolUse { tool_call_id: String },
}

/// The view of a `ContentBlock`.
pub enum BlockView {
    Text(Seq<char>),
    Thinking(Seq<char>),
    ToolUse(Seq<char>),
}

impl View for ContentBlock {
    type V = BlockView;

    open spec fn view(&self) -> BlockView {
        match self {
            ContentBlock::Text { text } => BlockView::Text(text@),
            ContentBlock::Thinking { thinking } => BlockView::Thinking(thinking@),
            ContentBlock::ToolUse { tool_call_id } => BlockView::ToolUse(tool_call_id@),
        }
    }
}

/// The views of a list of blocks.
pub open spec fn block_views(blocks: Seq<ContentBlock>) -> Seq<BlockView> {
    blocks.map_values(|b: ContentBlock| b@)
}

/// A tool call of the assistant, with its output once the tool has run.
pub struct ToolCall {
    pub id: String,
    pub name: String,
    pub input: Json,
    pub output: Option<String>,
    pub parent_tool_use_id: Option<String>,
}

/// The view of a `ToolCall`.
pub struct ToolCallView {
    pub id: Seq<char>,
    pub name: Seq<char>,
    pub input: JsonView,
    pub output: Option<Seq<char>>,
    pub parent_tool_use_id: Option<Seq<char>>,
}

impl View for ToolCall {
    type V = ToolCallView;

    open spec fn view(&self) -> ToolCallView {
        ToolCallView {
            id: self.id@,
            name: self.name@,
            input: self.input@,
            output: match self.output {
                Some(o) => Some(o@),
                None => None,
            },
            parent_tool_use_id: match self.parent_tool_use_id {
                Some(p) => Some(p@),
                None => None,
            },
        }
    }
}

/// The views of a list of tool calls.
pub open spec fn call_views(calls: Seq<ToolCall>) -> Seq<ToolCallView> {
    calls.map_values(|c: ToolCall| c@)
}

/// An event for the chat view.
pub enum ChatEvent {
    Chunk { content: String },
    Thinking { content: String },
    ToolUse { id: String, name: String, input: Json },
    ToolResult { tool_use_id: String, output: String },
    Error { error: String },
}

/// The view of a `ChatEvent`.
pub enum EventView {
    Chunk(Seq<char>),
    Thinking(Seq<char>),
    ToolUse { id: Seq<char>, name: Seq<char>, input: JsonView },
    ToolResult { tool_use_id: Seq<char>, output: Seq<char> },
    Error(Seq<char>),
}

impl View for ChatEvent {
    type V = EventView;

    open spec fn view(&self) -> EventView {
        match self {
            ChatEvent::Chunk { content } => EventView::Chunk(content@),
            ChatEvent::Thinking { content } => EventView::Thinking(content@),
            ChatEvent::ToolUse { id, name, input } => EventView::ToolUse {
                id: id@,
                name: name@,
                input: input@,
            },
            ChatEvent::ToolResult { tool_use_id, output } => EventView::ToolResult {
                tool_use_id: tool_use_id@,
                output: output@,
            },
            ChatEvent::Error { error } => EventView::Error(error@),
        }
    }
}

/// The views of a list of events.
pub open spec fn event_views(events: Seq<ChatEvent>) -> Seq<EventView> {
    events.map_values(|e: ChatEvent| e@)
}

/// Moves the text streamed so far, where there is any, into a text block.
pub fn flush_text_block(blocks: &mut Vec<ContentBlock>, current: &mut String)
    ensures
        final(current)@ == Seq::<char>::empty(),
        block_views(final(blocks)@) == if old(current)@.len() > 0 {
            block_views(old(blocks)@).push(BlockView::Text(old(current)@))
        } else {
            block_views(old(blocks)@)
        },
{
    if !current.as_str().is_empty() {
        let mut text = String::new();
        std::mem::swap(&mut text, current);
        blocks.push(ContentBlock::Text { text });
        assert(block_views(blocks@) =~= block_views(old(blocks)@).push(
            BlockView::Text(old(current)@),
        ));
    } else {
        assert(current@ =~= Seq::<char>::empty());
    }
}

/// Moves the thinking streamed so far, where there is any, into a thinking
/// block.
pub fn flush_thinking_block(blocks: &mut Vec<ContentBlock>, current: &mut String)
    ensures
        final(current)@ == Seq::<char>::empty(),
        block_views(final(blocks)@) == if old(current)@.len() > 0 {
            block_views(old(blocks)@).push(BlockView::Thinking(old(current)@))
        } else {
            block_views(old(blocks)@)
        },
{
    if !current.as_str().is_empty() {
        let mut thinking = String::new();
        std::mem::swap(&mut thinking, current);
        blocks.push(ContentBlock::Thinking { thinking });
        assert(block_views(blocks@) =~= block_views(old(blocks)@).push(
            BlockView::Thinking(old(current)@),
        ));
    } else {
        assert(current@ =~= Seq::<char>::empty());
    }
}

/// The `text` strings of a list of content items, in order.
pub open spec fn item_texts(items: Seq<JsonView>) -> Seq<Seq<char>>
    decreases items.len(),
{
    if items.len() == 0 {
        Seq::empty()
    } else {
        let rest = item_texts(items.drop_last());
        match items.last().text_field("text"@) {
            Some(t) => rest.push(t),
            None => rest,
        }
    }
}

/// The parts, in order, with a line feed between each two.
pub open spec fn join_lines(parts: Seq<Seq<char>>) -> Seq<char>
    decreases parts.len(),
{
    if parts.len() == 0 {
        Seq::empty()
    } else if parts.len() == 1 {
        parts[0]
    } else {
        join_lines(parts.drop_last()) + seq!['\n'] + parts.last()
    }
}

/// The texts of a tool result's `content` items, one per line.
pub open spec fn content_text(result: JsonView) -> Seq<char> {
    match result.field("content"@) {
        Some(c) => match c.as_items() {
            Some(items) => join_lines(item_texts(items)),
            None => Seq::empty(),
        },
        None => Seq::empty(),
    }
}

/// How a tool result reads: the texts of its `content` items where they
/// make some text, else its `text` string, else the result itself where it
/// is a string, else the result printed as pretty JSON.
pub open spec fn tool_output_of(result: JsonView) -> Seq<char> {
    let joined = content_text(result);
    if joined.len() > 0 {
        joined
    } else {
        match result.text_field("text"@) {
            Some(t) => t,
            None => match result.as_text() {
                Some(t) => t,
                None => pretty_json_text(result),
            },
        }
    }
}

/// The text of a tool result.
pub fn stringify_tool_result(value: &Json) -> (r: String)
    ensures
        r@ == tool_output_of(value@),
{
    let mut joined = String::new();
    if let Some(c) = value.get("content") {
        if let Some(items) = c.as_array() {
            let ghost vs = view_items(items@);
            proof {
                lemma_view_items(items@);
                assert(vs.take(0) =~= Seq::<JsonView>::empty());
                reveal_strlit("\n");
            }
            let mut any = false;
            let n = items.len();
            for i in 0..n
                invariant
                    n == items@.len(),
                    vs == view_items(items@),
                    vs.len() == n,
                    forall|k: int| 0 <= k < n ==> #[trigger] vs[k] == items@[k]@,
                    joined@ == join_lines(item_texts(vs.take(i as int))),
                    any == (item_texts(vs.take(i as int)).len() > 0),
                    "\n"@ == seq!['\n'],
            {
                let ghost parts = item_texts(vs.take(i as int));
                proof {
                    assert(vs.take(i + 1).drop_last() =~= vs.take(i as int));
                    assert(vs.take(i + 1).last() == items@[i as int]@);
                }
                if let Some(t) = items[i].get_str("text") {
                    if any {
                        joined.append("\n");
                    }
                    joined.append(t);
                    any = true;
                    proof {
                        assert(parts.push(t@).drop_last() =~= parts);
                        assert(joined@ =~= join_lines(parts.push(t@)));
                    }
                }
            }
            assert(vs.take(n as int) =~= vs);
            if !joined.as_str().is_empty() {
                return joined;
            }
        }
    }
    if let Some(t) = value.get_str("text") {
        return t.to_owned();
    }
    if let Some(t) = value.as_str() {
        return t.to_owned();
    }
    pretty_json(value)
}

/// The id of the tool call that an event describes: its `toolCallId`, or
/// where that is absent its `id`, where it is a string; else "tool".
pub open spec fn tool_id_of(v: JsonView) -> Seq<char> {
    match text_of(field_or(v, "toolCallId"@, "id"@)) {
        Some(t) => t,
        None => "tool"@,
    }
}

/// The tool's name: its `toolName`, or where that is absent its `name`,
/// where it is a string; else "tool".
pub open spec fn tool_name_of(v: JsonView) -> Seq<char> {
    match text_of(field_or(v, "toolName"@, "name"@)) {
        Some(t) => t,
        None => "tool"@,
    }
}

/// The tool's input: its `args`, or where that is absent its `input`; else
/// null.
pub open spec fn tool_input_of(v: JsonView) -> JsonView {
    match field_or(v, "args"@, "input"@) {
        Some(x) => x,
        None => JsonView::Null,
    }
}

/// Some call in `calls` has the id `id`.
pub open spec fn has_call(calls: Seq<ToolCallView>, id: Seq<char>) -> bool {
    exists|i: int| 0 <= i < calls.len() && #[trigger] calls[i].id == id
}

/// The tool call that an event describes, before it has run.
pub open spec fn new_call(v: JsonView) -> ToolCallView {
    ToolCallView {
        id: tool_id_of(v),
        name: tool_name_of(v),
        input: tool_input_of(v),
        output: None,
        parent_tool_use_id: None,
    }
}

/// The event that announces a new tool call.
pub open spec fn tool_use_event(v: JsonView) -> EventView {
    EventView::ToolUse { id: tool_id_of(v), name: tool_name_of(v), input: tool_input_of(v) }
}

/// Records the tool call that `value` describes, unless a call with its id is
/// already recorded: it is appended to the calls, a tool-use block is
/// appended to the blocks, and the event announcing it is returned.
pub fn upsert_tool_call(
    tool_calls: &mut Vec<ToolCall>,
    content_blocks: &mut Vec<ContentBlock>,
    value: &Json,
) -> (r: Option<ChatEvent>)
    ensures
        has_call(call_views(old(tool_calls)@), tool_id_of(value@)) ==> {
            &&& call_views(final(tool_calls)@) == call_views(old(tool_calls)@)
            &&& block_views(final(content_blocks)@) == block_views(old(content_blocks)@)
            &&& r is None
        },
        !has_call(call_views(old(tool_calls)@), tool_id_of(value@)) ==> {
            &&& call_views(final(tool_calls)@) == call_views(old(tool_calls)@).push(
                new_call(value@),
            )
            &&& block_views(final(content_blocks)@) == block_views(old(content_blocks)@).push(
                BlockView::ToolUse(tool_id_of(value@)),
            )
            &&& r matches Some(e) && e@ == tool_use_event(value@)
        },
{
    let id: String = match str_of(get_either(value, "toolCallId", "id")) {
        Some(t) => t.to_owned(),
        None => "tool".to_owned(),
    };
    let n = tool_calls.len();
    let mut i: usize = 0;
    while i < n
        invariant
            n == tool_calls@.len(),
            i <= n,
            forall|k: int| 0 <= k < i ==> tool_calls@[k].id@ != id@,
            id@ == tool_id_of(value@),
            tool_calls@ == old(tool_calls)@,
        decreases n - i,
    {
        if tool_calls[i].id == id {
            assert(call_views(tool_calls@)[i as int].id == id@);
            return None;
        }
        i = i + 1;
    }
    proof {
        assert forall|k: int| 0 <= k < n implies #[trigger] call_views(tool_calls@)[k].id != id@ by {
            assert(call_views(tool_calls@)[k] == tool_calls@[k]@);
        }
    }
    let name: String = match str_of(get_either(value, "toolName", "name")) {
        Some(t) => t.to_owned(),
        None => "tool".to_owned(),
    };
    let input: Json = match get_either(value, "args", "input") {
        Some(x) => x.duplicate(),
        None => Json::Null,
    };
    let event_input = input.duplicate();
    let event_id = id.clone();
    let event_name = name.clone();
    content_blocks.push(ContentBlock::ToolUse { tool_call_id: id.clone() });
    tool_calls.push(ToolCall { id, name, input, output: None, parent_tool_use_id: None });
    assert(call_views(tool_calls@) =~= call_views(old(tool_calls)@).push(new_call(value@)));
    assert(block_views(content_blocks@) =~= block_views(old(content_blocks)@).push(
        BlockView::ToolUse(tool_id_of(value@)),
    ));
    Some(ChatEvent::ToolUse { id: event_id, name: event_name, input: event_input })
}

} // verus!
