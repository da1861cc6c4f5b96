//! A chat turn over Pi's RPC mode: the session state that each line of
//! Pi's event stream advances, and the chat events that each line gives.

use vstd::prelude::*;
use vstd::string::StringExecFns;
use crate::chat::{
    BlockView, ChatEvent, ContentBlock, EventView, ToolCall, ToolCallView,
    block_views, call_views, event_views, has_call, new_call, tool_id_of, tool_output_of,
    tool_use_event, flush_text_block, flush_thinking_block, stringify_tool_result, upsert_tool_call,
};
use crate::json::{Json, JsonView};
use crate::text::str_eq;

verus! {

/// Token usage of a turn, where the agent reports it.
pub struct UsageData {
    pub input_tokens: u64,
    pub output_tokens: u64,
}

/// What a chat turn with Pi produced.
pub struct PiResponse {
    pub content: String,
    pub session_id: String,
    pub tool_calls: Vec<ToolCall>,
    pub content_blocks: Vec<ContentBlock>,
    pub cancelled: bool,
    pub error_emitted: bool,
    pub usage: Option<UsageData>,
}

/// The state of a chat turn while Pi streams it.
pub struct RpcSession {
    pub full_content: String,
    pub current_text_block: String,
    pub current_thinking_block: String,
    pub content_blocks: Vec<ContentBlock>,
    pub tool_calls: Vec<ToolCall>,
    pub pi_session_id: String,
    pub cancelled: bool,
    pub error_emitted: bool,
    pub prompt_accepted: bool,
}

/// The view of an `RpcSession`.
pub struct SessionView {
    pub full_content: Seq<char>,
    pub text_block: Seq<char>,
    pub thinking_block: Seq<char>,
    pub blocks: Seq<BlockView>,
    pub tool_calls: Seq<ToolCallView>,
    pub pi_session_id: Seq<char>,
    pub cancelled: bool,
    pub error_emitted: bool,
    pub prompt_accepted: bool,
}

impl View for RpcSession {
    type V = SessionView;

    open spec fn view(&self) -> SessionView {
        SessionView {
            full_content: self.full_content@,
            text_block: self.current_text_block@,
            thinking_block: self.current_thinking_block@,
            blocks: block_views(self.content_blocks@),
            tool_calls: call_views(self.tool_calls@),
            pi_session_id: self.pi_session_id@,
            cancelled: self.cancelled,
            error_emitted: self.error_emitted,
            prompt_accepted: self.prompt_accepted,
        }
    }
}

/// The text of the text blocks, in order.
pub open spec fn block_text(blocks: Seq<BlockView>) -> Seq<char>
    decreases blocks.len(),
{
    if blocks.len() == 0 {
        Seq::empty()
    } else {
        match blocks.last() {
            BlockView::Text(t) => block_text(blocks.drop_last()) + t,
            _ => block_text(blocks.drop_last()),
        }
    }
}

/// The ids of the tool-use blocks, in order.
pub open spec fn tool_use_ids(blocks: Seq<BlockView>) -> Seq<Seq<char>>
    decreases blocks.len(),
{
    if blocks.len() == 0 {
        Seq::empty()
    } else {
        match blocks.last() {
            BlockView::ToolUse(id) => tool_use_ids(blocks.drop_last()).push(id),
            _ => tool_use_ids(blocks.drop_last()),
        }
    }
}

/// The ids of the tool calls, in order.
pub open spec fn call_ids(calls: Seq<ToolCallView>) -> Seq<Seq<char>> {
    calls.map_values(|c: ToolCallView| c.id)
}

/// No two tool calls share an id.
pub open spec fn ids_distinct(calls: Seq<ToolCallView>) -> bool {
    forall|i: int, j: int| 0 <= i < j < calls.len() ==> calls[i].id != calls[j].id
}

/// No text or thinking block is empty.
pub open spec fn no_empty_blocks(blocks: Seq<BlockView>) -> bool {
    forall|i: int|
        0 <= i < blocks.len() ==> match #[trigger] blocks[i] {
            BlockView::Text(t) => t.len() > 0,
            BlockView::Thinking(t) => t.len() > 0,
            BlockView::ToolUse(_) => true,
        }
}

/// No tool call has a parent call.
pub open spec fn no_parents(calls: Seq<ToolCallView>) -> bool {
    forall|i: int| 0 <= i < calls.len() ==> (#[trigger] calls[i]).parent_tool_use_id is None
}

impl SessionView {
    /// What every state of a turn keeps: tool calls have distinct ids, no
    /// parent, and each one tool-use block, in the same order; the text
    /// blocks followed by the open text block make up the streamed content;
    /// and no text or thinking block is empty.
    pub open spec fn wf(self) -> bool {
        &&& ids_distinct(self.tool_calls)
        &&& no_parents(self.tool_calls)
        &&& tool_use_ids(self.blocks) == call_ids(self.tool_calls)
        &&& block_text(self.blocks) + self.text_block == self.full_content
        &&& no_empty_blocks(self.blocks)
    }
}

/// The text, or `d` where there is none.
pub open spec fn text_or(o: Option<Seq<char>>, d: Seq<char>) -> Seq<char> {
    match o {
        Some(t) => t,
        None => d,
    }
}

/// The `type` of a message, or the empty text.
pub open spec fn kind_of(v: JsonView) -> Seq<char> {
    text_or(v.text_field("type"@), Seq::empty())
}

/// The value, or null where there is none.
pub open spec fn or_null(o: Option<JsonView>) -> JsonView {
    match o {
        Some(x) => x,
        None => JsonView::Null,
    }
}

/// The result of one line of the event stream: the next state, the events
/// for the chat view, and whether the turn is over.
pub struct Transition {
    pub state: SessionView,
    pub events: Seq<EventView>,
    pub stop: bool,
}

/// A transition to `state` with no events.
pub open spec fn quiet(state: SessionView) -> Transition {
    Transition { state, events: Seq::empty(), stop: false }
}

/// The state with the open text block, where not empty, closed into a block.
pub open spec fn flushed_text(s: SessionView) -> SessionView {
    if s.text_block.len() > 0 {
        SessionView { blocks: s.blocks.push(BlockView::Text(s.text_block)), text_block: Seq::empty(), ..s }
    } else {
        s
    }
}

/// The state with the open thinking block, where not empty, closed into a
/// block.
pub open spec fn flushed_thinking(s: SessionView) -> SessionView {
    if s.thinking_block.len() > 0 {
        SessionView {
            blocks: s.blocks.push(BlockView::Thinking(s.thinking_block)),
            thinking_block: Seq::empty(),
            ..s
        }
    } else {
        s
    }
}

/// Recording the tool call that `v` describes, unless its id is known.
pub open spec fn upserted(s: SessionView, v: JsonView) -> Transition {
    if has_call(s.tool_calls, tool_id_of(v)) {
        quiet(s)
    } else {
        Transition {
            state: SessionView {
                tool_calls: s.tool_calls.push(new_call(v)),
                blocks: s.blocks.push(BlockView::ToolUse(tool_id_of(v))),
                ..s
            },
            events: seq![tool_use_event(v)],
            stop: false,
        }
    }
}

/// A `response` line. The answer to the prompt command decides whether the
/// prompt was accepted; a rejection reports its error and ends the turn.
/// Otherwise a `data.sessionId` string becomes the Pi session id.
pub open spec fn on_response(s: SessionView, v: JsonView) -> Transition {
    let for_prompt = v.text_field("id"@) == Some("prompt"@);
    let accepted = v.bool_field("success"@) == Some(true);
    if for_prompt && !accepted {
        Transition {
            state: SessionView { prompt_accepted: false, error_emitted: true, ..s },
            events: seq![EventView::Error(text_or(v.text_field("error"@), "pi rejected prompt"@))],
            stop: true,
        }
    } else {
        let s1 = if for_prompt {
            SessionView { prompt_accepted: true, ..s }
        } else {
            s
        };
        let sid = match v.field("data"@) {
            Some(d) => d.text_field("sessionId"@),
            None => None,
        };
        quiet(
            match sid {
                Some(id) => SessionView { pi_session_id: id, ..s1 },
                None => s1,
            },
        )
    }
}

/// A `message_update` line, by the `type` of its `assistantMessageEvent`:
/// text and thinking deltas extend the open blocks and are passed on, their
/// ends close the blocks, a finished tool call is recorded, and an error
/// either marks the turn cancelled ("aborted") or is reported.
pub open spec fn on_message_update(s: SessionView, v: JsonView) -> Transition {
    let ev = or_null(v.field("assistantMessageEvent"@));
    let kind = kind_of(ev);
    let delta = ev.text_field("delta"@);
    if kind == "text_delta"@ {
        match delta {
            Some(d) => Transition {
                state: SessionView {
                    full_content: s.full_content + d,
                    text_block: s.text_block + d,
                    ..s
                },
                events: seq![EventView::Chunk(d)],
                stop: false,
            },
            None => quiet(s),
        }
    } else if kind == "text_end"@ {
        quiet(flushed_text(s))
    } else if kind == "thinking_delta"@ {
        match delta {
            Some(d) => Transition {
                state: SessionView { thinking_block: s.thinking_block + d, ..s },
                events: seq![EventView::Thinking(d)],
                stop: false,
            },
            None => quiet(s),
        }
    } else if kind == "thinking_end"@ {
        quiet(flushed_thinking(s))
    } else if kind == "toolcall_end"@ {
        match ev.field("toolCall"@) {
            Some(t) => upserted(s, t),
            None => quiet(s),
        }
    } else if kind == "error"@ {
        let reason = text_or(ev.text_field("reason"@), "error"@);
        if reason == "aborted"@ {
            quiet(SessionView { cancelled: true, ..s })
        } else {
            Transition {
                state: SessionView { error_emitted: true, ..s },
                events: seq![EventView::Error(reason)],
                stop: false,
            }
        }
    } else {
        quiet(s)
    }
}

/// The calls with the output of the call `id` set.
pub open spec fn with_output(calls: Seq<ToolCallView>, id: Seq<char>, out: Seq<char>) -> Seq<
    ToolCallView,
> {
    calls.map_values(
        |c: ToolCallView|
            if c.id == id {
                ToolCallView { output: Some(out), ..c }
            } else {
                c
            },
    )
}

/// A `tool_execution_end` line: the tool's output is recorded on its call
/// and passed on.
pub open spec fn on_tool_end(s: SessionView, v: JsonView) -> Transition {
    let id = text_or(v.text_field("toolCallId"@), "tool"@);
    let out = tool_output_of(or_null(v.field("result"@)));
    Transition {
        state: SessionView { tool_calls: with_output(s.tool_calls, id, out), ..s },
        events: seq![EventView::ToolResult { tool_use_id: id, output: out }],
        stop: false,
    }
}

/// What one line of the event stream does to the turn, by its `type`.
pub open spec fn transition(s: SessionView, v: JsonView) -> Transition {
    let kind = kind_of(v);
    if kind == "response"@ {
        on_response(s, v)
    } else if kind == "message_update"@ {
        on_message_update(s, v)
    } else if kind == "tool_execution_start"@ {
        upserted(s, v)
    } else if kind == "tool_execution_end"@ {
        on_tool_end(s, v)
    } else if kind == "agent_end"@ {
        Transition { state: s, events: Seq::empty(), stop: true }
    } else {
        quiet(s)
    }
}

/// What handling one line gave: events for the chat view, and whether the
/// turn is over.
pub struct RpcStep {
    pub events: Vec<ChatEvent>,
    pub stop: bool,
}

/// Closing a non-empty text block into the blocks adds its text to theirs.
proof fn lemma_push_text(b: Seq<BlockView>, t: Seq<char>)
    ensures
        block_text(b.push(BlockView::Text(t))) == block_text(b) + t,
        tool_use_ids(b.push(BlockView::Text(t))) == tool_use_ids(b),
{
    assert(b.push(BlockView::Text(t)).drop_last() =~= b);
}

/// A thinking block adds neither text nor tool uses.
proof fn lemma_push_thinking(b: Seq<BlockView>, t: Seq<char>)
    ensures
        block_text(b.push(BlockView::Thinking(t))) == block_text(b),
        tool_use_ids(b.push(BlockView::Thinking(t))) == tool_use_ids(b),
{
    assert(b.push(BlockView::Thinking(t)).drop_last() =~= b);
}

/// A tool-use block adds its id to the tool uses.
proof fn lemma_push_tool_use(b: Seq<BlockView>, id: Seq<char>)
    ensures
        block_text(b.push(BlockView::ToolUse(id))) == block_text(b),
        tool_use_ids(b.push(BlockView::ToolUse(id))) == tool_use_ids(b).push(id),
{
    assert(b.push(BlockView::ToolUse(id)).drop_last() =~= b);
}

/// Closing the open text block keeps the state well formed.
proof fn lemma_flushed_text_wf(s: SessionView)
    requires
        s.wf(),
    ensures
        flushed_text(s).wf(),
{
    if s.text_block.len() > 0 {
        lemma_push_text(s.blocks, s.text_block);
        let t = flushed_text(s);
        assert(t.text_block =~= Seq::<char>::empty());
        assert(block_text(t.blocks) + t.text_block =~= s.full_content);
        assert forall|i: int| 0 <= i < t.blocks.len() implies match #[trigger] t.blocks[i] {
            BlockView::Text(x) => x.len() > 0,
            BlockView::Thinking(x) => x.len() > 0,
            BlockView::ToolUse(_) => true,
        } by {
            if i < s.blocks.len() {
                assert(t.blocks[i] == s.blocks[i]);
            }
        }
    }
}

/// Closing the open thinking block keeps the state well formed.
proof fn lemma_flushed_thinking_wf(s: SessionView)
    requires
        s.wf(),
    ensures
        flushed_thinking(s).wf(),
{
    if s.thinking_block.len() > 0 {
        lemma_push_thinking(s.blocks, s.thinking_block);
        let t = flushed_thinking(s);
        assert forall|i: int| 0 <= i < t.blocks.len() implies match #[trigger] t.blocks[i] {
            BlockView::Text(x) => x.len() > 0,
            BlockView::Thinking(x) => x.len() > 0,
            BlockView::ToolUse(_) => true,
        } by {
            if i < s.blocks.len() {
                assert(t.blocks[i] == s.blocks[i]);
            }
        }
    }
}

/// Recording a tool call keeps the state well formed.
proof fn lemma_upserted_wf(s: SessionView, v: JsonView)
    requires
        s.wf(),
    ensures
        upserted(s, v).state.wf(),
{
    let id = tool_id_of(v);
    if !has_call(s.tool_calls, id) {
        let t = upserted(s, v).state;
        lemma_push_tool_use(s.blocks, id);
        assert(call_ids(t.tool_calls) =~= call_ids(s.tool_calls).push(id));
        assert forall|i: int, j: int| 0 <= i < j < t.tool_calls.len() implies t.tool_calls[i].id
            != t.tool_calls[j].id by {
            if j == s.tool_calls.len() {
                assert(t.tool_calls[i] == s.tool_calls[i]);
            } else {
                assert(t.tool_calls[i] == s.tool_calls[i]);
                assert(t.tool_calls[j] == s.tool_calls[j]);
            }
        }
        assert forall|i: int| 0 <= i < t.blocks.len() implies match #[trigger] t.blocks[i] {
            BlockView::Text(x) => x.len() > 0,
            BlockView::Thinking(x) => x.len() > 0,
            BlockView::ToolUse(_) => true,
        } by {
            if i < s.blocks.len() {
                assert(t.blocks[i] == s.blocks[i]);
            }
        }
        assert forall|i: int| 0 <= i < t.tool_calls.len() implies (
        #[trigger] t.tool_calls[i]).parent_tool_use_id is None by {
            if i < s.tool_calls.len() {
                assert(t.tool_calls[i] == s.tool_calls[i]);
            }
        }
    }
}

/// Setting a call's output keeps the ids of the calls.
proof fn lemma_with_output_ids(calls: Seq<ToolCallView>, id: Seq<char>, out: Seq<char>)
    ensures
        call_ids(with_output(calls, id, out)) == call_ids(calls),
        ids_distinct(calls) ==> ids_distinct(with_output(calls, id, out)),
        no_parents(calls) ==> no_parents(with_output(calls, id, out)),
{
    assert(call_ids(with_output(calls, id, out)) =~= call_ids(calls));
    let w = with_output(calls, id, out);
    if ids_distinct(calls) {
        assert forall|i: int, j: int| 0 <= i < j < w.len() implies w[i].id != w[j].id by {
            assert(w[i].id == calls[i].id);
            assert(w[j].id == calls[j].id);
        }
    }
    if no_parents(calls) {
        assert forall|i: int| 0 <= i < w.len() implies (#[trigger] w[i]).parent_tool_use_id is None by {
            assert(calls[i].parent_tool_use_id is None);
        }
    }
}

impl RpcSession {
    /// A turn that starts in the Pi session `existing_pi_session_id`, or in
    /// none.
    pub fn new(existing_pi_session_id: Option<&str>) -> (r: RpcSession)
        ensures
            r@.wf(),
            r@.full_content.len() == 0,
            r@.text_block.len() == 0,
            r@.thinking_block.len() == 0,
            r@.blocks.len() == 0,
            r@.tool_calls.len() == 0,
            r@.pi_session_id == match existing_pi_session_id {
                Some(s) => s@,
                None => Seq::empty(),
            },
            !r@.cancelled,
            !r@.error_emitted,
            !r@.prompt_accepted,
    {
        let sid = match existing_pi_session_id {
            Some(s) => s.to_owned(),
            None => String::new(),
        };
        let r = RpcSession {
            full_content: String::new(),
            current_text_block: String::new(),
            current_thinking_block: String::new(),
            content_blocks: Vec::new(),
            tool_calls: Vec::new(),
            pi_session_id: sid,
            cancelled: false,
            error_emitted: false,
            prompt_accepted: false,
        };
        assert(block_views(r.content_blocks@) =~= Seq::<BlockView>::empty());
        assert(call_views(r.tool_calls@) =~= Seq::<ToolCallView>::empty());
        assert(call_ids(r@.tool_calls) =~= Seq::<Seq<char>>::empty());
        assert(Seq::<char>::empty() + Seq::<char>::empty() =~= Seq::<char>::empty());
        r
    }

    fn handle_response(&mut self, value: &Json) -> (r: RpcStep)
        requires
            old(self)@.wf(),
        ensures
            final(self)@.wf(),
            on_response(old(self)@, value@) == (Transition {
                state: final(self)@,
                events: event_views(r.events@),
                stop: r.stop,
            }),
    {
        let for_prompt = match value.get_str("id") {
            Some(t) => str_eq(t, "prompt"),
            None => false,
        };
        let accepted = match value.get_bool("success") {
            Some(b) => b,
            None => false,
        };
        let mut events: Vec<ChatEvent> = Vec::new();
        if for_prompt {
            self.prompt_accepted = accepted;
            if !accepted {
                let error = match value.get_str("error") {
                    Some(e) => e.to_owned(),
                    None => "pi rejected prompt".to_owned(),
                };
                events.push(ChatEvent::Error { error });
                self.error_emitted = true;
                assert(event_views(events@) =~= on_response(old(self)@, value@).events);
                return RpcStep { events, stop: true };
            }
        }
        if let Some(d) = value.get("data") {
            if let Some(sid) = d.get_str("sessionId") {
                self.pi_session_id = sid.to_owned();
            }
        }
        assert(event_views(events@) =~= Seq::<EventView>::empty());
        RpcStep { events, stop: false }
    }

    fn handle_message_update(&mut self, value: &Json) -> (r: RpcStep)
        requires
            old(self)@.wf(),
        ensures
            final(self)@.wf(),
            on_message_update(old(self)@, value@) == (Transition {
                state: final(self)@,
                events: event_views(r.events@),
                stop: r.stop,
            }),
    {
        let null = Json::Null;
        let ev: &Json = match value.get("assistantMessageEvent") {
            Some(e) => e,
            None => &null,
        };
        let kind: &str = match ev.get_str("type") {
            Some(k) => k,
            None => "",
        };
        proof {
            reveal_strlit("");
            assert(kind@ == kind_of(ev@));
        }
        let ghost s0 = self@;
        let mut events: Vec<ChatEvent> = Vec::new();
        if str_eq(kind, "text_delta") {
            if let Some(d) = ev.get_str("delta") {
                self.full_content.append(d);
                self.current_text_block.append(d);
                events.push(ChatEvent::Chunk { content: d.to_owned() });
                assert(block_text(s0.blocks) + self@.text_block =~= self@.full_content);
            }
        } else if str_eq(kind, "text_end") {
            flush_text_block(&mut self.content_blocks, &mut self.current_text_block);
            proof {
                lemma_flushed_text_wf(s0);
            }
        } else if str_eq(kind, "thinking_delta") {
            if let Some(d) = ev.get_str("delta") {
                self.current_thinking_block.append(d);
                events.push(ChatEvent::Thinking { content: d.to_owned() });
            }
        } else if str_eq(kind, "thinking_end") {
            flush_thinking_block(&mut self.content_blocks, &mut self.current_thinking_block);
            proof {
                lemma_flushed_thinking_wf(s0);
            }
        } else if str_eq(kind, "toolcall_end") {
            if let Some(t) = ev.get("toolCall") {
                let e = upsert_tool_call(&mut self.tool_calls, &mut self.content_blocks, t);
                proof {
                    lemma_upserted_wf(s0, t@);
                }
                if let Some(e) = e {
                    events.push(e);
                }
            }
        } else if str_eq(kind, "error") {
            let reason: &str = match ev.get_str("reason") {
                Some(t) => t,
                None => "error",
            };
            if str_eq(reason, "aborted") {
                self.cancelled = true;
            } else {
                events.push(ChatEvent::Error { error: reason.to_owned() });
                self.error_emitted = true;
            }
        }
        assert(event_views(events@) =~= on_message_update(s0, value@).events);
        proof {
            let t = on_message_update(s0, value@).state;
            assert(ev@ == or_null(value@.field("assistantMessageEvent"@)));
            assert(self@.full_content == t.full_content);
            assert(self@.text_block == t.text_block);
            assert(self@.thinking_block == t.thinking_block);
            assert(self@.blocks == t.blocks);
            assert(self@.tool_calls == t.tool_calls);
            assert(self@ == t);
        }
        RpcStep { events, stop: false }
    }

    fn handle_tool_end(&mut self, value: &Json) -> (r: RpcStep)
        requires
            old(self)@.wf(),
        ensures
            final(self)@.wf(),
            on_tool_end(old(self)@, value@) == (Transition {
                state: final(self)@,
                events: event_views(r.events@),
                stop: r.stop,
            }),
    {
        let id: String = match value.get_str("toolCallId") {
            Some(t) => t.to_owned(),
            None => "tool".to_owned(),
        };
        let null = Json::Null;
        let result: &Json = match value.get("result") {
            Some(x) => x,
            None => &null,
        };
        let output = stringify_tool_result(result);
        let ghost s0 = self@;
        let ghost out = output@;
        let n = self.tool_calls.len();
        let mut i: usize = 0;
        while i < n
            invariant
                self@ == s0,
                s0.wf(),
                n == self.tool_calls@.len(),
                i <= n,
                forall|k: int| 0 <= k < i ==> self.tool_calls@[k].id@ != id@,
            ensures
                self@ == s0,
                i <= n,
                forall|k: int| 0 <= k < i ==> self.tool_calls@[k].id@ != id@,
                i < n ==> self.tool_calls@[i as int].id@ == id@,
            decreases n - i,
        {
            if self.tool_calls[i].id == id {
                break;
            }
            i = i + 1;
        }
        proof {
            lemma_with_output_ids(s0.tool_calls, id@, out);
        }
        if i < n {
            self.tool_calls[i].output = Some(output.clone());
            proof {
                let w = with_output(s0.tool_calls, id@, out);
                assert forall|k: int| 0 <= k < n implies #[trigger] call_views(self.tool_calls@)[k] == w[k] by {
                    if k != i {
                        assert(s0.tool_calls[k].id != s0.tool_calls[i as int].id);
                    }
                }
                assert(call_views(self.tool_calls@) =~= w);
            }
        } else {
            proof {
                let w = with_output(s0.tool_calls, id@, out);
                assert forall|k: int| 0 <= k < n implies #[trigger] call_views(self.tool_calls@)[k] == w[k] by {
                    assert(self.tool_calls@[k].id@ != id@);
                }
                assert(call_views(self.tool_calls@) =~= w);
            }
        }
        let mut events: Vec<ChatEvent> = Vec::new();
        events.push(ChatEvent::ToolResult { tool_use_id: id, output });
        assert(event_views(events@) =~= on_tool_end(s0, value@).events);
        RpcStep { events, stop: false }
    }

    /// Advances the turn by one line of Pi's event stream, giving the events
    /// for the chat view and whether the turn is over.
    pub fn handle_event(&mut self, value: &Json) -> (r: RpcStep)
        requires
            old(self)@.wf(),
        ensures
            final(self)@.wf(),
            transition(old(self)@, value@) == (Transition {
                state: final(self)@,
                events: event_views(r.events@),
                stop: r.stop,
            }),
    {
        let kind: &str = match value.get_str("type") {
            Some(k) => k,
            None => "",
        };
        proof {
            reveal_strlit("");
            assert(kind@ == kind_of(value@));
        }
        if str_eq(kind, "response") {
            self.handle_response(value)
        } else if str_eq(kind, "message_update") {
            self.handle_message_update(value)
        } else if str_eq(kind, "tool_execution_start") {
            let ghost s0 = self@;
            let e = upsert_tool_call(&mut self.tool_calls, &mut self.content_blocks, value);
            proof {
                lemma_upserted_wf(s0, value@);
            }
            let mut events: Vec<ChatEvent> = Vec::new();
            if let Some(e) = e {
                events.push(e);
            }
            assert(event_views(events@) =~= upserted(s0, value@).events);
            RpcStep { events, stop: false }
        } else if str_eq(kind, "tool_execution_end") {
            self.handle_tool_end(value)
        } else {
            let events: Vec<ChatEvent> = Vec::new();
            assert(event_views(events@) =~= Seq::<EventView>::empty());
            RpcStep { events, stop: str_eq(kind, "agent_end") }
        }
    }
}

/// How a turn ends for the chat view: cancelled, done, or neither (an
/// error was reported, or the prompt was never accepted).
#[derive(PartialEq, Eq, Structural)]
pub enum SessionEnd {
    Cancelled,
    Done,
    Silent,
}

/// The state once the open text and thinking blocks are closed.
pub open spec fn closed(s: SessionView) -> SessionView {
    flushed_thinking(flushed_text(s))
}

/// A turn that was cancelled without an error ends cancelled; else one whose
/// prompt was accepted without an error ends done; any other ends silently.
pub open spec fn end_of(s: SessionView) -> SessionEnd {
    if s.cancelled && !s.error_emitted {
        SessionEnd::Cancelled
    } else if !s.error_emitted && s.prompt_accepted {
        SessionEnd::Done
    } else {
        SessionEnd::Silent
    }
}

/// The view of a `PiResponse`.
pub struct ResponseView {
    pub content: Seq<char>,
    pub session_id: Seq<char>,
    pub tool_calls: Seq<ToolCallView>,
    pub blocks: Seq<BlockView>,
    pub cancelled: bool,
    pub error_emitted: bool,
    pub usage: Option<UsageData>,
}

impl View for PiResponse {
    type V = ResponseView;

    open spec fn view(&self) -> ResponseView {
        ResponseView {
            content: self.content@,
            session_id: self.session_id@,
            tool_calls: call_views(self.tool_calls@),
            blocks: block_views(self.content_blocks@),
            cancelled: self.cancelled,
            error_emitted: self.error_emitted,
            usage: self.usage,
        }
    }
}

impl RpcSession {
    /// Ends the turn: closes the open blocks, and gives how the turn ends
    /// and what it produced. The text blocks make up the content, the
    /// thinking blocks all the thinking, and each tool call, under its own
    /// id and without a parent, has one tool-use block, in order.
    pub fn finish(self) -> (r: (SessionEnd, PiResponse))
        requires
            self@.wf(),
        ensures
            r.0 == end_of(self@),
            r.1@ == (ResponseView {
                content: closed(self@).full_content,
                session_id: self@.pi_session_id,
                tool_calls: self@.tool_calls,
                blocks: closed(self@).blocks,
                cancelled: self@.cancelled,
                error_emitted: self@.error_emitted,
                usage: None,
            }),
            block_text(r.1@.blocks) == r.1@.content,
            tool_use_ids(r.1@.blocks) == call_ids(r.1@.tool_calls),
            ids_distinct(r.1@.tool_calls),
            no_empty_blocks(r.1@.blocks),
            no_parents(r.1@.tool_calls),
            block_thinking(r.1@.blocks) == block_thinking(self@.blocks) + self@.thinking_block,
    {
        let ghost s0 = self@;
        proof {
            lemma_closed(s0);
        }
        let mut s = self;
        flush_text_block(&mut s.content_blocks, &mut s.current_text_block);
        proof {
            lemma_flushed_text_wf(s0);
        }
        let ghost s1 = s@;
        flush_thinking_block(&mut s.content_blocks, &mut s.current_thinking_block);
        proof {
            lemma_flushed_thinking_wf(s1);
            assert(s@.text_block.len() == 0);
            assert(block_text(s@.blocks) + s@.text_block == s@.full_content);
            assert(block_text(s@.blocks) =~= s@.full_content);
        }
        let end = if s.cancelled && !s.error_emitted {
            SessionEnd::Cancelled
        } else if !s.error_emitted && s.prompt_accepted {
            SessionEnd::Done
        } else {
            SessionEnd::Silent
        };
        let response = PiResponse {
            content: s.full_content,
            session_id: s.pi_session_id,
            tool_calls: s.tool_calls,
            content_blocks: s.content_blocks,
            cancelled: s.cancelled,
            error_emitted: s.error_emitted,
            usage: None,
        };
        (end, response)
    }
}

/// The text of the chunk events, in order.
pub open spec fn chunk_text(events: Seq<EventView>) -> Seq<char>
    decreases events.len(),
{
    if events.len() == 0 {
        Seq::empty()
    } else {
        match events.last() {
            EventView::Chunk(t) => chunk_text(events.drop_last()) + t,
            _ => chunk_text(events.drop_last()),
        }
    }
}

/// The streamed content grows by exactly the text that a line passes on as
/// chunks: what the chat view shows is what the response keeps.
pub proof fn lemma_content_is_chunks(s: SessionView, v: JsonView)
    ensures
        transition(s, v).state.full_content == s.full_content + chunk_text(transition(s, v).events),
{
    let t = transition(s, v);
    let ev = or_null(v.field("assistantMessageEvent"@));
    assert(chunk_text(Seq::<EventView>::empty()) == Seq::<char>::empty());
    assert(s.full_content + Seq::<char>::empty() =~= s.full_content);
    if t.events.len() == 1 {
        assert(t.events.drop_last() =~= Seq::<EventView>::empty());
        if let EventView::Chunk(d) = t.events[0] {
            assert(chunk_text(t.events) =~= d);
        } else {
            assert(chunk_text(t.events) =~= Seq::<char>::empty());
        }
    }
    reveal_strlit("response");
    reveal_strlit("message_update");
    assert("response"@.len() != "message_update"@.len());
    if kind_of(v) == "message_update"@ && kind_of(ev) == "text_delta"@ {
        if let Some(d) = ev.text_field("delta"@) {
            assert(t.events == seq![EventView::Chunk(d)]);
            assert(t.state.full_content == s.full_content + d);
        }
    }
}

/// A tool call that has started is recorded once: the same start line again
/// changes nothing and announces nothing.
pub proof fn lemma_tool_start_once(s: SessionView, v: JsonView)
    requires
        kind_of(v) == "tool_execution_start"@,
    ensures
        transition(transition(s, v).state, v) == quiet(transition(s, v).state),
{
    reveal_strlit("tool_execution_start");
    reveal_strlit("response");
    reveal_strlit("message_update");
    assert("tool_execution_start"@.len() != "response"@.len());
    assert("tool_execution_start"@.len() != "message_update"@.len());
    let t = transition(s, v).state;
    let id = tool_id_of(v);
    if !has_call(s.tool_calls, id) {
        assert(t.tool_calls[s.tool_calls.len() as int].id == id);
    }
    assert(has_call(t.tool_calls, id));
}

/// The names of the stream's message types and assistant-event types are
/// pairwise different.
proof fn lemma_kinds_distinct()
    ensures
        "response"@ != "message_update"@,
        "response"@ != "tool_execution_start"@,
        "response"@ != "tool_execution_end"@,
        "message_update"@ != "tool_execution_start"@,
        "message_update"@ != "tool_execution_end"@,
        "tool_execution_start"@ != "tool_execution_end"@,
        "text_delta"@ != "text_end"@,
        "text_delta"@ != "thinking_delta"@,
        "text_delta"@ != "thinking_end"@,
        "text_delta"@ != "toolcall_end"@,
        "text_end"@ != "thinking_delta"@,
        "text_end"@ != "thinking_end"@,
        "text_end"@ != "toolcall_end"@,
        "thinking_delta"@ != "thinking_end"@,
        "thinking_delta"@ != "toolcall_end"@,
        "thinking_end"@ != "toolcall_end"@,
{
    reveal_strlit("response");
    reveal_strlit("message_update");
    reveal_strlit("tool_execution_start");
    reveal_strlit("tool_execution_end");
    reveal_strlit("text_delta");
    reveal_strlit("text_end");
    reveal_strlit("thinking_delta");
    reveal_strlit("thinking_end");
    reveal_strlit("toolcall_end");
    assert("response"@.len() != "message_update"@.len());
    assert("response"@.len() != "tool_execution_start"@.len());
    assert("response"@.len() != "tool_execution_end"@.len());
    assert("message_update"@.len() != "tool_execution_start"@.len());
    assert("message_update"@.len() != "tool_execution_end"@.len());
    assert("tool_execution_start"@.len() != "tool_execution_end"@.len());
    assert("text_delta"@.len() != "text_end"@.len());
    assert("text_delta"@.len() != "thinking_delta"@.len());
    assert("text_delta"@.len() != "thinking_end"@.len());
    assert("text_delta"@.len() != "toolcall_end"@.len());
    assert("text_end"@.len() != "thinking_delta"@.len());
    assert("text_end"@.len() != "thinking_end"@.len());
    assert("text_end"@.len() != "toolcall_end"@.len());
    assert("thinking_delta"@.len() != "thinking_end"@.len());
    assert("thinking_delta"@.len() != "toolcall_end"@.len());
    assert("thinking_end"@[1] != "toolcall_end"@[1]);
}

/// Every line keeps the turn well formed.
pub proof fn lemma_transition_wf(s: SessionView, v: JsonView)
    requires
        s.wf(),
    ensures
        transition(s, v).state.wf(),
{
    lemma_kinds_distinct();
    let kind = kind_of(v);
    let ev = or_null(v.field("assistantMessageEvent"@));
    let ek = kind_of(ev);
    if kind == "message_update"@ {
        if ek == "text_delta"@ {
            if let Some(d) = ev.text_field("delta"@) {
                assert(block_text(s.blocks) + (s.text_block + d) =~= s.full_content + d);
            }
        } else if ek == "text_end"@ {
            lemma_flushed_text_wf(s);
        } else if ek == "thinking_end"@ {
            lemma_flushed_thinking_wf(s);
        } else if ek == "toolcall_end"@ {
            if let Some(t) = ev.field("toolCall"@) {
                lemma_upserted_wf(s, t);
            }
        }
    } else if kind == "tool_execution_start"@ {
        lemma_upserted_wf(s, v);
    } else if kind == "tool_execution_end"@ {
        let id = text_or(v.text_field("toolCallId"@), "tool"@);
        let out = tool_output_of(or_null(v.field("result"@)));
        lemma_with_output_ids(s.tool_calls, id, out);
    }
}

/// The text of the thinking blocks, in order.
pub open spec fn block_thinking(blocks: Seq<BlockView>) -> Seq<char>
    decreases blocks.len(),
{
    if blocks.len() == 0 {
        Seq::empty()
    } else {
        match blocks.last() {
            BlockView::Thinking(t) => block_thinking(blocks.drop_last()) + t,
            _ => block_thinking(blocks.drop_last()),
        }
    }
}

/// The text of the thinking events, in order.
pub open spec fn thinking_text(events: Seq<EventView>) -> Seq<char>
    decreases events.len(),
{
    if events.len() == 0 {
        Seq::empty()
    } else {
        match events.last() {
            EventView::Thinking(t) => thinking_text(events.drop_last()) + t,
            _ => thinking_text(events.drop_last()),
        }
    }
}

/// The ids of the tool-use events, in order.
pub open spec fn event_use_ids(events: Seq<EventView>) -> Seq<Seq<char>>
    decreases events.len(),
{
    if events.len() == 0 {
        Seq::empty()
    } else {
        match events.last() {
            EventView::ToolUse { id, .. } => event_use_ids(events.drop_last()).push(id),
            _ => event_use_ids(events.drop_last()),
        }
    }
}

/// The thinking of the blocks after one more block.
proof fn lemma_block_thinking_push(b: Seq<BlockView>, x: BlockView)
    ensures
        block_thinking(b.push(x)) == match x {
            BlockView::Thinking(t) => block_thinking(b) + t,
            _ => block_thinking(b),
        },
{
    assert(b.push(x).drop_last() =~= b);
}

/// The texts and tool uses of the events of one step, where a step gives at
/// most one event.
proof fn lemma_one_event(events: Seq<EventView>)
    requires
        events.len() <= 1,
    ensures
        chunk_text(events) == (if events.len() == 1 && events[0] is Chunk {
            events[0]->Chunk_0
        } else {
            Seq::<char>::empty()
        }),
        thinking_text(events) == (if events.len() == 1 && events[0] is Thinking {
            events[0]->Thinking_0
        } else {
            Seq::<char>::empty()
        }),
        event_use_ids(events) == (if events.len() == 1 && events[0] is ToolUse {
            seq![events[0]->ToolUse_id]
        } else {
            Seq::<Seq<char>>::empty()
        }),
{
    assert(chunk_text(Seq::<EventView>::empty()) =~= Seq::<char>::empty());
    assert(thinking_text(Seq::<EventView>::empty()) =~= Seq::<char>::empty());
    assert(event_use_ids(Seq::<EventView>::empty()) =~= Seq::<Seq<char>>::empty());
    if events.len() == 1 {
        assert(events.drop_last() =~= Seq::<EventView>::empty());
        assert(events.last() == events[0]);
        assert(Seq::<char>::empty() + events[0]->Chunk_0 =~= events[0]->Chunk_0);
        assert(Seq::<char>::empty() + events[0]->Thinking_0 =~= events[0]->Thinking_0);
        assert(Seq::<Seq<char>>::empty().push(events[0]->ToolUse_id) =~= seq![events[0]->ToolUse_id]);
    }
}

/// The open thinking and the thinking blocks grow by exactly the thinking
/// that a line passes on as thinking events.
pub proof fn lemma_thinking_is_events(s: SessionView, v: JsonView)
    ensures
        block_thinking(transition(s, v).state.blocks) + transition(s, v).state.thinking_block
            == block_thinking(s.blocks) + s.thinking_block + thinking_text(transition(s, v).events),
        transition(s, v).events.len() <= 1,
{
    lemma_kinds_distinct();
    let t = transition(s, v);
    let kind = kind_of(v);
    let ev = or_null(v.field("assistantMessageEvent"@));
    let ek = kind_of(ev);
    lemma_one_event(t.events);
    let before = block_thinking(s.blocks) + s.thinking_block;
    assert(before + Seq::<char>::empty() =~= before);
    if kind == "message_update"@ {
        if ek == "text_end"@ {
            if s.text_block.len() > 0 {
                lemma_block_thinking_push(s.blocks, BlockView::Text(s.text_block));
            }
        } else if ek == "thinking_delta"@ {
            if let Some(d) = ev.text_field("delta"@) {
                assert(block_thinking(s.blocks) + (s.thinking_block + d) =~= before + d);
            }
        } else if ek == "thinking_end"@ {
            if s.thinking_block.len() > 0 {
                lemma_block_thinking_push(s.blocks, BlockView::Thinking(s.thinking_block));
                assert(block_thinking(s.blocks) + s.thinking_block + Seq::<char>::empty() =~= before);
            }
        } else if ek == "toolcall_end"@ {
            if let Some(tc) = ev.field("toolCall"@) {
                lemma_block_thinking_push(s.blocks, BlockView::ToolUse(tool_id_of(tc)));
            }
        }
    } else if kind == "tool_execution_start"@ {
        lemma_block_thinking_push(s.blocks, BlockView::ToolUse(tool_id_of(v)));
    }
}

/// The calls of a turn grow by exactly the calls that a line announces in
/// tool-use events, in order; no other line adds or drops a call.
pub proof fn lemma_uses_are_new_calls(s: SessionView, v: JsonView)
    ensures
        call_ids(transition(s, v).state.tool_calls) == call_ids(s.tool_calls) + event_use_ids(
            transition(s, v).events,
        ),
        transition(s, v).events.len() <= 1,
{
    lemma_kinds_distinct();
    let t = transition(s, v);
    let kind = kind_of(v);
    let ev = or_null(v.field("assistantMessageEvent"@));
    let ek = kind_of(ev);
    lemma_one_event(t.events);
    assert(call_ids(s.tool_calls) + Seq::<Seq<char>>::empty() =~= call_ids(s.tool_calls));
    if kind == "message_update"@ && ek == "toolcall_end"@ {
        if let Some(tc) = ev.field("toolCall"@) {
            assert(call_ids(s.tool_calls.push(new_call(tc))) =~= call_ids(s.tool_calls) + seq![
                tool_id_of(tc),
            ]);
        }
    } else if kind == "tool_execution_start"@ {
        assert(call_ids(s.tool_calls.push(new_call(v))) =~= call_ids(s.tool_calls) + seq![
            tool_id_of(v),
        ]);
    } else if kind == "tool_execution_end"@ {
        let id = text_or(v.text_field("toolCallId"@), "tool"@);
        let out = tool_output_of(or_null(v.field("result"@)));
        lemma_with_output_ids(s.tool_calls, id, out);
    }
}

/// A run of lines through a turn: each line in order, up to the one that
/// ends the turn; the state it leaves, all the events it gave, and whether
/// a line ended the turn.
pub open spec fn run(s: SessionView, lines: Seq<JsonView>) -> Transition
    decreases lines.len(),
{
    if lines.len() == 0 {
        quiet(s)
    } else {
        let t = transition(s, lines[0]);
        if t.stop {
            t
        } else {
            let r = run(t.state, lines.drop_first());
            Transition { state: r.state, events: t.events + r.events, stop: r.stop }
        }
    }
}

/// The texts and tool uses of two runs of events, one after the other.
proof fn lemma_event_texts_concat(a: Seq<EventView>, b: Seq<EventView>)
    ensures
        chunk_text(a + b) == chunk_text(a) + chunk_text(b),
        thinking_text(a + b) == thinking_text(a) + thinking_text(b),
        event_use_ids(a + b) == event_use_ids(a) + event_use_ids(b),
    decreases b.len(),
{
    if b.len() == 0 {
        assert(a + b =~= a);
        assert(chunk_text(a) + chunk_text(b) =~= chunk_text(a));
        assert(thinking_text(a) + thinking_text(b) =~= thinking_text(a));
        assert(event_use_ids(a) + event_use_ids(b) =~= event_use_ids(a));
    } else {
        lemma_event_texts_concat(a, b.drop_last());
        assert((a + b).drop_last() =~= a + b.drop_last());
        assert((a + b).last() == b.last());
        assert(chunk_text(a) + chunk_text(b.drop_last()) + (match b.last() {
            EventView::Chunk(t) => t,
            _ => Seq::empty(),
        }) =~= chunk_text(a) + (chunk_text(b.drop_last()) + (match b.last() {
            EventView::Chunk(t) => t,
            _ => Seq::empty(),
        })));
        assert(thinking_text(a) + thinking_text(b.drop_last()) + (match b.last() {
            EventView::Thinking(t) => t,
            _ => Seq::empty(),
        }) =~= thinking_text(a) + (thinking_text(b.drop_last()) + (match b.last() {
            EventView::Thinking(t) => t,
            _ => Seq::empty(),
        })));
        match b.last() {
            EventView::Chunk(t) => {
                assert(chunk_text(b) == chunk_text(b.drop_last()) + t);
            },
            EventView::Thinking(t) => {
                assert(thinking_text(b) == thinking_text(b.drop_last()) + t);
            },
            EventView::ToolUse { id, .. } => {
                assert(event_use_ids(a) + event_use_ids(b.drop_last()).push(id) =~= (event_use_ids(
                    a,
                ) + event_use_ids(b.drop_last())).push(id));
            },
            _ => {
                assert(chunk_text(a) + chunk_text(b.drop_last()) + Seq::<char>::empty() =~= chunk_text(a) + chunk_text(b.drop_last()));
                assert(thinking_text(a) + thinking_text(b.drop_last()) + Seq::<char>::empty() =~= thinking_text(a) + thinking_text(b.drop_last()));
            },
        }
    }
}

/// Over a run, the turn stays well formed, and the content, the thinking
/// and the tool calls grow by exactly what the run's events pass on.
pub proof fn lemma_run(s: SessionView, lines: Seq<JsonView>)
    requires
        s.wf(),
    ensures
        run(s, lines).state.wf(),
        run(s, lines).state.full_content == s.full_content + chunk_text(run(s, lines).events),
        block_thinking(run(s, lines).state.blocks) + run(s, lines).state.thinking_block
            == block_thinking(s.blocks) + s.thinking_block + thinking_text(run(s, lines).events),
        call_ids(run(s, lines).state.tool_calls) == call_ids(s.tool_calls) + event_use_ids(
            run(s, lines).events,
        ),
    decreases lines.len(),
{
    if lines.len() == 0 {
        lemma_one_event(Seq::<EventView>::empty());
        assert(s.full_content + Seq::<char>::empty() =~= s.full_content);
        assert(block_thinking(s.blocks) + s.thinking_block + Seq::<char>::empty() =~= block_thinking(s.blocks) + s.thinking_block);
        assert(call_ids(s.tool_calls) + Seq::<Seq<char>>::empty() =~= call_ids(s.tool_calls));
    } else {
        let t = transition(s, lines[0]);
        lemma_transition_wf(s, lines[0]);
        lemma_content_is_chunks(s, lines[0]);
        lemma_thinking_is_events(s, lines[0]);
        lemma_uses_are_new_calls(s, lines[0]);
        if !t.stop {
            let rest = lines.drop_first();
            lemma_run(t.state, rest);
            let r = run(t.state, rest);
            lemma_event_texts_concat(t.events, r.events);
            assert(s.full_content + chunk_text(t.events) + chunk_text(r.events) =~= s.full_content
                + (chunk_text(t.events) + chunk_text(r.events)));
            assert(block_thinking(s.blocks) + s.thinking_block + thinking_text(t.events)
                + thinking_text(r.events) =~= block_thinking(s.blocks) + s.thinking_block + (
            thinking_text(t.events) + thinking_text(r.events)));
            assert(call_ids(s.tool_calls) + event_use_ids(t.events) + event_use_ids(r.events)
                =~= call_ids(s.tool_calls) + (event_use_ids(t.events) + event_use_ids(r.events)));
        }
    }
}

/// Closing the open blocks keeps the turn well formed, makes the text
/// blocks the whole content, moves the open thinking into the blocks, and
/// keeps the calls.
pub proof fn lemma_closed(s: SessionView)
    requires
        s.wf(),
    ensures
        closed(s).wf(),
        block_text(closed(s).blocks) == s.full_content,
        closed(s).full_content == s.full_content,
        block_thinking(closed(s).blocks) == block_thinking(s.blocks) + s.thinking_block,
        closed(s).tool_calls == s.tool_calls,
{
    lemma_flushed_text_wf(s);
    let s1 = flushed_text(s);
    lemma_flushed_thinking_wf(s1);
    if s.text_block.len() > 0 {
        lemma_block_thinking_push(s.blocks, BlockView::Text(s.text_block));
    } else {
        assert(block_text(s.blocks) + s.text_block =~= block_text(s.blocks));
    }
    assert(s1.text_block.len() == 0);
    assert(block_text(s1.blocks) + s1.text_block =~= block_text(s1.blocks));
    if s1.thinking_block.len() > 0 {
        lemma_block_thinking_push(s1.blocks, BlockView::Thinking(s1.thinking_block));
        lemma_push_thinking(s1.blocks, s1.thinking_block);
    } else {
        assert(block_thinking(s1.blocks) + s1.thinking_block =~= block_thinking(s1.blocks));
    }
}

/// What a whole turn produces, from a fresh start, whatever lines Pi
/// sends: the text blocks make up exactly the streamed text chunks, the
/// thinking blocks exactly the streamed thinking, and the tool calls are
/// exactly those announced by tool-use events, one event each and in
/// order, each without a parent and with its tool-use block; no text or
/// thinking block is empty.
pub proof fn lemma_turn_streams(s: SessionView, lines: Seq<JsonView>)
    requires
        s.wf(),
        s.full_content.len() == 0,
        s.text_block.len() == 0,
        s.thinking_block.len() == 0,
        s.blocks.len() == 0,
        s.tool_calls.len() == 0,
    ensures
        ({
            let r = run(s, lines);
            let c = closed(r.state);
            &&& block_text(c.blocks) == chunk_text(r.events)
            &&& c.full_content == chunk_text(r.events)
            &&& block_thinking(c.blocks) == thinking_text(r.events)
            &&& call_ids(c.tool_calls) == event_use_ids(r.events)
            &&& tool_use_ids(c.blocks) == call_ids(c.tool_calls)
            &&& ids_distinct(c.tool_calls)
            &&& no_parents(c.tool_calls)
            &&& no_empty_blocks(c.blocks)
        }),
{
    lemma_run(s, lines);
    let r = run(s, lines);
    lemma_closed(r.state);
    assert(s.full_content =~= Seq::<char>::empty());
    assert(s.full_content + chunk_text(r.events) =~= chunk_text(r.events));
    assert(block_thinking(s.blocks) =~= Seq::<char>::empty());
    assert(s.thinking_block =~= Seq::<char>::empty());
    assert(block_thinking(s.blocks) + s.thinking_block + thinking_text(r.events) =~= thinking_text(r.events));
    assert(call_ids(s.tool_calls) =~= Seq::<Seq<char>>::empty());
    assert(call_ids(s.tool_calls) + event_use_ids(r.events) =~= event_use_ids(r.events));
}

/// A line of any other type than `response`, `message_update`,
/// `tool_execution_start`, `tool_execution_end` and `agent_end` leaves the
/// turn as it was, gives no event and does not end the turn.
pub proof fn lemma_other_lines_change_nothing(s: SessionView, v: JsonView)
    requires
        kind_of(v) != "response"@,
        kind_of(v) != "message_update"@,
        kind_of(v) != "tool_execution_start"@,
        kind_of(v) != "tool_execution_end"@,
        kind_of(v) != "agent_end"@,
    ensures
        transition(s, v).state == s,
        transition(s, v).events.len() == 0,
        !transition(s, v).stop,
{
}

/// Only two lines end a turn: the end of the agent's run, and a reply to the
/// prompt command that does not report success.
pub proof fn lemma_turn_ends_only_at_end_or_rejection(s: SessionView, v: JsonView)
    ensures
        transition(s, v).stop <==> (kind_of(v) == "agent_end"@ || (kind_of(v) == "response"@
            && v.text_field("id"@) == Some("prompt"@) && v.bool_field("success"@) != Some(true))),
{
    reveal_strlit("response");
    reveal_strlit("message_update");
    reveal_strlit("tool_execution_start");
    reveal_strlit("tool_execution_end");
    reveal_strlit("agent_end");
    assert("agent_end"@.len() != "response"@.len());
    assert("agent_end"@.len() != "message_update"@.len());
    assert("agent_end"@.len() != "tool_execution_start"@.len());
    assert("agent_end"@.len() != "tool_execution_end"@.len());
    lemma_kinds_distinct();
}

/// A turn ends done exactly when its prompt was accepted, nothing cancelled
/// it and it reported no error; it ends cancelled exactly when it was
/// cancelled without reporting an error; otherwise it ends silently.
pub proof fn lemma_how_turns_end(s: SessionView)
    ensures
        end_of(s) == SessionEnd::Done <==> (s.prompt_accepted && !s.error_emitted && !s.cancelled),
        end_of(s) == SessionEnd::Cancelled <==> (s.cancelled && !s.error_emitted),
        end_of(s) == SessionEnd::Silent <==> (s.error_emitted || (!s.cancelled
            && !s.prompt_accepted)),
{
}

} // verus!
