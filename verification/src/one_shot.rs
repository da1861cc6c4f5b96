//! A one-shot prompt over Pi's RPC mode: only the streamed text is kept, and
//! the answer counts only where Pi accepted the prompt.

use vstd::prelude::*;
use vstd::string::StringExecFns;
use crate::json::{Json, JsonView};
use crate::rpc::{kind_of, or_null, text_or};
use crate::text::str_eq;

verus! {

/// The state of a one-shot prompt while Pi streams its answer.
pub struct OneShotSession {
    pub full_content: String,
    pub prompt_accepted: bool,
}

/// The view of a `OneShotSession`.
pub struct OneShotView {
    pub content: Seq<char>,
    pub accepted: bool,
}

impl View for OneShotSession {
    type V = OneShotView;

    open spec fn view(&self) -> OneShotView {
        OneShotView { content: self.full_content@, accepted: self.prompt_accepted }
    }
}

/// What a line of the stream means for a one-shot prompt: read on, the
/// answer is complete, or the prompt failed with an error.
pub enum OneShotStep {
    Continue,
    Stop,
    Fail(String),
}

/// The view of a `OneShotStep`.
pub enum OneShotStepView {
    Continue,
    Stop,
    Fail(Seq<char>),
}

impl View for OneShotStep {
    type V = OneShotStepView;

    open spec fn view(&self) -> OneShotStepView {
        match self {
            OneShotStep::Continue => OneShotStepView::Continue,
            OneShotStep::Stop => OneShotStepView::Stop,
            OneShotStep::Fail(e) => OneShotStepView::Fail(e@),
        }
    }
}

/// What one line does to a one-shot prompt: the answer to the prompt
/// command decides acceptance and a rejection fails with its error; text
/// deltas extend the answer; an assistant error fails with its reason; the
/// end of the agent's turn completes the answer.
pub open spec fn one_shot_transition(s: OneShotView, v: JsonView) -> (OneShotView, OneShotStepView) {
    let kind = kind_of(v);
    if kind == "response"@ {
        if v.text_field("id"@) == Some("prompt"@) {
            if v.bool_field("success"@) == Some(true) {
                (OneShotView { accepted: true, ..s }, OneShotStepView::Continue)
            } else {
                (
                    OneShotView { accepted: false, ..s },
                    OneShotStepView::Fail(text_or(v.text_field("error"@), "pi rejected prompt"@)),
                )
            }
        } else {
            (s, OneShotStepView::Continue)
        }
    } else if kind == "message_update"@ {
        let ev = or_null(v.field("assistantMessageEvent"@));
        let ev_kind = kind_of(ev);
        if ev_kind == "text_delta"@ {
            match ev.text_field("delta"@) {
                Some(d) => (OneShotView { content: s.content + d, ..s }, OneShotStepView::Continue),
                None => (s, OneShotStepView::Continue),
            }
        } else if ev_kind == "error"@ {
            (s, OneShotStepView::Fail(text_or(ev.text_field("reason"@), "pi one-shot failed"@)))
        } else {
            (s, OneShotStepView::Continue)
        }
    } else if kind == "agent_end"@ {
        (s, OneShotStepView::Stop)
    } else {
        (s, OneShotStepView::Continue)
    }
}

impl OneShotSession {
    /// A prompt with no answer yet.
    pub fn new() -> (r: OneShotSession)
        ensures
            r@.content.len() == 0,
            !r@.accepted,
    {
        OneShotSession { full_content: String::new(), prompt_accepted: false }
    }

    /// Advances the prompt by one line of Pi's event stream.
    pub fn handle_event(&mut self, value: &Json) -> (r: OneShotStep)
        ensures
            one_shot_transition(old(self)@, value@) == (final(self)@, r@),
    {
        let kind: &str = match value.get_str("type") {
            Some(k) => k,
            None => "",
        };
        proof {
            reveal_strlit("");
            assert(kind@ == kind_of(value@));
        }
        if str_eq(kind, "response") {
            let for_prompt = match value.get_str("id") {
                Some(t) => str_eq(t, "prompt"),
                None => false,
            };
            if for_prompt {
                self.prompt_accepted = value.get_bool("success") == Some(true);
                if !self.prompt_accepted {
                    let error = match value.get_str("error") {
                        Some(e) => e.to_owned(),
                        None => "pi rejected prompt".to_owned(),
                    };
                    return OneShotStep::Fail(error);
                }
            }
            OneShotStep::Continue
        } else if str_eq(kind, "message_update") {
            let null = Json::Null;
            let ev: &Json = match value.get("assistantMessageEvent") {
                Some(e) => e,
                None => &null,
            };
            let ev_kind: &str = match ev.get_str("type") {
                Some(k) => k,
                None => "",
            };
            assert(ev@ == or_null(value@.field("assistantMessageEvent"@)));
            assert(ev_kind@ == kind_of(ev@));
            if str_eq(ev_kind, "text_delta") {
                if let Some(d) = ev.get_str("delta") {
                    self.full_content.append(d);
                }
                OneShotStep::Continue
            } else if str_eq(ev_kind, "error") {
                let reason = match ev.get_str("reason") {
                    Some(e) => e.to_owned(),
                    None => "pi one-shot failed".to_owned(),
                };
                OneShotStep::Fail(reason)
            } else {
                OneShotStep::Continue
            }
        } else if str_eq(kind, "agent_end") {
            OneShotStep::Stop
        } else {
            OneShotStep::Continue
        }
    }

    /// The answer, where Pi accepted the prompt.
    pub fn finish(self) -> (r: Result<String, String>)
        ensures
            match r {
                Ok(c) => self@.accepted && c@ == self@.content,
                Err(e) => !self@.accepted && e@ == "pi did not accept naming prompt"@,
            },
    {
        if !self.prompt_accepted {
            return Err("pi did not accept naming prompt".to_owned());
        }
        Ok(self.full_content)
    }
}

/// The text that a line adds to the answer: the delta of a text-delta
/// assistant event, else nothing.
pub open spec fn line_delta(v: JsonView) -> Seq<char> {
    let ev = or_null(v.field("assistantMessageEvent"@));
    if kind_of(v) == "message_update"@ && kind_of(ev) == "text_delta"@ {
        text_or(ev.text_field("delta"@), Seq::empty())
    } else {
        Seq::empty()
    }
}

/// A line that a one-shot prompt passes over: its type is none of
/// `response`, `message_update` and `agent_end`; or it is a response to
/// another command than the prompt; or an assistant event that is neither a
/// text delta nor an error.
pub open spec fn is_inert(v: JsonView) -> bool {
    let kind = kind_of(v);
    let ev_kind = kind_of(or_null(v.field("assistantMessageEvent"@)));
    ||| (kind != "response"@ && kind != "message_update"@ && kind != "agent_end"@)
    ||| (kind == "response"@ && v.text_field("id"@) != Some("prompt"@))
    ||| (kind == "message_update"@ && ev_kind != "text_delta"@ && ev_kind != "error"@)
}

/// A one-shot prompt over a run of lines: each line in order, up to the one
/// that completes or fails it.
pub open spec fn one_shot_run(s: OneShotView, lines: Seq<JsonView>) -> (OneShotView, OneShotStepView)
    decreases lines.len(),
{
    if lines.len() == 0 {
        (s, OneShotStepView::Continue)
    } else {
        let (s1, step) = one_shot_transition(s, lines[0]);
        if step is Continue {
            one_shot_run(s1, lines.drop_first())
        } else {
            (s1, step)
        }
    }
}

/// What a one-shot prompt answers for the lines Pi sends: the error of the
/// line that fails it; else the streamed answer where the prompt was
/// accepted; else the error that it was not.
pub open spec fn one_shot_answer(lines: Seq<JsonView>) -> Result<Seq<char>, Seq<char>> {
    let (s, step) = one_shot_run(OneShotView { content: Seq::empty(), accepted: false }, lines);
    match step {
        OneShotStepView::Fail(e) => Err(e),
        _ => if s.accepted {
            Ok(s.content)
        } else {
            Err("pi did not accept naming prompt"@)
        },
    }
}

/// The text deltas of the lines, in order, up to the line that completes or
/// fails the prompt.
pub open spec fn run_deltas(lines: Seq<JsonView>) -> Seq<char>
    decreases lines.len(),
{
    if lines.len() == 0 {
        Seq::empty()
    } else {
        let step = one_shot_transition(OneShotView { content: Seq::empty(), accepted: false }, lines[0]).1;
        if step is Continue {
            line_delta(lines[0]) + run_deltas(lines.drop_first())
        } else {
            Seq::empty()
        }
    }
}

/// The names of the message and event types that a one-shot prompt reads
/// are pairwise different.
proof fn lemma_one_shot_kinds_distinct()
    ensures
        "response"@ != "message_update"@,
        "response"@ != "agent_end"@,
        "message_update"@ != "agent_end"@,
        "text_delta"@ != "error"@,
{
    reveal_strlit("response");
    reveal_strlit("message_update");
    reveal_strlit("agent_end");
    reveal_strlit("text_delta");
    reveal_strlit("error");
    assert("response"@.len() != "message_update"@.len());
    assert("response"@.len() != "agent_end"@.len());
    assert("message_update"@.len() != "agent_end"@.len());
    assert("text_delta"@.len() != "error"@.len());
}

/// A line adds its text delta to the answer, and whether it completes or
/// fails the prompt does not depend on the state.
pub proof fn lemma_one_shot_line(s: OneShotView, t: OneShotView, v: JsonView)
    ensures
        one_shot_transition(s, v).0.content == s.content + line_delta(v),
        one_shot_transition(s, v).1 == one_shot_transition(t, v).1,
{
    lemma_one_shot_kinds_distinct();
    assert(s.content + Seq::<char>::empty() =~= s.content);
}

/// A line that the prompt passes over changes nothing.
pub proof fn lemma_inert_line(s: OneShotView, v: JsonView)
    requires
        is_inert(v),
    ensures
        one_shot_transition(s, v) == (s, OneShotStepView::Continue),
{
    lemma_one_shot_kinds_distinct();
}

/// Over a run, the answer grows by exactly the text deltas of the lines up
/// to the one that completes or fails the prompt.
pub proof fn lemma_one_shot_run_content(s: OneShotView, lines: Seq<JsonView>)
    ensures
        one_shot_run(s, lines).0.content == s.content + run_deltas(lines),
    decreases lines.len(),
{
    if lines.len() == 0 {
        assert(s.content + Seq::<char>::empty() =~= s.content);
    } else {
        let fresh = OneShotView { content: Seq::empty(), accepted: false };
        lemma_one_shot_line(s, fresh, lines[0]);
        let (s1, step) = one_shot_transition(s, lines[0]);
        if step is Continue {
            lemma_one_shot_run_content(s1, lines.drop_first());
            assert(s.content + line_delta(lines[0]) + run_deltas(lines.drop_first()) =~= s.content
                + (line_delta(lines[0]) + run_deltas(lines.drop_first())));
        } else {
            lemma_one_shot_kinds_distinct();
            assert(line_delta(lines[0]) =~= Seq::<char>::empty());
            assert(s.content + Seq::<char>::empty() =~= s.content);
        }
    }
}

/// Inserting a line that the prompt passes over, anywhere in a run, leaves
/// the run's outcome as it was.
pub proof fn lemma_inert_insert_run(s: OneShotView, lines: Seq<JsonView>, i: int, v: JsonView)
    requires
        is_inert(v),
        0 <= i <= lines.len(),
    ensures
        one_shot_run(s, lines.insert(i, v)) == one_shot_run(s, lines),
    decreases lines.len(),
{
    let l2 = lines.insert(i, v);
    lemma_inert_line(s, v);
    if i == 0 {
        assert(l2[0] == v);
        assert(l2.drop_first() =~= lines);
    } else {
        assert(l2[0] == lines[0]);
        assert(l2.drop_first() =~= lines.drop_first().insert(i - 1, v));
        let (s1, step) = one_shot_transition(s, lines[0]);
        if step is Continue {
            lemma_inert_insert_run(s1, lines.drop_first(), i - 1, v);
        }
    }
}

/// The answer to a one-shot prompt is the text deltas of the stream, and
/// lines that the prompt passes over, inserted anywhere, do not change it.
pub proof fn lemma_one_shot_answer(lines: Seq<JsonView>, i: int, v: JsonView)
    requires
        is_inert(v),
        0 <= i <= lines.len(),
    ensures
        one_shot_answer(lines.insert(i, v)) == one_shot_answer(lines),
        one_shot_answer(lines) matches Ok(answer) ==> answer == run_deltas(lines),
{
    let fresh = OneShotView { content: Seq::empty(), accepted: false };
    lemma_inert_insert_run(fresh, lines, i, v);
    lemma_one_shot_run_content(fresh, lines);
    assert(Seq::<char>::empty() + run_deltas(lines) =~= run_deltas(lines));
}

} // verus!
