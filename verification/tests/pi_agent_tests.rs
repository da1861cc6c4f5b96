use pi_agent::chat::{
    flush_text_block, flush_thinking_block, stringify_tool_result, upsert_tool_call, ChatEvent,
    ContentBlock, ToolCall,
};
use pi_agent::cli::{
    binary_from_which, cli_binary_name, cli_status, path_lookup_program, pi_login, VersionProbe,
};
use pi_agent::commands::{one_shot_commands, rpc_args, rpc_commands, rpc_mode_arguments, RpcCommand};
use pi_agent::json::{Json, JsonNumber};
use pi_agent::levels::{pi_reasoning_level, pi_thinking_level, EffortLevel, ThinkingLevel};
use pi_agent::model::{is_models_response, model_from_value, models_from_response, parse_pi_model};
use pi_agent::one_shot::{OneShotSession, OneShotStep};
use pi_agent::rpc::{RpcSession, SessionEnd};
use pi_agent::text::{decode_rpc_line, rpc_line_json, str_eq, trim};

fn j(text: &str) -> Json {
    rpc_line_json(format!("{text}\n").into_bytes()).expect("test JSON")
}

fn text_of(j: &Json) -> Option<&str> {
    j.as_str()
}

fn same_json(a: &Json, b: &Json) -> bool {
    match (a, b) {
        (Json::Null, Json::Null) => true,
        (Json::Bool(x), Json::Bool(y)) => x == y,
        (Json::Number(JsonNumber::PosInt(x)), Json::Number(JsonNumber::PosInt(y))) => x == y,
        (Json::Number(JsonNumber::NegInt(x)), Json::Number(JsonNumber::NegInt(y))) => x == y,
        (Json::Number(JsonNumber::Float(x)), Json::Number(JsonNumber::Float(y))) => x == y,
        (Json::Str(x), Json::Str(y)) => x == y,
        (Json::Array(x), Json::Array(y)) => {
            x.len() == y.len() && x.iter().zip(y.iter()).all(|(p, q)| same_json(p, q))
        }
        (Json::Object(x), Json::Object(y)) => {
            x.len() == y.len()
                && x.iter().zip(y.iter()).all(|(p, q)| p.0 == q.0 && same_json(&p.1, &q.1))
        }
        _ => false,
    }
}

fn block_desc(b: &ContentBlock) -> String {
    match b {
        ContentBlock::Text { text } => format!("text:{text}"),
        ContentBlock::Thinking { thinking } => format!("thinking:{thinking}"),
        ContentBlock::ToolUse { tool_call_id } => format!("tool:{tool_call_id}"),
    }
}

fn event_desc(e: &ChatEvent) -> String {
    match e {
        ChatEvent::Chunk { content } => format!("chunk:{content}"),
        ChatEvent::Thinking { content } => format!("thinking:{content}"),
        ChatEvent::ToolUse { id, name, .. } => format!("tool-use:{id}:{name}"),
        ChatEvent::ToolResult { tool_use_id, output } => format!("tool-result:{tool_use_id}:{output}"),
        ChatEvent::Error { error } => format!("error:{error}"),
    }
}

fn command_desc(c: &RpcCommand) -> String {
    match c {
        RpcCommand::SetModel { provider, model_id } => format!("set_model:{provider}:{model_id}"),
        RpcCommand::SetThinkingLevel { level } => format!("set_thinking_level:{level}"),
        RpcCommand::GetState => "get_state".to_string(),
        RpcCommand::Prompt { message } => format!("prompt:{message}"),
        RpcCommand::GetAvailableModels => "get_available_models".to_string(),
    }
}

// ---- model references ----

#[test]
fn parse_pi_model_splits_provider_and_model() {
    assert_eq!(
        parse_pi_model(Some("pi/openai/gpt-4o")),
        Some(("openai".to_string(), "gpt-4o".to_string()))
    );
}

#[test]
fn parse_pi_model_keeps_slashes_in_model_id() {
    assert_eq!(
        parse_pi_model(Some("pi/openrouter/meta/llama-3-70b")),
        Some(("openrouter".to_string(), "meta/llama-3-70b".to_string()))
    );
}

#[test]
fn parse_pi_model_rejects_other_settings() {
    assert_eq!(parse_pi_model(None), None);
    assert_eq!(parse_pi_model(Some("gpt-4o")), None);
    assert_eq!(parse_pi_model(Some("llama/70b")), None);
    assert_eq!(parse_pi_model(Some("pi/")), None);
    assert_eq!(parse_pi_model(Some("pi/openai")), None);
    assert_eq!(parse_pi_model(Some("pi//gpt")), None);
    assert_eq!(parse_pi_model(Some("pi/openai/")), None);
    assert_eq!(parse_pi_model(Some("PI/openai/gpt")), None);
}

// ---- thinking levels ----

#[test]
fn thinking_level_prefers_effort() {
    assert_eq!(pi_thinking_level(Some(&ThinkingLevel::Ultrathink), Some(&EffortLevel::Low)), Some("low"));
    assert_eq!(pi_thinking_level(None, Some(&EffortLevel::Off)), Some("off"));
    assert_eq!(pi_thinking_level(None, Some(&EffortLevel::Medium)), Some("medium"));
    assert_eq!(pi_thinking_level(None, Some(&EffortLevel::High)), Some("high"));
    assert_eq!(pi_thinking_level(None, Some(&EffortLevel::Xhigh)), Some("xhigh"));
    assert_eq!(pi_thinking_level(None, Some(&EffortLevel::Max)), Some("xhigh"));
}

#[test]
fn thinking_level_from_thinking_setting() {
    assert_eq!(pi_thinking_level(Some(&ThinkingLevel::Off), None), Some("off"));
    assert_eq!(pi_thinking_level(Some(&ThinkingLevel::Think), None), Some("low"));
    assert_eq!(pi_thinking_level(Some(&ThinkingLevel::Megathink), None), Some("high"));
    assert_eq!(pi_thinking_level(Some(&ThinkingLevel::Ultrathink), None), Some("xhigh"));
    assert_eq!(pi_thinking_level(None, None), None);
}

#[test]
fn reasoning_level_names() {
    assert_eq!(pi_reasoning_level(Some("low")), Some("low"));
    assert_eq!(pi_reasoning_level(Some("medium")), Some("medium"));
    assert_eq!(pi_reasoning_level(Some("high")), Some("high"));
    assert_eq!(pi_reasoning_level(Some("xhigh")), Some("xhigh"));
    assert_eq!(pi_reasoning_level(Some("max")), Some("xhigh"));
    assert_eq!(pi_reasoning_level(Some("off")), Some("off"));
    assert_eq!(pi_reasoning_level(Some("ultra")), None);
    assert_eq!(pi_reasoning_level(Some("High")), None);
    assert_eq!(pi_reasoning_level(None), None);
}

#[test]
fn every_chosen_level_is_a_reasoning_name_for_itself() {
    let efforts = [
        EffortLevel::Off,
        EffortLevel::Low,
        EffortLevel::Medium,
        EffortLevel::High,
        EffortLevel::Xhigh,
        EffortLevel::Max,
    ];
    for e in efforts.iter() {
        let level = pi_thinking_level(None, Some(e));
        assert_eq!(pi_reasoning_level(level), level);
    }
    let thinking = [ThinkingLevel::Off, ThinkingLevel::Think, ThinkingLevel::Megathink, ThinkingLevel::Ultrathink];
    for t in thinking.iter() {
        let level = pi_thinking_level(Some(t), None);
        assert_eq!(pi_reasoning_level(level), level);
    }
}

// ---- blocks ----

#[test]
fn flush_text_block_moves_text() {
    let mut blocks = Vec::new();
    let mut current = "hello".to_string();
    flush_text_block(&mut blocks, &mut current);
    assert!(current.is_empty());
    assert_eq!(blocks.iter().map(block_desc).collect::<Vec<_>>(), vec!["text:hello"]);
    flush_text_block(&mut blocks, &mut current);
    assert_eq!(blocks.len(), 1);
}

#[test]
fn flush_thinking_block_moves_thinking() {
    let mut blocks = Vec::new();
    let mut current = String::new();
    flush_thinking_block(&mut blocks, &mut current);
    assert!(blocks.is_empty());
    current.push_str("hmm");
    flush_thinking_block(&mut blocks, &mut current);
    assert!(current.is_empty());
    assert_eq!(blocks.iter().map(block_desc).collect::<Vec<_>>(), vec!["thinking:hmm"]);
}

// ---- tool results ----

#[test]
fn tool_result_joins_content_texts() {
    let r = j(r#"{"content":[{"type":"text","text":"a"},{"type":"image"},{"text":"b"}]}"#);
    assert_eq!(stringify_tool_result(&r), "a\nb");
}

#[test]
fn tool_result_falls_back_to_text_field() {
    let r = j(r#"{"content":[{"type":"image"}],"text":"plain"}"#);
    assert_eq!(stringify_tool_result(&r), "plain");
}

#[test]
fn tool_result_string_and_json() {
    assert_eq!(stringify_tool_result(&j(r#""done""#)), "done");
    assert_eq!(stringify_tool_result(&j(r#"{"exitCode":0}"#)), "{\n  \"exitCode\": 0\n}");
    assert_eq!(
        stringify_tool_result(&j(r#"{"content":[{"text":""}]}"#)),
        "{\n  \"content\": [\n    {\n      \"text\": \"\"\n    }\n  ]\n}"
    );
    assert_eq!(stringify_tool_result(&Json::Null), "null");
    assert_eq!(stringify_tool_result(&j("[1,-2,2.5]")), "[\n  1,\n  -2,\n  2.5\n]");
}

// ---- tool calls ----

#[test]
fn upsert_tool_call_records_once() {
    let mut calls: Vec<ToolCall> = Vec::new();
    let mut blocks = Vec::new();
    let v = j(r#"{"toolCallId":"t1","toolName":"read","args":{"path":"a.rs"}}"#);
    let e = upsert_tool_call(&mut calls, &mut blocks, &v).expect("first call announced");
    assert_eq!(event_desc(&e), "tool-use:t1:read");
    match e {
        ChatEvent::ToolUse { input, .. } => assert!(same_json(&input, &j(r#"{"path":"a.rs"}"#))),
        _ => panic!("expected tool use"),
    }
    assert!(upsert_tool_call(&mut calls, &mut blocks, &v).is_none());
    assert_eq!(calls.len(), 1);
    assert_eq!(calls[0].id, "t1");
    assert_eq!(calls[0].name, "read");
    assert!(calls[0].output.is_none());
    assert_eq!(blocks.iter().map(block_desc).collect::<Vec<_>>(), vec!["tool:t1"]);
}

#[test]
fn upsert_tool_call_field_fallbacks() {
    let mut calls: Vec<ToolCall> = Vec::new();
    let mut blocks = Vec::new();
    let v = j(r#"{"id":"x","name":"bash","input":"ls"}"#);
    upsert_tool_call(&mut calls, &mut blocks, &v);
    assert_eq!(calls[0].id, "x");
    assert_eq!(calls[0].name, "bash");
    assert_eq!(text_of(&calls[0].input), Some("ls"));
    let bare = j(r#"{}"#);
    upsert_tool_call(&mut calls, &mut blocks, &bare);
    assert_eq!(calls[1].id, "tool");
    assert_eq!(calls[1].name, "tool");
    assert!(matches!(calls[1].input, Json::Null));
}

// ---- models ----

#[test]
fn model_from_value_full_entry() {
    let m = model_from_value(&j(
        r#"{"id":"gpt-4o","provider":"openai","label":"GPT-4o","contextWindow":128000,"supportsThinking":false}"#,
    ))
    .expect("model");
    assert_eq!(m.id, "gpt-4o");
    assert_eq!(m.provider, "openai");
    assert_eq!(m.label, "GPT-4o");
    assert_eq!(m.value, "pi/openai/gpt-4o");
    assert_eq!(m.context_window, Some(128000));
    assert_eq!(m.supports_thinking, Some(false));
}

#[test]
fn model_from_value_fallbacks() {
    let m = model_from_value(&j(
        r#"{"modelId":"sonnet","provider":{"name":"Anthropic"},"context_window":200000,"supports_thinking":true}"#,
    ))
    .expect("model");
    assert_eq!(m.id, "sonnet");
    assert_eq!(m.provider, "Anthropic");
    assert_eq!(m.label, "Anthropic/sonnet");
    assert_eq!(m.value, "pi/Anthropic/sonnet");
    assert_eq!(m.context_window, Some(200000));
    assert_eq!(m.supports_thinking, Some(true));

    let m = model_from_value(&j(r#"{"model":"m1","providerId":"p1","name":"Model One"}"#)).expect("model");
    assert_eq!(m.provider, "p1");
    assert_eq!(m.label, "Model One");

    let m = model_from_value(&j(r#"{"id":"m2","provider":{"id":"pid","name":"P"},"contextWindow":-1}"#)).expect("model");
    assert_eq!(m.provider, "pid");
    assert_eq!(m.context_window, None);

    let m = model_from_value(&j(r#"{"id":"m3"}"#)).expect("model");
    assert_eq!(m.provider, "default");
    assert_eq!(m.value, "pi/default/m3");
}

#[test]
fn model_from_value_needs_string_id() {
    assert!(model_from_value(&j(r#"{"provider":"openai"}"#)).is_none());
    assert!(model_from_value(&j(r#"{"id":7,"modelId":"x"}"#)).is_none());
    assert!(model_from_value(&j(r#""gpt""#)).is_none());
}

#[test]
fn listed_model_selects_itself() {
    let m = model_from_value(&j(r#"{"id":"meta/llama","provider":"openrouter"}"#)).expect("model");
    assert_eq!(
        parse_pi_model(Some(&m.value)),
        Some(("openrouter".to_string(), "meta/llama".to_string()))
    );
}

#[test]
fn models_response_lists_models() {
    let r = j(r#"{"type":"response","id":"models","success":true,"data":{"models":[{"id":"a","provider":"p"},{"provider":"q"},{"id":"b"}]}}"#);
    assert!(is_models_response(&r));
    let ms = models_from_response(&r).expect("models");
    assert_eq!(ms.iter().map(|m| m.value.clone()).collect::<Vec<_>>(), vec!["pi/p/a", "pi/default/b"]);
}

#[test]
fn models_response_errors() {
    let failed = j(r#"{"type":"response","id":"models","success":false,"error":"no auth"}"#);
    assert_eq!(models_from_response(&failed).err(), Some("no auth".to_string()));
    let silent = j(r#"{"type":"response","id":"models"}"#);
    assert_eq!(
        models_from_response(&silent).err(),
        Some("pi returned an error while listing models".to_string())
    );
    let no_models = j(r#"{"success":true,"data":{"models":{}}}"#);
    assert_eq!(
        models_from_response(&no_models).err(),
        Some("pi model response did not include data.models".to_string())
    );
    assert!(!is_models_response(&j(r#"{"type":"response","id":"prompt"}"#)));
    assert!(!is_models_response(&j(r#"{"type":"agent_end","id":"models"}"#)));
}

// ---- chat turns ----

fn feed(session: &mut RpcSession, line: &str) -> (Vec<String>, bool) {
    let step = session.handle_event(&j(line));
    (step.events.iter().map(event_desc).collect(), step.stop)
}

#[test]
fn rpc_turn_streams_and_records() {
    let mut s = RpcSession::new(Some("old-session"));
    assert_eq!(feed(&mut s, r#"{"type":"response","id":"set-model","success":true}"#), (vec![], false));
    assert_eq!(
        feed(&mut s, r#"{"type":"response","id":"state-before","success":true,"data":{"sessionId":"s-42"}}"#),
        (vec![], false)
    );
    assert_eq!(feed(&mut s, r#"{"type":"response","id":"prompt","success":true}"#), (vec![], false));
    assert_eq!(
        feed(&mut s, r#"{"type":"message_update","assistantMessageEvent":{"type":"thinking_delta","delta":"plan"}}"#),
        (vec!["thinking:plan".to_string()], false)
    );
    feed(&mut s, r#"{"type":"message_update","assistantMessageEvent":{"type":"thinking_end"}}"#);
    assert_eq!(
        feed(&mut s, r#"{"type":"message_update","assistantMessageEvent":{"type":"text_delta","delta":"Hel"}}"#),
        (vec!["chunk:Hel".to_string()], false)
    );
    feed(&mut s, r#"{"type":"message_update","assistantMessageEvent":{"type":"text_delta","delta":"lo"}}"#);
    feed(&mut s, r#"{"type":"message_update","assistantMessageEvent":{"type":"text_end"}}"#);
    assert_eq!(
        feed(&mut s, r#"{"type":"message_update","assistantMessageEvent":{"type":"toolcall_end","toolCall":{"id":"c1","name":"read","arguments":{}}}}"#),
        (vec!["tool-use:c1:read".to_string()], false)
    );
    assert_eq!(
        feed(&mut s, r#"{"type":"tool_execution_start","toolCallId":"c1","toolName":"read","args":{}}"#),
        (vec![], false)
    );
    assert_eq!(
        feed(&mut s, r#"{"type":"tool_execution_end","toolCallId":"c1","result":{"content":[{"type":"text","text":"file body"}]}}"#),
        (vec!["tool-result:c1:file body".to_string()], false)
    );
    feed(&mut s, r#"{"type":"message_update","assistantMessageEvent":{"type":"text_delta","delta":" done"}}"#);
    assert_eq!(feed(&mut s, r#"{"type":"agent_end"}"#), (vec![], true));
    let (end, r) = s.finish();
    assert!(end == SessionEnd::Done);
    assert_eq!(r.content, "Hello done");
    assert_eq!(r.session_id, "s-42");
    assert!(!r.cancelled);
    assert!(!r.error_emitted);
    assert!(r.usage.is_none());
    assert_eq!(
        r.content_blocks.iter().map(block_desc).collect::<Vec<_>>(),
        vec!["thinking:plan", "text:Hello", "tool:c1", "text: done"]
    );
    assert_eq!(r.tool_calls.len(), 1);
    assert_eq!(r.tool_calls[0].output.as_deref(), Some("file body"));
    assert!(r.tool_calls[0].parent_tool_use_id.is_none());
}

#[test]
fn rpc_turn_keeps_existing_session_id() {
    let s = RpcSession::new(Some("  "));
    let (end, r) = s.finish();
    assert!(end == SessionEnd::Silent);
    assert_eq!(r.session_id, "  ");
    let (_, r) = RpcSession::new(None).finish();
    assert_eq!(r.session_id, "");
}

#[test]
fn rpc_prompt_rejection_ends_turn() {
    let mut s = RpcSession::new(None);
    assert_eq!(
        feed(&mut s, r#"{"type":"response","id":"prompt","success":false,"error":"busy"}"#),
        (vec!["error:busy".to_string()], true)
    );
    let (end, r) = s.finish();
    assert!(end == SessionEnd::Silent);
    assert!(r.error_emitted);
    let mut s = RpcSession::new(None);
    assert_eq!(
        feed(&mut s, r#"{"type":"response","id":"prompt"}"#),
        (vec!["error:pi rejected prompt".to_string()], true)
    );
}

#[test]
fn rpc_abort_cancels_and_other_errors_report() {
    let mut s = RpcSession::new(None);
    feed(&mut s, r#"{"type":"response","id":"prompt","success":true}"#);
    assert_eq!(
        feed(&mut s, r#"{"type":"message_update","assistantMessageEvent":{"type":"error","reason":"aborted"}}"#),
        (vec![], false)
    );
    let (end, r) = s.finish();
    assert!(end == SessionEnd::Cancelled);
    assert!(r.cancelled);

    let mut s = RpcSession::new(None);
    feed(&mut s, r#"{"type":"response","id":"prompt","success":true}"#);
    assert_eq!(
        feed(&mut s, r#"{"type":"message_update","assistantMessageEvent":{"type":"error"}}"#),
        (vec!["error:error".to_string()], false)
    );
    feed(&mut s, r#"{"type":"message_update","assistantMessageEvent":{"type":"error","reason":"aborted"}}"#);
    let (end, r) = s.finish();
    assert!(end == SessionEnd::Silent);
    assert!(r.cancelled && r.error_emitted);
}

#[test]
fn rpc_open_blocks_close_at_finish() {
    let mut s = RpcSession::new(None);
    feed(&mut s, r#"{"type":"response","id":"prompt","success":true}"#);
    feed(&mut s, r#"{"type":"message_update","assistantMessageEvent":{"type":"text_delta","delta":"partial"}}"#);
    feed(&mut s, r#"{"type":"message_update","assistantMessageEvent":{"type":"thinking_delta","delta":"idea"}}"#);
    feed(&mut s, r#"{"type":"something_new"}"#);
    feed(&mut s, r#"{"no_type":true}"#);
    let (end, r) = s.finish();
    assert!(end == SessionEnd::Done);
    assert_eq!(r.content, "partial");
    assert_eq!(
        r.content_blocks.iter().map(block_desc).collect::<Vec<_>>(),
        vec!["text:partial", "thinking:idea"]
    );
}

#[test]
fn rpc_tool_end_for_unknown_call_still_reports() {
    let mut s = RpcSession::new(None);
    assert_eq!(
        feed(&mut s, r#"{"type":"tool_execution_end","result":"ok"}"#),
        (vec!["tool-result:tool:ok".to_string()], false)
    );
    let (_, r) = s.finish();
    assert!(r.tool_calls.is_empty());
}

// ---- one-shot prompts ----

#[test]
fn one_shot_collects_text() {
    let mut s = OneShotSession::new();
    assert!(matches!(s.handle_event(&j(r#"{"type":"response","id":"set-model","success":false}"#)), OneShotStep::Continue));
    assert!(matches!(s.handle_event(&j(r#"{"type":"response","id":"prompt","success":true}"#)), OneShotStep::Continue));
    s.handle_event(&j(r#"{"type":"message_update","assistantMessageEvent":{"type":"text_delta","delta":"fix-"}}"#));
    s.handle_event(&j(r#"{"type":"message_update","assistantMessageEvent":{"type":"thinking_delta","delta":"x"}}"#));
    s.handle_event(&j(r#"{"type":"message_update","assistantMessageEvent":{"type":"text_delta","delta":"login"}}"#));
    assert!(matches!(s.handle_event(&j(r#"{"type":"agent_end"}"#)), OneShotStep::Stop));
    assert_eq!(s.finish(), Ok("fix-login".to_string()));
}

#[test]
fn one_shot_failures() {
    let mut s = OneShotSession::new();
    match s.handle_event(&j(r#"{"type":"response","id":"prompt","success":false}"#)) {
        OneShotStep::Fail(e) => assert_eq!(e, "pi rejected prompt"),
        _ => panic!("expected failure"),
    }
    let mut s = OneShotSession::new();
    match s.handle_event(&j(r#"{"type":"message_update","assistantMessageEvent":{"type":"error"}}"#)) {
        OneShotStep::Fail(e) => assert_eq!(e, "pi one-shot failed"),
        _ => panic!("expected failure"),
    }
    let s = OneShotSession::new();
    assert_eq!(s.finish(), Err("pi did not accept naming prompt".to_string()));
}

// ---- commands and arguments ----

#[test]
fn rpc_commands_in_order() {
    let cmds = rpc_commands(Some("pi/openai/gpt-4o"), Some(&ThinkingLevel::Think), None, "hi");
    assert_eq!(
        cmds.iter().map(command_desc).collect::<Vec<_>>(),
        vec!["set_model:openai:gpt-4o", "set_thinking_level:low", "get_state", "prompt:hi"]
    );
    let cmds = rpc_commands(Some("llama-70b"), None, None, "q");
    assert_eq!(cmds.iter().map(command_desc).collect::<Vec<_>>(), vec!["get_state", "prompt:q"]);
}

#[test]
fn one_shot_commands_in_order() {
    let cmds = one_shot_commands("pi/anthropic/haiku", Some("max"), "name it");
    assert_eq!(
        cmds.iter().map(command_desc).collect::<Vec<_>>(),
        vec!["set_model:anthropic:haiku", "set_thinking_level:xhigh", "prompt:name it"]
    );
    let cmds = one_shot_commands("haiku", Some("turbo"), "p");
    assert_eq!(cmds.iter().map(command_desc).collect::<Vec<_>>(), vec!["prompt:p"]);
}

#[test]
fn command_messages() {
    let m = RpcCommand::SetModel { provider: "openai".to_string(), model_id: "gpt".to_string() }.to_json();
    assert_eq!(m.get_str("id"), Some("set-model"));
    assert_eq!(m.get_str("type"), Some("set_model"));
    assert_eq!(m.get_str("provider"), Some("openai"));
    assert_eq!(m.get_str("modelId"), Some("gpt"));
    let p = RpcCommand::Prompt { message: "hello".to_string() }.to_json();
    assert_eq!(p.get_str("id"), Some("prompt"));
    assert_eq!(p.get_str("type"), Some("prompt"));
    assert_eq!(p.get_str("message"), Some("hello"));
    let t = RpcCommand::SetThinkingLevel { level: "high".to_string() }.to_json();
    assert_eq!(t.get_str("id"), Some("set-thinking"));
    assert_eq!(t.get_str("type"), Some("set_thinking_level"));
    assert_eq!(t.get_str("level"), Some("high"));
    let g = RpcCommand::GetState.to_json();
    assert_eq!(g.get_str("id"), Some("state-before"));
    assert_eq!(g.get_str("type"), Some("get_state"));
    assert_eq!(
        RpcCommand::Prompt { message: "say \"hi\"".to_string() }.to_line(),
        r#"{"id":"prompt","message":"say \"hi\"","type":"prompt"}"#
    );
    assert_eq!(
        RpcCommand::SetModel { provider: "openai".to_string(), model_id: "gpt".to_string() }.to_line(),
        r#"{"id":"set-model","modelId":"gpt","provider":"openai","type":"set_model"}"#
    );
    assert_eq!(RpcCommand::GetState.to_line(), r#"{"id":"state-before","type":"get_state"}"#);
    let models = RpcCommand::GetAvailableModels.to_json();
    assert_eq!(models.get_str("id"), Some("models"));
    assert_eq!(models.get_str("type"), Some("get_available_models"));
}

#[test]
fn rpc_args_by_mode() {
    assert_eq!(rpc_mode_arguments(), vec!["--mode", "rpc"]);
    assert_eq!(rpc_args(None, None, None), vec!["--mode", "rpc", "--tools", "read,grep,find,ls"]);
    assert_eq!(
        rpc_args(Some("sess-1"), Some("be brief"), Some("build")),
        vec![
            "--mode",
            "rpc",
            "--session",
            "sess-1",
            "--append-system-prompt",
            "be brief",
            "--tools",
            "read,grep,find,ls,edit,write"
        ]
    );
    assert_eq!(rpc_args(Some(" \t"), Some(""), Some("yolo")), vec!["--mode", "rpc"]);
    assert_eq!(rpc_args(None, None, Some("other")), vec!["--mode", "rpc"]);
}

// ---- text, lines and the CLI ----

#[test]
fn decode_rpc_line_frames() {
    assert_eq!(decode_rpc_line(b"{\"a\":1}\r\n".to_vec()), Some("{\"a\":1}".to_string()));
    assert_eq!(decode_rpc_line(b"abc\n".to_vec()), Some("abc".to_string()));
    assert_eq!(decode_rpc_line(b"abc".to_vec()), Some("abc".to_string()));
    assert_eq!(decode_rpc_line(b"abc\r\r\n".to_vec()), Some("abc\r".to_string()));
    assert_eq!(decode_rpc_line(b"\r\n".to_vec()), None);
    assert_eq!(decode_rpc_line(b"\n".to_vec()), None);
    assert_eq!(decode_rpc_line(vec![0xff, 0xfe, b'\n']), None);
    assert_eq!(decode_rpc_line("héllo\n".as_bytes().to_vec()), Some("héllo".to_string()));
}

#[test]
fn trim_and_compare() {
    assert_eq!(trim("  pi 1.2.3\n"), "pi 1.2.3");
    assert_eq!(trim("\u{3000}x\u{a0}"), "x");
    assert_eq!(trim(" \t\r\n"), "");
    assert!(str_eq("abc", "abc"));
    assert!(!str_eq("abc", "abd"));
    assert!(!str_eq("abc", "ab"));
}

#[test]
fn cli_status_cases() {
    let ok = cli_status(&VersionProbe::Ran { success: true, stdout: b"0.9.1\n".to_vec() }, "/usr/bin/pi", true);
    assert!(ok.installed);
    assert_eq!(ok.version, Some("0.9.1".to_string()));
    assert_eq!(ok.path, Some("/usr/bin/pi".to_string()));

    let quiet = cli_status(&VersionProbe::Ran { success: true, stdout: b"  \n".to_vec() }, "pi", false);
    assert!(quiet.installed);
    assert_eq!(quiet.version, None);

    let lossy = cli_status(&VersionProbe::Ran { success: true, stdout: vec![b'v', 0xff, b'1'] }, "pi", true);
    assert_eq!(lossy.version, Some("v\u{fffd}1".to_string()));

    let failed = cli_status(&VersionProbe::Ran { success: false, stdout: b"1.0".to_vec() }, "/opt/pi", true);
    assert!(!failed.installed);
    assert_eq!(failed.version, None);
    assert_eq!(failed.path, Some("/opt/pi".to_string()));
    let missing = cli_status(&VersionProbe::Ran { success: false, stdout: vec![] }, "pi", false);
    assert_eq!(missing.path, None);

    let absent = cli_status(&VersionProbe::NotStarted, "pi", true);
    assert!(!absent.installed);
    assert_eq!(absent.version, None);
    assert_eq!(absent.path, None);
}

#[test]
fn which_output() {
    assert_eq!(binary_from_which(true, b"/usr/local/bin/pi\n/usr/bin/pi\n"), Some("/usr/local/bin/pi".to_string()));
    assert_eq!(binary_from_which(true, b"C:\\npm\\pi.cmd\r\nC:\\other\\pi.cmd\r\n"), Some("C:\\npm\\pi.cmd".to_string()));
    assert_eq!(binary_from_which(true, b"\n/usr/bin/pi\n"), None);
    assert_eq!(binary_from_which(true, b""), None);
    assert_eq!(binary_from_which(false, b"/usr/bin/pi\n"), None);
    assert_eq!(cli_binary_name(true), "pi.cmd");
    assert_eq!(cli_binary_name(false), "pi");
    assert_eq!(path_lookup_program(true), "where");
    assert_eq!(path_lookup_program(false), "which");
}

#[test]
fn login_info() {
    let info = pi_login().expect("login info");
    assert_eq!(info.command, "pi /login");
    assert!(info.message.starts_with("Run `pi /login` in a terminal for OAuth providers"));
    assert!(info.message.ends_with("or OPENAI_API_KEY."));
}

#[test]
fn turn_blocks_match_streamed_events() {
    let lines = [
        r#"{"type":"response","id":"prompt","success":true}"#,
        r#"{"type":"message_update","assistantMessageEvent":{"type":"thinking_delta","delta":"a"}}"#,
        r#"{"type":"message_update","assistantMessageEvent":{"type":"thinking_delta","delta":"b"}}"#,
        r#"{"type":"message_update","assistantMessageEvent":{"type":"thinking_end"}}"#,
        r#"{"type":"tool_execution_start","toolCallId":"t1","toolName":"ls"}"#,
        r#"{"type":"tool_execution_start","toolCallId":"t1","toolName":"ls"}"#,
        r#"{"type":"message_update","assistantMessageEvent":{"type":"thinking_delta","delta":"c"}}"#,
        r#"{"type":"message_update","assistantMessageEvent":{"type":"toolcall_end","toolCall":{"id":"t2","name":"grep"}}}"#,
    ];
    let mut s = RpcSession::new(None);
    let mut thinking = String::new();
    let mut uses = Vec::new();
    for line in lines.iter() {
        for e in s.handle_event(&j(line)).events {
            match e {
                ChatEvent::Thinking { content } => thinking.push_str(&content),
                ChatEvent::ToolUse { id, .. } => uses.push(id),
                _ => {}
            }
        }
    }
    let (_, r) = s.finish();
    let block_thinking: String = r
        .content_blocks
        .iter()
        .filter_map(|b| match b {
            ContentBlock::Thinking { thinking } => Some(thinking.as_str()),
            _ => None,
        })
        .collect();
    assert_eq!(block_thinking, thinking);
    assert_eq!(thinking, "abc");
    assert_eq!(r.tool_calls.iter().map(|c| c.id.clone()).collect::<Vec<_>>(), uses);
    assert_eq!(uses, vec!["t1", "t2"]);
}

fn one_shot_answer(lines: &[&str]) -> Result<String, String> {
    let mut s = OneShotSession::new();
    for line in lines {
        match s.handle_event(&j(line)) {
            OneShotStep::Continue => {}
            OneShotStep::Stop => break,
            OneShotStep::Fail(e) => return Err(e),
        }
    }
    s.finish()
}

#[test]
fn one_shot_ignores_other_lines() {
    let plain = [
        r#"{"type":"response","id":"prompt","success":true}"#,
        r#"{"type":"message_update","assistantMessageEvent":{"type":"text_delta","delta":"a"}}"#,
        r#"{"type":"message_update","assistantMessageEvent":{"type":"text_delta","delta":"b"}}"#,
        r#"{"type":"agent_end"}"#,
        r#"{"type":"message_update","assistantMessageEvent":{"type":"text_delta","delta":"late"}}"#,
    ];
    let noisy = [
        r#"{"type":"agent_start"}"#,
        r#"{"type":"response","id":"prompt","success":true}"#,
        r#"{"type":"response","id":"set-model","success":false,"error":"x"}"#,
        r#"{"type":"message_update","assistantMessageEvent":{"type":"text_delta","delta":"a"}}"#,
        r#"{"type":"message_update","assistantMessageEvent":{"type":"thinking_delta","delta":"t"}}"#,
        r#"{"type":"message_update","assistantMessageEvent":{"type":"text_delta","delta":"b"}}"#,
        r#"{"type":"agent_end"}"#,
    ];
    assert_eq!(one_shot_answer(&plain), Ok("ab".to_string()));
    assert_eq!(one_shot_answer(&noisy), Ok("ab".to_string()));
}

#[test]
fn cli_version_is_trimmed() {
    let st = cli_status(&VersionProbe::Ran { success: true, stdout: b"\t 1.0 \r\n".to_vec() }, "pi", true);
    let v = st.version.expect("version");
    assert_eq!(v, "1.0");
    assert_eq!(trim(&v), v);
}

#[test]
fn rpc_line_json_reads_lines() {
    assert!(rpc_line_json(b"\r\n".to_vec()).is_none());
    assert!(rpc_line_json(b"not json\n".to_vec()).is_none());
    assert!(rpc_line_json(vec![b'"', 0xff, b'"', b'\n']).is_none());
    let v = rpc_line_json(b"{\"type\":\"agent_end\",\"n\":-5,\"m\":7,\"f\":1.5}\r\n".to_vec()).expect("json");
    assert_eq!(v.get_str("type"), Some("agent_end"));
    assert!(matches!(v.get("n"), Some(Json::Number(JsonNumber::NegInt(-5)))));
    assert!(matches!(v.get("m"), Some(Json::Number(JsonNumber::PosInt(7)))));
    match v.get("f") {
        Some(Json::Number(JsonNumber::Float(t))) => assert_eq!(t, "1.5"),
        _ => panic!("expected a float"),
    }
    let dup = rpc_line_json(b"{\"a\":1,\"a\":2}".to_vec()).expect("json");
    match dup {
        Json::Object(entries) => {
            assert_eq!(entries.len(), 1);
            assert!(matches!(entries[0].1, Json::Number(JsonNumber::PosInt(2))));
        }
        _ => panic!("expected an object"),
    }
}
