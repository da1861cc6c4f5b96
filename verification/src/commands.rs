//! The command line and the RPC commands that start a chat turn or a
//! one-shot prompt, and the model-list request.

use vstd::prelude::*;
use crate::json::{
    Json, JsonView, compact_json_text, json_text, json_valid, lemma_view_entries, view_entries,
};
use crate::levels::{
    EffortLevel, ThinkingLevel, chosen_pi_level, opt_effort, opt_text, opt_thinking,
    pi_reasoning_level, pi_thinking_level, reasoning_pi_level,
};
use crate::model::{
    is_model_ref, is_some_model_ref, lemma_model_ref_unique, lemma_model_value_roundtrip, model_of,
    parse_pi_model,
};
use crate::chat::EventView;
use crate::rpc::{kind_of, text_or, transition, SessionView};
use crate::text::{blank, is_blank, is_white_space, lemma_blank_iff_white, str_eq};

verus! {

/// A command of Pi's RPC protocol.
pub enum RpcCommand {
    SetModel { provider: String, model_id: String },
    SetThinkingLevel { level: String },
    GetState,
    Prompt { message: String },
    GetAvailableModels,
}

/// The view of an `RpcCommand`.
pub enum CommandView {
    SetModel { provider: Seq<char>, model_id: Seq<char> },
    SetThinkingLevel(Seq<char>),
    GetState,
    Prompt(Seq<char>),
    GetAvailableModels,
}

impl View for RpcCommand {
    type V = CommandView;

    open spec fn view(&self) -> CommandView {
        match self {
            RpcCommand::SetModel { provider, model_id } => CommandView::SetModel {
                provider: provider@,
                model_id: model_id@,
            },
            RpcCommand::SetThinkingLevel { level } => CommandView::SetThinkingLevel(level@),
            RpcCommand::GetState => CommandView::GetState,
            RpcCommand::Prompt { message } => CommandView::Prompt(message@),
            RpcCommand::GetAvailableModels => CommandView::GetAvailableModels,
        }
    }
}

/// The views of a list of commands.
pub open spec fn command_views(cs: Seq<RpcCommand>) -> Seq<CommandView> {
    cs.map_values(|c: RpcCommand| c@)
}

/// A string member.
pub open spec fn member(name: Seq<char>, text: Seq<char>) -> (Seq<char>, JsonView) {
    (name, JsonView::Str(text))
}

/// The JSON message of a command: its request id, its type, and its
/// arguments.
pub open spec fn command_json(c: CommandView) -> JsonView {
    match c {
        CommandView::SetModel { provider, model_id } => JsonView::Object(
            seq![
                member("id"@, "set-model"@),
                member("type"@, "set_model"@),
                member("provider"@, provider),
                member("modelId"@, model_id),
            ],
        ),
        CommandView::SetThinkingLevel(level) => JsonView::Object(
            seq![
                member("id"@, "set-thinking"@),
                member("type"@, "set_thinking_level"@),
                member("level"@, level),
            ],
        ),
        CommandView::GetState => JsonView::Object(
            seq![member("id"@, "state-before"@), member("type"@, "get_state"@)],
        ),
        CommandView::Prompt(message) => JsonView::Object(
            seq![member("id"@, "prompt"@), member("type"@, "prompt"@), member("message"@, message)],
        ),
        CommandView::GetAvailableModels => JsonView::Object(
            seq![member("id"@, "models"@), member("type"@, "get_available_models"@)],
        ),
    }
}

/// A string member, made.
fn make_member(name: &str, text: &str) -> (r: (String, Json))
    ensures
        r.0@ == name@,
        r.1@ == JsonView::Str(text@),
{
    (name.to_owned(), Json::Str(text.to_owned()))
}

/// An object of the given members.
fn make_object(entries: Vec<(String, Json)>) -> (r: Json)
    ensures
        r@ == JsonView::Object(view_entries(entries@)),
{
    Json::Object(entries)
}

/// Every command message is valid JSON: its member names differ.
pub proof fn lemma_command_json_valid(c: CommandView)
    ensures
        json_valid(command_json(c)),
{
    reveal_strlit("id");
    reveal_strlit("type");
    reveal_strlit("provider");
    reveal_strlit("modelId");
    reveal_strlit("level");
    reveal_strlit("message");
    assert("id"@.len() != "type"@.len());
    assert("id"@.len() != "provider"@.len());
    assert("id"@.len() != "modelId"@.len());
    assert("id"@.len() != "level"@.len());
    assert("id"@.len() != "message"@.len());
    assert("type"@.len() != "provider"@.len());
    assert("type"@.len() != "modelId"@.len());
    assert("type"@.len() != "level"@.len());
    assert("type"@.len() != "message"@.len());
    assert("provider"@.len() != "modelId"@.len());
    if let JsonView::Object(es) = command_json(c) {
        assert forall|i: int| 0 <= i < es.len() implies #[trigger] json_valid(es[i].1) by {
            assert(es[i].1 is Str);
        }
        assert forall|i: int, j: int| 0 <= i < j < es.len() implies #[trigger] es[i].0
            != #[trigger] es[j].0 by {
            assert(es[i].0.len() != es[j].0.len());
        }
        reveal_with_fuel(json_valid, 2);
        assert(json_valid(JsonView::Object(es)));
    }
}

impl RpcCommand {
    /// The JSON message that sends the command; it is valid JSON.
    pub fn to_json(&self) -> (r: Json)
        ensures
            r@ == command_json(self@),
            json_valid(r@),
    {
        proof {
            lemma_command_json_valid(self@);
        }
        let mut entries: Vec<(String, Json)> = Vec::new();
        match self {
            RpcCommand::SetModel { provider, model_id } => {
                entries.push(make_member("id", "set-model"));
                entries.push(make_member("type", "set_model"));
                entries.push(make_member("provider", provider.as_str()));
                entries.push(make_member("modelId", model_id.as_str()));
            },
            RpcCommand::SetThinkingLevel { level } => {
                entries.push(make_member("id", "set-thinking"));
                entries.push(make_member("type", "set_thinking_level"));
                entries.push(make_member("level", level.as_str()));
            },
            RpcCommand::GetState => {
                entries.push(make_member("id", "state-before"));
                entries.push(make_member("type", "get_state"));
            },
            RpcCommand::Prompt { message } => {
                entries.push(make_member("id", "prompt"));
                entries.push(make_member("type", "prompt"));
                entries.push(make_member("message", message.as_str()));
            },
            RpcCommand::GetAvailableModels => {
                entries.push(make_member("id", "models"));
                entries.push(make_member("type", "get_available_models"));
            },
        }
        proof {
            lemma_view_entries(entries@);
            assert(view_entries(entries@) =~= match command_json(self@) {
                JsonView::Object(e) => e,
                _ => Seq::empty(),
            });
        }
        make_object(entries)
    }

    /// The line (without its line feed) that sends the command: its JSON
    /// message printed compactly.
    pub fn to_line(&self) -> (r: String)
        ensures
            r@ == compact_json_text(command_json(self@)),
    {
        json_text(&self.to_json())
    }
}

/// The command that selects the model a setting names, where it names a Pi
/// model.
pub open spec fn model_commands(model: Option<Seq<char>>) -> Seq<CommandView> {
    match model {
        Some(s) => if is_some_model_ref(s) {
            let (p, m) = choose|p: Seq<char>, m: Seq<char>| is_model_ref(s, p, m);
            seq![CommandView::SetModel { provider: p, model_id: m }]
        } else {
            Seq::empty()
        },
        None => Seq::empty(),
    }
}

/// The command that sets a thinking level, where there is one.
pub open spec fn level_commands(level: Option<Seq<char>>) -> Seq<CommandView> {
    match level {
        Some(l) => seq![CommandView::SetThinkingLevel(l)],
        None => Seq::empty(),
    }
}

/// Appends the command that selects the model `model` names, where it names
/// a Pi model.
fn push_model_command(cmds: &mut Vec<RpcCommand>, model: Option<&str>)
    ensures
        command_views(final(cmds)@) == command_views(old(cmds)@) + model_commands(opt_text(model)),
{
    match parse_pi_model(model) {
        Some((provider, model_id)) => {
            proof {
                let s = model.unwrap()@;
                assert(is_model_ref(s, provider@, model_id@));
                let (p, m) = choose|p: Seq<char>, m: Seq<char>| is_model_ref(s, p, m);
                lemma_model_ref_unique(s, p, m, provider@, model_id@);
            }
            cmds.push(RpcCommand::SetModel { provider, model_id });
        },
        None => {},
    }
    assert(command_views(cmds@) =~= command_views(old(cmds)@) + model_commands(opt_text(model)));
}

/// Appends the command that sets `level`, where there is one.
fn push_level_command(cmds: &mut Vec<RpcCommand>, level: Option<&str>)
    ensures
        command_views(final(cmds)@) == command_views(old(cmds)@) + level_commands(opt_text(level)),
{
    if let Some(l) = level {
        cmds.push(RpcCommand::SetThinkingLevel { level: l.to_owned() });
    }
    assert(command_views(cmds@) =~= command_views(old(cmds)@) + level_commands(opt_text(level)));
}

/// The commands that start a chat turn: the model, where the setting names
/// a Pi model; the thinking level, where the settings give one; a state
/// request; and the prompt.
pub fn rpc_commands(
    model: Option<&str>,
    thinking_level: Option<&ThinkingLevel>,
    effort_level: Option<&EffortLevel>,
    prompt: &str,
) -> (r: Vec<RpcCommand>)
    ensures
        command_views(r@) == model_commands(opt_text(model)) + level_commands(
            chosen_pi_level(opt_thinking(thinking_level), opt_effort(effort_level)),
        ) + seq![CommandView::GetState, CommandView::Prompt(prompt@)],
{
    let mut cmds: Vec<RpcCommand> = Vec::new();
    assert(command_views(cmds@) =~= Seq::<CommandView>::empty());
    push_model_command(&mut cmds, model);
    push_level_command(&mut cmds, pi_thinking_level(thinking_level, effort_level));
    let ghost before = command_views(cmds@);
    cmds.push(RpcCommand::GetState);
    cmds.push(RpcCommand::Prompt { message: prompt.to_owned() });
    assert(command_views(cmds@) =~= before + seq![
        CommandView::GetState,
        CommandView::Prompt(prompt@),
    ]);
    cmds
}

/// The commands of a one-shot prompt: the model, where the setting names a
/// Pi model; the thinking level of the reasoning effort, where it names one;
/// and the prompt.
pub fn one_shot_commands(model: &str, reasoning_effort: Option<&str>, prompt: &str) -> (r: Vec<
    RpcCommand,
>)
    ensures
        command_views(r@) == model_commands(Some(model@)) + level_commands(
            match reasoning_effort {
                Some(e) => reasoning_pi_level(e@),
                None => None,
            },
        ) + seq![CommandView::Prompt(prompt@)],
{
    let mut cmds: Vec<RpcCommand> = Vec::new();
    assert(command_views(cmds@) =~= Seq::<CommandView>::empty());
    push_model_command(&mut cmds, Some(model));
    push_level_command(&mut cmds, pi_reasoning_level(reasoning_effort));
    let ghost before = command_views(cmds@);
    cmds.push(RpcCommand::Prompt { message: prompt.to_owned() });
    assert(command_views(cmds@) =~= before + seq![CommandView::Prompt(prompt@)]);
    cmds
}

/// The views of a list of strings.
pub open spec fn string_views(v: Seq<String>) -> Seq<Seq<char>> {
    v.map_values(|s: String| s@)
}

/// The arguments that put Pi in RPC mode.
pub open spec fn rpc_mode_args() -> Seq<Seq<char>> {
    seq!["--mode"@, "rpc"@]
}

/// The arguments that resume the Pi session `sid`, where it is not blank.
pub open spec fn session_args(sid: Option<Seq<char>>) -> Seq<Seq<char>> {
    match sid {
        Some(s) => if !is_blank(s) {
            seq!["--session"@, s]
        } else {
            Seq::empty()
        },
        None => Seq::empty(),
    }
}

/// The arguments that append a system prompt, where it is not blank.
pub open spec fn system_prompt_args(prompt: Option<Seq<char>>) -> Seq<Seq<char>> {
    match prompt {
        Some(p) => if !is_blank(p) {
            seq!["--append-system-prompt"@, p]
        } else {
            Seq::empty()
        },
        None => Seq::empty(),
    }
}

/// The tools of an execution mode (plan where none is given): read-only
/// tools for plan, those and the editing tools for build, Pi's own choice
/// for any other mode.
pub open spec fn tools_args(mode: Option<Seq<char>>) -> Seq<Seq<char>> {
    let m = text_or(mode, "plan"@);
    if m == "plan"@ {
        seq!["--tools"@, "read,grep,find,ls"@]
    } else if m == "build"@ {
        seq!["--tools"@, "read,grep,find,ls,edit,write"@]
    } else {
        Seq::empty()
    }
}

/// The arguments that put Pi in RPC mode.
pub fn rpc_mode_arguments() -> (r: Vec<String>)
    ensures
        string_views(r@) == rpc_mode_args(),
{
    let mut args: Vec<String> = Vec::new();
    args.push("--mode".to_owned());
    args.push("rpc".to_owned());
    assert(string_views(args@) =~= rpc_mode_args());
    args
}

/// The command line of a chat turn: RPC mode, the Pi session to resume, the
/// system prompt to append, and the tools of the execution mode.
pub fn rpc_args(
    existing_pi_session_id: Option<&str>,
    system_prompt: Option<&str>,
    execution_mode: Option<&str>,
) -> (r: Vec<String>)
    ensures
        string_views(r@) == rpc_mode_args() + session_args(opt_text(existing_pi_session_id))
            + system_prompt_args(opt_text(system_prompt)) + tools_args(opt_text(execution_mode)),
{
    let mut args = rpc_mode_arguments();
    let ghost a0 = string_views(args@);
    if let Some(sid) = existing_pi_session_id {
        if !blank(sid) {
            args.push("--session".to_owned());
            args.push(sid.to_owned());
        }
    }
    assert(string_views(args@) =~= a0 + session_args(opt_text(existing_pi_session_id)));
    let ghost a1 = string_views(args@);
    if let Some(p) = system_prompt {
        if !blank(p) {
            args.push("--append-system-prompt".to_owned());
            args.push(p.to_owned());
        }
    }
    assert(string_views(args@) =~= a1 + system_prompt_args(opt_text(system_prompt)));
    let ghost a2 = string_views(args@);
    let mode: &str = match execution_mode {
        Some(m) => m,
        None => "plan",
    };
    if str_eq(mode, "plan") {
        args.push("--tools".to_owned());
        args.push("read,grep,find,ls".to_owned());
    } else if str_eq(mode, "build") {
        args.push("--tools".to_owned());
        args.push("read,grep,find,ls,edit,write".to_owned());
    }
    assert(string_views(args@) =~= a2 + tools_args(opt_text(execution_mode)));
    args
}

/// A reply to the prompt command that does not report success ends the
/// turn with its error reported.
pub proof fn lemma_prompt_rejection_ends_turn(s: SessionView, message: Seq<char>, v: JsonView)
    requires
        kind_of(v) == "response"@,
        v.text_field("id"@) == command_json(CommandView::Prompt(message)).field("id"@).unwrap().as_text(),
        v.bool_field("success"@) != Some(true),
    ensures
        transition(s, v).stop,
        transition(s, v).state.error_emitted,
        !transition(s, v).state.prompt_accepted,
        transition(s, v).events == seq![EventView::Error(text_or(v.text_field("error"@), "pi rejected prompt"@))],
{
}

/// The reply to the model-list command is the line that the model list is
/// read from.
pub proof fn lemma_models_reply_recognized(v: JsonView)
    requires
        v.text_field("type"@) == Some("response"@),
        v.text_field("id"@) == command_json(CommandView::GetAvailableModels).field("id"@).unwrap().as_text(),
    ensures
        v.text_field("type"@) == Some("response"@) && v.text_field("id"@) == Some("models"@),
{
}

/// Picking a model from Pi's list selects that model: its value, where the
/// provider is non-empty and free of `/` and the id non-empty, gives the
/// command that sets that provider and model id.
pub proof fn lemma_listed_model_selectable(entry: JsonView)
    requires
        model_of(entry) is Some,
        model_of(entry).unwrap().provider.len() > 0,
        !model_of(entry).unwrap().provider.contains('/'),
        model_of(entry).unwrap().id.len() > 0,
    ensures
        model_commands(Some(model_of(entry).unwrap().value)) == seq![
            CommandView::SetModel {
                provider: model_of(entry).unwrap().provider,
                model_id: model_of(entry).unwrap().id,
            },
        ],
{
    let m = model_of(entry).unwrap();
    lemma_model_value_roundtrip(m, m.provider, m.id);
    assert(is_some_model_ref(m.value));
    let (p, i) = choose|p: Seq<char>, i: Seq<char>| is_model_ref(m.value, p, i);
    lemma_model_value_roundtrip(m, p, i);
}

/// Without a mode, and in plan mode, Pi gets the read-only tools; in build
/// mode the read-only and the editing tools; in any other mode no tool list.
pub proof fn lemma_tools_by_mode(mode: Seq<char>)
    ensures
        tools_args(None) == seq!["--tools"@, "read,grep,find,ls"@],
        tools_args(Some("plan"@)) == tools_args(None),
        tools_args(Some("build"@)) == seq!["--tools"@, "read,grep,find,ls,edit,write"@],
        mode != "plan"@ && mode != "build"@ ==> tools_args(Some(mode)).len() == 0,
{
    reveal_strlit("plan");
    reveal_strlit("build");
    assert("plan"@.len() != "build"@.len());
}

/// Every thinking level there is to send is sent, "off" included, and only
/// then: the level command is the one command that sets that level.
pub proof fn lemma_every_level_is_sent(level: Option<Seq<char>>)
    ensures
        level_commands(level).len() == if level is Some { 1int } else { 0int },
        level matches Some(l) ==> level_commands(level)[0] == CommandView::SetThinkingLevel(l),
{
}

/// The commands of a chat turn set the thinking level that the settings
/// choose, whatever it is, and set none where they choose none.
pub proof fn lemma_turn_sets_chosen_level(
    model: Option<Seq<char>>,
    thinking: Option<ThinkingLevel>,
    effort: Option<EffortLevel>,
    prompt: Seq<char>,
)
    ensures
        ({
            let cmds = model_commands(model) + level_commands(chosen_pi_level(thinking, effort))
                + seq![CommandView::GetState, CommandView::Prompt(prompt)];
            &&& chosen_pi_level(thinking, effort) matches Some(l) ==> cmds.contains(
                CommandView::SetThinkingLevel(l),
            )
            &&& chosen_pi_level(thinking, effort) is None ==> forall|i: int|
                0 <= i < cmds.len() ==> !(#[trigger] cmds[i] is SetThinkingLevel)
        }),
{
    let cmds = model_commands(model) + level_commands(chosen_pi_level(thinking, effort)) + seq![
        CommandView::GetState,
        CommandView::Prompt(prompt),
    ];
    let n = model_commands(model).len();
    if let Some(l) = chosen_pi_level(thinking, effort) {
        assert(cmds[n as int] == CommandView::SetThinkingLevel(l));
    } else {
        assert forall|i: int| 0 <= i < cmds.len() implies !(#[trigger] cmds[i] is SetThinkingLevel) by {
            if i < n {
                assert(cmds[i] == model_commands(model)[i]);
            }
        }
    }
}

/// A session id or a system prompt that holds a character other than white
/// space is passed on, under its flag; one that holds none is left out.
pub proof fn lemma_nonblank_args_passed(text: Seq<char>)
    ensures
        (exists|i: int| 0 <= i < text.len() && !is_white_space(#[trigger] text[i]))
            ==> session_args(Some(text)) == seq!["--session"@, text] && system_prompt_args(
            Some(text),
        ) == seq!["--append-system-prompt"@, text],
        (forall|i: int| 0 <= i < text.len() ==> is_white_space(#[trigger] text[i]))
            ==> session_args(Some(text)).len() == 0 && system_prompt_args(Some(text)).len() == 0,
        session_args(None).len() == 0,
        system_prompt_args(None).len() == 0,
{
    lemma_blank_iff_white(text);
}

} // verus!
