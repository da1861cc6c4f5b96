//! The thinking levels that Pi accepts, and how the app's thinking and
//! effort settings map onto them.

use vstd::prelude::*;
use crate::text::str_eq;

verus! {

/// The app's thinking setting.
#[derive(Clone, Copy, Debug, PartialEq, Eq, Structural)]
pub enum ThinkingLevel {
    Off,
    Think,
    Megathink,
    Ultrathink,
}

/// The app's effort setting.
#[derive(Clone, Copy, Debug, PartialEq, Eq, Structural)]
pub enum EffortLevel {
    Off,
    Low,
    Medium,
    High,
    Xhigh,
    Max,
}

/// The view of an optional borrowed string.
pub open spec fn opt_text(o: Option<&str>) -> Option<Seq<char>> {
    match o {
        Some(s) => Some(s@),
        None => None,
    }
}

/// The five levels of `set_thinking_level` that Pi knows.
pub open spec fn is_pi_level(s: Seq<char>) -> bool {
    ||| s == "off"@
    ||| s == "low"@
    ||| s == "medium"@
    ||| s == "high"@
    ||| s == "xhigh"@
}

/// Pi's level for an effort setting.
pub open spec fn effort_pi_level(e: EffortLevel) -> Seq<char> {
    match e {
        EffortLevel::Off => "off"@,
        EffortLevel::Low => "low"@,
        EffortLevel::Medium => "medium"@,
        EffortLevel::High => "high"@,
        EffortLevel::Xhigh => "xhigh"@,
        EffortLevel::Max => "xhigh"@,
    }
}

/// Pi's level for a thinking setting.
pub open spec fn thinking_pi_level(t: ThinkingLevel) -> Seq<char> {
    match t {
        ThinkingLevel::Off => "off"@,
        ThinkingLevel::Think => "low"@,
        ThinkingLevel::Megathink => "high"@,
        ThinkingLevel::Ultrathink => "xhigh"@,
    }
}

/// The level to send for a pair of settings: the effort setting where there
/// is one, else the thinking setting, else none.
pub open spec fn chosen_pi_level(thinking: Option<ThinkingLevel>, effort: Option<EffortLevel>) -> Option<Seq<char>> {
    match effort {
        Some(e) => Some(effort_pi_level(e)),
        None => match thinking {
            Some(t) => Some(thinking_pi_level(t)),
            None => None,
        },
    }
}

/// Pi's level for a reasoning-effort name: the five level names stand for
/// themselves, "max" stands for "xhigh", any other name for none.
pub open spec fn reasoning_pi_level(effort: Seq<char>) -> Option<Seq<char>> {
    if effort == "low"@ {
        Some("low"@)
    } else if effort == "medium"@ {
        Some("medium"@)
    } else if effort == "high"@ {
        Some("high"@)
    } else if effort == "xhigh"@ || effort == "max"@ {
        Some("xhigh"@)
    } else if effort == "off"@ {
        Some("off"@)
    } else {
        None
    }
}

/// The view of an optional borrowed setting.
pub open spec fn opt_thinking(o: Option<&ThinkingLevel>) -> Option<ThinkingLevel> {
    match o {
        Some(t) => Some(*t),
        None => None,
    }
}

/// The view of an optional borrowed setting.
pub open spec fn opt_effort(o: Option<&EffortLevel>) -> Option<EffortLevel> {
    match o {
        Some(e) => Some(*e),
        None => None,
    }
}

/// The thinking level to send to Pi for the app's thinking and effort
/// settings; the effort setting takes precedence.
pub fn pi_thinking_level(
    thinking_level: Option<&ThinkingLevel>,
    effort_level: Option<&EffortLevel>,
) -> (r: Option<&'static str>)
    ensures
        opt_text(r) == chosen_pi_level(opt_thinking(thinking_level), opt_effort(effort_level)),
{
    if let Some(effort) = effort_level {
        return match effort {
            EffortLevel::Off => Some("off"),
            EffortLevel::Low => Some("low"),
            EffortLevel::Medium => Some("medium"),
            EffortLevel::High => Some("high"),
            EffortLevel::Xhigh => Some("xhigh"),
            EffortLevel::Max => Some("xhigh"),
        };
    }
    match thinking_level {
        Some(ThinkingLevel::Off) => Some("off"),
        Some(ThinkingLevel::Think) => Some("low"),
        Some(ThinkingLevel::Megathink) => Some("high"),
        Some(ThinkingLevel::Ultrathink) => Some("xhigh"),
        None => None,
    }
}

/// The thinking level to send to Pi for a reasoning-effort name.
pub fn pi_reasoning_level(reasoning_effort: Option<&str>) -> (r: Option<&'static str>)
    ensures
        opt_text(r) == match reasoning_effort {
            Some(e) => reasoning_pi_level(e@),
            None => None,
        },
{
    let effort = match reasoning_effort {
        Some(e) => e,
        None => return None,
    };
    if str_eq(effort, "low") {
        Some("low")
    } else if str_eq(effort, "medium") {
        Some("medium")
    } else if str_eq(effort, "high") {
        Some("high")
    } else if str_eq(effort, "xhigh") || str_eq(effort, "max") {
        Some("xhigh")
    } else if str_eq(effort, "off") {
        Some("off")
    } else {
        None
    }
}

/// Every level that the settings map to is one of Pi's five levels.
pub proof fn lemma_chosen_level_is_pi_level(thinking: Option<ThinkingLevel>, effort: Option<EffortLevel>)
    ensures
        chosen_pi_level(thinking, effort) matches Some(l) ==> is_pi_level(l),
{
}

/// A reasoning-effort name that is one of Pi's levels is sent as that level.
pub proof fn lemma_pi_level_names_itself(level: Seq<char>)
    requires
        is_pi_level(level),
    ensures
        reasoning_pi_level(level) == Some(level),
{
    reveal_strlit("off");
    reveal_strlit("low");
    reveal_strlit("medium");
    reveal_strlit("high");
    reveal_strlit("xhigh");
    reveal_strlit("max");
    assert("off"@[0] != "low"@[0]);
    assert("off"@.len() != "medium"@.len());
    assert("off"@.len() != "high"@.len());
    assert("off"@.len() != "xhigh"@.len());
    assert("off"@[0] != "max"@[0]);
    assert("high"@.len() != "low"@.len());
    assert("high"@.len() != "medium"@.len());
    assert("xhigh"@.len() != "low"@.len());
    assert("xhigh"@.len() != "medium"@.len());
    assert("xhigh"@.len() != "high"@.len());
    assert("medium"@.len() != "low"@.len());
}

/// The two mappings agree: the level chosen for thinking and effort
/// settings, given back as a reasoning-effort name, is sent unchanged.
pub proof fn lemma_levels_agree(thinking: Option<ThinkingLevel>, effort: Option<EffortLevel>)
    ensures
        chosen_pi_level(thinking, effort) matches Some(l) ==> reasoning_pi_level(l) == Some(l),
{
    if let Some(l) = chosen_pi_level(thinking, effort) {
        lemma_pi_level_names_itself(l);
    }
}

/// An effort setting decides the level whatever the thinking setting is:
/// off gives "off", low "low", medium "medium", high "high", and xhigh and
/// max give "xhigh". Without one, the thinking setting decides: off gives
/// "off", think "low", megathink "high", ultrathink "xhigh"; with neither,
/// no level is sent.
pub proof fn lemma_effort_takes_precedence(thinking: Option<ThinkingLevel>, e: EffortLevel)
    ensures
        chosen_pi_level(thinking, Some(e)) == chosen_pi_level(None, Some(e)),
        chosen_pi_level(thinking, Some(EffortLevel::Off)) == Some("off"@),
        chosen_pi_level(thinking, Some(EffortLevel::Low)) == Some("low"@),
        chosen_pi_level(thinking, Some(EffortLevel::Medium)) == Some("medium"@),
        chosen_pi_level(thinking, Some(EffortLevel::High)) == Some("high"@),
        chosen_pi_level(thinking, Some(EffortLevel::Xhigh)) == Some("xhigh"@),
        chosen_pi_level(thinking, Some(EffortLevel::Max)) == Some("xhigh"@),
        chosen_pi_level(Some(ThinkingLevel::Off), None) == Some("off"@),
        chosen_pi_level(Some(ThinkingLevel::Think), None) == Some("low"@),
        chosen_pi_level(Some(ThinkingLevel::Megathink), None) == Some("high"@),
        chosen_pi_level(Some(ThinkingLevel::Ultrathink), None) == Some("xhigh"@),
        chosen_pi_level(None, None) is None,
{
}

/// A reasoning-effort name gives a level exactly when it is one of Pi's
/// five levels, which stand for themselves, or "max", which stands for
/// "xhigh".
pub proof fn lemma_reasoning_names(effort: Seq<char>)
    ensures
        reasoning_pi_level(effort) is Some <==> (is_pi_level(effort) || effort == "max"@),
        is_pi_level(effort) ==> reasoning_pi_level(effort) == Some(effort),
        effort == "max"@ ==> reasoning_pi_level(effort) == Some("xhigh"@),
        reasoning_pi_level(effort) matches Some(l) ==> is_pi_level(l),
{
    if is_pi_level(effort) {
        lemma_pi_level_names_itself(effort);
    }
    reveal_strlit("off");
    reveal_strlit("low");
    reveal_strlit("medium");
    reveal_strlit("high");
    reveal_strlit("xhigh");
    reveal_strlit("max");
    assert("max"@[0] != "low"@[0]);
    assert("max"@[0] != "off"@[0]);
    assert("max"@.len() != "medium"@.len());
    assert("max"@.len() != "high"@.len());
    assert("max"@.len() != "xhigh"@.len());
}

} // verus!
