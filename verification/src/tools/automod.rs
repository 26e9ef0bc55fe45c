use vstd::prelude::*;

use crate::tools::{or_empty, refused_id, snowflake, unwrap_list, CodeField, ToolError};
use crate::util::id_result;

verus! {

/// The arguments of the `list_automod_rules` tool.
pub struct ListAutomodRulesParams {
    /// The guild (server) ID
    pub guild_id: String,
}

/// The arguments of the `get_automod_rule` tool.
pub struct GetAutomodRuleParams {
    /// The guild (server) ID
    pub guild_id: String,
    /// The auto-moderation rule ID
    pub rule_id: String,
}

/// The arguments of the `delete_automod_rule` tool.
pub struct DeleteAutomodRuleParams {
    /// The guild (server) ID
    pub guild_id: String,
    /// The auto-moderation rule ID
    pub rule_id: String,
}

/// The arguments of the `create_automod_rule` tool.
pub struct CreateAutomodRuleParams {
    /// The guild (server) ID
    pub guild_id: String,
    /// Rule name
    pub name: String,
    /// Event type: 1=message_send
    pub event_type: u8,
    /// Trigger type: 1=keyword, 3=spam, 4=keyword_preset, 5=mention_spam
    pub trigger_type: u8,
    /// List of keywords to match (for trigger_type 1)
    pub keyword_filter: Option<Vec<String>>,
    /// List of regex patterns to match (for trigger_type 1)
    pub regex_patterns: Option<Vec<String>>,
    /// Allow list of keywords exempt from triggering (for trigger_type 1 and 4)
    pub allow_list: Option<Vec<String>>,
    /// Keyword preset IDs (for trigger_type 4): 1=profanity, 2=sexual_content, 3=slurs
    pub presets: Option<Vec<u8>>,
    /// Total number of mentions allowed before triggering (for trigger_type 5)
    pub mention_total_limit: Option<u8>,
    /// Whether the rule is enabled
    pub enabled: Option<bool>,
}

/// The arguments of the `update_automod_rule` tool.
pub struct UpdateAutomodRuleParams {
    /// The guild (server) ID
    pub guild_id: String,
    /// The auto-moderation rule ID
    pub rule_id: String,
    /// New rule name
    pub name: Option<String>,
    /// New event type: 1=message_send
    pub event_type: Option<u8>,
    /// New keyword filter list (for keyword trigger type)
    pub keyword_filter: Option<Vec<String>>,
    /// New regex patterns (for keyword trigger type)
    pub regex_patterns: Option<Vec<String>>,
    /// Allow list of keywords exempt from triggering
    pub allow_list: Option<Vec<String>>,
    /// Whether the rule is enabled
    pub enabled: Option<bool>,
}

/// A keyword list that Discord maintains.
#[derive(Clone, Copy, Debug, PartialEq, Eq, Structural)]
pub enum KeywordPreset {
    /// Words that may be considered forms of swearing or cursing (code 1).
    Profanity,
    /// Words that refer to sexually explicit behaviour or activity (code 2).
    SexualContent,
    /// Personal insults or words that may be considered hate speech (code 3).
    Slurs,
}

/// The preset that a code names, if any.
pub open spec fn preset_of(code: u8) -> Option<KeywordPreset> {
    if code == 1 {
        Some(KeywordPreset::Profanity)
    } else if code == 2 {
        Some(KeywordPreset::SexualContent)
    } else if code == 3 {
        Some(KeywordPreset::Slurs)
    } else {
        None
    }
}

/// The first code in `codes` that names no preset.
pub open spec fn first_bad_preset(codes: Seq<u8>) -> Option<u8>
    decreases codes.len(),
{
    if codes.len() == 0 {
        None
    } else if preset_of(codes[0]) is None {
        Some(codes[0])
    } else {
        first_bad_preset(codes.drop_first())
    }
}

/// What sets a new rule off, with what it matches.
pub enum AutomodTrigger {
    /// Code 1: words and patterns in a message.
    Keyword { keyword_filter: Vec<String>, regex_patterns: Vec<String>, allow_list: Vec<String> },
    /// Code 3: content that Discord judges to be spam.
    Spam,
    /// Code 4: words from Discord's preset lists.
    KeywordPreset { presets: Vec<KeywordPreset>, allow_list: Vec<String> },
    /// Code 5: too many mentions in one message.
    MentionSpam { mention_total_limit: u8 },
}

/// A new auto-moderation rule as it is sent: it fires on sent messages and
/// blocks the message.
pub struct AutomodRuleCreate {
    pub guild_id: u64,
    pub name: String,
    pub enabled: Option<bool>,
    pub trigger: AutomodTrigger,
}

/// Whether `t` is the trigger that the arguments ask for.
pub open spec fn trigger_built(t: AutomodTrigger, p: CreateAutomodRuleParams) -> bool {
    match t {
        AutomodTrigger::Keyword { keyword_filter, regex_patterns, allow_list } => {
            &&& p.trigger_type == 1
            &&& keyword_filter@ == or_empty(p.keyword_filter)
            &&& regex_patterns@ == or_empty(p.regex_patterns)
            &&& allow_list@ == or_empty(p.allow_list)
        },
        AutomodTrigger::Spam => p.trigger_type == 3,
        AutomodTrigger::KeywordPreset { presets, allow_list } => {
            &&& p.trigger_type == 4
            &&& presets@ == or_empty(p.presets).map_values(|c: u8| preset_of(c).unwrap())
            &&& allow_list@ == or_empty(p.allow_list)
        },
        AutomodTrigger::MentionSpam { mention_total_limit } => {
            &&& p.trigger_type == 5
            &&& mention_total_limit == match p.mention_total_limit {
                Some(n) => n,
                None => 5u8,
            }
        },
    }
}

/// Reads keyword preset codes; the first code that names no preset is refused.
pub fn presets_from_codes(codes: &Vec<u8>) -> (r: Result<Vec<KeywordPreset>, ToolError>)
    ensures
        match first_bad_preset(codes@) {
            Some(c) => r == Err::<Vec<KeywordPreset>, ToolError>(
                ToolError::BadCode(CodeField::Preset, c),
            ),
            None => r matches Ok(ps) && ps@ == codes@.map_values(|c: u8| preset_of(c).unwrap()),
        },
{
    let mut out: Vec<KeywordPreset> = Vec::new();
    let mut i: usize = 0;
    assert(codes@.skip(0) == codes@);
    while i < codes.len()
        invariant
            i <= codes.len(),
            first_bad_preset(codes@) == first_bad_preset(codes@.skip(i as int)),
            out@ == codes@.take(i as int).map_values(|c: u8| preset_of(c).unwrap()),
        decreases codes.len() - i,
    {
        let c = codes[i];
        assert(codes@.skip(i as int)[0] == c);
        assert(codes@.skip(i as int).drop_first() == codes@.skip(i + 1));
        let p = if c == 1 {
            KeywordPreset::Profanity
        } else if c == 2 {
            KeywordPreset::SexualContent
        } else if c == 3 {
            KeywordPreset::Slurs
        } else {
            return Err(ToolError::BadCode(CodeField::Preset, c));
        };
        out.push(p);
        i = i + 1;
        assert(out@ =~= codes@.take(i as int).map_values(|c: u8| preset_of(c).unwrap()));
    }
    assert(codes@.take(i as int) == codes@);
    assert(codes@.skip(i as int).len() == 0);
    Ok(out)
}

/// Checks the arguments of `create_automod_rule` and builds the rule, in the
/// order the tool checks them: the guild ID, the event type, the trigger type
/// and, for a preset trigger, each preset code. Absent lists count as empty;
/// an absent mention limit is 5.
pub fn create_automod_rule(params: CreateAutomodRuleParams) -> (r: Result<
    AutomodRuleCreate,
    ToolError,
>)
    ensures
        match id_result(params.guild_id@) {
            Err(why) => refused_id(r, params.guild_id@, why),
            Ok(g) => if params.event_type != 1 {
                r == Err::<AutomodRuleCreate, ToolError>(
                    ToolError::BadCode(CodeField::EventType, params.event_type),
                )
            } else if !(params.trigger_type == 1 || params.trigger_type == 3
                || params.trigger_type == 4 || params.trigger_type == 5) {
                r == Err::<AutomodRuleCreate, ToolError>(
                    ToolError::BadCode(CodeField::TriggerType, params.trigger_type),
                )
            } else if params.trigger_type == 4 && first_bad_preset(or_empty(params.presets))
                is Some {
                r == Err::<AutomodRuleCreate, ToolError>(
                    ToolError::BadCode(
                        CodeField::Preset,
                        first_bad_preset(or_empty(params.presets))->0,
                    ),
                )
            } else {
                r matches Ok(rule) && rule.guild_id == g && rule.name == params.name
                    && rule.enabled == params.enabled && trigger_built(rule.trigger, params)
            },
        },
{
    let ghost p = params;
    let guild_id = snowflake(&params.guild_id)?;
    if params.event_type != 1 {
        return Err(ToolError::BadCode(CodeField::EventType, params.event_type));
    }
    let CreateAutomodRuleParams {
        guild_id: _,
        name,
        event_type: _,
        trigger_type,
        keyword_filter,
        regex_patterns,
        allow_list,
        presets,
        mention_total_limit,
        enabled,
    } = params;
    let trigger = if trigger_type == 1 {
        AutomodTrigger::Keyword {
            keyword_filter: unwrap_list(keyword_filter),
            regex_patterns: unwrap_list(regex_patterns),
            allow_list: unwrap_list(allow_list),
        }
    } else if trigger_type == 3 {
        AutomodTrigger::Spam
    } else if trigger_type == 4 {
        let codes = unwrap_list(presets);
        let presets = presets_from_codes(&codes)?;
        AutomodTrigger::KeywordPreset { presets, allow_list: unwrap_list(allow_list) }
    } else if trigger_type == 5 {
        let limit: u8 = match mention_total_limit {
            Some(n) => n,
            None => 5,
        };
        AutomodTrigger::MentionSpam { mention_total_limit: limit }
    } else {
        return Err(ToolError::BadCode(CodeField::TriggerType, trigger_type));
    };
    let rule = AutomodRuleCreate { guild_id, name, enabled, trigger };
    assert(trigger_built(rule.trigger, p));
    Ok(rule)
}

/// What the keyword lists of a rule become: set only when at least one of
/// them is given, each list as given.
pub struct TriggerMetadata {
    pub allow_list: Option<Vec<String>>,
    pub keyword_filter: Option<Vec<String>>,
    pub regex_patterns: Option<Vec<String>>,
}

/// The changes to an auto-moderation rule as they are sent.
pub struct AutomodRuleUpdate {
    pub guild_id: u64,
    pub rule_id: u64,
    pub name: Option<String>,
    /// Whether the event type is set (to sent messages, the only one).
    pub message_send: bool,
    pub trigger_metadata: Option<TriggerMetadata>,
    pub enabled: Option<bool>,
}

/// Checks the arguments of `update_automod_rule` and builds the changes, in
/// the order the tool checks them: the guild ID, the rule ID, the event type.
pub fn update_automod_rule(params: UpdateAutomodRuleParams) -> (r: Result<
    AutomodRuleUpdate,
    ToolError,
>)
    ensures
        match id_result(params.guild_id@) {
            Err(why) => refused_id(r, params.guild_id@, why),
            Ok(g) => match id_result(params.rule_id@) {
                Err(why) => refused_id(r, params.rule_id@, why),
                Ok(rid) => if params.event_type is Some && params.event_type->0 != 1 {
                    r == Err::<AutomodRuleUpdate, ToolError>(
                        ToolError::BadCode(CodeField::EventType, params.event_type->0),
                    )
                } else {
                    r matches Ok(u) && u.guild_id == g && u.rule_id == rid
                        && u.name == params.name
                        && u.message_send == params.event_type is Some
                        && u.enabled == params.enabled
                        && if params.keyword_filter is Some || params.regex_patterns is Some
                            || params.allow_list is Some {
                            u.trigger_metadata matches Some(m)
                                && m.allow_list == params.allow_list
                                && m.keyword_filter == params.keyword_filter
                                && m.regex_patterns == params.regex_patterns
                        } else {
                            u.trigger_metadata is None
                        }
                },
            },
        },
{
    let guild_id = snowflake(&params.guild_id)?;
    let rule_id = snowflake(&params.rule_id)?;
    let message_send = match params.event_type {
        Some(et) => {
            if et != 1 {
                return Err(ToolError::BadCode(CodeField::EventType, et));
            }
            true
        },
        None => false,
    };
    let UpdateAutomodRuleParams {
        guild_id: _,
        rule_id: _,
        name,
        event_type: _,
        keyword_filter,
        regex_patterns,
        allow_list,
        enabled,
    } = params;
    let trigger_metadata = if keyword_filter.is_some() || regex_patterns.is_some()
        || allow_list.is_some() {
        Some(TriggerMetadata { allow_list, keyword_filter, regex_patterns })
    } else {
        None
    };
    Ok(AutomodRuleUpdate { guild_id, rule_id, name, message_send, trigger_metadata, enabled })
}


/// What `create_automod_rule` answers once Discord has been called: the rule created as
/// pretty-printed JSON, the reason Discord's reply could not be read, or the
/// call's error.
pub fn create_automod_rule_result(
    reply: Result<Result<crate::json::Json, String>, String>,
) -> (r: crate::tools::ToolOutcome)
    ensures
        crate::tools::client_json_answers(reply, r),
{
    crate::tools::client_json_result(reply)
}

/// What `update_automod_rule` answers once Discord has been called: the rule as changed as
/// pretty-printed JSON, the reason Discord's reply could not be read, or the
/// call's error.
pub fn update_automod_rule_result(
    reply: Result<Result<crate::json::Json, String>, String>,
) -> (r: crate::tools::ToolOutcome)
    ensures
        crate::tools::client_json_answers(reply, r),
{
    crate::tools::client_json_result(reply)
}

} // verus!
