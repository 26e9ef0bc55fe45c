//! The argument types of the hand-written Discord tools, with the checks
//! and conversions their handlers make before calling Discord.
use vstd::prelude::*;

use crate::dispatch::{decimal, is_success, push_decimal};
use crate::json::Json;
use crate::jsontext::{pretty_text, to_json_pretty};
use crate::text::{owned, push_str};
use crate::util::{id_result, parse_id, IdError};

pub mod application_commands;
pub mod audit_log;
pub mod automod;
pub mod bans;
pub mod channels;
pub mod discovery;
pub mod emojis;
pub mod guild_settings;
pub mod guild_templates;
pub mod interactions;
pub mod invites;
pub mod members;
pub mod messages;
pub mod monetization;
pub mod permissions;
pub mod polls;
pub mod reactions;
pub mod roles;
pub mod scheduled_events;
pub mod soundboard;
pub mod stage_instances;
pub mod stickers;
pub mod threads;
pub mod users;
pub mod voice;
pub mod webhooks;

verus! {

/// A numeric argument that only takes a few listed values.
#[derive(Clone, Copy, Debug, PartialEq, Eq, Structural)]
pub enum CodeField {
    /// `event_type` of an auto-moderation rule.
    EventType,
    /// `trigger_type` of an auto-moderation rule.
    TriggerType,
    /// One of the keyword `presets` of an auto-moderation rule.
    Preset,
    /// `privacy_level` of a scheduled event or stage instance.
    PrivacyLevel,
    /// `entity_type` of a new scheduled event.
    EntityType,
    /// `entity_type` of a scheduled event being edited.
    NewEntityType,
    /// `status` of a scheduled event.
    Status,
    /// `response_type` of an interaction response.
    ResponseType,
    /// `channel_type` of a new channel.
    ChannelType,
    /// `thread_type` of a new thread.
    ThreadType,
}

/// An argument that the chosen kind of scheduled event cannot do without.
#[derive(Clone, Copy, Debug, PartialEq, Eq, Structural)]
pub enum Needed {
    /// The channel of a stage-instance event.
    StageChannel,
    /// The channel of a voice event.
    VoiceChannel,
    /// The location of an external event.
    Location,
    /// The end time of an external event.
    EndTime,
}

/// Which timestamp argument of a scheduled event.
#[derive(Clone, Copy, Debug, PartialEq, Eq, Structural)]
pub enum TimeField {
    /// `scheduled_start_time`.
    Start,
    /// `scheduled_end_time`.
    End,
}

/// Why a tool refused its arguments before anything was sent to Discord.
pub enum ToolError {
    /// A snowflake ID that does not parse; the text as given.
    BadId(String, IdError),
    /// A numeric code outside the listed values.
    BadCode(CodeField, u8),
    /// An argument that the chosen kind needs is missing.
    Missing(Needed),
    /// A timestamp that is not an ISO 8601 date and time; whether the
    /// message names the format.
    BadTimestamp(TimeField, bool),
    /// A permission overwrite target other than `role` or `member`.
    BadTargetType(String),
    /// A permission set that is not a decimal number.
    BadPermissions,
    /// A role's permission set that is not a decimal number.
    BadRolePermissions,
    /// An audit log `before` ID that is not a number; the text as given.
    BadBefore(String),
    /// An upload whose extension names no supported format.
    UnsupportedFormat,
    /// An upload that could not be read; why.
    FileUnreadable(String),
}

/// The name of a coded argument as the messages write it.
pub open spec fn code_name(f: CodeField) -> Seq<char> {
    match f {
        CodeField::EventType => "event_type"@,
        CodeField::TriggerType => "trigger_type"@,
        CodeField::Preset => "preset"@,
        CodeField::PrivacyLevel => "privacy_level"@,
        CodeField::EntityType => "entity_type"@,
        CodeField::NewEntityType => "entity_type"@,
        CodeField::Status => "status"@,
        CodeField::ResponseType => "response_type"@,
        CodeField::ChannelType => "channel_type"@,
        CodeField::ThreadType => "thread_type"@,
    }
}

/// What the messages add after the refused value: the values accepted.
pub open spec fn code_hint(f: CodeField) -> Seq<char> {
    match f {
        CodeField::EventType => ". Valid: 1=message_send"@,
        CodeField::TriggerType => ". Valid: 1=keyword, 3=spam, 4=keyword_preset, 5=mention_spam"@,
        CodeField::Preset => ". Valid: 1=profanity, 2=sexual_content, 3=slurs"@,
        CodeField::PrivacyLevel => ". Valid: 2=guild_only"@,
        CodeField::EntityType => ". Valid: 1=stage_instance, 2=voice, 3=external"@,
        CodeField::NewEntityType => ""@,
        CodeField::Status => ". Valid: 1=scheduled, 2=active, 3=completed, 4=canceled"@,
        CodeField::ResponseType => ". Valid: 1=pong, 4=channel_message, 5=deferred_channel_message, 6=deferred_update, 7=update_message"@,
        CodeField::ChannelType => ". Valid: 0=text, 2=voice, 4=category, 5=announcement, 13=stage, 15=forum"@,
        CodeField::ThreadType => ". Valid: 11=public, 12=private"@,
    }
}

/// The message for a missing argument.
pub open spec fn needed_text(n: Needed) -> Seq<char> {
    match n {
        Needed::StageChannel => "channel_id required for stage_instance entity type"@,
        Needed::VoiceChannel => "channel_id required for voice entity type"@,
        Needed::Location => "location required for external entity type"@,
        Needed::EndTime => "scheduled_end_time required for external entity type"@,
    }
}

/// The message for an unreadable timestamp.
pub open spec fn timestamp_text(f: TimeField, names_format: bool) -> Seq<char> {
    let name = match f {
        TimeField::Start => "Invalid scheduled_start_time"@,
        TimeField::End => "Invalid scheduled_end_time"@,
    };
    if names_format {
        name + " ISO8601 timestamp"@
    } else {
        name
    }
}

impl ToolError {
    /// The message a tool answers with for this error.
    pub open spec fn text(&self) -> Seq<char> {
        match self {
            ToolError::BadId(s, why) => match why {
                IdError::NotNumeric => "Invalid ID '"@ + s@ + "': must be a numeric snowflake ID"@,
                IdError::Zero => "ID must be non-zero"@,
            },
            ToolError::BadCode(f, v) => "Invalid "@ + code_name(*f) + " "@ + decimal(*v as nat)
                + code_hint(*f),
            ToolError::Missing(n) => needed_text(*n),
            ToolError::BadTimestamp(f, names_format) => timestamp_text(*f, *names_format),
            ToolError::BadTargetType(s) => "Invalid target_type '"@ + s@
                + "'. Must be 'role' or 'member'"@,
            ToolError::BadPermissions => "Permissions must be a decimal number string"@,
            ToolError::BadRolePermissions => "permissions must be a decimal number string"@,
            ToolError::BadBefore(s) => "Invalid ID '"@ + s@ + "'"@,
            ToolError::UnsupportedFormat => crate::util::unsupported_format_message(),
            ToolError::FileUnreadable(s) => "Failed to read file: "@ + s@,
        }
    }

    /// The message a tool answers with for this error.
    pub fn message(&self) -> (r: String)
        ensures
            r@ == self.text(),
    {
        match self {
            ToolError::BadId(s, why) => why.message(s.as_str()),
            ToolError::BadCode(f, v) => {
                let mut m = owned("Invalid ");
                push_str(&mut m, code_name_str(*f));
                push_str(&mut m, " ");
                push_decimal(&mut m, *v as u64);
                push_str(&mut m, code_hint_str(*f));
                m
            },
            ToolError::Missing(n) => owned(needed_str(*n)),
            ToolError::BadTimestamp(f, names_format) => {
                let mut m = match f {
                    TimeField::Start => owned("Invalid scheduled_start_time"),
                    TimeField::End => owned("Invalid scheduled_end_time"),
                };
                if *names_format {
                    push_str(&mut m, " ISO8601 timestamp");
                }
                m
            },
            ToolError::BadTargetType(s) => {
                let mut m = owned("Invalid target_type '");
                push_str(&mut m, s.as_str());
                push_str(&mut m, "'. Must be 'role' or 'member'");
                m
            },
            ToolError::BadPermissions => owned("Permissions must be a decimal number string"),
            ToolError::BadRolePermissions => owned("permissions must be a decimal number string"),
            ToolError::BadBefore(s) => {
                let mut m = owned("Invalid ID '");
                push_str(&mut m, s.as_str());
                push_str(&mut m, "'");
                m
            },
            ToolError::UnsupportedFormat => crate::util::unsupported_format_text(),
            ToolError::FileUnreadable(s) => prefixed("Failed to read file: ", s.as_str()),
        }
    }
}

fn code_name_str(f: CodeField) -> (r: &'static str)
    ensures
        r@ == code_name(f),
{
    match f {
        CodeField::EventType => "event_type",
        CodeField::TriggerType => "trigger_type",
        CodeField::Preset => "preset",
        CodeField::PrivacyLevel => "privacy_level",
        CodeField::EntityType => "entity_type",
        CodeField::NewEntityType => "entity_type",
        CodeField::Status => "status",
        CodeField::ResponseType => "response_type",
        CodeField::ChannelType => "channel_type",
        CodeField::ThreadType => "thread_type",
    }
}

fn code_hint_str(f: CodeField) -> (r: &'static str)
    ensures
        r@ == code_hint(f),
{
    match f {
        CodeField::EventType => ". Valid: 1=message_send",
        CodeField::TriggerType => ". Valid: 1=keyword, 3=spam, 4=keyword_preset, 5=mention_spam",
        CodeField::Preset => ". Valid: 1=profanity, 2=sexual_content, 3=slurs",
        CodeField::PrivacyLevel => ". Valid: 2=guild_only",
        CodeField::EntityType => ". Valid: 1=stage_instance, 2=voice, 3=external",
        CodeField::NewEntityType => "",
        CodeField::Status => ". Valid: 1=scheduled, 2=active, 3=completed, 4=canceled",
        CodeField::ResponseType => ". Valid: 1=pong, 4=channel_message, 5=deferred_channel_message, 6=deferred_update, 7=update_message",
        CodeField::ChannelType => ". Valid: 0=text, 2=voice, 4=category, 5=announcement, 13=stage, 15=forum",
        CodeField::ThreadType => ". Valid: 11=public, 12=private",
    }
}

fn needed_str(n: Needed) -> (r: &'static str)
    ensures
        r@ == needed_text(n),
{
    match n {
        Needed::StageChannel => "channel_id required for stage_instance entity type",
        Needed::VoiceChannel => "channel_id required for voice entity type",
        Needed::Location => "location required for external entity type",
        Needed::EndTime => "scheduled_end_time required for external entity type",
    }
}

/// Whether `r` is the refusal of the ID text `s` for the reason `why`.
pub open spec fn refused_id<T>(r: Result<T, ToolError>, s: Seq<char>, why: IdError) -> bool {
    r matches Err(ToolError::BadId(t, w)) && t@ == s && w == why
}

/// Parses a snowflake ID argument, refusing it as the tools do.
pub fn snowflake(s: &String) -> (r: Result<u64, ToolError>)
    ensures
        match id_result(s@) {
            Ok(v) => r == Ok::<u64, ToolError>(v),
            Err(why) => refused_id(r, s@, why),
        },
{
    match parse_id(s.as_str()) {
        Ok(v) => Ok(v),
        Err(why) => Err(ToolError::BadId(owned(s.as_str()), why)),
    }
}

/// The texts of a list of strings.
pub open spec fn string_views(v: Seq<String>) -> Seq<Seq<char>> {
    v.map_values(|s: String| s@)
}

/// The position of the first text in `ids` that is not a snowflake ID, or
/// the length of `ids` where every one is.
pub open spec fn first_bad_id(ids: Seq<Seq<char>>) -> int
    decreases ids.len(),
{
    if ids.len() == 0 {
        0
    } else if id_result(ids[0]) is Err {
        0
    } else {
        1 + first_bad_id(ids.drop_first())
    }
}

/// Whether `r` is what reading the list `ids` of snowflake IDs gives: the
/// refusal of the first that does not parse, else every ID in order.
pub open spec fn ids_read(ids: Seq<Seq<char>>, r: Result<Vec<u64>, ToolError>) -> bool {
    let k = first_bad_id(ids);
    if k < ids.len() {
        refused_id(r, ids[k], id_result(ids[k])->Err_0)
    } else {
        r matches Ok(v) && v@ == ids.map_values(|s: Seq<char>| id_result(s)->Ok_0)
    }
}

proof fn lemma_first_bad_id(ids: Seq<Seq<char>>, i: int)
    requires
        0 <= i <= ids.len(),
        forall|j: int| 0 <= j < i ==> id_result(#[trigger] ids[j]) is Ok,
    ensures
        first_bad_id(ids) == i + first_bad_id(ids.skip(i)),
    decreases i,
{
    if i == 0 {
        assert(ids.skip(0) == ids);
    } else {
        let d = ids.drop_first();
        assert forall|j: int| 0 <= j < i - 1 implies id_result(#[trigger] d[j]) is Ok by {
            assert(d[j] == ids[j + 1]);
        }
        lemma_first_bad_id(d, i - 1);
        assert(d.skip(i - 1) == ids.skip(i));
    }
}

/// Reads a list of snowflake IDs; the first that does not parse is refused.
pub fn snowflakes(ids: &Vec<String>) -> (r: Result<Vec<u64>, ToolError>)
    ensures
        ids_read(string_views(ids@), r),
{
    let ghost v = string_views(ids@);
    let mut out: Vec<u64> = Vec::new();
    let mut i: usize = 0;
    while i < ids.len()
        invariant
            i <= ids.len(),
            v == string_views(ids@),
            forall|j: int| 0 <= j < i ==> id_result(#[trigger] v[j]) is Ok,
            out@ == v.take(i as int).map_values(|s: Seq<char>| id_result(s)->Ok_0),
        decreases ids.len() - i,
    {
        match snowflake(&ids[i]) {
            Ok(x) => {
                out.push(x);
            },
            Err(e) => {
                proof {
                    lemma_first_bad_id(v, i as int);
                    assert(v.skip(i as int)[0] == v[i as int]);
                }
                return Err(e);
            },
        }
        i = i + 1;
        assert(out@ =~= v.take(i as int).map_values(|s: Seq<char>| id_result(s)->Ok_0));
    }
    proof {
        lemma_first_bad_id(v, i as int);
        assert(v.take(i as int) == v);
    }
    Ok(out)
}

/// The items of an optional list, none when it is absent.
pub open spec fn or_empty<T>(o: Option<Vec<T>>) -> Seq<T> {
    match o {
        Some(v) => v@,
        None => Seq::empty(),
    }
}

/// The items of an optional list, none when it is absent.
pub fn unwrap_list<T>(o: Option<Vec<T>>) -> (r: Vec<T>)
    ensures
        r@ == or_empty(o),
{
    match o {
        Some(v) => v,
        None => Vec::new(),
    }
}


/// What a tool answers once it has called Discord.
pub enum ToolOutcome {
    /// A successful result with this text.
    Success(String),
    /// A result marked as an error, with this text for the model to read.
    Failure(String),
    /// An internal error of the server, with this message.
    Internal(String),
}

/// Whether `r` is a successful result with the text `t`.
pub open spec fn succeeds_with(r: ToolOutcome, t: Seq<char>) -> bool {
    r matches ToolOutcome::Success(x) && x@ == t
}

/// Whether `r` is an error result with the text `t`.
pub open spec fn fails_with(r: ToolOutcome, t: Seq<char>) -> bool {
    r matches ToolOutcome::Failure(x) && x@ == t
}

/// A successful result with a plain message.
pub fn text_result(msg: &str) -> (r: ToolOutcome)
    ensures
        succeeds_with(r, msg@),
{
    ToolOutcome::Success(owned(msg))
}

/// A successful result holding a value as pretty-printed JSON.
pub fn json_result(value: &Json) -> (r: ToolOutcome)
    ensures
        succeeds_with(r, pretty_text(value@, Seq::empty())),
{
    ToolOutcome::Success(to_json_pretty(value))
}

fn prefixed(prefix: &str, detail: &str) -> (r: String)
    ensures
        r@ == prefix@ + detail@,
{
    let mut m = owned(prefix);
    push_str(&mut m, detail);
    m
}

/// The error result for a failed Discord call, given the error's text.
pub fn discord_api_error(detail: &str) -> (r: ToolOutcome)
    ensures
        fails_with(r, "Discord API error: "@ + detail@),
{
    ToolOutcome::Failure(prefixed("Discord API error: ", detail))
}

/// The error result for a reply that could not be read, given why.
pub fn deserialize_error(detail: &str) -> (r: ToolOutcome)
    ensures
        fails_with(r, "Failed to deserialize Discord response: "@ + detail@),
{
    ToolOutcome::Failure(prefixed("Failed to deserialize Discord response: ", detail))
}

/// An error result with a message of its own.
pub fn raw_error(msg: &str) -> (r: ToolOutcome)
    ensures
        fails_with(r, msg@),
{
    ToolOutcome::Failure(owned(msg))
}

/// The text of an HTTP status as `reqwest::StatusCode` displays it, e.g.
/// `404 Not Found`.
pub uninterp spec fn status_display(status: u16) -> Seq<char>;

/// The display text of an HTTP status.
///
/// Trusted: `reqwest::StatusCode::from_u16` (http's), which accepts the
/// codes 100 to 999, then its `Display`, which writes the number, a space
/// and the code's canonical reason (`<unknown status code>` where it has
/// none). The contract only names the text: it depends on the code alone.
#[verifier::external_body]
fn status_text(status: u16) -> (r: String)
    requires
        100 <= status <= 999,
    ensures
        r@ == status_display(status),
{
    match reqwest::StatusCode::from_u16(status) {
        Ok(code) => code.to_string(),
        Err(_) => String::new(),
    }
}

/// Discord's answer to a request sent to it directly over HTTP.
pub enum RawReply {
    /// A success (2xx) status, with the body read as JSON, or the reason it
    /// could not be.
    Success(Result<Json, String>),
    /// Any other status (100 to 999), with the body's text.
    Status(u16, String),
    /// No answer: the reason the request failed.
    Unsent(String),
}

/// Whether the body of a direct reply with this status is read as JSON (a
/// success status) rather than as text.
pub fn wants_json_body(status: u16) -> (r: bool)
    ensures
        r == is_success(status),
{
    200 <= status && status <= 299
}

/// What a tool that returns Discord's JSON answers for a direct reply: the
/// JSON, pretty-printed; an internal error where a success body is not JSON;
/// the status and text of any other reply; or why the request failed.
pub open spec fn raw_json_answers(reply: RawReply, r: ToolOutcome) -> bool {
    match reply {
        RawReply::Success(Ok(data)) => succeeds_with(r, pretty_text(data@, Seq::empty())),
        RawReply::Success(Err(why)) => r matches ToolOutcome::Internal(x) && x@ == "JSON parse error: "@
            + why@,
        RawReply::Status(status, text) => fails_with(
            r,
            "Discord API error ("@ + status_display(status) + "): "@ + text@,
        ),
        RawReply::Unsent(why) => fails_with(r, "Request error: "@ + why@),
    }
}

/// The answer of a tool that returns Discord's JSON, from a direct reply.
pub fn raw_json_result(reply: RawReply) -> (r: ToolOutcome)
    requires
        reply matches RawReply::Status(status, _) ==> 100 <= status <= 999,
    ensures
        raw_json_answers(reply, r),
{
    match reply {
        RawReply::Success(Ok(data)) => json_result(&data),
        RawReply::Success(Err(why)) => ToolOutcome::Internal(prefixed("JSON parse error: ", why.as_str())),
        RawReply::Status(status, text) => {
            let mut m = owned("Discord API error (");
            push_str(&mut m, status_text(status).as_str());
            push_str(&mut m, "): ");
            push_str(&mut m, text.as_str());
            ToolOutcome::Failure(m)
        },
        RawReply::Unsent(why) => ToolOutcome::Failure(prefixed("Request error: ", why.as_str())),
    }
}


/// What a tool that returns a Discord object answers for the outcome of its
/// call through the Discord client: the call's error, the reason the reply
/// could not be read, or the object as pretty-printed JSON.
pub open spec fn client_json_answers(reply: Result<Result<Json, String>, String>, r: ToolOutcome) -> bool {
    match reply {
        Err(why) => fails_with(r, "Discord API error: "@ + why@),
        Ok(Err(why)) => fails_with(r, "Failed to deserialize Discord response: "@ + why@),
        Ok(Ok(value)) => succeeds_with(r, pretty_text(value@, Seq::empty())),
    }
}

/// The answer of a tool that returns a Discord object, from the outcome of
/// its call: `Err` where the call failed, else the object read from the reply
/// (`Err` where it could not be read).
pub fn client_json_result(reply: Result<Result<Json, String>, String>) -> (r: ToolOutcome)
    ensures
        client_json_answers(reply, r),
{
    match reply {
        Err(why) => discord_api_error(why.as_str()),
        Ok(Err(why)) => deserialize_error(why.as_str()),
        Ok(Ok(value)) => json_result(&value),
    }
}

/// The answer of a tool that reports success with a fixed message, from the
/// outcome of its call: the message, or the call's error.
pub fn client_message_result(reply: Result<(), String>, msg: &str) -> (r: ToolOutcome)
    ensures
        match reply {
            Ok(()) => succeeds_with(r, msg@),
            Err(why) => fails_with(r, "Discord API error: "@ + why@),
        },
{
    match reply {
        Ok(()) => text_result(msg),
        Err(why) => discord_api_error(why.as_str()),
    }
}

/// The answer of a tool that reports success with a fixed message, from a
/// direct reply: the message for a success status (whose body is not read),
/// the status and text of any other reply, or why the request failed.
pub fn raw_message_result(reply: RawReply, msg: &str) -> (r: ToolOutcome)
    requires
        reply matches RawReply::Status(status, _) ==> 100 <= status <= 999,
    ensures
        match reply {
            RawReply::Success(_) => succeeds_with(r, msg@),
            RawReply::Status(status, text) => fails_with(
                r,
                "Discord API error ("@ + status_display(status) + "): "@ + text@,
            ),
            RawReply::Unsent(why) => fails_with(r, "Request error: "@ + why@),
        },
{
    match reply {
        RawReply::Success(_) => text_result(msg),
        other => {
            let r = raw_json_result(other);
            r
        },
    }
}

} // verus!
