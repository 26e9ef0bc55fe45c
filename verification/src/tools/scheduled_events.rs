use vstd::prelude::*;

use crate::tools::{refused_id, snowflake, CodeField, Needed, TimeField, ToolError};
use crate::util::id_result;

verus! {

/// The arguments of the `list_scheduled_events` tool.
pub struct ListScheduledEventsParams {
    /// The guild (server) ID
    pub guild_id: String,
}

/// The arguments of the `get_scheduled_event` tool.
pub struct GetScheduledEventParams {
    /// The guild (server) ID
    pub guild_id: String,
    /// The scheduled event ID
    pub event_id: String,
}

/// The arguments of the `delete_scheduled_event` tool.
pub struct DeleteScheduledEventParams {
    /// The guild (server) ID
    pub guild_id: String,
    /// The scheduled event ID
    pub event_id: String,
}

/// The arguments of the `list_scheduled_event_users` tool.
pub struct ListScheduledEventUsersParams {
    /// The guild (server) ID
    pub guild_id: String,
    /// The scheduled event ID
    pub event_id: String,
    /// Max number of users to return (default 100)
    pub limit: Option<u16>,
}

/// The arguments of the `create_scheduled_event` tool.
pub struct CreateScheduledEventParams {
    /// The guild (server) ID
    pub guild_id: String,
    /// Event name
    pub name: String,
    /// Privacy level: 2=guild_only
    pub privacy_level: u8,
    /// Scheduled start time (ISO8601 timestamp)
    pub scheduled_start_time: String,
    /// Scheduled end time (ISO8601 timestamp, required for external events)
    pub scheduled_end_time: Option<String>,
    /// Entity type: 1=stage_instance, 2=voice, 3=external
    pub entity_type: u8,
    /// Channel ID (required for stage_instance and voice types)
    pub channel_id: Option<String>,
    /// Location (required for external entity type)
    pub location: Option<String>,
    /// Event description
    pub description: Option<String>,
}

/// The arguments of the `update_scheduled_event` tool.
pub struct UpdateScheduledEventParams {
    /// The guild (server) ID
    pub guild_id: String,
    /// The scheduled event ID
    pub event_id: String,
    /// New event name
    pub name: Option<String>,
    /// New description
    pub description: Option<String>,
    /// New scheduled start time (ISO8601 timestamp)
    pub scheduled_start_time: Option<String>,
    /// New scheduled end time (ISO8601 timestamp)
    pub scheduled_end_time: Option<String>,
    /// New entity type: 1=stage_instance, 2=voice, 3=external
    pub entity_type: Option<u8>,
    /// New channel ID
    pub channel_id: Option<String>,
    /// New location (for external events)
    pub location: Option<String>,
    /// New status: 1=scheduled, 2=active, 3=completed, 4=canceled
    pub status: Option<u8>,
}

/// The instant that `twilight_model::util::Timestamp::parse` reads from a
/// text, in microseconds since the Unix epoch; `None` where it refuses the
/// text.
pub uninterp spec fn timestamp_micros(text: Seq<char>) -> Option<i64>;

/// Reads an ISO 8601 date and time as Discord writes it.
///
/// Trusted: `twilight_model::util::Timestamp::parse`, then
/// `Timestamp::as_micros`. The contract only names the result: it depends on
/// the text alone. What the parser accepts (RFC 3339 text of at least 25
/// bytes) is not stated.
#[verifier::external_body]
fn parse_timestamp(text: &str) -> (r: Option<i64>)
    ensures
        r == timestamp_micros(text@),
{
    match twilight_model::util::Timestamp::parse(text) {
        Ok(t) => Some(t.as_micros()),
        Err(_) => None,
    }
}

/// Where a scheduled event takes place.
pub enum EventEntity {
    /// Code 1: in a stage channel.
    StageInstance { channel_id: u64 },
    /// Code 2: in a voice channel.
    Voice { channel_id: u64 },
    /// Code 3: somewhere outside Discord, until a given end.
    External { location: String, scheduled_end_time: i64 },
}

/// A new scheduled event as it is sent; it is visible to guild members only.
/// Times are microseconds since the Unix epoch.
pub struct ScheduledEventCreate {
    pub guild_id: u64,
    pub name: String,
    pub scheduled_start_time: i64,
    pub entity: EventEntity,
    pub description: Option<String>,
}

/// Whether `e` is the event with the given place that the arguments ask for.
pub open spec fn event_fields(
    e: ScheduledEventCreate,
    p: CreateScheduledEventParams,
    g: u64,
    start: i64,
) -> bool {
    &&& e.guild_id == g
    &&& e.name == p.name
    &&& e.scheduled_start_time == start
    &&& e.description == p.description
}

/// What `create_scheduled_event` answers for its arguments, given what the
/// start time and end time read as (`end` counts only where an end time is
/// given). The checks come in this order: the guild ID, the privacy level,
/// the start time, the entity type and what that type needs.
pub open spec fn event_created(
    r: Result<ScheduledEventCreate, ToolError>,
    p: CreateScheduledEventParams,
    start: Option<i64>,
    end: Option<i64>,
) -> bool {
    match id_result(p.guild_id@) {
        Err(why) => refused_id(r, p.guild_id@, why),
        Ok(g) => if p.privacy_level != 2 {
            r == Err::<ScheduledEventCreate, ToolError>(
                ToolError::BadCode(CodeField::PrivacyLevel, p.privacy_level),
            )
        } else if start is None {
            r == Err::<ScheduledEventCreate, ToolError>(
                ToolError::BadTimestamp(TimeField::Start, true),
            )
        } else if p.entity_type == 1 || p.entity_type == 2 {
            match p.channel_id {
                None => r == Err::<ScheduledEventCreate, ToolError>(
                    ToolError::Missing(
                        if p.entity_type == 1 {
                            Needed::StageChannel
                        } else {
                            Needed::VoiceChannel
                        },
                    ),
                ),
                Some(c) => match id_result(c@) {
                    Err(why) => refused_id(r, c@, why),
                    Ok(cid) => r matches Ok(e) && event_fields(e, p, g, start->0) && e.entity == (
                    if p.entity_type == 1 {
                        EventEntity::StageInstance { channel_id: cid }
                    } else {
                        EventEntity::Voice { channel_id: cid }
                    }),
                },
            }
        } else if p.entity_type == 3 {
            match p.location {
                None => r == Err::<ScheduledEventCreate, ToolError>(
                    ToolError::Missing(Needed::Location),
                ),
                Some(loc) => match p.scheduled_end_time {
                    None => r == Err::<ScheduledEventCreate, ToolError>(
                        ToolError::Missing(Needed::EndTime),
                    ),
                    Some(_) => match end {
                        None => r == Err::<ScheduledEventCreate, ToolError>(
                            ToolError::BadTimestamp(TimeField::End, true),
                        ),
                        Some(t) => r matches Ok(e) && event_fields(e, p, g, start->0)
                            && e.entity == (EventEntity::External {
                            location: loc,
                            scheduled_end_time: t,
                        }),
                    },
                },
            }
        } else {
            r == Err::<ScheduledEventCreate, ToolError>(
                ToolError::BadCode(CodeField::EntityType, p.entity_type),
            )
        },
    }
}

/// Checks the arguments of `create_scheduled_event` and builds the event,
/// given what its start time reads as and, where an end time is given, what
/// that reads as.
pub fn scheduled_event_from_times(
    params: CreateScheduledEventParams,
    start: Option<i64>,
    end: Option<i64>,
) -> (r: Result<ScheduledEventCreate, ToolError>)
    ensures
        event_created(r, params, start, end),
{
    let ghost p = params;
    let guild_id = snowflake(&params.guild_id)?;
    if params.privacy_level != 2 {
        return Err(ToolError::BadCode(CodeField::PrivacyLevel, params.privacy_level));
    }
    let start_time = match start {
        Some(t) => t,
        None => {
            return Err(ToolError::BadTimestamp(TimeField::Start, true));
        },
    };
    let CreateScheduledEventParams {
        guild_id: _,
        name,
        privacy_level: _,
        scheduled_start_time: _,
        scheduled_end_time,
        entity_type,
        channel_id,
        location,
        description,
    } = params;
    let entity = if entity_type == 1 || entity_type == 2 {
        let channel = match channel_id {
            Some(c) => c,
            None => {
                let needed = if entity_type == 1 {
                    Needed::StageChannel
                } else {
                    Needed::VoiceChannel
                };
                return Err(ToolError::Missing(needed));
            },
        };
        let cid = snowflake(&channel)?;
        if entity_type == 1 {
            EventEntity::StageInstance { channel_id: cid }
        } else {
            EventEntity::Voice { channel_id: cid }
        }
    } else if entity_type == 3 {
        let loc = match location {
            Some(l) => l,
            None => {
                return Err(ToolError::Missing(Needed::Location));
            },
        };
        if scheduled_end_time.is_none() {
            return Err(ToolError::Missing(Needed::EndTime));
        }
        let end_time = match end {
            Some(t) => t,
            None => {
                return Err(ToolError::BadTimestamp(TimeField::End, true));
            },
        };
        EventEntity::External { location: loc, scheduled_end_time: end_time }
    } else {
        return Err(ToolError::BadCode(CodeField::EntityType, entity_type));
    };
    let e = ScheduledEventCreate {
        guild_id,
        name,
        scheduled_start_time: start_time,
        entity,
        description,
    };
    assert(event_fields(e, p, guild_id, start_time));
    Ok(e)
}

/// Checks the arguments of `create_scheduled_event` and builds the event,
/// reading its times as twilight reads them.
pub fn create_scheduled_event(params: CreateScheduledEventParams) -> (r: Result<
    ScheduledEventCreate,
    ToolError,
>)
    ensures
        event_created(
            r,
            params,
            timestamp_micros(params.scheduled_start_time@),
            match params.scheduled_end_time {
                Some(t) => timestamp_micros(t@),
                None => None,
            },
        ),
{
    let start = parse_timestamp(params.scheduled_start_time.as_str());
    let end = match &params.scheduled_end_time {
        Some(t) => parse_timestamp(t.as_str()),
        None => None,
    };
    scheduled_event_from_times(params, start, end)
}

/// Where a scheduled event is moved to take place.
#[derive(Clone, Copy, Debug, PartialEq, Eq, Structural)]
pub enum EntityKind {
    /// Code 1.
    StageInstance,
    /// Code 2.
    Voice,
    /// Code 3.
    External,
}

/// The kind that an entity type code names, if any.
pub open spec fn entity_kind_of(code: u8) -> Option<EntityKind> {
    if code == 1 {
        Some(EntityKind::StageInstance)
    } else if code == 2 {
        Some(EntityKind::Voice)
    } else if code == 3 {
        Some(EntityKind::External)
    } else {
        None
    }
}

/// The state of a scheduled event.
#[derive(Clone, Copy, Debug, PartialEq, Eq, Structural)]
pub enum EventStatus {
    /// Code 1.
    Scheduled,
    /// Code 2.
    Active,
    /// Code 3.
    Completed,
    /// Code 4.
    Cancelled,
}

/// The status that a status code names, if any.
pub open spec fn status_of(code: u8) -> Option<EventStatus> {
    if code == 1 {
        Some(EventStatus::Scheduled)
    } else if code == 2 {
        Some(EventStatus::Active)
    } else if code == 3 {
        Some(EventStatus::Completed)
    } else if code == 4 {
        Some(EventStatus::Cancelled)
    } else {
        None
    }
}

/// The changes to a scheduled event as they are sent. Times are
/// microseconds since the Unix epoch.
pub struct ScheduledEventUpdate {
    pub guild_id: u64,
    pub event_id: u64,
    pub name: Option<String>,
    pub description: Option<String>,
    pub scheduled_start_time: Option<i64>,
    pub scheduled_end_time: Option<i64>,
    pub entity_type: Option<EntityKind>,
    pub channel_id: Option<u64>,
    pub location: Option<String>,
    pub status: Option<EventStatus>,
}

/// What `update_scheduled_event` answers for its arguments, given what the
/// start and end times read as where they are given. The checks come in
/// this order: the guild ID, the event ID, the start time, the end time, the
/// entity type, the channel ID, the status.
pub open spec fn event_updated(
    r: Result<ScheduledEventUpdate, ToolError>,
    p: UpdateScheduledEventParams,
    start: Option<i64>,
    end: Option<i64>,
) -> bool {
    match id_result(p.guild_id@) {
        Err(why) => refused_id(r, p.guild_id@, why),
        Ok(g) => match id_result(p.event_id@) {
            Err(why) => refused_id(r, p.event_id@, why),
            Ok(eid) => if p.scheduled_start_time is Some && start is None {
                r == Err::<ScheduledEventUpdate, ToolError>(
                    ToolError::BadTimestamp(TimeField::Start, false),
                )
            } else if p.scheduled_end_time is Some && end is None {
                r == Err::<ScheduledEventUpdate, ToolError>(
                    ToolError::BadTimestamp(TimeField::End, false),
                )
            } else if p.entity_type is Some && entity_kind_of(p.entity_type->0) is None {
                r == Err::<ScheduledEventUpdate, ToolError>(
                    ToolError::BadCode(CodeField::NewEntityType, p.entity_type->0),
                )
            } else if p.channel_id is Some && id_result(p.channel_id->0@) is Err {
                refused_id(r, p.channel_id->0@, id_result(p.channel_id->0@)->Err_0)
            } else if p.status is Some && status_of(p.status->0) is None {
                r == Err::<ScheduledEventUpdate, ToolError>(
                    ToolError::BadCode(CodeField::Status, p.status->0),
                )
            } else {
                r matches Ok(u) && u.guild_id == g && u.event_id == eid && u.name == p.name
                    && u.description == p.description
                    && u.scheduled_start_time == (if p.scheduled_start_time is Some {
                    start
                } else {
                    None
                }) && u.scheduled_end_time == (if p.scheduled_end_time is Some {
                    end
                } else {
                    None
                }) && u.entity_type == (match p.entity_type {
                    Some(c) => entity_kind_of(c),
                    None => None,
                }) && u.channel_id == (match p.channel_id {
                    Some(c) => Some(id_result(c@)->Ok_0),
                    None => None,
                }) && u.location == p.location && u.status == (match p.status {
                    Some(c) => status_of(c),
                    None => None,
                })
            },
        },
    }
}

/// Checks the arguments of `update_scheduled_event` and builds the changes,
/// given what its start and end times read as (each counts only where that
/// time is given).
pub fn scheduled_event_update_from_times(
    params: UpdateScheduledEventParams,
    start: Option<i64>,
    end: Option<i64>,
) -> (r: Result<ScheduledEventUpdate, ToolError>)
    ensures
        event_updated(r, params, start, end),
{
    let guild_id = snowflake(&params.guild_id)?;
    let event_id = snowflake(&params.event_id)?;
    let scheduled_start_time = if params.scheduled_start_time.is_some() {
        if start.is_none() {
            return Err(ToolError::BadTimestamp(TimeField::Start, false));
        }
        start
    } else {
        None
    };
    let scheduled_end_time = if params.scheduled_end_time.is_some() {
        if end.is_none() {
            return Err(ToolError::BadTimestamp(TimeField::End, false));
        }
        end
    } else {
        None
    };
    let entity_type = match params.entity_type {
        Some(c) => Some(
            if c == 1 {
                EntityKind::StageInstance
            } else if c == 2 {
                EntityKind::Voice
            } else if c == 3 {
                EntityKind::External
            } else {
                return Err(ToolError::BadCode(CodeField::NewEntityType, c));
            },
        ),
        None => None,
    };
    let channel_id = match &params.channel_id {
        Some(c) => Some(snowflake(c)?),
        None => None,
    };
    let status = match params.status {
        Some(c) => Some(
            if c == 1 {
                EventStatus::Scheduled
            } else if c == 2 {
                EventStatus::Active
            } else if c == 3 {
                EventStatus::Completed
            } else if c == 4 {
                EventStatus::Cancelled
            } else {
                return Err(ToolError::BadCode(CodeField::Status, c));
            },
        ),
        None => None,
    };
    let UpdateScheduledEventParams {
        guild_id: _,
        event_id: _,
        name,
        description,
        scheduled_start_time: _,
        scheduled_end_time: _,
        entity_type: _,
        channel_id: _,
        location,
        status: _,
    } = params;
    Ok(
        ScheduledEventUpdate {
            guild_id,
            event_id,
            name,
            description,
            scheduled_start_time,
            scheduled_end_time,
            entity_type,
            channel_id,
            location,
            status,
        },
    )
}

/// Checks the arguments of `update_scheduled_event` and builds the changes,
/// reading its times as twilight reads them.
pub fn update_scheduled_event(params: UpdateScheduledEventParams) -> (r: Result<
    ScheduledEventUpdate,
    ToolError,
>)
    ensures
        event_updated(
            r,
            params,
            match params.scheduled_start_time {
                Some(t) => timestamp_micros(t@),
                None => None,
            },
            match params.scheduled_end_time {
                Some(t) => timestamp_micros(t@),
                None => None,
            },
        ),
{
    let start = match &params.scheduled_start_time {
        Some(t) => parse_timestamp(t.as_str()),
        None => None,
    };
    let end = match &params.scheduled_end_time {
        Some(t) => parse_timestamp(t.as_str()),
        None => None,
    };
    scheduled_event_update_from_times(params, start, end)
}


/// What `create_scheduled_event` answers once Discord has been called: the event created as
/// pretty-printed JSON, the reason Discord's reply could not be read, or the
/// call's error.
pub fn create_scheduled_event_result(
    reply: Result<Result<crate::json::Json, String>, String>,
) -> (r: crate::tools::ToolOutcome)
    ensures
        crate::tools::client_json_answers(reply, r),
{
    crate::tools::client_json_result(reply)
}

/// What `update_scheduled_event` answers once Discord has been called: the event as changed as
/// pretty-printed JSON, the reason Discord's reply could not be read, or the
/// call's error.
pub fn update_scheduled_event_result(
    reply: Result<Result<crate::json::Json, String>, String>,
) -> (r: crate::tools::ToolOutcome)
    ensures
        crate::tools::client_json_answers(reply, r),
{
    crate::tools::client_json_result(reply)
}

} // verus!
