use vstd::prelude::*;

use crate::tools::{first_bad_id, refused_id, snowflake, snowflakes, string_views, CodeField, ToolError};
use crate::util::id_result;

verus! {

/// The arguments of the `list_guild_channels` tool.
pub struct ListGuildChannelsParams {
    /// The guild (server) ID
    pub guild_id: String,
}

/// The arguments of the `get_channel` tool.
pub struct GetChannelParams {
    /// The channel ID
    pub channel_id: String,
}

/// The arguments of the `create_channel` tool.
pub struct CreateChannelParams {
    /// The guild (server) ID
    pub guild_id: String,
    /// Channel name (1-100 characters)
    pub name: String,
    /// Channel type: 0=text, 2=voice, 4=category, 5=announcement, 13=stage, 15=forum
    pub channel_type: Option<u8>,
    /// Channel topic (up to 1024 chars for text, 4096 for forum)
    pub topic: Option<String>,
    /// Whether the channel is NSFW
    pub nsfw: Option<bool>,
    /// Parent category channel ID
    pub parent_id: Option<String>,
    /// Sorting position of the channel
    pub position: Option<u64>,
}

/// The arguments of the `update_channel` tool.
pub struct UpdateChannelParams {
    /// The channel ID to update
    pub channel_id: String,
    /// New channel name
    pub name: Option<String>,
    /// New channel topic
    pub topic: Option<String>,
    /// Whether the channel is NSFW
    pub nsfw: Option<bool>,
    /// New parent category channel ID (null to remove)
    pub parent_id: Option<String>,
    /// New sorting position
    pub position: Option<u64>,
}

/// The arguments of the `delete_channel` tool.
pub struct DeleteChannelParams {
    /// The channel ID to delete
    pub channel_id: String,
}

/// The arguments of the `channel_po` tool.
pub struct ChannelPosition {
    /// The channel ID
    pub id: String,
    /// The new position
    pub position: u64,
}

/// The arguments of the `update_channel_positions` tool.
pub struct UpdateChannelPositionsParams {
    /// The guild (server) ID
    pub guild_id: String,
    /// Array of channel ID + position pairs
    pub positions: Vec<ChannelPosition>,
}


/// The kinds of channel that the tools create.
#[derive(Clone, Copy, Debug, PartialEq, Eq, Structural)]
pub enum ChannelKind {
    /// Code 0.
    GuildText,
    /// Code 2.
    GuildVoice,
    /// Code 4.
    GuildCategory,
    /// Code 5.
    GuildAnnouncement,
    /// Code 13.
    GuildStageVoice,
    /// Code 15.
    GuildForum,
}

/// The kind that a channel type code names, if any.
pub open spec fn channel_kind_of(code: u8) -> Option<ChannelKind> {
    if code == 0 {
        Some(ChannelKind::GuildText)
    } else if code == 2 {
        Some(ChannelKind::GuildVoice)
    } else if code == 4 {
        Some(ChannelKind::GuildCategory)
    } else if code == 5 {
        Some(ChannelKind::GuildAnnouncement)
    } else if code == 13 {
        Some(ChannelKind::GuildStageVoice)
    } else if code == 15 {
        Some(ChannelKind::GuildForum)
    } else {
        None
    }
}

/// Reads a channel type code.
pub fn parse_channel_type(kind: u8) -> (r: Result<ChannelKind, ToolError>)
    ensures
        match channel_kind_of(kind) {
            Some(k) => r == Ok::<ChannelKind, ToolError>(k),
            None => r == Err::<ChannelKind, ToolError>(
                ToolError::BadCode(CodeField::ChannelType, kind),
            ),
        },
{
    if kind == 0 {
        Ok(ChannelKind::GuildText)
    } else if kind == 2 {
        Ok(ChannelKind::GuildVoice)
    } else if kind == 4 {
        Ok(ChannelKind::GuildCategory)
    } else if kind == 5 {
        Ok(ChannelKind::GuildAnnouncement)
    } else if kind == 13 {
        Ok(ChannelKind::GuildStageVoice)
    } else if kind == 15 {
        Ok(ChannelKind::GuildForum)
    } else {
        Err(ToolError::BadCode(CodeField::ChannelType, kind))
    }
}

/// A new channel as it is sent.
pub struct ChannelCreate {
    pub guild_id: u64,
    pub name: String,
    pub kind: Option<ChannelKind>,
    pub topic: Option<String>,
    pub nsfw: Option<bool>,
    pub parent_id: Option<u64>,
    pub position: Option<u64>,
}

/// Checks the arguments of `create_channel` and builds the channel, in the
/// tool's order: the guild ID, the channel type, the parent ID.
pub fn create_channel(params: CreateChannelParams) -> (r: Result<ChannelCreate, ToolError>)
    ensures
        match id_result(params.guild_id@) {
            Err(why) => refused_id(r, params.guild_id@, why),
            Ok(g) => if params.channel_type is Some && channel_kind_of(params.channel_type->0)
                is None {
                r == Err::<ChannelCreate, ToolError>(
                    ToolError::BadCode(CodeField::ChannelType, params.channel_type->0),
                )
            } else if params.parent_id is Some && id_result(params.parent_id->0@) is Err {
                refused_id(r, params.parent_id->0@, id_result(params.parent_id->0@)->Err_0)
            } else {
                r matches Ok(c) && c.guild_id == g && c.name == params.name && c.kind == (
                match params.channel_type {
                    Some(k) => channel_kind_of(k),
                    None => None,
                }) && c.topic == params.topic && c.nsfw == params.nsfw && c.parent_id == (
                match params.parent_id {
                    Some(p) => Some(id_result(p@)->Ok_0),
                    None => None,
                }) && c.position == params.position
            },
        },
{
    let guild_id = snowflake(&params.guild_id)?;
    let kind = match params.channel_type {
        Some(k) => Some(parse_channel_type(k)?),
        None => None,
    };
    let parent_id = match &params.parent_id {
        Some(p) => Some(snowflake(p)?),
        None => None,
    };
    let CreateChannelParams {
        guild_id: _,
        name,
        channel_type: _,
        topic,
        nsfw,
        parent_id: _,
        position,
    } = params;
    Ok(ChannelCreate { guild_id, name, kind, topic, nsfw, parent_id, position })
}

/// The changes to a channel as they are sent.
pub struct ChannelUpdate {
    pub channel_id: u64,
    pub name: Option<String>,
    pub topic: Option<String>,
    pub nsfw: Option<bool>,
    pub parent_id: Option<u64>,
    pub position: Option<u64>,
}

/// Checks the arguments of `update_channel` and builds the changes: first
/// the channel ID, then the parent ID.
pub fn update_channel(params: UpdateChannelParams) -> (r: Result<ChannelUpdate, ToolError>)
    ensures
        match id_result(params.channel_id@) {
            Err(why) => refused_id(r, params.channel_id@, why),
            Ok(cid) => if params.parent_id is Some && id_result(params.parent_id->0@) is Err {
                refused_id(r, params.parent_id->0@, id_result(params.parent_id->0@)->Err_0)
            } else {
                r matches Ok(c) && c.channel_id == cid && c.name == params.name && c.topic
                    == params.topic && c.nsfw == params.nsfw && c.parent_id == (
                match params.parent_id {
                    Some(p) => Some(id_result(p@)->Ok_0),
                    None => None,
                }) && c.position == params.position
            },
        },
{
    let channel_id = snowflake(&params.channel_id)?;
    let parent_id = match &params.parent_id {
        Some(p) => Some(snowflake(p)?),
        None => None,
    };
    let UpdateChannelParams { channel_id: _, name, topic, nsfw, parent_id: _, position } = params;
    Ok(ChannelUpdate { channel_id, name, topic, nsfw, parent_id, position })
}

/// The new positions of a guild's channels, as (channel ID, position) pairs.
pub struct ChannelPositions {
    pub guild_id: u64,
    pub positions: Vec<(u64, u64)>,
}

/// The channel IDs of a list of positions, as written.
pub open spec fn position_ids(ps: Seq<ChannelPosition>) -> Seq<Seq<char>> {
    ps.map_values(|p: ChannelPosition| p.id@)
}

/// Checks the arguments of `update_channel_positions` and builds the moves:
/// first the guild ID, then each channel ID in order.
pub fn update_channel_positions(params: &UpdateChannelPositionsParams) -> (r: Result<
    ChannelPositions,
    ToolError,
>)
    ensures
        match id_result(params.guild_id@) {
            Err(why) => refused_id(r, params.guild_id@, why),
            Ok(g) => {
                let ids = position_ids(params.positions@);
                let k = first_bad_id(ids);
                if k < ids.len() {
                    refused_id(r, ids[k], id_result(ids[k])->Err_0)
                } else {
                    r matches Ok(c) && c.guild_id == g && c.positions@
                        == params.positions@.map_values(
                        |p: ChannelPosition| (id_result(p.id@)->Ok_0, p.position),
                    )
                }
            },
        },
{
    let guild_id = snowflake(&params.guild_id)?;
    let ghost ids = position_ids(params.positions@);
    let mut names: Vec<String> = Vec::new();
    let mut i: usize = 0;
    while i < params.positions.len()
        invariant
            i <= params.positions.len(),
            names@.len() == i,
            string_views(names@) == ids.take(i as int),
            ids == position_ids(params.positions@),
        decreases params.positions.len() - i,
    {
        let id = params.positions[i].id.clone();
        assert(id@ == ids[i as int]);
        names.push(id);
        i = i + 1;
        assert(string_views(names@) =~= ids.take(i as int));
    }
    assert(ids.take(i as int) == ids);
    let read = snowflakes(&names);
    let parsed = match read {
        Ok(v) => v,
        Err(e) => {
            return Err(e);
        },
    };
    let mut positions: Vec<(u64, u64)> = Vec::new();
    let mut j: usize = 0;
    while j < parsed.len()
        invariant
            j <= parsed.len(),
            parsed@.len() == params.positions@.len(),
            parsed@ == ids.map_values(|s: Seq<char>| id_result(s)->Ok_0),
            ids == position_ids(params.positions@),
            positions@ == params.positions@.take(j as int).map_values(
                |p: ChannelPosition| (id_result(p.id@)->Ok_0, p.position),
            ),
        decreases parsed.len() - j,
    {
        positions.push((parsed[j], params.positions[j].position));
        j = j + 1;
        assert(positions@ =~= params.positions@.take(j as int).map_values(
            |p: ChannelPosition| (id_result(p.id@)->Ok_0, p.position),
        ));
    }
    assert(params.positions@.take(j as int) == params.positions@);
    Ok(ChannelPositions { guild_id, positions })
}

} // verus!
