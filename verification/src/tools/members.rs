use vstd::prelude::*;

use crate::tools::{first_bad_id, ids_read, refused_id, snowflake, snowflakes, string_views, ToolError};
use crate::util::id_result;

verus! {

/// The arguments of the `list_guild_members` tool.
pub struct ListGuildMembersParams {
    /// The guild (server) ID
    pub guild_id: String,
    /// Max number of members to return (1-1000, default 1000)
    pub limit: Option<u16>,
    /// Get members after this user ID (for pagination)
    pub after: Option<String>,
}

/// The arguments of the `get_guild_member` tool.
pub struct GetGuildMemberParams {
    /// The guild (server) ID
    pub guild_id: String,
    /// The user ID
    pub user_id: String,
}

/// The arguments of the `search_guild_members` tool.
pub struct SearchGuildMembersParams {
    /// The guild (server) ID
    pub guild_id: String,
    /// Query string to match against usernames and nicknames
    pub query: String,
    /// Max number of members to return (1-1000, default 1)
    pub limit: Option<u16>,
}

/// The arguments of the `update_guild_member` tool.
pub struct UpdateGuildMemberParams {
    /// The guild (server) ID
    pub guild_id: String,
    /// The user ID to update
    pub user_id: String,
    /// New nickname (empty string to remove)
    pub nick: Option<String>,
    /// Array of role IDs to set on the member
    pub roles: Option<Vec<String>>,
    /// Whether the user is muted in voice channels
    pub mute: Option<bool>,
    /// Whether the user is deafened in voice channels
    pub deaf: Option<bool>,
    /// Voice channel ID to move the user to (null to disconnect)
    pub channel_id: Option<String>,
}

/// The arguments of the `kick_member` tool.
pub struct KickMemberParams {
    /// The guild (server) ID
    pub guild_id: String,
    /// The user ID to kick
    pub user_id: String,
    /// Reason for the kick (shows in audit log)
    pub reason: Option<String>,
}


/// The changes to a guild member as they are sent.
pub struct MemberUpdate {
    pub guild_id: u64,
    pub user_id: u64,
    pub nick: Option<String>,
    pub roles: Option<Vec<u64>>,
    pub mute: Option<bool>,
    pub deaf: Option<bool>,
    pub channel_id: Option<u64>,
}

/// Checks the arguments of `update_guild_member` and builds the changes, in
/// the tool's order: the guild ID, the user ID, each role ID, the channel ID.
pub fn update_guild_member(params: UpdateGuildMemberParams) -> (r: Result<
    MemberUpdate,
    ToolError,
>)
    ensures
        match id_result(params.guild_id@) {
            Err(why) => refused_id(r, params.guild_id@, why),
            Ok(g) => match id_result(params.user_id@) {
                Err(why) => refused_id(r, params.user_id@, why),
                Ok(u) => if params.roles is Some && first_bad_id(string_views(params.roles->0@))
                    < params.roles->0@.len() {
                    r matches Err(e) && ids_read(
                        string_views(params.roles->0@),
                        Err::<Vec<u64>, ToolError>(e),
                    )
                } else if params.channel_id is Some && id_result(params.channel_id->0@) is Err {
                    refused_id(r, params.channel_id->0@, id_result(params.channel_id->0@)->Err_0)
                } else {
                    r matches Ok(m) && m.guild_id == g && m.user_id == u && m.nick == params.nick
                        && m.mute == params.mute && m.deaf == params.deaf && match params.roles {
                        Some(roles) => m.roles matches Some(ids) && ids@ == string_views(
                            roles@,
                        ).map_values(|s: Seq<char>| id_result(s)->Ok_0),
                        None => m.roles is None,
                    } && m.channel_id == match params.channel_id {
                        Some(c) => Some(id_result(c@)->Ok_0),
                        None => None,
                    }
                },
            },
        },
{
    let guild_id = snowflake(&params.guild_id)?;
    let user_id = snowflake(&params.user_id)?;
    let roles = match &params.roles {
        Some(list) => Some(snowflakes(list)?),
        None => None,
    };
    let channel_id = match &params.channel_id {
        Some(c) => Some(snowflake(c)?),
        None => None,
    };
    let UpdateGuildMemberParams {
        guild_id: _,
        user_id: _,
        nick,
        roles: _,
        mute,
        deaf,
        channel_id: _,
    } = params;
    Ok(MemberUpdate { guild_id, user_id, nick, roles, mute, deaf, channel_id })
}

} // verus!
