use vstd::prelude::*;

verus! {

/// The arguments of the `list_bans` tool.
pub struct ListBansParams {
    /// The guild (server) ID
    pub guild_id: String,
}

/// The arguments of the `get_ban` tool.
pub struct GetBanParams {
    /// The guild (server) ID
    pub guild_id: String,
    /// The banned user's ID
    pub user_id: String,
}

/// The arguments of the `ban_member` tool.
pub struct BanMemberParams {
    /// The guild (server) ID
    pub guild_id: String,
    /// The user ID to ban
    pub user_id: String,
    /// Number of seconds of messages to delete (0-604800, i.e. up to 7 days)
    pub delete_message_seconds: Option<u32>,
}

/// The arguments of the `unban_member` tool.
pub struct UnbanMemberParams {
    /// The guild (server) ID
    pub guild_id: String,
    /// The user ID to unban
    pub user_id: String,
}

} // verus!
