use vstd::prelude::*;

verus! {

/// The arguments of the `list_channel_invites` tool.
pub struct ListChannelInvitesParams {
    /// The channel ID
    pub channel_id: String,
}

/// The arguments of the `list_guild_invites` tool.
pub struct ListGuildInvitesParams {
    /// The guild (server) ID
    pub guild_id: String,
}

/// The arguments of the `get_invite` tool.
pub struct GetInviteParams {
    /// The invite code (e.g. "abc123" from discord.gg/abc123)
    pub code: String,
    /// Whether to include approximate member counts
    pub with_counts: Option<bool>,
}

/// The arguments of the `create_invite` tool.
pub struct CreateInviteParams {
    /// The channel ID to create the invite for
    pub channel_id: String,
    /// Max age in seconds (0 for never, default 86400 = 24h)
    pub max_age: Option<u32>,
    /// Max number of uses (0 for unlimited, default 0)
    pub max_uses: Option<u16>,
    /// Whether the invite is temporary (kicked when they disconnect if not assigned a role)
    pub temporary: Option<bool>,
    /// Whether to guarantee a unique invite code
    pub unique: Option<bool>,
}

/// The arguments of the `delete_invite` tool.
pub struct DeleteInviteParams {
    /// The invite code to delete
    pub code: String,
}

} // verus!
