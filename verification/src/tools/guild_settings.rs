use vstd::prelude::*;

verus! {

/// The arguments of the `update_guild` tool.
pub struct UpdateGuildParams {
    /// The guild (server) ID
    pub guild_id: String,
    /// New guild name
    pub name: Option<String>,
    /// New guild description
    #[allow(dead_code)]
    pub description: Option<String>,
}

/// The arguments of the `get_guild_prune_count` tool.
pub struct GetGuildPruneCountParams {
    /// The guild (server) ID
    pub guild_id: String,
    /// Number of days of inactivity (1-30, default 7)
    pub days: Option<u16>,
}

/// The arguments of the `begin_guild_prune` tool.
pub struct BeginGuildPruneParams {
    /// The guild (server) ID
    pub guild_id: String,
    /// Number of days of inactivity (1-30, default 7)
    pub days: Option<u16>,
    /// Whether to return the number of pruned members (may time out for large guilds)
    pub compute_prune_count: Option<bool>,
}

/// The arguments of the `get_guild_vanity_url` tool.
pub struct GetGuildVanityUrlParams {
    /// The guild (server) ID
    pub guild_id: String,
}

/// The arguments of the `get_guild_welcome_screen` tool.
pub struct GetGuildWelcomeScreenParams {
    /// The guild (server) ID
    pub guild_id: String,
}

/// The arguments of the `get_guild_widget` tool.
pub struct GetGuildWidgetParams {
    /// The guild (server) ID
    pub guild_id: String,
}

/// The arguments of the `get_guild_voice_regions` tool.
pub struct GetGuildVoiceRegionsParams {
    /// The guild (server) ID
    pub guild_id: String,
}

/// The arguments of the `get_guild_preview` tool.
pub struct GetGuildPreviewParams {
    /// The guild (server) ID
    pub guild_id: String,
}

/// The arguments of the `delete_guild` tool.
pub struct DeleteGuildParams {
    /// The guild (server) ID to delete (bot must be owner)
    pub guild_id: String,
}

/// The arguments of the `get_guild_integrations` tool.
pub struct GetGuildIntegrationsParams {
    /// The guild (server) ID
    pub guild_id: String,
}

/// The arguments of the `create_guild` tool.
pub struct CreateGuildParams {
    /// Guild name (2-100 characters)
    pub name: String,
}

} // verus!
