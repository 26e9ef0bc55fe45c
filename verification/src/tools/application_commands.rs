use vstd::prelude::*;

verus! {

/// The arguments of the `create_global_command` tool.
pub struct CreateGlobalCommandParams {
    /// Command name (1-32 characters, lowercase)
    pub name: String,
    /// Command description (1-100 characters)
    pub description: String,
}

/// The arguments of the `update_global_command` tool.
pub struct UpdateGlobalCommandParams {
    /// The command ID to update
    pub command_id: String,
    /// New command name
    pub name: Option<String>,
    /// New command description
    pub description: Option<String>,
}

/// The arguments of the `delete_global_command` tool.
pub struct DeleteGlobalCommandParams {
    /// The command ID to delete
    pub command_id: String,
}

/// The arguments of the `list_guild_commands` tool.
pub struct ListGuildCommandsParams {
    /// The guild (server) ID
    pub guild_id: String,
}

/// The arguments of the `create_guild_command` tool.
pub struct CreateGuildCommandParams {
    /// The guild (server) ID
    pub guild_id: String,
    /// Command name (1-32 characters, lowercase)
    pub name: String,
    /// Command description (1-100 characters)
    pub description: String,
}

/// The arguments of the `update_guild_command` tool.
pub struct UpdateGuildCommandParams {
    /// The guild (server) ID
    pub guild_id: String,
    /// The command ID to update
    pub command_id: String,
    /// New command name
    pub name: Option<String>,
    /// New command description
    pub description: Option<String>,
}

/// The arguments of the `delete_guild_command` tool.
pub struct DeleteGuildCommandParams {
    /// The guild (server) ID
    pub guild_id: String,
    /// The command ID to delete
    pub command_id: String,
}

} // verus!
