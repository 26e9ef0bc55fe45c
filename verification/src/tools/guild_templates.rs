use vstd::prelude::*;

verus! {

/// The arguments of the `get_template` tool.
pub struct GetTemplateParams {
    /// The template code
    pub template_code: String,
}

/// The arguments of the `list_guild_templates` tool.
pub struct ListGuildTemplatesParams {
    /// The guild (server) ID
    pub guild_id: String,
}

/// The arguments of the `create_guild_template` tool.
pub struct CreateGuildTemplateParams {
    /// The guild (server) ID
    pub guild_id: String,
    /// Template name (1-100 characters)
    pub name: String,
    /// Template description (up to 120 characters)
    pub description: Option<String>,
}

/// The arguments of the `sync_guild_template` tool.
pub struct SyncGuildTemplateParams {
    /// The guild (server) ID
    pub guild_id: String,
    /// The template code
    pub template_code: String,
}

/// The arguments of the `update_guild_template` tool.
pub struct UpdateGuildTemplateParams {
    /// The guild (server) ID
    pub guild_id: String,
    /// The template code
    pub template_code: String,
    /// New template name
    pub name: Option<String>,
    /// New template description
    pub description: Option<String>,
}

/// The arguments of the `delete_guild_template` tool.
pub struct DeleteGuildTemplateParams {
    /// The guild (server) ID
    pub guild_id: String,
    /// The template code
    pub template_code: String,
}

} // verus!
