use vstd::prelude::*;

verus! {

/// The arguments of the `get_user` tool.
pub struct GetUserParams {
    /// The user ID
    pub user_id: String,
}

/// The arguments of the `create_dm` tool.
pub struct CreateDmParams {
    /// The recipient user ID
    pub recipient_id: String,
}

/// The arguments of the `leave_guild` tool.
pub struct LeaveGuildParams {
    /// The guild (server) ID to leave
    pub guild_id: String,
}

/// The arguments of the `update_current_user` tool.
pub struct UpdateCurrentUserParams {
    /// New username
    pub username: Option<String>,
    /// Path to new avatar image file (png, jpg, gif, webp), or null to remove
    pub avatar_file_path: Option<String>,
}

} // verus!
