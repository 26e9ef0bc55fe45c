use vstd::prelude::*;

verus! {

/// The arguments of the `list_emojis` tool.
pub struct ListEmojisParams {
    /// The guild (server) ID
    pub guild_id: String,
}

/// The arguments of the `get_emoji` tool.
pub struct GetEmojiParams {
    /// The guild (server) ID
    pub guild_id: String,
    /// The emoji ID
    pub emoji_id: String,
}

/// The arguments of the `create_emoji` tool.
pub struct CreateEmojiParams {
    /// The guild (server) ID
    pub guild_id: String,
    /// Emoji name
    pub name: String,
    /// Base64-encoded image data (data URI format: data:image/png;base64,...)
    pub image: String,
}

/// The arguments of the `update_emoji` tool.
pub struct UpdateEmojiParams {
    /// The guild (server) ID
    pub guild_id: String,
    /// The emoji ID
    pub emoji_id: String,
    /// New emoji name
    pub name: Option<String>,
}

/// The arguments of the `delete_emoji` tool.
pub struct DeleteEmojiParams {
    /// The guild (server) ID
    pub guild_id: String,
    /// The emoji ID
    pub emoji_id: String,
}

/// The arguments of the `create_application_emoji` tool.
pub struct CreateApplicationEmojiParams {
    /// Emoji name
    pub name: String,
    /// Base64-encoded image data (data URI format: data:image/png;base64,...)
    pub image: String,
}

/// The arguments of the `update_application_emoji` tool.
pub struct UpdateApplicationEmojiParams {
    /// The emoji ID
    pub emoji_id: String,
    /// New emoji name
    pub name: String,
}

/// The arguments of the `delete_application_emoji` tool.
pub struct DeleteApplicationEmojiParams {
    /// The emoji ID
    pub emoji_id: String,
}

} // verus!
