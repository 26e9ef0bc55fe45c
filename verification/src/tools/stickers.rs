use vstd::prelude::*;

verus! {

/// The arguments of the `list_guild_stickers` tool.
pub struct ListGuildStickersParams {
    /// The guild (server) ID
    pub guild_id: String,
}

/// The arguments of the `get_guild_sticker` tool.
pub struct GetGuildStickerParams {
    /// The guild (server) ID
    pub guild_id: String,
    /// The sticker ID
    pub sticker_id: String,
}

/// The arguments of the `create_guild_sticker` tool.
pub struct CreateGuildStickerParams {
    /// The guild (server) ID
    pub guild_id: String,
    /// Sticker name (2-30 characters)
    pub name: String,
    /// Sticker description (2-100 characters)
    pub description: String,
    /// Comma-separated autocomplete tags for the sticker (max 200 characters)
    pub tags: String,
    /// Path to the sticker image file (png, apng, gif, or json for Lottie)
    pub file_path: String,
}

/// The arguments of the `delete_guild_sticker` tool.
pub struct DeleteGuildStickerParams {
    /// The guild (server) ID
    pub guild_id: String,
    /// The sticker ID
    pub sticker_id: String,
}

/// The arguments of the `get_sticker` tool.
pub struct GetStickerParams {
    /// The sticker ID
    pub sticker_id: String,
}

} // verus!
