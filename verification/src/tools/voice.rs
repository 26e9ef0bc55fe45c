use vstd::prelude::*;

verus! {

/// The arguments of the `update_current_user_voice_state` tool.
pub struct UpdateCurrentUserVoiceStateParams {
    /// The guild (server) ID
    pub guild_id: String,
    /// The stage channel ID the user is currently connected to
    pub channel_id: Option<String>,
    /// Whether to suppress the user (set to true to mute in stage). Calling this toggles suppress on.
    pub suppress: Option<bool>,
    /// ISO8601 timestamp for when the user requested to speak (empty string to remove)
    pub request_to_speak_timestamp: Option<String>,
}

/// The arguments of the `update_user_voice_state` tool.
pub struct UpdateUserVoiceStateParams {
    /// The guild (server) ID
    pub guild_id: String,
    /// The user ID
    pub user_id: String,
    /// The stage channel ID the user is currently connected to
    pub channel_id: String,
    /// Whether to suppress the user (set to true to mute in stage)
    pub suppress: Option<bool>,
}

} // verus!
