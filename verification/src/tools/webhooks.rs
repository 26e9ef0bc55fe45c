use vstd::prelude::*;

verus! {

/// The arguments of the `list_channel_webhooks` tool.
pub struct ListChannelWebhooksParams {
    /// The channel ID
    pub channel_id: String,
}

/// The arguments of the `list_guild_webhooks` tool.
pub struct ListGuildWebhooksParams {
    /// The guild (server) ID
    pub guild_id: String,
}

/// The arguments of the `create_webhook` tool.
pub struct CreateWebhookParams {
    /// The channel ID to create the webhook in
    pub channel_id: String,
    /// Webhook name (1-80 characters)
    pub name: String,
}

/// The arguments of the `get_webhook` tool.
pub struct GetWebhookParams {
    /// The webhook ID
    pub webhook_id: String,
}

/// The arguments of the `update_webhook` tool.
pub struct UpdateWebhookParams {
    /// The webhook ID
    pub webhook_id: String,
    /// New webhook name
    pub name: Option<String>,
    /// New channel ID to move the webhook to
    pub channel_id: Option<String>,
}

/// The arguments of the `delete_webhook` tool.
pub struct DeleteWebhookParams {
    /// The webhook ID
    pub webhook_id: String,
}

/// The arguments of the `execute_webhook` tool.
pub struct ExecuteWebhookParams {
    /// The webhook ID
    pub webhook_id: String,
    /// The webhook token
    pub token: String,
    /// Message content
    pub content: Option<String>,
    /// Username override
    pub username: Option<String>,
    /// Avatar URL override
    pub avatar_url: Option<String>,
    /// Whether this is a TTS message
    pub tts: Option<bool>,
}

} // verus!
