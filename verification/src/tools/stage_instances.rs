use vstd::prelude::*;

use crate::tools::{refused_id, snowflake, CodeField, ToolError};
use crate::util::id_result;

verus! {

/// The arguments of the `create_stage_instance` tool.
pub struct CreateStageInstanceParams {
    /// The stage channel ID
    pub channel_id: String,
    /// The topic of the stage instance (1-120 characters)
    pub topic: String,
    /// Privacy level: 2=guild_only (default)
    pub privacy_level: Option<u8>,
}

/// The arguments of the `get_stage_instance` tool.
pub struct GetStageInstanceParams {
    /// The stage channel ID
    pub channel_id: String,
}

/// The arguments of the `update_stage_instance` tool.
pub struct UpdateStageInstanceParams {
    /// The stage channel ID
    pub channel_id: String,
    /// New topic (1-120 characters)
    pub topic: Option<String>,
    /// Privacy level: 2=guild_only
    pub privacy_level: Option<u8>,
}

/// The arguments of the `delete_stage_instance` tool.
pub struct DeleteStageInstanceParams {
    /// The stage channel ID
    pub channel_id: String,
}


/// A new stage instance as it is sent; it is visible to guild members only.
pub struct StageInstanceCreate {
    pub channel_id: u64,
    pub topic: String,
}

/// Checks the arguments of `create_stage_instance`: first the channel ID,
/// then the privacy level (guild-only where absent, and the only one
/// accepted).
pub fn create_stage_instance(params: CreateStageInstanceParams) -> (r: Result<
    StageInstanceCreate,
    ToolError,
>)
    ensures
        match id_result(params.channel_id@) {
            Err(why) => refused_id(r, params.channel_id@, why),
            Ok(cid) => match params.privacy_level {
                Some(level) if level != 2 => r == Err::<StageInstanceCreate, ToolError>(
                    ToolError::BadCode(CodeField::PrivacyLevel, level),
                ),
                _ => r matches Ok(s) && s.channel_id == cid && s.topic == params.topic,
            },
        },
{
    let channel_id = snowflake(&params.channel_id)?;
    let level: u8 = match params.privacy_level {
        Some(l) => l,
        None => 2,
    };
    if level != 2 {
        return Err(ToolError::BadCode(CodeField::PrivacyLevel, level));
    }
    let CreateStageInstanceParams { channel_id: _, topic, privacy_level: _ } = params;
    Ok(StageInstanceCreate { channel_id, topic })
}

/// The changes to a stage instance as they are sent.
pub struct StageInstanceUpdate {
    pub channel_id: u64,
    pub topic: Option<String>,
    /// Whether the privacy level is set (to guild-only, the only one).
    pub guild_only: bool,
}

/// Checks the arguments of `update_stage_instance`: first the channel ID,
/// then the privacy level where given.
pub fn update_stage_instance(params: UpdateStageInstanceParams) -> (r: Result<
    StageInstanceUpdate,
    ToolError,
>)
    ensures
        match id_result(params.channel_id@) {
            Err(why) => refused_id(r, params.channel_id@, why),
            Ok(cid) => match params.privacy_level {
                Some(level) if level != 2 => r == Err::<StageInstanceUpdate, ToolError>(
                    ToolError::BadCode(CodeField::PrivacyLevel, level),
                ),
                _ => r matches Ok(s) && s.channel_id == cid && s.topic == params.topic
                    && s.guild_only == params.privacy_level is Some,
            },
        },
{
    let channel_id = snowflake(&params.channel_id)?;
    let guild_only = match params.privacy_level {
        Some(level) => {
            if level != 2 {
                return Err(ToolError::BadCode(CodeField::PrivacyLevel, level));
            }
            true
        },
        None => false,
    };
    let UpdateStageInstanceParams { channel_id: _, topic, privacy_level: _ } = params;
    Ok(StageInstanceUpdate { channel_id, topic, guild_only })
}

} // verus!
