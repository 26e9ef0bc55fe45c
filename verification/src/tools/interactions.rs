use vstd::prelude::*;

use crate::tools::{refused_id, snowflake, CodeField, ToolError};
use crate::util::id_result;

verus! {

/// The arguments of the `create_interaction_response` tool.
pub struct CreateInteractionResponseParams {
    /// The interaction ID
    pub interaction_id: String,
    /// The interaction token
    pub interaction_token: String,
    /// Response type: 1=pong, 4=channel_message, 5=deferred_channel_message, 6=deferred_update, 7=update_message
    pub response_type: u8,
    /// Message content (for types 4/7)
    pub content: Option<String>,
}

/// The arguments of the `get_original_response` tool.
pub struct GetOriginalResponseParams {
    /// The interaction token
    pub interaction_token: String,
}

/// The arguments of the `edit_original_response` tool.
pub struct EditOriginalResponseParams {
    /// The interaction token
    pub interaction_token: String,
    /// New message content
    pub content: Option<String>,
}

/// The arguments of the `delete_original_response` tool.
pub struct DeleteOriginalResponseParams {
    /// The interaction token
    pub interaction_token: String,
}

/// The arguments of the `create_followup_message` tool.
pub struct CreateFollowupMessageParams {
    /// The interaction token
    pub interaction_token: String,
    /// Message content
    pub content: String,
}

/// The arguments of the `get_followup_message` tool.
pub struct GetFollowupMessageParams {
    /// The interaction token
    pub interaction_token: String,
    /// The followup message ID
    pub message_id: String,
}

/// The arguments of the `edit_followup_message` tool.
pub struct EditFollowupMessageParams {
    /// The interaction token
    pub interaction_token: String,
    /// The followup message ID
    pub message_id: String,
    /// New message content
    pub content: Option<String>,
}

/// The arguments of the `delete_followup_message` tool.
pub struct DeleteFollowupMessageParams {
    /// The interaction token
    pub interaction_token: String,
    /// The followup message ID
    pub message_id: String,
}


/// How an interaction is answered.
#[derive(Clone, Copy, Debug, PartialEq, Eq, Structural)]
pub enum ResponseKind {
    /// Code 1: acknowledge a ping.
    Pong,
    /// Code 4: answer with a message.
    ChannelMessageWithSource,
    /// Code 5: acknowledge now, answer with a message later.
    DeferredChannelMessageWithSource,
    /// Code 6: acknowledge a component, edit its message later.
    DeferredUpdateMessage,
    /// Code 7: edit the message of a component.
    UpdateMessage,
}

/// The kind that a response type code names, if any.
pub open spec fn response_kind_of(code: u8) -> Option<ResponseKind> {
    if code == 1 {
        Some(ResponseKind::Pong)
    } else if code == 4 {
        Some(ResponseKind::ChannelMessageWithSource)
    } else if code == 5 {
        Some(ResponseKind::DeferredChannelMessageWithSource)
    } else if code == 6 {
        Some(ResponseKind::DeferredUpdateMessage)
    } else if code == 7 {
        Some(ResponseKind::UpdateMessage)
    } else {
        None
    }
}

/// An interaction response as it is sent: its data holds only the content,
/// and there is data only where content is given.
pub struct InteractionResponse {
    pub interaction_id: u64,
    pub interaction_token: String,
    pub kind: ResponseKind,
    pub content: Option<String>,
}

/// Checks the arguments of `create_interaction_response` and builds the
/// response: first the interaction ID, then the response type.
pub fn create_interaction_response(params: CreateInteractionResponseParams) -> (r: Result<
    InteractionResponse,
    ToolError,
>)
    ensures
        match id_result(params.interaction_id@) {
            Err(why) => refused_id(r, params.interaction_id@, why),
            Ok(iid) => match response_kind_of(params.response_type) {
                None => r == Err::<InteractionResponse, ToolError>(
                    ToolError::BadCode(CodeField::ResponseType, params.response_type),
                ),
                Some(k) => r matches Ok(resp) && resp.interaction_id == iid
                    && resp.interaction_token == params.interaction_token && resp.kind == k
                    && resp.content == params.content,
            },
        },
{
    let interaction_id = snowflake(&params.interaction_id)?;
    let c = params.response_type;
    let kind = if c == 1 {
        ResponseKind::Pong
    } else if c == 4 {
        ResponseKind::ChannelMessageWithSource
    } else if c == 5 {
        ResponseKind::DeferredChannelMessageWithSource
    } else if c == 6 {
        ResponseKind::DeferredUpdateMessage
    } else if c == 7 {
        ResponseKind::UpdateMessage
    } else {
        return Err(ToolError::BadCode(CodeField::ResponseType, c));
    };
    let CreateInteractionResponseParams {
        interaction_id: _,
        interaction_token,
        response_type: _,
        content,
    } = params;
    Ok(InteractionResponse { interaction_id, interaction_token, kind, content })
}


/// What `create_interaction_response` answers once the response has been
/// sent: "Interaction response sent", or the call's error.
pub fn create_interaction_response_result(reply: Result<(), String>) -> (r: crate::tools::ToolOutcome)
    ensures
        match reply {
            Ok(()) => crate::tools::succeeds_with(r, "Interaction response sent"@),
            Err(why) => crate::tools::fails_with(r, "Discord API error: "@ + why@),
        },
{
    crate::tools::client_message_result(reply, "Interaction response sent")
}

} // verus!
