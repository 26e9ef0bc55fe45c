use vstd::prelude::*;

use crate::dispatch::{decimal, push_decimal};
use crate::text::{owned, push_str};
use crate::tools::{ids_read, refused_id, snowflake, snowflakes, string_views, ToolError};
use crate::util::id_result;

verus! {

/// The arguments of the `list_messages` tool.
pub struct ListMessagesParams {
    /// The channel ID to get messages from
    pub channel_id: String,
    /// Max number of messages to return (1-100, default 50)
    pub limit: Option<u16>,
    /// Get messages before this message ID
    pub before: Option<String>,
    /// Get messages after this message ID
    pub after: Option<String>,
    /// Get messages around this message ID
    pub around: Option<String>,
}

/// The arguments of the `get_message` tool.
pub struct GetMessageParams {
    /// The channel ID
    pub channel_id: String,
    /// The message ID
    pub message_id: String,
}

/// The arguments of the `send_message` tool.
pub struct SendMessageParams {
    /// The channel ID to send the message to
    pub channel_id: String,
    /// Text content (up to 2000 characters)
    pub content: Option<String>,
    /// Whether this is a TTS message
    pub tts: Option<bool>,
    /// Message ID to reply to
    pub reply_to: Option<String>,
}

/// The arguments of the `edit_message` tool.
pub struct EditMessageParams {
    /// The channel ID
    pub channel_id: String,
    /// The message ID to edit
    pub message_id: String,
    /// New text content
    pub content: Option<String>,
}

/// The arguments of the `delete_message` tool.
pub struct DeleteMessageParams {
    /// The channel ID
    pub channel_id: String,
    /// The message ID to delete
    pub message_id: String,
}

/// The arguments of the `bulk_delete_messages` tool.
pub struct BulkDeleteMessagesParams {
    /// The channel ID
    pub channel_id: String,
    /// Array of message IDs to delete (2-100 messages, must be < 14 days old)
    pub message_ids: Vec<String>,
}

/// The arguments of the `pin_message` tool.
pub struct PinMessageParams {
    /// The channel ID
    pub channel_id: String,
    /// The message ID to pin
    pub message_id: String,
}

/// The arguments of the `unpin_message` tool.
pub struct UnpinMessageParams {
    /// The channel ID
    pub channel_id: String,
    /// The message ID to unpin
    pub message_id: String,
}

/// The arguments of the `get_pinned_messages` tool.
pub struct GetPinnedMessagesParams {
    /// The channel ID
    pub channel_id: String,
}

/// The arguments of the `crosspost_message` tool.
pub struct CrosspostMessageParams {
    /// The announcement channel ID
    pub channel_id: String,
    /// The message ID to crosspost
    pub message_id: String,
}


/// Which messages of a channel a listing starts from.
#[derive(Clone, Copy, Debug, PartialEq, Eq, Structural)]
pub enum MessagePage {
    /// The most recent messages.
    Latest,
    /// Messages before the given one.
    Before(u64),
    /// Messages after the given one.
    After(u64),
    /// Messages around the given one.
    Around(u64),
}

/// A listing of a channel's messages as it is asked for.
pub struct MessageListing {
    pub channel_id: u64,
    pub page: MessagePage,
    pub limit: Option<u16>,
}

/// Checks the arguments of `list_messages`. Of `before`, `after` and
/// `around`, the first given is used and the others are ignored.
pub fn list_messages(params: &ListMessagesParams) -> (r: Result<MessageListing, ToolError>)
    ensures
        match id_result(params.channel_id@) {
            Err(why) => refused_id(r, params.channel_id@, why),
            Ok(cid) => {
                let anchor = if params.before is Some {
                    params.before
                } else if params.after is Some {
                    params.after
                } else {
                    params.around
                };
                match anchor {
                    None => r == Ok::<MessageListing, ToolError>(
                        MessageListing {
                            channel_id: cid,
                            page: MessagePage::Latest,
                            limit: params.limit,
                        },
                    ),
                    Some(a) => match id_result(a@) {
                        Err(why) => refused_id(r, a@, why),
                        Ok(m) => r == Ok::<MessageListing, ToolError>(
                            MessageListing {
                                channel_id: cid,
                                page: if params.before is Some {
                                    MessagePage::Before(m)
                                } else if params.after is Some {
                                    MessagePage::After(m)
                                } else {
                                    MessagePage::Around(m)
                                },
                                limit: params.limit,
                            },
                        ),
                    },
                }
            },
        },
{
    let channel_id = snowflake(&params.channel_id)?;
    let page = if let Some(before) = &params.before {
        MessagePage::Before(snowflake(before)?)
    } else if let Some(after) = &params.after {
        MessagePage::After(snowflake(after)?)
    } else if let Some(around) = &params.around {
        MessagePage::Around(snowflake(around)?)
    } else {
        MessagePage::Latest
    };
    Ok(MessageListing { channel_id, page, limit: params.limit })
}

/// A bulk deletion as it is sent.
pub struct BulkDeletion {
    pub channel_id: u64,
    pub message_ids: Vec<u64>,
}

/// Checks the arguments of `bulk_delete_messages`: first the channel ID,
/// then each message ID in order.
pub fn bulk_delete_messages(params: &BulkDeleteMessagesParams) -> (r: Result<
    BulkDeletion,
    ToolError,
>)
    ensures
        match id_result(params.channel_id@) {
            Err(why) => refused_id(r, params.channel_id@, why),
            Ok(cid) => match r {
                Ok(d) => d.channel_id == cid && ids_read(
                    string_views(params.message_ids@),
                    Ok::<Vec<u64>, ToolError>(d.message_ids),
                ),
                Err(e) => ids_read(
                    string_views(params.message_ids@),
                    Err::<Vec<u64>, ToolError>(e),
                ),
            },
        },
{
    let channel_id = snowflake(&params.channel_id)?;
    let message_ids = snowflakes(&params.message_ids)?;
    Ok(BulkDeletion { channel_id, message_ids })
}

/// The answer to a bulk deletion of `n` messages.
pub open spec fn bulk_deleted_text(n: nat) -> Seq<char> {
    decimal(n) + " messages deleted successfully"@
}

/// The answer to a bulk deletion of `n` messages.
pub fn bulk_deleted_message(n: usize) -> (r: String)
    ensures
        r@ == bulk_deleted_text(n as nat),
{
    let mut m = String::new();
    push_decimal(&mut m, n as u64);
    push_str(&mut m, " messages deleted successfully");
    m
}

} // verus!
