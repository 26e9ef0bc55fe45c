use vstd::prelude::*;

use crate::tools::{refused_id, snowflake, CodeField, ToolError};
use crate::util::id_result;

verus! {

/// The arguments of the `create_thread` tool.
pub struct CreateThreadParams {
    /// The channel ID to create the thread in
    pub channel_id: String,
    /// Thread name
    pub name: String,
    /// Thread type: 11=public, 12=private
    pub thread_type: Option<u8>,
    /// Auto-archive duration in minutes (60, 1440, 4320, or 10080)
    pub auto_archive_duration: Option<u16>,
}

/// The arguments of the `create_thread_from_message` tool.
pub struct CreateThreadFromMessageParams {
    /// The channel ID
    pub channel_id: String,
    /// The message ID to create a thread from
    pub message_id: String,
    /// Thread name
    pub name: String,
    /// Auto-archive duration in minutes (60, 1440, 4320, or 10080)
    pub auto_archive_duration: Option<u16>,
}

/// The arguments of the `join_thread` tool.
pub struct JoinThreadParams {
    /// The thread channel ID
    pub channel_id: String,
}

/// The arguments of the `leave_thread` tool.
pub struct LeaveThreadParams {
    /// The thread channel ID
    pub channel_id: String,
}

/// The arguments of the `add_thread_member` tool.
pub struct AddThreadMemberParams {
    /// The thread channel ID
    pub channel_id: String,
    /// The user ID to add
    pub user_id: String,
}

/// The arguments of the `remove_thread_member` tool.
pub struct RemoveThreadMemberParams {
    /// The thread channel ID
    pub channel_id: String,
    /// The user ID to remove
    pub user_id: String,
}

/// The arguments of the `list_thread_members` tool.
pub struct ListThreadMembersParams {
    /// The thread channel ID
    pub channel_id: String,
}

/// The arguments of the `list_active_threads` tool.
pub struct ListActiveThreadsParams {
    /// The guild (server) ID
    pub guild_id: String,
}

/// The arguments of the `list_public_archived_threads` tool.
pub struct ListPublicArchivedThreadsParams {
    /// The parent channel ID
    pub channel_id: String,
}


/// Who can see a new thread.
#[derive(Clone, Copy, Debug, PartialEq, Eq, Structural)]
pub enum ThreadKind {
    /// Code 11.
    PublicThread,
    /// Code 12.
    PrivateThread,
}

/// A new thread as it is sent. The archive delay is in minutes, passed on
/// as given.
pub struct ThreadCreate {
    pub channel_id: u64,
    pub name: String,
    pub kind: ThreadKind,
    pub auto_archive_duration: Option<u16>,
}

/// Checks the arguments of `create_thread` and builds the thread: first the
/// channel ID, then the thread type (public where absent).
pub fn create_thread(params: CreateThreadParams) -> (r: Result<ThreadCreate, ToolError>)
    ensures
        match id_result(params.channel_id@) {
            Err(why) => refused_id(r, params.channel_id@, why),
            Ok(cid) => {
                let code = match params.thread_type {
                    Some(c) => c,
                    None => 11u8,
                };
                if code == 11 || code == 12 {
                    r matches Ok(t) && t.channel_id == cid && t.name == params.name && t.kind == (
                    if code == 11 {
                        ThreadKind::PublicThread
                    } else {
                        ThreadKind::PrivateThread
                    }) && t.auto_archive_duration == params.auto_archive_duration
                } else {
                    r == Err::<ThreadCreate, ToolError>(
                        ToolError::BadCode(CodeField::ThreadType, code),
                    )
                }
            },
        },
{
    let channel_id = snowflake(&params.channel_id)?;
    let code: u8 = match params.thread_type {
        Some(c) => c,
        None => 11,
    };
    let kind = if code == 11 {
        ThreadKind::PublicThread
    } else if code == 12 {
        ThreadKind::PrivateThread
    } else {
        return Err(ToolError::BadCode(CodeField::ThreadType, code));
    };
    let CreateThreadParams { channel_id: _, name, thread_type: _, auto_archive_duration } = params;
    Ok(ThreadCreate { channel_id, name, kind, auto_archive_duration })
}

/// A new thread on a message as it is sent.
pub struct ThreadFromMessage {
    pub channel_id: u64,
    pub message_id: u64,
    pub name: String,
    pub auto_archive_duration: Option<u16>,
}

/// Checks the arguments of `create_thread_from_message` and builds the
/// thread: first the channel ID, then the message ID.
pub fn create_thread_from_message(params: CreateThreadFromMessageParams) -> (r: Result<
    ThreadFromMessage,
    ToolError,
>)
    ensures
        match id_result(params.channel_id@) {
            Err(why) => refused_id(r, params.channel_id@, why),
            Ok(cid) => match id_result(params.message_id@) {
                Err(why) => refused_id(r, params.message_id@, why),
                Ok(mid) => r matches Ok(t) && t.channel_id == cid && t.message_id == mid
                    && t.name == params.name && t.auto_archive_duration
                    == params.auto_archive_duration,
            },
        },
{
    let channel_id = snowflake(&params.channel_id)?;
    let message_id = snowflake(&params.message_id)?;
    let CreateThreadFromMessageParams {
        channel_id: _,
        message_id: _,
        name,
        auto_archive_duration,
    } = params;
    Ok(ThreadFromMessage { channel_id, message_id, name, auto_archive_duration })
}

} // verus!
