use vstd::prelude::*;

verus! {

/// The arguments of the `get_poll_answer_voters` tool.
pub struct GetPollAnswerVotersParams {
    /// The channel ID containing the poll message
    pub channel_id: String,
    /// The message ID of the poll
    pub message_id: String,
    /// The answer ID to get voters for
    pub answer_id: u8,
    /// Max number of users to return (1-100, default 25)
    pub limit: Option<u8>,
    /// Get users after this user ID (for pagination)
    pub after: Option<String>,
}

/// The arguments of the `end_poll` tool.
pub struct EndPollParams {
    /// The channel ID containing the poll message
    pub channel_id: String,
    /// The message ID of the poll to end
    pub message_id: String,
}

} // verus!
