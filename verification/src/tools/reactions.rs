use vstd::prelude::*;

use crate::text::{chars_of, owned, string_of_range};
use crate::util::{last_index, parse_u64, parse_u64_exec};

verus! {

/// The arguments of the `add_reaction` tool.
pub struct AddReactionParams {
    /// The channel ID
    pub channel_id: String,
    /// The message ID
    pub message_id: String,
    /// Emoji: unicode character (e.g. "👍") or custom emoji "name:id"
    pub emoji: String,
}

/// The arguments of the `remove_reaction` tool.
pub struct RemoveReactionParams {
    /// The channel ID
    pub channel_id: String,
    /// The message ID
    pub message_id: String,
    /// Emoji: unicode character or custom "name:id"
    pub emoji: String,
    /// User ID to remove reaction for (omit to remove bot's own reaction)
    pub user_id: Option<String>,
}

/// The arguments of the `get_reactions` tool.
pub struct GetReactionsParams {
    /// The channel ID
    pub channel_id: String,
    /// The message ID
    pub message_id: String,
    /// Emoji: unicode character or custom "name:id"
    pub emoji: String,
    /// Max number of users to return (1-100, default 25)
    pub limit: Option<u16>,
}

/// The arguments of the `clear_all_reactions` tool.
pub struct ClearAllReactionsParams {
    /// The channel ID
    pub channel_id: String,
    /// The message ID
    pub message_id: String,
}

/// The arguments of the `clear_emoji_reactions` tool.
pub struct ClearEmojiReactionsParams {
    /// The channel ID
    pub channel_id: String,
    /// The message ID
    pub message_id: String,
    /// Emoji to clear: unicode character or custom "name:id"
    pub emoji: String,
}


/// The emoji of a reaction as it is sent.
pub enum ReactionEmoji {
    /// A guild's own emoji, by name and ID.
    Custom { name: String, id: u64 },
    /// A Unicode emoji, as written.
    Unicode { name: String },
}

/// Whether `e` is what an emoji argument reads as: text of the form
/// `name:id`, split at the last colon, where the ID is a non-zero unsigned
/// 64-bit number, names a custom emoji; anything else is a Unicode emoji.
pub open spec fn emoji_read(s: Seq<char>, e: ReactionEmoji) -> bool {
    let k = last_index(s, ':');
    if k >= 0 && parse_u64(s.skip(k + 1)) is Some && parse_u64(s.skip(k + 1))->0 != 0 {
        e matches ReactionEmoji::Custom { name, id } && name@ == s.take(k) && id == parse_u64(
            s.skip(k + 1),
        )->0
    } else {
        e matches ReactionEmoji::Unicode { name } && name@ == s
    }
}

/// Reads an emoji argument: a Unicode emoji such as "👍", or a custom emoji
/// written `name:id`.
pub fn parse_emoji(emoji: &str) -> (r: ReactionEmoji)
    ensures
        emoji_read(emoji@, r),
{
    let cs = chars_of(emoji);
    let mut i = cs.len();
    assert(cs@.take(cs@.len() as int) == cs@);
    while i > 0 && cs[i - 1] != ':'
        invariant
            i <= cs@.len(),
            cs@ == emoji@,
            last_index(emoji@, ':') == last_index(cs@.take(i as int), ':'),
        decreases i,
    {
        assert(cs@.take(i as int).drop_last() == cs@.take(i - 1));
        i = i - 1;
    }
    assert(last_index(emoji@, ':') + 1 == i) by {
        if i > 0 {
            assert(cs@.take(i as int).last() == ':');
        }
    }
    if i > 0 {
        let id_text = string_of_range(&cs, i, cs.len());
        assert(id_text@ == emoji@.skip(i as int));
        if let Some(id) = parse_u64_exec(id_text.as_str()) {
            if id != 0 {
                let name = string_of_range(&cs, 0, i - 1);
                assert(name@ == emoji@.take(i - 1));
                return ReactionEmoji::Custom { name, id };
            }
        }
    }
    ReactionEmoji::Unicode { name: owned(emoji) }
}

} // verus!
