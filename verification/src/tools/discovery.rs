use vstd::prelude::*;

verus! {

/// The arguments of the `get_guild` tool.
pub struct GetGuildParams {
    /// The guild (server) ID
    pub guild_id: String,
}

} // verus!
