use vstd::prelude::*;

use crate::text::{owned, trim};
use crate::cli::trim_exec;
use crate::tools::{refused_id, snowflake, ToolError};
use crate::util::{id_result, parse_u64, parse_u64_exec};

verus! {

/// The arguments of the `get_audit_log` tool.
pub struct GetAuditLogParams {
    /// The guild (server) ID
    pub guild_id: String,
    /// Filter by user who performed the action
    pub user_id: Option<String>,
    /// Filter by action type (integer, see Discord docs for values)
    pub action_type: Option<u16>,
    /// Get entries before this audit log entry ID
    pub before: Option<String>,
    /// Max number of entries to return (1-100, default 50)
    pub limit: Option<u16>,
}


/// An audit log query as it is sent; the action type is the numeric code as
/// given.
pub struct AuditLogQuery {
    pub guild_id: u64,
    pub user_id: Option<u64>,
    pub action_type: Option<u16>,
    pub before: Option<u64>,
    pub limit: Option<u16>,
}

/// Checks the arguments of `get_audit_log`, in the tool's order: the guild
/// ID, the user ID, the `before` ID. The `before` ID may be zero: it is only
/// read as a number, surrounding whitespace ignored.
pub fn get_audit_log(params: &GetAuditLogParams) -> (r: Result<AuditLogQuery, ToolError>)
    ensures
        match id_result(params.guild_id@) {
            Err(why) => refused_id(r, params.guild_id@, why),
            Ok(g) => if params.user_id is Some && id_result(params.user_id->0@) is Err {
                refused_id(r, params.user_id->0@, id_result(params.user_id->0@)->Err_0)
            } else if params.before is Some && parse_u64(trim(params.before->0@)) is None {
                r matches Err(ToolError::BadBefore(s)) && s@ == params.before->0@
            } else {
                r == Ok::<AuditLogQuery, ToolError>(
                    AuditLogQuery {
                        guild_id: g,
                        user_id: match params.user_id {
                            Some(u) => Some(id_result(u@)->Ok_0),
                            None => None,
                        },
                        action_type: params.action_type,
                        before: match params.before {
                            Some(b) => parse_u64(trim(b@)),
                            None => None,
                        },
                        limit: params.limit,
                    },
                )
            },
        },
{
    let guild_id = snowflake(&params.guild_id)?;
    let user_id = match &params.user_id {
        Some(u) => Some(snowflake(u)?),
        None => None,
    };
    let before = match &params.before {
        Some(b) => {
            let t = trim_exec(b.as_str());
            match parse_u64_exec(t.as_str()) {
                Some(v) => Some(v),
                None => {
                    return Err(ToolError::BadBefore(owned(b.as_str())));
                },
            }
        },
        None => None,
    };
    Ok(AuditLogQuery { guild_id, user_id, action_type: params.action_type, before, limit: params.limit })
}

} // verus!
