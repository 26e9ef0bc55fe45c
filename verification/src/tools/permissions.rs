use vstd::prelude::*;

use crate::text::str_eq;
use crate::tools::{refused_id, snowflake, ToolError};
use crate::util::{id_result, parse_u64, parse_u64_exec};

verus! {

/// The arguments of the `update_channel_permission` tool.
pub struct UpdateChannelPermissionParams {
    /// The channel ID
    pub channel_id: String,
    /// The target ID (role or user ID)
    pub target_id: String,
    /// Target type: "role" or "member"
    pub target_type: String,
    /// Allowed permissions bit set as string (decimal)
    pub allow: Option<String>,
    /// Denied permissions bit set as string (decimal)
    pub deny: Option<String>,
}

/// The arguments of the `delete_channel_permission` tool.
pub struct DeleteChannelPermissionParams {
    /// The channel ID
    pub channel_id: String,
    /// The target ID (role or user ID) whose permission overwrite to delete
    pub target_id: String,
    /// Target type: "role" or "member"
    pub target_type: String,
}


/// The permission bits that twilight names: bits 0 to 46 and 49 to 52.
pub open spec fn known_permission_bits() -> u64 {
    0x001E_7FFF_FFFF_FFFFu64
}

/// Drops the permission bits that twilight does not know.
///
/// Trusted: `twilight_model::guild::Permissions::from_bits_truncate`, read
/// back with `Permissions::bits`. bitflags computes it as the bits and'ed
/// with the union of the named flags, and twilight-model 0.18 names bits 0
/// to 46 and 49 to 52.
#[verifier::external_body]
pub(crate) fn truncate_permissions(bits: u64) -> (r: u64)
    ensures
        r == bits & known_permission_bits(),
{
    twilight_model::guild::Permissions::from_bits_truncate(bits).bits()
}

/// Reads a permission set written as a decimal number, keeping the bits
/// that twilight knows.
pub fn parse_permissions(s: &String) -> (r: Result<u64, ToolError>)
    ensures
        match parse_u64(s@) {
            None => r == Err::<u64, ToolError>(ToolError::BadPermissions),
            Some(bits) => r == Ok::<u64, ToolError>(bits & known_permission_bits()),
        },
{
    match parse_u64_exec(s.as_str()) {
        None => Err(ToolError::BadPermissions),
        Some(bits) => Ok(truncate_permissions(bits)),
    }
}

/// Whom a permission overwrite is for.
#[derive(Clone, Copy, Debug, PartialEq, Eq, Structural)]
pub enum OverwriteTarget {
    /// `role`.
    Role,
    /// `member`.
    Member,
}

/// The target that a target type names, if any.
pub open spec fn target_of(t: Seq<char>) -> Option<OverwriteTarget> {
    if t == "role"@ {
        Some(OverwriteTarget::Role)
    } else if t == "member"@ {
        Some(OverwriteTarget::Member)
    } else {
        None
    }
}

fn target_from(t: &String) -> (r: Option<OverwriteTarget>)
    ensures
        r == target_of(t@),
{
    if str_eq(t.as_str(), "role") {
        Some(OverwriteTarget::Role)
    } else if str_eq(t.as_str(), "member") {
        Some(OverwriteTarget::Member)
    } else {
        None
    }
}

/// A permission overwrite as it is sent; absent sets are empty.
pub struct PermissionOverwrite {
    pub channel_id: u64,
    pub target_id: u64,
    pub kind: OverwriteTarget,
    pub allow: u64,
    pub deny: u64,
}

/// What an optional permission argument reads as: empty where absent.
pub open spec fn permissions_read(o: Option<String>) -> Option<u64> {
    match o {
        None => Some(0u64),
        Some(s) => match parse_u64(s@) {
            None => None,
            Some(bits) => Some(bits & known_permission_bits()),
        },
    }
}

/// Checks the arguments of `update_channel_permission` and builds the
/// overwrite, in the tool's order: the channel ID, the target ID, the target
/// type, the allowed set, the denied set.
pub fn update_channel_permission(params: &UpdateChannelPermissionParams) -> (r: Result<
    PermissionOverwrite,
    ToolError,
>)
    ensures
        match id_result(params.channel_id@) {
            Err(why) => refused_id(r, params.channel_id@, why),
            Ok(cid) => match id_result(params.target_id@) {
                Err(why) => refused_id(r, params.target_id@, why),
                Ok(tid) => match target_of(params.target_type@) {
                    None => r matches Err(ToolError::BadTargetType(t)) && t@
                        == params.target_type@,
                    Some(k) => if permissions_read(params.allow) is None
                        || permissions_read(params.deny) is None {
                        r == Err::<PermissionOverwrite, ToolError>(ToolError::BadPermissions)
                    } else {
                        r == Ok::<PermissionOverwrite, ToolError>(
                            PermissionOverwrite {
                                channel_id: cid,
                                target_id: tid,
                                kind: k,
                                allow: permissions_read(params.allow)->0,
                                deny: permissions_read(params.deny)->0,
                            },
                        )
                    },
                },
            },
        },
{
    let channel_id = snowflake(&params.channel_id)?;
    let target_id = snowflake(&params.target_id)?;
    let kind = match target_from(&params.target_type) {
        Some(k) => k,
        None => {
            return Err(ToolError::BadTargetType(params.target_type.clone()));
        },
    };
    let allow = match &params.allow {
        Some(s) => parse_permissions(s)?,
        None => 0,
    };
    let deny = match &params.deny {
        Some(s) => parse_permissions(s)?,
        None => 0,
    };
    Ok(PermissionOverwrite { channel_id, target_id, kind, allow, deny })
}

/// The removal of a permission overwrite.
pub struct PermissionOverwriteRemoval {
    pub channel_id: u64,
    pub kind: OverwriteTarget,
    pub target_id: u64,
}

/// Checks the arguments of `delete_channel_permission`, in the tool's order:
/// the channel ID, the target type, the target ID.
pub fn delete_channel_permission(params: &DeleteChannelPermissionParams) -> (r: Result<
    PermissionOverwriteRemoval,
    ToolError,
>)
    ensures
        match id_result(params.channel_id@) {
            Err(why) => refused_id(r, params.channel_id@, why),
            Ok(cid) => match target_of(params.target_type@) {
                None => r matches Err(ToolError::BadTargetType(t)) && t@ == params.target_type@,
                Some(k) => match id_result(params.target_id@) {
                    Err(why) => refused_id(r, params.target_id@, why),
                    Ok(tid) => r == Ok::<PermissionOverwriteRemoval, ToolError>(
                        PermissionOverwriteRemoval { channel_id: cid, kind: k, target_id: tid },
                    ),
                },
            },
        },
{
    let channel_id = snowflake(&params.channel_id)?;
    let kind = match target_from(&params.target_type) {
        Some(k) => k,
        None => {
            return Err(ToolError::BadTargetType(params.target_type.clone()));
        },
    };
    let target_id = snowflake(&params.target_id)?;
    Ok(PermissionOverwriteRemoval { channel_id, kind, target_id })
}

} // verus!
