use vstd::prelude::*;

use crate::tools::permissions::{known_permission_bits, truncate_permissions};
use crate::tools::{refused_id, snowflake, ToolError};
use crate::util::{id_result, parse_u64, parse_u64_exec};

verus! {

/// The arguments of the `list_roles` tool.
pub struct ListRolesParams {
    /// The guild (server) ID
    pub guild_id: String,
}

/// The arguments of the `create_role` tool.
pub struct CreateRoleParams {
    /// The guild (server) ID
    pub guild_id: String,
    /// Role name
    pub name: Option<String>,
    /// Role color as integer (decimal, e.g. 16711680 for red #FF0000)
    pub color: Option<u32>,
    /// Whether the role is displayed separately in the member list
    pub hoist: Option<bool>,
    /// Whether the role is mentionable
    pub mentionable: Option<bool>,
    /// Permission bit set as a string (decimal representation of the bitfield)
    pub permissions: Option<String>,
}

/// The arguments of the `update_role` tool.
pub struct UpdateRoleParams {
    /// The guild (server) ID
    pub guild_id: String,
    /// The role ID to update
    pub role_id: String,
    /// New role name
    pub name: Option<String>,
    /// New color as integer
    pub color: Option<u32>,
    /// Whether to display separately in member list
    pub hoist: Option<bool>,
    /// Whether the role is mentionable
    pub mentionable: Option<bool>,
    /// Permission bit set as a string
    pub permissions: Option<String>,
}

/// The arguments of the `delete_role` tool.
pub struct DeleteRoleParams {
    /// The guild (server) ID
    pub guild_id: String,
    /// The role ID to delete
    pub role_id: String,
}

/// The arguments of the `add_role_to_member` tool.
pub struct AddRoleToMemberParams {
    /// The guild (server) ID
    pub guild_id: String,
    /// The user ID
    pub user_id: String,
    /// The role ID to add
    pub role_id: String,
}

/// The arguments of the `remove_role_from_member` tool.
pub struct RemoveRoleFromMemberParams {
    /// The guild (server) ID
    pub guild_id: String,
    /// The user ID
    pub user_id: String,
    /// The role ID to remove
    pub role_id: String,
}


/// What a role's optional permission argument reads as: `None` where it is
/// absent, else the decimal number with the bits twilight knows.
pub open spec fn role_permissions_read(o: Option<String>) -> Result<Option<u64>, ToolError> {
    match o {
        None => Ok(None),
        Some(s) => match parse_u64(s@) {
            None => Err(ToolError::BadRolePermissions),
            Some(bits) => Ok(Some(bits & known_permission_bits())),
        },
    }
}

fn role_permissions(o: &Option<String>) -> (r: Result<Option<u64>, ToolError>)
    ensures
        r == role_permissions_read(*o),
{
    match o {
        None => Ok(None),
        Some(s) => match parse_u64_exec(s.as_str()) {
            None => Err(ToolError::BadRolePermissions),
            Some(bits) => Ok(Some(truncate_permissions(bits))),
        },
    }
}

/// A role's settings as they are sent.
pub struct RoleFields {
    pub name: Option<String>,
    pub color: Option<u32>,
    pub hoist: Option<bool>,
    pub mentionable: Option<bool>,
    pub permissions: Option<u64>,
}

/// A new role as it is sent.
pub struct RoleCreate {
    pub guild_id: u64,
    pub fields: RoleFields,
}

/// Checks the arguments of `create_role`: first the guild ID, then the
/// permission set.
pub fn create_role(params: CreateRoleParams) -> (r: Result<RoleCreate, ToolError>)
    ensures
        match id_result(params.guild_id@) {
            Err(why) => refused_id(r, params.guild_id@, why),
            Ok(g) => match role_permissions_read(params.permissions) {
                Err(_) => r == Err::<RoleCreate, ToolError>(ToolError::BadRolePermissions),
                Ok(perms) => r matches Ok(c) && c.guild_id == g && c.fields.name == params.name
                    && c.fields.color == params.color && c.fields.hoist == params.hoist
                    && c.fields.mentionable == params.mentionable && c.fields.permissions == perms,
            },
        },
{
    let guild_id = snowflake(&params.guild_id)?;
    let permissions = role_permissions(&params.permissions)?;
    let CreateRoleParams { guild_id: _, name, color, hoist, mentionable, permissions: _ } = params;
    Ok(RoleCreate { guild_id, fields: RoleFields { name, color, hoist, mentionable, permissions } })
}

/// The changes to a role as they are sent.
pub struct RoleUpdate {
    pub guild_id: u64,
    pub role_id: u64,
    pub fields: RoleFields,
}

/// Checks the arguments of `update_role`: the guild ID, the role ID, then
/// the permission set.
pub fn update_role(params: UpdateRoleParams) -> (r: Result<RoleUpdate, ToolError>)
    ensures
        match id_result(params.guild_id@) {
            Err(why) => refused_id(r, params.guild_id@, why),
            Ok(g) => match id_result(params.role_id@) {
                Err(why) => refused_id(r, params.role_id@, why),
                Ok(rid) => match role_permissions_read(params.permissions) {
                    Err(_) => r == Err::<RoleUpdate, ToolError>(ToolError::BadRolePermissions),
                    Ok(perms) => r matches Ok(c) && c.guild_id == g && c.role_id == rid
                        && c.fields.name == params.name && c.fields.color == params.color
                        && c.fields.hoist == params.hoist && c.fields.mentionable
                        == params.mentionable && c.fields.permissions == perms,
                },
            },
        },
{
    let guild_id = snowflake(&params.guild_id)?;
    let role_id = snowflake(&params.role_id)?;
    let permissions = role_permissions(&params.permissions)?;
    let UpdateRoleParams {
        guild_id: _,
        role_id: _,
        name,
        color,
        hoist,
        mentionable,
        permissions: _,
    } = params;
    Ok(
        RoleUpdate {
            guild_id,
            role_id,
            fields: RoleFields { name, color, hoist, mentionable, permissions },
        },
    )
}

} // verus!
