use vstd::prelude::*;

use crate::dispatch::{decimal, pair_views, push_decimal};
use crate::json::{jv, jv_members, Json, JsonV};
use crate::text::{owned, push_str};

verus! {

/// The arguments of the `list_entitlements` tool.
pub struct ListEntitlementsParams {
    /// User ID to filter by
    pub user_id: Option<String>,
    /// SKU IDs to filter by (comma-separated)
    pub sku_ids: Option<String>,
    /// Guild ID to filter by
    pub guild_id: Option<String>,
    /// Max number of entitlements to return (1-100, default 100)
    pub limit: Option<u8>,
    /// Whether to exclude ended entitlements
    pub exclude_ended: Option<bool>,
}

/// The arguments of the `get_entitlement` tool.
pub struct GetEntitlementParams {
    /// The entitlement ID
    pub entitlement_id: String,
}

/// The arguments of the `create_test_entitlement` tool.
pub struct CreateTestEntitlementParams {
    /// The SKU ID
    pub sku_id: String,
    /// The owner ID (user or guild)
    pub owner_id: String,
    /// Owner type: 1=guild, 2=user
    pub owner_type: u8,
}

/// The arguments of the `delete_test_entitlement` tool.
pub struct DeleteTestEntitlementParams {
    /// The entitlement ID to delete
    pub entitlement_id: String,
}

/// The arguments of the `consume_entitlement` tool.
pub struct ConsumeEntitlementParams {
    /// The entitlement ID to consume
    pub entitlement_id: String,
}

/// The arguments of the `list_sku_subscriptions` tool.
pub struct ListSkuSubscriptionsParams {
    /// The SKU ID
    pub sku_id: String,
    /// Max results (1-100, default 100)
    pub limit: Option<u8>,
    /// Get subscriptions after this ID (for pagination)
    pub after: Option<String>,
    /// Get subscriptions before this ID (for pagination)
    pub before: Option<String>,
    /// User ID to filter by
    pub user_id: Option<String>,
}


/// A query pair where the argument is given.
pub open spec fn maybe_pair(key: Seq<char>, v: Option<Seq<char>>) -> Seq<(Seq<char>, Seq<char>)> {
    match v {
        Some(t) => seq![(key, t)],
        None => Seq::empty(),
    }
}

/// The text of an optional string argument.
pub open spec fn text_of(o: Option<String>) -> Option<Seq<char>> {
    match o {
        Some(s) => Some(s@),
        None => None,
    }
}

/// The decimal text of an optional number argument.
pub open spec fn number_text(o: Option<u8>) -> Option<Seq<char>> {
    match o {
        Some(n) => Some(decimal(n as nat)),
        None => None,
    }
}

/// How a flag is written in a query: `true` or `false`.
pub open spec fn bool_word(b: bool) -> Seq<char> {
    if b {
        "true"@
    } else {
        "false"@
    }
}

/// The text of an optional flag argument.
pub open spec fn flag_text(o: Option<bool>) -> Option<Seq<char>> {
    match o {
        Some(b) => Some(bool_word(b)),
        None => None,
    }
}

fn push_text(q: &mut Vec<(String, String)>, key: &str, v: &Option<String>)
    ensures
        pair_views(final(q)@) == pair_views(old(q)@) + maybe_pair(key@, text_of(*v)),
{
    if let Some(t) = v {
        q.push((owned(key), t.clone()));
        assert(pair_views(q@) =~= pair_views(old(q)@) + maybe_pair(key@, text_of(*v)));
    } else {
        assert(pair_views(q@) =~= pair_views(old(q)@) + maybe_pair(key@, text_of(*v)));
    }
}

fn push_number(q: &mut Vec<(String, String)>, key: &str, v: Option<u8>)
    ensures
        pair_views(final(q)@) == pair_views(old(q)@) + maybe_pair(key@, number_text(v)),
{
    if let Some(n) = v {
        let mut t = String::new();
        push_decimal(&mut t, n as u64);
        q.push((owned(key), t));
        assert(pair_views(q@) =~= pair_views(old(q)@) + maybe_pair(key@, number_text(v)));
    } else {
        assert(pair_views(q@) =~= pair_views(old(q)@) + maybe_pair(key@, number_text(v)));
    }
}

/// The path of an application's entitlements.
pub open spec fn entitlements_path(application_id: u64) -> Seq<char> {
    "/applications/"@ + decimal(application_id as nat) + "/entitlements"@
}

fn entitlements_path_text(application_id: u64) -> (r: String)
    ensures
        r@ == entitlements_path(application_id),
{
    let mut p = owned("/applications/");
    push_decimal(&mut p, application_id);
    push_str(&mut p, "/entitlements");
    p
}

/// The query of an entitlement listing: the given filters, in this order.
pub open spec fn entitlements_query(p: ListEntitlementsParams) -> Seq<(Seq<char>, Seq<char>)> {
    maybe_pair("user_id"@, text_of(p.user_id)) + maybe_pair("sku_ids"@, text_of(p.sku_ids))
        + maybe_pair("guild_id"@, text_of(p.guild_id)) + maybe_pair(
        "limit"@,
        number_text(p.limit),
    ) + maybe_pair("exclude_ended"@, flag_text(p.exclude_ended))
}

/// The request that `list_entitlements` makes: the path and the query.
pub fn list_entitlements(application_id: u64, params: &ListEntitlementsParams) -> (r: (
    String,
    Vec<(String, String)>,
))
    ensures
        r.0@ == entitlements_path(application_id),
        pair_views(r.1@) == entitlements_query(*params),
{
    let mut q: Vec<(String, String)> = Vec::new();
    push_text(&mut q, "user_id", &params.user_id);
    push_text(&mut q, "sku_ids", &params.sku_ids);
    push_text(&mut q, "guild_id", &params.guild_id);
    push_number(&mut q, "limit", params.limit);
    let ghost before = q@;
    if let Some(b) = params.exclude_ended {
        let w = if b {
            owned("true")
        } else {
            owned("false")
        };
        q.push((owned("exclude_ended"), w));
    }
    assert(pair_views(q@) =~= pair_views(before) + maybe_pair(
        "exclude_ended"@,
        flag_text(params.exclude_ended),
    ));
    assert(pair_views(q@) =~= entitlements_query(*params));
    (entitlements_path_text(application_id), q)
}

/// The query of a subscription listing: the given filters, in this order.
pub open spec fn subscriptions_query(p: ListSkuSubscriptionsParams) -> Seq<
    (Seq<char>, Seq<char>),
> {
    maybe_pair("limit"@, number_text(p.limit)) + maybe_pair("after"@, text_of(p.after))
        + maybe_pair("before"@, text_of(p.before)) + maybe_pair("user_id"@, text_of(p.user_id))
}

/// The request that `list_sku_subscriptions` makes: the path (with the SKU
/// ID as given) and the query.
pub fn list_sku_subscriptions(params: &ListSkuSubscriptionsParams) -> (r: (
    String,
    Vec<(String, String)>,
))
    ensures
        r.0@ == "/skus/"@ + params.sku_id@ + "/subscriptions"@,
        pair_views(r.1@) == subscriptions_query(*params),
{
    let mut q: Vec<(String, String)> = Vec::new();
    push_number(&mut q, "limit", params.limit);
    push_text(&mut q, "after", &params.after);
    push_text(&mut q, "before", &params.before);
    push_text(&mut q, "user_id", &params.user_id);
    assert(pair_views(q@) =~= subscriptions_query(*params));
    let mut p = owned("/skus/");
    push_str(&mut p, params.sku_id.as_str());
    push_str(&mut p, "/subscriptions");
    (p, q)
}

/// The body of a test entitlement, with its keys in the order serde_json
/// writes a map.
pub open spec fn test_entitlement_body(p: CreateTestEntitlementParams) -> JsonV {
    JsonV::Object(
        seq![
            ("owner_id"@, JsonV::Str(p.owner_id@)),
            ("owner_type"@, JsonV::Number(decimal(p.owner_type as nat))),
            ("sku_id"@, JsonV::Str(p.sku_id@)),
        ],
    )
}

/// The request that `create_test_entitlement` makes: the path and the body.
pub fn create_test_entitlement(application_id: u64, params: &CreateTestEntitlementParams) -> (r: (
    String,
    Json,
))
    ensures
        r.0@ == entitlements_path(application_id),
        jv(r.1) == test_entitlement_body(*params),
{
    let mut n = String::new();
    push_decimal(&mut n, params.owner_type as u64);
    let mut members: Vec<(String, Json)> = Vec::new();
    members.push((owned("owner_id"), Json::Str(params.owner_id.clone())));
    members.push((owned("owner_type"), Json::Number(n)));
    members.push((owned("sku_id"), Json::Str(params.sku_id.clone())));
    proof {
        crate::json::lemma_jv_members(members@);
    }
    assert(jv_members(members@) =~= seq![
        ("owner_id"@, JsonV::Str(params.owner_id@)),
        ("owner_type"@, JsonV::Number(decimal(params.owner_type as nat))),
        ("sku_id"@, JsonV::Str(params.sku_id@)),
    ]);
    let body = Json::Object(members);
    (entitlements_path_text(application_id), body)
}


/// What `list_entitlements` answers for Discord's reply: the entitlements as
/// pretty-printed JSON for a success; an internal error where that body is
/// not JSON; "Discord API error (<status>): <text>" for any other status; or
/// "Request error: <why>" where the request failed.
pub fn list_entitlements_result(reply: crate::tools::RawReply) -> (r: crate::tools::ToolOutcome)
    requires
        reply matches crate::tools::RawReply::Status(status, _) ==> 100 <= status <= 999,
    ensures
        crate::tools::raw_json_answers(reply, r),
{
    crate::tools::raw_json_result(reply)
}

} // verus!
