//! Why an argument of a tool is required: only because the operation declares
//! it required, its path holds it, or its required request body carries it.
use vstd::prelude::*;

use crate::json::{field, jv_members, lemma_member_index, member_index, opt_field, JsonV};
use crate::openapi::{
    binary_names, body_step, built_operation, empty_draft, input_members, is_binary_field,
    op_draft, param_step, params_of, params_steps, placeholder_steps, placeholders,
    required_array, DraftV, Operation,
};
use crate::parameters::{binary_schema, lists_required};
use crate::refs::{flat_props, lemma_rebased_members_len, rebased_members};

verus! {

proof fn lemma_push_only(s: Seq<Seq<char>>, y: Seq<char>, x: Seq<char>)
    requires
        s.push(y).contains(x),
    ensures
        s.contains(x) || x == y,
{
    let j = choose|j: int| 0 <= j < s.push(y).len() && s.push(y)[j] == x;
    if j < s.len() {
        assert(s[j] == s.push(y)[j]);
    }
}

/// Whether parameter `p` declares an argument named `x` that every call must
/// give: a path parameter, or a query parameter marked `"required": true`.
pub open spec fn requires_argument(p: JsonV, x: Seq<char>) -> bool {
    &&& field(p, "name"@) == Some(JsonV::Str(x))
    &&& field(p, "in"@) == Some(JsonV::Str("path"@)) || (field(p, "in"@) == Some(
        JsonV::Str("query"@),
    ) && field(p, "required"@) == Some(JsonV::Bool(true)))
}

/// Whether the operation declares a parameter named `x` that every call
/// must give.
pub open spec fn declares_required_param(op: JsonV, x: Seq<char>) -> bool {
    match field(op, "parameters"@) {
        Some(JsonV::Array(ps)) => exists|i: int|
            0 <= i < ps.len() && #[trigger] requires_argument(ps[i], x),
        _ => false,
    }
}

/// Whether the operation's request body is marked `"required": true`.
pub open spec fn body_is_required(op: JsonV) -> bool {
    match field(op, "requestBody"@) {
        Some(rb) => field(rb, "required"@) == Some(JsonV::Bool(true)),
        None => false,
    }
}

/// Whether a field list holds a file field named `x`.
pub open spec fn has_file_field(all: Seq<(Seq<char>, JsonV)>, x: Seq<char>) -> bool {
    exists|i: int| 0 <= i < all.len() && #[trigger] all[i].0 == x && binary_schema(all[i].1)
}

/// Whether `x` names a file field of the operation's multipart form (its
/// schema flattened through `allOf` and `$ref`).
pub open spec fn is_multipart_file(
    op: JsonV,
    schemas: Seq<(Seq<char>, JsonV)>,
    x: Seq<char>,
) -> bool {
    match field(op, "requestBody"@) {
        Some(rb) => match opt_field(
            opt_field(field(rb, "content"@), "multipart/form-data"@),
            "schema"@,
        ) {
            Some(msc) => has_file_field(flat_props(msc, schemas), x),
            None => false,
        },
        None => false,
    }
}

proof fn lemma_param_step_only(d: DraftV, p: JsonV, x: Seq<char>)
    requires
        param_step(d, p).required.contains(x),
    ensures
        d.required.contains(x) || requires_argument(p, x),
{
    reveal_strlit("path");
    reveal_strlit("query");
    if let Some(name) = crate::json::str_field(p, "name"@) {
        let loc = match crate::json::str_field(p, "in"@) {
            Some(l) => l,
            None => Seq::empty(),
        };
        let is_path = loc == "path"@;
        let req = is_path || crate::json::bool_field_or_false(p, "required"@);
        if (is_path || loc == "query"@) && req {
            lemma_push_only(d.required, name, x);
            if x == name {
                assert(field(p, "name"@) == Some(JsonV::Str(x)));
                if is_path {
                    assert(field(p, "in"@) == Some(JsonV::Str("path"@)));
                } else {
                    assert(field(p, "in"@) == Some(JsonV::Str("query"@)));
                    assert(field(p, "required"@) == Some(JsonV::Bool(true)));
                }
            }
        }
    }
}

proof fn lemma_params_steps_only(d: DraftV, ps: Seq<JsonV>, x: Seq<char>)
    requires
        params_steps(d, ps).required.contains(x),
    ensures
        d.required.contains(x) || exists|i: int|
            0 <= i < ps.len() && #[trigger] requires_argument(ps[i], x),
    decreases ps.len(),
{
    if ps.len() > 0 {
        let e = params_steps(d, ps.drop_last());
        lemma_param_step_only(e, ps.last(), x);
        if requires_argument(ps.last(), x) {
            assert(requires_argument(ps[ps.len() - 1], x));
        } else {
            lemma_params_steps_only(d, ps.drop_last(), x);
            if !d.required.contains(x) {
                let i = choose|i: int|
                    0 <= i < ps.drop_last().len() && #[trigger] requires_argument(
                        ps.drop_last()[i],
                        x,
                    );
                assert(ps.drop_last()[i] == ps[i]);
                assert(requires_argument(ps[i], x));
            }
        }
    }
}

proof fn lemma_placeholder_steps_only(d: DraftV, phs: Seq<Seq<char>>, x: Seq<char>)
    requires
        placeholder_steps(d, phs).required.contains(x),
    ensures
        d.required.contains(x) || phs.contains(x),
    decreases phs.len(),
{
    if phs.len() > 0 {
        let e = placeholder_steps(d, phs.drop_last());
        if !e.path_params.contains(phs.last()) {
            lemma_push_only(e.required, phs.last(), x);
        }
        if x == phs.last() {
            assert(phs[phs.len() - 1] == x);
        } else {
            lemma_placeholder_steps_only(d, phs.drop_last(), x);
            if phs.drop_last().contains(x) {
                let j = choose|j: int| 0 <= j < phs.drop_last().len() && phs.drop_last()[j] == x;
                assert(phs[j] == x);
            }
        }
    }
}

proof fn lemma_binary_names_only(all: Seq<(Seq<char>, JsonV)>, x: Seq<char>)
    requires
        binary_names(all).contains(x),
    ensures
        has_file_field(all, x),
    decreases all.len(),
{
    let r = binary_names(all.drop_last());
    if is_binary_field(all.last().1) {
        lemma_push_only(r, all.last().0, x);
    }
    if is_binary_field(all.last().1) && x == all.last().0 {
        let i = all.len() - 1;
        assert(all[i].0 == x);
        assert(binary_schema(all[i].1));
    } else {
        lemma_binary_names_only(all.drop_last(), x);
        let i = choose|i: int|
            0 <= i < all.drop_last().len() && #[trigger] all.drop_last()[i].0 == x
                && binary_schema(all.drop_last()[i].1);
        assert(all[i] == all.drop_last()[i]);
        assert(all[i].0 == x);
    }
}

proof fn lemma_body_step_only(d: DraftV, op: JsonV, schemas: Seq<(Seq<char>, JsonV)>, x: Seq<char>)
    requires
        body_step(d, op, schemas).0.required.contains(x),
    ensures
        d.required.contains(x) || (body_is_required(op) && (x == "body"@ || is_multipart_file(
            op,
            schemas,
            x,
        ))),
{
    if let Some(rb) = field(op, "requestBody"@) {
        let body_required = crate::json::bool_field_or_false(rb, "required"@);
        let content = field(rb, "content"@);
        let js = opt_field(opt_field(content, "application/json"@), "schema"@);
        let ms = opt_field(opt_field(content, "multipart/form-data"@), "schema"@);
        let d1 = match js {
            Some(j) => DraftV {
                props: crate::json::member_insert(d.props, "body"@, j),
                required: if body_required {
                    d.required.push("body"@)
                } else {
                    d.required
                },
                seeds: d.seeds.union(crate::refs::refs(j)),
                ..d
            },
            None => d,
        };
        assert(body_required ==> body_is_required(op));
        if js is Some && body_required {
            if d1.required.contains(x) {
                lemma_push_only(d.required, "body"@, x);
            }
        }
        if let Some(msc) = ms {
            let all = flat_props(msc, schemas);
            let bin = binary_names(all);
            let nb = crate::openapi::non_binary(all);
            let use_nb = !(js is Some) && nb.len() > 0;
            if use_nb && body_required {
                let dd = d1.required.push("body"@);
                if dd.contains(x) {
                    lemma_push_only(d1.required, "body"@, x);
                }
            }
            let has2 = js is Some || use_nb;
            if bin.len() == 1 && crate::openapi::first_index(bin[0], '[') < 0 && body_required
                && !has2 {
                lemma_push_only(d1.required, bin[0], x);
                if x == bin[0] {
                    assert(bin.contains(x));
                    lemma_binary_names_only(all, x);
                }
            }
        }
    }
}

/// A name listed under a built tool's `required` is among the names its
/// draft gathered.
proof fn lemma_listed_in_draft(
    r: Operation,
    operation_id: Seq<char>,
    method: Seq<char>,
    path: Seq<char>,
    op: JsonV,
    schemas: Seq<(Seq<char>, JsonV)>,
    x: Seq<char>,
)
    requires
        built_operation(r, operation_id, method, path, op, schemas),
        lists_required(JsonV::Object(jv_members(r.tool.input_schema@)), x),
    ensures
        op_draft(op, path, schemas).0.required.contains(x),
{
    let d = op_draft(op, path, schemas).0;
    let defs = choose|defs: Seq<(Seq<char>, JsonV)>|
        #![trigger input_members(d, defs)]
        crate::openapi::defs_match(defs, crate::refs::ref_closure_set(schemas, d.seeds), schemas)
            && JsonV::Object(jv_members(r.tool.input_schema@)) == crate::refs::rebased(
            JsonV::Object(input_members(d, defs)),
        );
    let im = input_members(d, defs);
    let t = jv_members(r.tool.input_schema@);
    assert(t == rebased_members(im));
    lemma_rebased_members_len(im);
    reveal_strlit("type");
    reveal_strlit("properties");
    reveal_strlit("required");
    reveal_strlit("$defs");
    reveal_strlit("$ref");
    assert("type"@[0] != "required"@[0]);
    assert("properties"@[0] != "required"@[0]);
    assert("$defs"@[0] != "required"@[0]);
    assert("type"@ != "required"@);
    assert("properties"@ != "required"@);
    assert("$defs"@ != "required"@);
    assert("required"@.len() != "$ref"@.len());
    assert(t[0].0 == "type"@);
    assert(t[1].0 == "properties"@);
    lemma_member_index(t, "required"@);
    if d.required.len() > 0 {
        crate::parameters::lemma_rebased_texts(d.required);
        assert(t[2] == ("required"@, JsonV::Array(required_array(d.required))));
        assert(member_index(t, "required"@) == 2);
        let a = required_array(d.required);
        let k = choose|k: int| 0 <= k < a.len() && a[k] == JsonV::Str(x);
        assert(d.required[k] == x);
    } else {
        if defs.len() > 0 {
            assert(t[2].0 == "$defs"@);
        }
        assert(member_index(t, "required"@) < 0);
    }
}

/// Only what the operation asks for is required of a tool's caller: each
/// name listed under the input schema's `required` is a path parameter or a
/// query parameter marked `"required": true`, a placeholder of the path, or,
/// where the request body is marked required, `body` or a file field of the
/// body's multipart form.
pub proof fn law_required_only_as_declared(
    r: Operation,
    operation_id: Seq<char>,
    method: Seq<char>,
    path: Seq<char>,
    op: JsonV,
    schemas: Seq<(Seq<char>, JsonV)>,
)
    requires
        built_operation(r, operation_id, method, path, op, schemas),
    ensures
        forall|x: Seq<char>|
            #[trigger] lists_required(JsonV::Object(jv_members(r.tool.input_schema@)), x)
                ==> declares_required_param(op, x) || placeholders(path).contains(x) || (
            body_is_required(op) && (x == "body"@ || is_multipart_file(op, schemas, x))),
{
    assert forall|x: Seq<char>|
        #[trigger] lists_required(
            JsonV::Object(jv_members(r.tool.input_schema@)),
            x,
        ) implies declares_required_param(op, x) || placeholders(path).contains(x) || (
    body_is_required(op) && (x == "body"@ || is_multipart_file(op, schemas, x))) by {
        lemma_listed_in_draft(r, operation_id, method, path, op, schemas, x);
        let d0 = empty_draft();
        let ps = params_of(op);
        let d1 = params_steps(d0, ps);
        let phs = placeholders(path);
        let d2 = placeholder_steps(d1, phs);
        lemma_body_step_only(d2, op, schemas, x);
        if d2.required.contains(x) {
            lemma_placeholder_steps_only(d1, phs, x);
            if d1.required.contains(x) {
                lemma_params_steps_only(d0, ps, x);
                assert(!d0.required.contains(x));
                let i = choose|i: int| 0 <= i < ps.len() && #[trigger] requires_argument(ps[i], x);
                assert(field(op, "parameters"@) == Some(JsonV::Array(ps)));
            }
        }
    }
}

/// Whether a field list holds a field that is not a file.
pub open spec fn has_plain_field(all: Seq<(Seq<char>, JsonV)>) -> bool {
    exists|i: int| 0 <= i < all.len() && !binary_schema(#[trigger] all[i].1)
}

proof fn lemma_plain_field_kept(all: Seq<(Seq<char>, JsonV)>)
    requires
        has_plain_field(all),
    ensures
        crate::openapi::non_binary(all).len() > 0,
    decreases all.len(),
{
    let i = choose|i: int| 0 <= i < all.len() && !binary_schema(#[trigger] all[i].1);
    if i == all.len() - 1 {
        assert(!is_binary_field(all.last().1));
    } else {
        assert(all.drop_last()[i] == all[i]);
        assert(has_plain_field(all.drop_last()));
        lemma_plain_field_kept(all.drop_last());
    }
}

/// Where the request body is marked required and has a JSON form, or has
/// none but its multipart form has a field that is not a file, `body` is
/// listed under the tool's `required`.
pub proof fn law_required_body_is_required(
    r: Operation,
    operation_id: Seq<char>,
    method: Seq<char>,
    path: Seq<char>,
    op: JsonV,
    schemas: Seq<(Seq<char>, JsonV)>,
    rb: JsonV,
)
    requires
        built_operation(r, operation_id, method, path, op, schemas),
        field(op, "requestBody"@) == Some(rb),
        field(rb, "required"@) == Some(JsonV::Bool(true)),
        opt_field(opt_field(field(rb, "content"@), "application/json"@), "schema"@) is Some
            || match opt_field(opt_field(field(rb, "content"@), "multipart/form-data"@), "schema"@) {
            Some(msc) => has_plain_field(flat_props(msc, schemas)),
            None => false,
        },
    ensures
        lists_required(JsonV::Object(jv_members(r.tool.input_schema@)), "body"@),
{
    let d0 = empty_draft();
    let d1 = params_steps(d0, params_of(op));
    let d = placeholder_steps(d1, placeholders(path));
    let content = field(rb, "content"@);
    let js = opt_field(opt_field(content, "application/json"@), "schema"@);
    let ms = opt_field(opt_field(content, "multipart/form-data"@), "schema"@);
    let e = body_step(d, op, schemas).0;
    crate::parameters::lemma_push_contains(d.required, "body"@);
    if js is Some {
        let dr = d.required.push("body"@);
        if let Some(msc) = ms {
            let bin = binary_names(flat_props(msc, schemas));
            crate::parameters::lemma_push_contains(dr, bin[0]);
        }
        assert(e.required.contains("body"@));
    } else {
        let msc = ms->Some_0;
        let all = flat_props(msc, schemas);
        lemma_plain_field_kept(all);
        let dr = d.required.push("body"@);
        let bin = binary_names(all);
        crate::parameters::lemma_push_contains(dr, bin[0]);
        assert(e.required.contains("body"@));
    }
    crate::parameters::lemma_required_listed(r, operation_id, method, path, op, schemas, "body"@);
}

} // verus!
