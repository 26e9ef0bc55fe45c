//! Why an operation's path and query parameters are arguments of its tool:
//! each is a property of the input schema; each path parameter, and each
//! query parameter marked required, is required; and so is the one file of a
//! required multipart body that has nothing else to carry.
use vstd::prelude::*;

use crate::json::{
    field, jv_members, lemma_member_index, lemma_member_insert, member_index,
    member_insert, member_keys, JsonV,
};
use crate::openapi::{
    body_step, built_operation, empty_draft, input_members, op_draft, param_step, params_steps,
    placeholder_step, placeholder_steps, required_array, views, DraftV, Operation,
};
use crate::refs::{
    lemma_rebased_members_len, rebased, rebased_items, rebased_member, rebased_members,
};

verus! {

/// Every path and query parameter gathered so far is a property, and every
/// path parameter is required.
pub open spec fn params_modelled(d: DraftV) -> bool {
    &&& forall|i: int|
        0 <= i < d.path_params.len() ==> member_keys(d.props).contains(#[trigger] d.path_params[i])
            && d.required.contains(d.path_params[i])
    &&& forall|i: int|
        0 <= i < d.query_params.len() ==> member_keys(d.props).contains(
            #[trigger] d.query_params[i],
        )
}

pub proof fn lemma_push_contains(s: Seq<Seq<char>>, y: Seq<char>)
    ensures
        forall|x: Seq<char>| s.contains(x) ==> #[trigger] s.push(y).contains(x),
        s.push(y).contains(y),
{
    assert forall|x: Seq<char>| s.contains(x) implies #[trigger] s.push(y).contains(x) by {
        let j = choose|j: int| 0 <= j < s.len() && s[j] == x;
        assert(s.push(y)[j] == x);
    }
    assert(s.push(y)[s.len() as int] == y);
}

proof fn lemma_param_step(d: DraftV, p: JsonV)
    requires
        params_modelled(d),
    ensures
        params_modelled(param_step(d, p)),
{
    let r = param_step(d, p);
    if let Some(name) = crate::json::str_field(p, "name"@) {
        let loc = match crate::json::str_field(p, "in"@) {
            Some(l) => l,
            None => Seq::empty(),
        };
        if loc == "path"@ || loc == "query"@ {
            let schema0 = match field(p, "schema"@) {
                Some(sc) => sc,
                None => crate::openapi::string_schema(),
            };
            let schema = crate::openapi::annotated(
                schema0,
                crate::json::str_field(p, "description"@),
                loc,
            );
            assert(r.props == member_insert(d.props, name, schema));
            lemma_member_insert(d.props, name, schema);
            lemma_push_contains(d.required, name);
            assert forall|i: int| 0 <= i < r.path_params.len() implies member_keys(
                r.props,
            ).contains(#[trigger] r.path_params[i]) && r.required.contains(r.path_params[i]) by {
                if i < d.path_params.len() {
                    assert(r.path_params[i] == d.path_params[i]);
                }
            }
            assert forall|i: int| 0 <= i < r.query_params.len() implies member_keys(
                r.props,
            ).contains(#[trigger] r.query_params[i]) by {
                if i < d.query_params.len() {
                    assert(r.query_params[i] == d.query_params[i]);
                }
            }
        }
    }
}

proof fn lemma_params_steps(d: DraftV, ps: Seq<JsonV>)
    requires
        params_modelled(d),
    ensures
        params_modelled(params_steps(d, ps)),
    decreases ps.len(),
{
    if ps.len() > 0 {
        lemma_params_steps(d, ps.drop_last());
        lemma_param_step(params_steps(d, ps.drop_last()), ps.last());
    }
}

proof fn lemma_placeholder_steps(d: DraftV, phs: Seq<Seq<char>>)
    requires
        params_modelled(d),
    ensures
        params_modelled(placeholder_steps(d, phs)),
    decreases phs.len(),
{
    if phs.len() > 0 {
        lemma_placeholder_steps(d, phs.drop_last());
        let e = placeholder_steps(d, phs.drop_last());
        let ph = phs.last();
        let r = placeholder_step(e, ph);
        if !e.path_params.contains(ph) {
            lemma_member_insert(e.props, ph, crate::openapi::path_param_schema());
            lemma_push_contains(e.required, ph);
            assert forall|i: int| 0 <= i < r.path_params.len() implies member_keys(
                r.props,
            ).contains(#[trigger] r.path_params[i]) && r.required.contains(r.path_params[i]) by {
                if i < e.path_params.len() {
                    assert(r.path_params[i] == e.path_params[i]);
                }
            }
        }
    }
}

proof fn lemma_insert_grows(d: DraftV, e: DraftV, k: Seq<char>, v: JsonV)
    requires
        params_modelled(d),
        e.props == member_insert(d.props, k, v),
        e.required == d.required || e.required == d.required.push(k),
        e.path_params == d.path_params,
        e.query_params == d.query_params,
    ensures
        params_modelled(e),
{
    lemma_member_insert(d.props, k, v);
    lemma_push_contains(d.required, k);
}

proof fn lemma_body_step(d: DraftV, op: JsonV, schemas: Seq<(Seq<char>, JsonV)>)
    requires
        params_modelled(d),
    ensures
        params_modelled(body_step(d, op, schemas).0),
{
    match field(op, "requestBody"@) {
        None => {},
        Some(rb) => {
            let body_required = crate::json::bool_field_or_false(rb, "required"@);
            let content = field(rb, "content"@);
            let js = crate::json::opt_field(
                crate::json::opt_field(content, "application/json"@),
                "schema"@,
            );
            let ms = crate::json::opt_field(
                crate::json::opt_field(content, "multipart/form-data"@),
                "schema"@,
            );
            let d1 = match js {
                Some(j) => DraftV {
                    props: member_insert(d.props, "body"@, j),
                    required: if body_required {
                        d.required.push("body"@)
                    } else {
                        d.required
                    },
                    seeds: d.seeds.union(crate::refs::refs(j)),
                    ..d
                },
                None => d,
            };
            if let Some(j) = js {
                lemma_insert_grows(d, d1, "body"@, j);
                assert(params_modelled(d1));
            }
            match ms {
                None => {},
                Some(msc) => {
                    let all = crate::refs::flat_props(msc, schemas);
                    let nb = crate::openapi::non_binary(all);
                    let bin = crate::openapi::binary_names(all);
                    let use_nb = js is None && nb.len() > 0;
                    let d2 = if use_nb {
                        DraftV {
                            props: member_insert(
                                d1.props,
                                "body"@,
                                crate::openapi::object_schema(nb),
                            ),
                            required: if body_required {
                                d1.required.push("body"@)
                            } else {
                                d1.required
                            },
                            seeds: d1.seeds.union(
                                crate::refs::refs(crate::openapi::object_schema(nb)),
                            ),
                            ..d1
                        }
                    } else {
                        d1
                    };
                    if use_nb {
                        lemma_insert_grows(d1, d2, "body"@, crate::openapi::object_schema(nb));
                        assert(params_modelled(d2));
                    }
                    let r = body_step(d, op, schemas).0;
                    if bin.len() == 1 && crate::openapi::first_index(bin[0], '[') < 0 {
                        lemma_insert_grows(d2, r, bin[0], crate::openapi::file_path_schema(bin[0]));
                    } else if bin.len() > 0 {
                        lemma_insert_grows(d2, r, "files"@, crate::openapi::files_schema());
                    }
                },
            }
        },
    }
}

/// The draft of every operation models all its path and query parameters.
pub proof fn lemma_draft_models_params(op: JsonV, path: Seq<char>, schemas: Seq<(Seq<char>, JsonV)>)
    ensures
        params_modelled(op_draft(op, path, schemas).0),
{
    let d0 = empty_draft();
    lemma_params_steps(d0, crate::openapi::params_of(op));
    let d1 = params_steps(d0, crate::openapi::params_of(op));
    lemma_placeholder_steps(d1, crate::openapi::placeholders(path));
    lemma_body_step(placeholder_steps(d1, crate::openapi::placeholders(path)), op, schemas);
}

pub proof fn lemma_rebased_keys(m: Seq<(Seq<char>, JsonV)>)
    ensures
        member_keys(rebased_members(m)) == member_keys(m),
{
    lemma_rebased_members_len(m);
    let r = rebased_members(m);
    assert forall|i: int| 0 <= i < m.len() implies #[trigger] r[i].0 == m[i].0 by {
        assert(r[i] == rebased_member(m[i].0, m[i].1));
    }
    assert(member_keys(r) =~= member_keys(m)) by {
        assert forall|x: Seq<char>| member_keys(m).contains(x) implies member_keys(r).contains(x) by {
            let j = choose|j: int| 0 <= j < m.len() && #[trigger] m[j].0 == x;
            assert(r[j].0 == x);
        }
        assert forall|x: Seq<char>| member_keys(r).contains(x) implies member_keys(m).contains(x) by {
            let j = choose|j: int| 0 <= j < r.len() && #[trigger] r[j].0 == x;
            assert(m[j].0 == x);
        }
    }
}

pub proof fn lemma_rebased_texts(s: Seq<Seq<char>>)
    ensures
        rebased_items(required_array(s)) == required_array(s),
    decreases s.len(),
{
    let a = required_array(s);
    if s.len() > 0 {
        lemma_rebased_texts(s.drop_last());
        assert(a.drop_last() == required_array(s.drop_last()));
        assert(rebased(a.last()) == a.last());
        assert(rebased_items(a) =~= a);
    } else {
        assert(a.len() == 0);
    }
}

/// Whether `x` is a property of the object schema `schema`.
pub open spec fn has_property(schema: JsonV, x: Seq<char>) -> bool {
    match field(schema, "properties"@) {
        Some(JsonV::Object(props)) => member_keys(props).contains(x),
        _ => false,
    }
}

/// Whether the object schema `schema` lists `x` as required.
pub open spec fn lists_required(schema: JsonV, x: Seq<char>) -> bool {
    match field(schema, "required"@) {
        Some(JsonV::Array(req)) => req.contains(JsonV::Str(x)),
        _ => false,
    }
}

/// Every path and query parameter of an operation is an argument of its
/// tool: a property of the tool's input schema. Every path parameter is
/// also listed as required.
pub proof fn law_parameters_are_arguments(
    r: Operation,
    operation_id: Seq<char>,
    method: Seq<char>,
    path: Seq<char>,
    op: JsonV,
    schemas: Seq<(Seq<char>, JsonV)>,
)
    requires
        built_operation(r, operation_id, method, path, op, schemas),
    ensures
        forall|x: Seq<char>|
            views(r.path_params@).contains(x) || views(r.query_params@).contains(x)
                ==> #[trigger] has_property(JsonV::Object(jv_members(r.tool.input_schema@)), x),
        forall|x: Seq<char>|
            views(r.path_params@).contains(x) ==> #[trigger] lists_required(
                JsonV::Object(jv_members(r.tool.input_schema@)),
                x,
            ),
{
    let d = op_draft(op, path, schemas).0;
    let defs = choose|defs: Seq<(Seq<char>, JsonV)>|
        #![trigger input_members(d, defs)]
        crate::openapi::defs_match(defs, crate::refs::ref_closure_set(schemas, d.seeds), schemas)
            && JsonV::Object(jv_members(r.tool.input_schema@)) == rebased(
            JsonV::Object(input_members(d, defs)),
        );
    lemma_draft_models_params(op, path, schemas);
    let im = input_members(d, defs);
    let t = jv_members(r.tool.input_schema@);
    assert(t == rebased_members(im));
    lemma_rebased_members_len(im);
    reveal_strlit("type");
    reveal_strlit("properties");
    reveal_strlit("required");
    reveal_strlit("$ref");
    assert("type"@[0] != "properties"@[0]);
    assert("type"@[0] != "required"@[0]);
    assert("properties"@[0] != "required"@[0]);
    assert("type"@ != "properties"@);
    assert("type"@ != "required"@);
    assert("properties"@ != "required"@);
    assert("properties"@.len() != "$ref"@.len());
    assert("required"@.len() != "$ref"@.len());
    assert(t[0].0 == "type"@);
    assert(t[1] == ("properties"@, JsonV::Object(rebased_members(d.props))));
    lemma_member_index(t, "properties"@);
    assert(t[1].0 == "properties"@);
    assert(t[0].0 != "properties"@);
    assert(member_index(t, "properties"@) == 1);
    lemma_rebased_keys(d.props);
    assert forall|x: Seq<char>|
        views(r.path_params@).contains(x) || views(r.query_params@).contains(
            x,
        ) implies #[trigger] has_property(JsonV::Object(t), x) by {
        if views(r.path_params@).contains(x) {
            let j = choose|j: int| 0 <= j < d.path_params.len() && d.path_params[j] == x;
            assert(member_keys(d.props).contains(d.path_params[j]));
        } else {
            let j = choose|j: int| 0 <= j < d.query_params.len() && d.query_params[j] == x;
            assert(member_keys(d.props).contains(d.query_params[j]));
        }
    }
    assert forall|x: Seq<char>| views(r.path_params@).contains(x) implies #[trigger] lists_required(
        JsonV::Object(t),
        x,
    ) by {
        let j = choose|j: int| 0 <= j < d.path_params.len() && d.path_params[j] == x;
        assert(d.required.contains(d.path_params[j]));
        let k = choose|k: int| 0 <= k < d.required.len() && d.required[k] == x;
        assert(d.required.len() > 0);
        lemma_rebased_texts(d.required);
        assert(t[2] == ("required"@, JsonV::Array(required_array(d.required))));
        lemma_member_index(t, "required"@);
        assert(t[2].0 == "required"@);
        assert(t[1].0 != "required"@);
        assert(t[0].0 != "required"@);
        assert(member_index(t, "required"@) == 2);
        assert(required_array(d.required)[k] == JsonV::Str(x));
    }
}


/// A name among a built tool's gathered required names is listed under its
/// input schema's `required`.
pub proof fn lemma_required_listed(
    r: Operation,
    operation_id: Seq<char>,
    method: Seq<char>,
    path: Seq<char>,
    op: JsonV,
    schemas: Seq<(Seq<char>, JsonV)>,
    x: Seq<char>,
)
    requires
        built_operation(r, operation_id, method, path, op, schemas),
        op_draft(op, path, schemas).0.required.contains(x),
    ensures
        lists_required(JsonV::Object(jv_members(r.tool.input_schema@)), x),
{
    let d = op_draft(op, path, schemas).0;
    let defs = choose|defs: Seq<(Seq<char>, JsonV)>|
        #![trigger input_members(d, defs)]
        crate::openapi::defs_match(defs, crate::refs::ref_closure_set(schemas, d.seeds), schemas)
            && JsonV::Object(jv_members(r.tool.input_schema@)) == rebased(
            JsonV::Object(input_members(d, defs)),
        );
    let im = input_members(d, defs);
    let t = jv_members(r.tool.input_schema@);
    assert(t == rebased_members(im));
    lemma_rebased_members_len(im);
    reveal_strlit("type");
    reveal_strlit("properties");
    reveal_strlit("required");
    reveal_strlit("$ref");
    assert("type"@[0] != "required"@[0]);
    assert("properties"@[0] != "required"@[0]);
    assert("type"@ != "required"@);
    assert("properties"@ != "required"@);
    assert("required"@.len() != "$ref"@.len());
    let k = choose|k: int| 0 <= k < d.required.len() && d.required[k] == x;
    lemma_rebased_texts(d.required);
    assert(t[0].0 == "type"@);
    assert(t[1].0 == "properties"@);
    assert(t[2] == ("required"@, JsonV::Array(required_array(d.required))));
    lemma_member_index(t, "required"@);
    assert(t[2].0 == "required"@);
    assert(member_index(t, "required"@) == 2);
    assert(required_array(d.required)[k] == JsonV::Str(x));
}

/// `d`'s required names are all among `e`'s.
pub open spec fn keeps_required(d: DraftV, e: DraftV) -> bool {
    forall|x: Seq<char>| d.required.contains(x) ==> #[trigger] e.required.contains(x)
}

proof fn lemma_param_step_keeps(d: DraftV, p: JsonV)
    ensures
        keeps_required(d, param_step(d, p)),
{
    assert forall|x: Seq<char>| d.required.contains(x) implies #[trigger] param_step(
        d,
        p,
    ).required.contains(x) by {
        lemma_push_contains(d.required, x);
        if let Some(name) = crate::json::str_field(p, "name"@) {
            lemma_push_contains(d.required, name);
        }
    }
}

proof fn lemma_placeholder_steps_keep(d: DraftV, phs: Seq<Seq<char>>)
    ensures
        keeps_required(d, placeholder_steps(d, phs)),
    decreases phs.len(),
{
    if phs.len() > 0 {
        lemma_placeholder_steps_keep(d, phs.drop_last());
        let e = placeholder_steps(d, phs.drop_last());
        lemma_push_contains(e.required, phs.last());
    }
}

proof fn lemma_body_step_keeps(d: DraftV, op: JsonV, schemas: Seq<(Seq<char>, JsonV)>)
    ensures
        keeps_required(d, body_step(d, op, schemas).0),
{
    assert forall|x: Seq<char>| d.required.contains(x) implies #[trigger] body_step(
        d,
        op,
        schemas,
    ).0.required.contains(x) by {
        lemma_push_contains(d.required, "body"@);
        lemma_push_contains(d.required.push("body"@), "body"@);
        if let Some(rb) = field(op, "requestBody"@) {
            let content = field(rb, "content"@);
            let ms = crate::json::opt_field(
                crate::json::opt_field(content, "multipart/form-data"@),
                "schema"@,
            );
            if let Some(msc) = ms {
                let bin = crate::openapi::binary_names(crate::refs::flat_props(msc, schemas));
                if bin.len() > 0 {
                    lemma_push_contains(d.required, bin[0]);
                    lemma_push_contains(d.required.push("body"@), bin[0]);
                    lemma_push_contains(d.required.push("body"@).push("body"@), bin[0]);
                }
            }
        }
    }
}

/// Whether the operation declares a query parameter named `n` with
/// `"required": true`.
pub open spec fn declares_required_query(op: JsonV, n: Seq<char>) -> bool {
    match field(op, "parameters"@) {
        Some(JsonV::Array(ps)) => exists|i: int|
            0 <= i < ps.len() && field(#[trigger] ps[i], "name"@) == Some(JsonV::Str(n)) && field(
                ps[i],
                "in"@,
            ) == Some(JsonV::Str("query"@)) && field(ps[i], "required"@) == Some(
                JsonV::Bool(true),
            ),
        _ => false,
    }
}

proof fn lemma_params_steps_required(d: DraftV, ps: Seq<JsonV>, i: int, n: Seq<char>)
    requires
        0 <= i < ps.len(),
        field(ps[i], "name"@) == Some(JsonV::Str(n)),
        field(ps[i], "in"@) == Some(JsonV::Str("query"@)),
        field(ps[i], "required"@) == Some(JsonV::Bool(true)),
    ensures
        params_steps(d, ps).required.contains(n),
    decreases ps.len(),
{
    let e = params_steps(d, ps.drop_last());
    if i == ps.len() - 1 {
        assert(ps.last() == ps[i]);
        lemma_push_contains(e.required, n);
    } else {
        assert(ps.drop_last()[i] == ps[i]);
        lemma_params_steps_required(d, ps.drop_last(), i, n);
        lemma_param_step_keeps(e, ps.last());
    }
}

/// A query parameter that the operation declares `"required": true` is
/// listed under its tool's `required`, as path parameters are.
pub proof fn law_required_query_params_are_required(
    r: Operation,
    operation_id: Seq<char>,
    method: Seq<char>,
    path: Seq<char>,
    op: JsonV,
    schemas: Seq<(Seq<char>, JsonV)>,
)
    requires
        built_operation(r, operation_id, method, path, op, schemas),
    ensures
        forall|n: Seq<char>|
            declares_required_query(op, n) ==> #[trigger] lists_required(
                JsonV::Object(jv_members(r.tool.input_schema@)),
                n,
            ),
{
    assert forall|n: Seq<char>| declares_required_query(op, n) implies #[trigger] lists_required(
        JsonV::Object(jv_members(r.tool.input_schema@)),
        n,
    ) by {
        let ps = field(op, "parameters"@)->Some_0->Array_0;
        let i = choose|i: int|
            0 <= i < ps.len() && field(#[trigger] ps[i], "name"@) == Some(JsonV::Str(n)) && field(
                ps[i],
                "in"@,
            ) == Some(JsonV::Str("query"@)) && field(ps[i], "required"@) == Some(
                JsonV::Bool(true),
            );
        assert(crate::openapi::params_of(op) == ps);
        let d0 = empty_draft();
        let d1 = params_steps(d0, ps);
        lemma_params_steps_required(d0, ps, i, n);
        let phs = crate::openapi::placeholders(path);
        lemma_placeholder_steps_keep(d1, phs);
        lemma_body_step_keeps(placeholder_steps(d1, phs), op, schemas);
        lemma_required_listed(r, operation_id, method, path, op, schemas, n);
    }
}

/// Whether a multipart field's schema marks it as a file upload.
pub open spec fn binary_schema(s: JsonV) -> bool {
    field(s, "contentEncoding"@) == Some(JsonV::Str("binary"@)) || field(s, "format"@) == Some(
        JsonV::Str("binary"@),
    )
}

/// Where an operation's request body is required and has no JSON form, and
/// its multipart form has exactly one field, a file whose name holds no `[`,
/// that field is listed under the tool's `required`.
pub proof fn law_single_required_file_is_required(
    r: Operation,
    operation_id: Seq<char>,
    method: Seq<char>,
    path: Seq<char>,
    op: JsonV,
    schemas: Seq<(Seq<char>, JsonV)>,
    rb: JsonV,
    msc: JsonV,
    f: Seq<char>,
    fs: JsonV,
)
    requires
        built_operation(r, operation_id, method, path, op, schemas),
        field(op, "requestBody"@) == Some(rb),
        field(rb, "required"@) == Some(JsonV::Bool(true)),
        crate::json::opt_field(
            crate::json::opt_field(field(rb, "content"@), "application/json"@),
            "schema"@,
        ) is None,
        crate::json::opt_field(
            crate::json::opt_field(field(rb, "content"@), "multipart/form-data"@),
            "schema"@,
        ) == Some(msc),
        crate::refs::flat_props(msc, schemas) == seq![(f, fs)],
        binary_schema(fs),
        !f.contains('['),
    ensures
        lists_required(JsonV::Object(jv_members(r.tool.input_schema@)), f),
{
    let all = crate::refs::flat_props(msc, schemas);
    assert(all.len() == 1);
    assert(all.last() == (f, fs));
    let none = all.drop_last();
    assert(none.len() == 0);
    assert(crate::openapi::binary_names(none) == Seq::<Seq<char>>::empty());
    assert(crate::openapi::non_binary(none) == Seq::<(Seq<char>, JsonV)>::empty());
    assert(crate::json::str_field(fs, "contentEncoding"@) == Some("binary"@) || crate::json::str_field(
        fs,
        "format"@,
    ) == Some("binary"@));
    assert(crate::openapi::is_binary_field(fs));
    assert(crate::openapi::binary_names(all) =~= seq![f]);
    assert(crate::openapi::non_binary(all).len() == 0);
    crate::openapi::lemma_first_index(f, '[');
    if crate::openapi::first_index(f, '[') >= 0 {
        assert(f.contains('['));
    }
    let d0 = empty_draft();
    let d1 = params_steps(d0, crate::openapi::params_of(op));
    let d2 = placeholder_steps(d1, crate::openapi::placeholders(path));
    let e = body_step(d2, op, schemas).0;
    assert(e.required == d2.required.push(f));
    lemma_push_contains(d2.required, f);
    lemma_required_listed(r, operation_id, method, path, op, schemas, f);
}

} // verus!
