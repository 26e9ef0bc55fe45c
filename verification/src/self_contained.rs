//! Why a tool's input schema is self-contained: every component schema that
//! it refers to, and that the spec defines, is inlined under its `$defs`.
use vstd::prelude::*;

use crate::json::{
    keys_distinct, lemma_member_index, member_get, member_index, member_insert, member_keys, JsonV,
};
use crate::openapi::{
    annotated, body_step, defs_match, empty_draft, file_path_schema, files_schema, input_members,
    object_schema, op_draft, param_step, params_steps, path_param_schema, placeholder_step,
    placeholder_steps, required_array, built_operation, DraftV, Operation,
};
use crate::json::jv_members;
use crate::refs::{
    def_of, lemma_closure_step, lemma_seed_in_closure, member_refs, rebased, ref_closure_set,
    ref_target, refs, refs_items, refs_members,
};

verus! {

/// Every member of `props` holds a schema that refers only to names in `seeds`.
pub open spec fn props_refs_in(props: Seq<(Seq<char>, JsonV)>, seeds: Set<Seq<char>>) -> bool {
    forall|i: int| 0 <= i < props.len() ==> refs(#[trigger] props[i].1).subset_of(seeds)
}

/// Whether the component schema named `n` is among the names `c` or is not
/// defined at all.
pub open spec fn inlined_or_undefined(
    schemas: Seq<(Seq<char>, JsonV)>,
    c: Set<Seq<char>>,
    n: Seq<char>,
) -> bool {
    c.contains(n) || def_of(schemas, n) is None
}

/// Every `$ref` member of `m` that names a component schema names one that
/// is among the names `c` or is not defined at all.
pub open spec fn ref_members_resolve(
    m: Seq<(Seq<char>, JsonV)>,
    schemas: Seq<(Seq<char>, JsonV)>,
    c: Set<Seq<char>>,
) -> bool {
    forall|i: int|
        0 <= i < m.len() && #[trigger] m[i].0 == "$ref"@ && ref_target(m[i].1) is Some
            ==> inlined_or_undefined(schemas, c, ref_target(m[i].1)->0)
}

/// The references of a member list lie in `x` when those of each member do.
pub proof fn lemma_refs_members_within(m: Seq<(Seq<char>, JsonV)>, x: Set<Seq<char>>)
    requires
        forall|i: int| 0 <= i < m.len() ==> #[trigger] member_refs(m[i].0, m[i].1).subset_of(x),
    ensures
        refs_members(m).subset_of(x),
    decreases m.len(),
{
    if m.len() > 0 {
        let d = m.drop_last();
        assert forall|i: int| 0 <= i < d.len() implies #[trigger] member_refs(d[i].0, d[i].1).subset_of(
            x,
        ) by {
            assert(d[i] == m[i]);
        }
        lemma_refs_members_within(d, x);
        assert(member_refs(m[m.len() - 1].0, m[m.len() - 1].1).subset_of(x));
    }
}

/// The references of a list of items lie in `x` when those of each item do.
pub proof fn lemma_refs_items_within(s: Seq<JsonV>, x: Set<Seq<char>>)
    requires
        forall|i: int| 0 <= i < s.len() ==> #[trigger] refs(s[i]).subset_of(x),
    ensures
        refs_items(s).subset_of(x),
    decreases s.len(),
{
    if s.len() > 0 {
        let d = s.drop_last();
        assert forall|i: int| 0 <= i < d.len() implies #[trigger] refs(d[i]).subset_of(x) by {
            assert(d[i] == s[i]);
        }
        lemma_refs_items_within(d, x);
        assert(refs(s[s.len() - 1]).subset_of(x));
    }
}

proof fn lemma_keys_not_ref()
    ensures
        "type"@ != "$ref"@,
        "description"@ != "$ref"@,
        "items"@ != "$ref"@,
        "properties"@ != "$ref"@,
        "required"@ != "$ref"@,
        "$defs"@ != "$ref"@,
{
    reveal_strlit("type");
    reveal_strlit("description");
    reveal_strlit("items");
    reveal_strlit("properties");
    reveal_strlit("required");
    reveal_strlit("$defs");
    reveal_strlit("$ref");
    assert("type"@[0] != "$ref"@[0]);
    assert("description"@.len() != "$ref"@.len());
    assert("items"@.len() != "$ref"@.len());
    assert("properties"@.len() != "$ref"@.len());
    assert("required"@.len() != "$ref"@.len());
    assert("$defs"@.len() != "$ref"@.len());
}

/// A member whose key is not `$ref` and whose value is a string refers to
/// nothing.
proof fn lemma_text_member(k: Seq<char>, t: Seq<char>)
    requires
        k != "$ref"@,
    ensures
        member_refs(k, JsonV::Str(t)) == Set::<Seq<char>>::empty(),
{
    assert(member_refs(k, JsonV::Str(t)) =~= Set::<Seq<char>>::empty());
}

proof fn lemma_fixed_schemas_refer_nowhere(f: Seq<char>)
    ensures
        refs(path_param_schema()) == Set::<Seq<char>>::empty(),
        refs(file_path_schema(f)) == Set::<Seq<char>>::empty(),
        refs(files_schema()) == Set::<Seq<char>>::empty(),
{
    let e = Set::<Seq<char>>::empty();
    lemma_keys_not_ref();
    let m1 = seq![("type"@, JsonV::Str("string"@)), ("description"@, JsonV::Str("Path parameter"@))];
    lemma_text_member("type"@, "string"@);
    lemma_text_member("description"@, "Path parameter"@);
    lemma_refs_members_within(m1, e);
    assert(refs(path_param_schema()) =~= e);
    if let JsonV::Object(m2) = file_path_schema(f) {
        lemma_text_member("type"@, "string"@);
        lemma_text_member("description"@, m2[1].1->Str_0);
        lemma_refs_members_within(m2, e);
    }
    assert(refs(file_path_schema(f)) =~= e);
    if let JsonV::Object(m3) = files_schema() {
        let inner = seq![("type"@, JsonV::Str("string"@))];
        lemma_refs_members_within(inner, e);
        assert(member_refs("items"@, JsonV::Object(inner)) =~= e);
        lemma_text_member("type"@, "array"@);
        lemma_text_member("description"@, m3[2].1->Str_0);
        assert(m3[1] == ("items"@, JsonV::Object(inner)));
        lemma_refs_members_within(m3, e);
    }
    assert(refs(files_schema()) =~= e);
}

proof fn lemma_refs_in_mono(m: Seq<(Seq<char>, JsonV)>, s: Set<Seq<char>>, t: Set<Seq<char>>)
    requires
        props_refs_in(m, s),
        s.subset_of(t),
    ensures
        props_refs_in(m, t),
{
}

proof fn lemma_refs_in_insert(
    m: Seq<(Seq<char>, JsonV)>,
    k: Seq<char>,
    v: JsonV,
    s: Set<Seq<char>>,
)
    requires
        props_refs_in(m, s),
        refs(v).subset_of(s),
    ensures
        props_refs_in(member_insert(m, k, v), s),
{
    let r = member_insert(m, k, v);
    lemma_member_index(m, k);
    let j = member_index(m, k);
    assert forall|i: int| 0 <= i < r.len() implies refs(#[trigger] r[i].1).subset_of(s) by {
        if j >= 0 {
            if i != j {
                assert(r[i] == m[i]);
            }
        } else if i < m.len() {
            assert(r[i] == m[i]);
        }
    }
}

proof fn lemma_annotated_refs(schema: JsonV, desc: Option<Seq<char>>, loc: Seq<char>)
    ensures
        refs(annotated(schema, desc, loc)).subset_of(refs(schema)),
{
    if let JsonV::Object(m) = schema {
        if member_index(m, "description"@) < 0 {
            let e = ("description"@, annotated(schema, desc, loc)->Object_0.last().1);
            let n = member_insert(m, "description"@, e.1);
            assert(n == m.push(e));
            assert(n.drop_last() == m);
            lemma_keys_not_ref();
            lemma_text_member("description"@, e.1->Str_0);
        }
    }
}

proof fn lemma_param_step(d: DraftV, p: JsonV)
    requires
        props_refs_in(d.props, d.seeds),
    ensures
        props_refs_in(param_step(d, p).props, param_step(d, p).seeds),
        d.seeds.subset_of(param_step(d, p).seeds),
{
    let r = param_step(d, p);
    if r != d {
        lemma_refs_in_mono(d.props, d.seeds, r.seeds);
        if r.props != d.props {
            let name = crate::json::str_field(p, "name"@)->Some_0;
            let loc = match crate::json::str_field(p, "in"@) {
                Some(l) => l,
                None => Seq::empty(),
            };
            let schema0 = match crate::json::field(p, "schema"@) {
                Some(sc) => sc,
                None => crate::openapi::string_schema(),
            };
            lemma_annotated_refs(schema0, crate::json::str_field(p, "description"@), loc);
            lemma_refs_in_insert(
                d.props,
                name,
                annotated(schema0, crate::json::str_field(p, "description"@), loc),
                r.seeds,
            );
        }
    }
}

proof fn lemma_params_steps(d: DraftV, ps: Seq<JsonV>)
    requires
        props_refs_in(d.props, d.seeds),
    ensures
        props_refs_in(params_steps(d, ps).props, params_steps(d, ps).seeds),
        d.seeds.subset_of(params_steps(d, ps).seeds),
    decreases ps.len(),
{
    if ps.len() > 0 {
        lemma_params_steps(d, ps.drop_last());
        lemma_param_step(params_steps(d, ps.drop_last()), ps.last());
    }
}

proof fn lemma_placeholder_steps_refs(d: DraftV, phs: Seq<Seq<char>>)
    requires
        props_refs_in(d.props, d.seeds),
    ensures
        props_refs_in(placeholder_steps(d, phs).props, placeholder_steps(d, phs).seeds),
        placeholder_steps(d, phs).seeds == d.seeds,
    decreases phs.len(),
{
    if phs.len() > 0 {
        let e = placeholder_steps(d, phs.drop_last());
        lemma_placeholder_steps_refs(d, phs.drop_last());
        lemma_fixed_schemas_refer_nowhere(Seq::empty());
        if !e.path_params.contains(phs.last()) {
            lemma_refs_in_insert(e.props, phs.last(), path_param_schema(), e.seeds);
        }
    }
}

proof fn lemma_body_step(d: DraftV, op: JsonV, schemas: Seq<(Seq<char>, JsonV)>)
    requires
        props_refs_in(d.props, d.seeds),
    ensures
        props_refs_in(body_step(d, op, schemas).0.props, body_step(d, op, schemas).0.seeds),
        d.seeds.subset_of(body_step(d, op, schemas).0.seeds),
{
    let r = body_step(d, op, schemas).0;
    match crate::json::field(op, "requestBody"@) {
        None => {},
        Some(rb) => {
            let content = crate::json::field(rb, "content"@);
            let js = crate::json::opt_field(
                crate::json::opt_field(content, "application/json"@),
                "schema"@,
            );
            let ms = crate::json::opt_field(
                crate::json::opt_field(content, "multipart/form-data"@),
                "schema"@,
            );
            let d1 = match js {
                Some(j) => DraftV {
                    props: member_insert(d.props, "body"@, j),
                    required: if crate::json::bool_field_or_false(rb, "required"@) {
                        d.required.push("body"@)
                    } else {
                        d.required
                    },
                    seeds: d.seeds.union(refs(j)),
                    ..d
                },
                None => d,
            };
            if let Some(j) = js {
                lemma_refs_in_mono(d.props, d.seeds, d1.seeds);
                lemma_refs_in_insert(d.props, "body"@, j, d1.seeds);
            }
            assert(props_refs_in(d1.props, d1.seeds));
            match ms {
                None => {},
                Some(msc) => {
                    let all = crate::refs::flat_props(msc, schemas);
                    let nb = crate::openapi::non_binary(all);
                    let bin = crate::openapi::binary_names(all);
                    let use_nb = js is None && nb.len() > 0;
                    let d2 = if use_nb {
                        DraftV {
                            props: member_insert(d1.props, "body"@, object_schema(nb)),
                            required: if crate::json::bool_field_or_false(rb, "required"@) {
                                d1.required.push("body"@)
                            } else {
                                d1.required
                            },
                            seeds: d1.seeds.union(refs(object_schema(nb))),
                            ..d1
                        }
                    } else {
                        d1
                    };
                    if use_nb {
                        lemma_refs_in_mono(d1.props, d1.seeds, d2.seeds);
                        lemma_refs_in_insert(d1.props, "body"@, object_schema(nb), d2.seeds);
                    }
                    assert(props_refs_in(d2.props, d2.seeds));
                    if bin.len() > 0 {
                        lemma_fixed_schemas_refer_nowhere(bin[0]);
                        lemma_refs_in_insert(d2.props, bin[0], file_path_schema(bin[0]), d2.seeds);
                        lemma_refs_in_insert(d2.props, "files"@, files_schema(), d2.seeds);
                    }
                },
            }
        },
    }
}

/// The draft of every operation keeps, among its seed names, every component
/// schema that its property schemas refer to.
pub proof fn lemma_draft_refs_in_seeds(op: JsonV, path: Seq<char>, schemas: Seq<(Seq<char>, JsonV)>)
    ensures
        props_refs_in(op_draft(op, path, schemas).0.props, op_draft(op, path, schemas).0.seeds),
{
    let d0 = empty_draft();
    let d1 = params_steps(d0, crate::openapi::params_of(op));
    lemma_params_steps(d0, crate::openapi::params_of(op));
    let d2 = placeholder_steps(d1, crate::openapi::placeholders(path));
    lemma_placeholder_steps_refs(d1, crate::openapi::placeholders(path));
    lemma_body_step(d2, op, schemas);
}

/// Every component schema that an input schema refers to lies in the
/// reference closure of its draft's seeds, or is not defined.
pub proof fn lemma_input_refs_in_closure(
    d: DraftV,
    defs: Seq<(Seq<char>, JsonV)>,
    schemas: Seq<(Seq<char>, JsonV)>,
)
    requires
        props_refs_in(d.props, d.seeds),
        ref_members_resolve(d.props, schemas, ref_closure_set(schemas, d.seeds)),
        ref_members_resolve(defs, schemas, ref_closure_set(schemas, d.seeds)),
        defs_match(defs, ref_closure_set(schemas, d.seeds), schemas),
    ensures
        refs(JsonV::Object(input_members(d, defs))).subset_of(
            Set::new(|n: Seq<char>| inlined_or_undefined(schemas, ref_closure_set(schemas, d.seeds), n)),
        ),
{
    let c = ref_closure_set(schemas, d.seeds);
    let x = Set::new(|n: Seq<char>| inlined_or_undefined(schemas, c, n));
    lemma_keys_not_ref();
    assert(d.seeds.subset_of(x)) by {
        assert forall|n: Seq<char>| d.seeds.contains(n) implies x.contains(n) by {
            lemma_seed_in_closure(schemas, d.seeds, n);
        }
    }
    assert forall|i: int| 0 <= i < d.props.len() implies #[trigger] member_refs(
        d.props[i].0,
        d.props[i].1,
    ).subset_of(x) by {
        if d.props[i].0 == "$ref"@ {
            if ref_target(d.props[i].1) is Some {
                assert(member_refs(d.props[i].0, d.props[i].1) =~= Set::<Seq<char>>::empty().insert(
                    ref_target(d.props[i].1)->0,
                ));
            } else {
                assert(member_refs(d.props[i].0, d.props[i].1) =~= Set::<Seq<char>>::empty());
            }
        }
    }
    lemma_refs_members_within(d.props, x);
    assert forall|i: int| 0 <= i < defs.len() implies #[trigger] member_refs(
        defs[i].0,
        defs[i].1,
    ).subset_of(x) by {
        let n = defs[i].0;
        lemma_member_index(defs, n);
        assert(member_index(defs, n) == i) by {
            let j = member_index(defs, n);
            if j >= 0 && j != i {
                assert(defs[j].0 == n);
            }
        }
        assert(member_keys(defs).contains(n));
        assert(member_get(defs, n) == Some(defs[i].1));
        assert(def_of(schemas, n) == Some(defs[i].1));
        if n == "$ref"@ {
            if ref_target(defs[i].1) is Some {
                assert(member_refs(n, defs[i].1) =~= Set::<Seq<char>>::empty().insert(
                    ref_target(defs[i].1)->0,
                ));
            } else {
                assert(member_refs(n, defs[i].1) =~= Set::<Seq<char>>::empty());
            }
        } else {
            assert forall|y: Seq<char>| refs(defs[i].1).contains(y) implies x.contains(y) by {
                lemma_closure_step(schemas, d.seeds, n, defs[i].1, y);
            }
        }
    }
    lemma_refs_members_within(defs, x);
    let req = required_array(d.required);
    assert forall|i: int| 0 <= i < req.len() implies #[trigger] refs(req[i]).subset_of(x) by {
        assert(refs(req[i]) =~= Set::<Seq<char>>::empty());
    }
    lemma_refs_items_within(req, x);
    let im = input_members(d, defs);
    assert forall|i: int| 0 <= i < im.len() implies #[trigger] member_refs(im[i].0, im[i].1).subset_of(
        x,
    ) by {
        if i == 0 {
            lemma_text_member("type"@, "object"@);
        }
    }
    lemma_refs_members_within(im, x);
}

/// A tool's input schema is self-contained: it is the gathered schema with
/// its references rebased onto `#/$defs/`, and every component schema that
/// the gathered schema refers to, and that the spec defines, is inlined
/// under its `$defs`. This fails only where a property named `$ref`, or a
/// reachable component schema named `$ref`, is itself a reference string
/// that names a defined component schema which nothing else reaches.
pub proof fn law_tool_schema_self_contained(
    r: Operation,
    operation_id: Seq<char>,
    method: Seq<char>,
    path: Seq<char>,
    op: JsonV,
    schemas: Seq<(Seq<char>, JsonV)>,
)
    requires
        built_operation(r, operation_id, method, path, op, schemas),
        ref_members_resolve(
            op_draft(op, path, schemas).0.props,
            schemas,
            ref_closure_set(schemas, op_draft(op, path, schemas).0.seeds),
        ),
        ref_closure_set(schemas, op_draft(op, path, schemas).0.seeds).contains("$ref"@) && def_of(
            schemas,
            "$ref"@,
        ) is Some && ref_target(def_of(schemas, "$ref"@)->0) is Some ==> inlined_or_undefined(
            schemas,
            ref_closure_set(schemas, op_draft(op, path, schemas).0.seeds),
            ref_target(def_of(schemas, "$ref"@)->0)->0,
        ),
    ensures
        exists|defs: Seq<(Seq<char>, JsonV)>|
            #![trigger input_members(op_draft(op, path, schemas).0, defs)]
            defs_match(defs, ref_closure_set(schemas, op_draft(op, path, schemas).0.seeds), schemas)
                && JsonV::Object(jv_members(r.tool.input_schema@)) == rebased(
                JsonV::Object(input_members(op_draft(op, path, schemas).0, defs)),
            ) && forall|n: Seq<char>|
                #[trigger] refs(JsonV::Object(input_members(op_draft(op, path, schemas).0, defs))).contains(n)
                    && def_of(schemas, n) is Some ==> member_keys(defs).contains(n),
{
    let d = op_draft(op, path, schemas).0;
    let c = ref_closure_set(schemas, d.seeds);
    let defs = choose|defs: Seq<(Seq<char>, JsonV)>|
        #![trigger input_members(d, defs)]
        defs_match(defs, c, schemas) && JsonV::Object(jv_members(r.tool.input_schema@)) == rebased(
            JsonV::Object(input_members(d, defs)),
        );
    lemma_draft_refs_in_seeds(op, path, schemas);
    assert(ref_members_resolve(defs, schemas, c)) by {
        assert forall|i: int|
            0 <= i < defs.len() && #[trigger] defs[i].0 == "$ref"@ && ref_target(defs[i].1)
                is Some implies inlined_or_undefined(schemas, c, ref_target(defs[i].1)->0) by {
            lemma_member_index(defs, "$ref"@);
            let j = member_index(defs, "$ref"@);
            assert(member_keys(defs).contains("$ref"@));
            assert(j == i) by {
                if j != i {
                    assert(defs[j].0 == "$ref"@);
                }
            }
        }
    }
    lemma_input_refs_in_closure(d, defs, schemas);
    assert(input_members(d, defs) == input_members(op_draft(op, path, schemas).0, defs));
}

} // verus!
