//! How a tool takes the files of an operation's multipart form: one file
//! field, whose name holds no `[`, by that name; any other set of file fields
//! as a `files` array; none at all when the form has no file field.
use vstd::prelude::*;

use crate::json::{field, jv_members, lemma_member_index, lemma_member_insert, member_index,
    member_keys, opt_field, JsonV};
use crate::openapi::{
    binary_names, body_step, built_operation, empty_draft, first_index, input_members,
    is_binary_field, lemma_first_index, op_draft, params_of, params_steps, placeholder_steps,
    placeholders, FileModeV, Operation,
};
use crate::parameters::{binary_schema, has_property};
use crate::refs::{flat_props, lemma_rebased_members_len, rebased_members};

verus! {

proof fn lemma_binary_schema_is_binary_field(s: JsonV)
    ensures
        binary_schema(s) == is_binary_field(s),
{
}

proof fn lemma_no_file_fields(all: Seq<(Seq<char>, JsonV)>)
    requires
        forall|j: int| 0 <= j < all.len() ==> !binary_schema(#[trigger] all[j].1),
    ensures
        binary_names(all) == Seq::<Seq<char>>::empty(),
    decreases all.len(),
{
    if all.len() > 0 {
        lemma_binary_schema_is_binary_field(all.last().1);
        assert(!binary_schema(all[all.len() - 1].1));
        assert forall|j: int| 0 <= j < all.drop_last().len() implies !binary_schema(
            #[trigger] all.drop_last()[j].1,
        ) by {
            assert(all.drop_last()[j] == all[j]);
        }
        lemma_no_file_fields(all.drop_last());
    }
}

proof fn lemma_one_file_field(all: Seq<(Seq<char>, JsonV)>, i: int)
    requires
        0 <= i < all.len(),
        binary_schema(all[i].1),
        forall|j: int| 0 <= j < all.len() && j != i ==> !binary_schema(#[trigger] all[j].1),
    ensures
        binary_names(all) =~= seq![all[i].0],
    decreases all.len(),
{
    let rest = all.drop_last();
    lemma_binary_schema_is_binary_field(all.last().1);
    if i == all.len() - 1 {
        assert forall|j: int| 0 <= j < rest.len() implies !binary_schema(#[trigger] rest[j].1) by {
            assert(rest[j] == all[j]);
        }
        lemma_no_file_fields(rest);
    } else {
        assert(!binary_schema(all[all.len() - 1].1));
        assert(rest[i] == all[i]);
        assert forall|j: int| 0 <= j < rest.len() && j != i implies !binary_schema(
            #[trigger] rest[j].1,
        ) by {
            assert(rest[j] == all[j]);
        }
        lemma_one_file_field(rest, i);
    }
}

proof fn lemma_file_field_named(all: Seq<(Seq<char>, JsonV)>, i: int)
    requires
        0 <= i < all.len(),
        binary_schema(all[i].1),
    ensures
        binary_names(all).contains(all[i].0),
    decreases all.len(),
{
    let rest = all.drop_last();
    lemma_binary_schema_is_binary_field(all[i].1);
    let r = binary_names(rest);
    if i == all.len() - 1 {
        assert(r.push(all[i].0)[r.len() as int] == all[i].0);
    } else {
        assert(rest[i] == all[i]);
        lemma_file_field_named(rest, i);
        if is_binary_field(all.last().1) {
            let k = choose|k: int| 0 <= k < r.len() && r[k] == all[i].0;
            assert(r.push(all.last().0)[k] == all[i].0);
        }
    }
}

proof fn lemma_two_file_fields(all: Seq<(Seq<char>, JsonV)>, i: int, j: int)
    requires
        0 <= i < j < all.len(),
        binary_schema(all[i].1),
        binary_schema(all[j].1),
    ensures
        binary_names(all).len() >= 2,
    decreases all.len(),
{
    let rest = all.drop_last();
    assert(rest[i] == all[i]);
    if j == all.len() - 1 {
        lemma_binary_schema_is_binary_field(all[j].1);
        lemma_file_field_named(rest, i);
    } else {
        assert(rest[j] == all[j]);
        lemma_two_file_fields(rest, i, j);
    }
}

/// The multipart field list of the operation's request body, when it has a
/// multipart form.
pub open spec fn multipart_fields(op: JsonV, schemas: Seq<(Seq<char>, JsonV)>) -> Option<
    Seq<(Seq<char>, JsonV)>,
> {
    match field(op, "requestBody"@) {
        Some(rb) => match opt_field(
            opt_field(field(rb, "content"@), "multipart/form-data"@),
            "schema"@,
        ) {
            Some(msc) => Some(flat_props(msc, schemas)),
            None => None,
        },
        None => None,
    }
}

/// A name among a built tool's gathered properties is a property of its
/// input schema.
proof fn lemma_property_listed(
    r: Operation,
    operation_id: Seq<char>,
    method: Seq<char>,
    path: Seq<char>,
    op: JsonV,
    schemas: Seq<(Seq<char>, JsonV)>,
    x: Seq<char>,
)
    requires
        built_operation(r, operation_id, method, path, op, schemas),
        member_keys(op_draft(op, path, schemas).0.props).contains(x),
    ensures
        has_property(JsonV::Object(jv_members(r.tool.input_schema@)), x),
{
    let d = op_draft(op, path, schemas).0;
    let defs = choose|defs: Seq<(Seq<char>, JsonV)>|
        #![trigger input_members(d, defs)]
        crate::openapi::defs_match(defs, crate::refs::ref_closure_set(schemas, d.seeds), schemas)
            && JsonV::Object(jv_members(r.tool.input_schema@)) == crate::refs::rebased(
            JsonV::Object(input_members(d, defs)),
        );
    let im = input_members(d, defs);
    let t = jv_members(r.tool.input_schema@);
    assert(t == rebased_members(im));
    lemma_rebased_members_len(im);
    reveal_strlit("type");
    reveal_strlit("properties");
    reveal_strlit("$ref");
    assert("type"@[0] != "properties"@[0]);
    assert("type"@ != "properties"@);
    assert("properties"@.len() != "$ref"@.len());
    assert(t[0].0 == "type"@);
    assert(t[1] == ("properties"@, JsonV::Object(rebased_members(d.props))));
    lemma_member_index(t, "properties"@);
    assert(t[1].0 == "properties"@);
    assert(t[0].0 != "properties"@);
    assert(member_index(t, "properties"@) == 1);
    crate::parameters::lemma_rebased_keys(d.props);
}

/// Where the operation's multipart form has exactly one file field and its
/// name holds no `[`, the tool takes that file by name: its file mode names
/// that field alone, and the field is a property of its input schema.
pub proof fn law_single_file_by_name(
    r: Operation,
    operation_id: Seq<char>,
    method: Seq<char>,
    path: Seq<char>,
    op: JsonV,
    schemas: Seq<(Seq<char>, JsonV)>,
    i: int,
)
    requires
        built_operation(r, operation_id, method, path, op, schemas),
        multipart_fields(op, schemas) is Some,
        0 <= i < multipart_fields(op, schemas)->Some_0.len(),
        binary_schema(multipart_fields(op, schemas)->Some_0[i].1),
        forall|j: int|
            0 <= j < multipart_fields(op, schemas)->Some_0.len() && j != i ==> !binary_schema(
                #[trigger] multipart_fields(op, schemas)->Some_0[j].1,
            ),
        !multipart_fields(op, schemas)->Some_0[i].0.contains('['),
    ensures
        r.file_mode.view() == FileModeV::Named(seq![multipart_fields(op, schemas)->Some_0[i].0]),
        has_property(
            JsonV::Object(jv_members(r.tool.input_schema@)),
            multipart_fields(op, schemas)->Some_0[i].0,
        ),
{
    let all = multipart_fields(op, schemas)->Some_0;
    let f = all[i].0;
    lemma_one_file_field(all, i);
    lemma_first_index(f, '[');
    if first_index(f, '[') >= 0 {
        assert(f.contains('['));
    }
    let d0 = empty_draft();
    let d1 = params_steps(d0, params_of(op));
    let d2 = placeholder_steps(d1, placeholders(path));
    let (e, fm) = body_step(d2, op, schemas);
    assert(fm == FileModeV::Named(seq![f]));
    let rb = field(op, "requestBody"@)->Some_0;
    let content = field(rb, "content"@);
    let js = opt_field(opt_field(content, "application/json"@), "schema"@);
    assert(member_keys(e.props).contains(f)) by {
        let pre = if js is Some {
            crate::json::member_insert(d2.props, "body"@, js->Some_0)
        } else {
            d2.props
        };
        let nb = crate::openapi::non_binary(all);
        let pre2 = if !(js is Some) && nb.len() > 0 {
            crate::json::member_insert(pre, "body"@, crate::openapi::object_schema(nb))
        } else {
            pre
        };
        lemma_member_insert(pre2, f, crate::openapi::file_path_schema(f));
    }
    lemma_property_listed(r, operation_id, method, path, op, schemas, f);
}

/// Where the operation's multipart form has two file fields or more, or one
/// whose name holds `[`, the tool takes its files as a `files` array: its
/// file mode is the array one, and `files` is a property of its input schema.
pub proof fn law_several_files_as_array(
    r: Operation,
    operation_id: Seq<char>,
    method: Seq<char>,
    path: Seq<char>,
    op: JsonV,
    schemas: Seq<(Seq<char>, JsonV)>,
    i: int,
    j: int,
)
    requires
        built_operation(r, operation_id, method, path, op, schemas),
        multipart_fields(op, schemas) is Some,
        0 <= i < multipart_fields(op, schemas)->Some_0.len(),
        0 <= j < multipart_fields(op, schemas)->Some_0.len(),
        binary_schema(multipart_fields(op, schemas)->Some_0[i].1),
        binary_schema(multipart_fields(op, schemas)->Some_0[j].1),
        i != j || multipart_fields(op, schemas)->Some_0[i].0.contains('['),
    ensures
        r.file_mode.view() == FileModeV::Array,
        has_property(JsonV::Object(jv_members(r.tool.input_schema@)), "files"@),
{
    let all = multipart_fields(op, schemas)->Some_0;
    let bin = binary_names(all);
    if i < j {
        lemma_two_file_fields(all, i, j);
    } else if j < i {
        lemma_two_file_fields(all, j, i);
    } else {
        lemma_file_field_named(all, i);
        if bin.len() == 1 {
            let k = choose|k: int| 0 <= k < bin.len() && bin[k] == all[i].0;
            assert(bin[0] == all[i].0);
            let c = choose|c: int| 0 <= c < all[i].0.len() && all[i].0[c] == '[';
            lemma_first_index(bin[0], '[');
            assert(first_index(bin[0], '[') >= 0);
        }
        assert(bin.len() > 0);
    }
    let d0 = empty_draft();
    let d1 = params_steps(d0, params_of(op));
    let d2 = placeholder_steps(d1, placeholders(path));
    let (e, fm) = body_step(d2, op, schemas);
    assert(fm == FileModeV::Array);
    let rb = field(op, "requestBody"@)->Some_0;
    let content = field(rb, "content"@);
    let js = opt_field(opt_field(content, "application/json"@), "schema"@);
    assert(member_keys(e.props).contains("files"@)) by {
        let pre = if js is Some {
            crate::json::member_insert(d2.props, "body"@, js->Some_0)
        } else {
            d2.props
        };
        let nb = crate::openapi::non_binary(all);
        let pre2 = if !(js is Some) && nb.len() > 0 {
            crate::json::member_insert(pre, "body"@, crate::openapi::object_schema(nb))
        } else {
            pre
        };
        lemma_member_insert(pre2, "files"@, crate::openapi::files_schema());
    }
    lemma_property_listed(r, operation_id, method, path, op, schemas, "files"@);
}

/// Where the operation has no multipart form, or one without file fields,
/// the tool takes no files.
pub proof fn law_no_file_fields_no_files(
    r: Operation,
    operation_id: Seq<char>,
    method: Seq<char>,
    path: Seq<char>,
    op: JsonV,
    schemas: Seq<(Seq<char>, JsonV)>,
)
    requires
        built_operation(r, operation_id, method, path, op, schemas),
        match multipart_fields(op, schemas) {
            Some(all) => forall|j: int| 0 <= j < all.len() ==> !binary_schema(#[trigger] all[j].1),
            None => true,
        },
    ensures
        r.file_mode.view() == FileModeV::NoFiles,
{
    if let Some(all) = multipart_fields(op, schemas) {
        lemma_no_file_fields(all);
    }
}

} // verus!
