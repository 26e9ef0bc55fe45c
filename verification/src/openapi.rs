//! Turns Discord's OpenAPI document into a registry of tools: every operation
//! becomes one tool, named by its `operationId`, whose input schema exposes
//! path and query parameters as top-level properties, the JSON request body
//! under `body`, and file uploads as local paths. Each input schema is
//! self-contained: the component schemas it needs are inlined under `$defs`
//! and every reference is rebased onto them.
use vstd::prelude::*;

use crate::json::{
    json_of_text, parse_json, bool_field_or_false, field, jv, jv_members, jv_seq, keys_distinct, lemma_jv_members,
    lemma_jv_members_push, lemma_jv_seq, lemma_jv_seq_push, lemma_member_index, lemma_member_insert,
    member_get, member_index, member_insert, member_keys, member_lookup, member_position,
    member_set, opt_field, str_field, Json, JsonV,
};
use crate::refs::{
    collect_refs, contains_name, def_of, names_ascending, sorted_names, lemma_rebased_has_no_component_refs,
    lemma_rebased_members_len, flat_props, flatten_props, insert_name, lemma_names_push,
    lemma_unseen_bound, names, rebased, ref_closure, ref_closure_set, refs, rewrite_refs, unseen,
};
use crate::text::{chars_of, owned, push_str, str_eq, string_of_range, text_lt};

verus! {

/// Position of the first `c` in `s`, or -1.
pub open spec fn first_index(s: Seq<char>, c: char) -> int
    decreases s.len(),
{
    if s.len() == 0 {
        -1
    } else if s[0] == c {
        0
    } else {
        let r = first_index(s.drop_first(), c);
        if r < 0 {
            -1
        } else {
            r + 1
        }
    }
}

pub proof fn lemma_first_index(s: Seq<char>, c: char)
    ensures
        -1 <= first_index(s, c) < s.len(),
        first_index(s, c) >= 0 ==> s[first_index(s, c)] == c,
        forall|j: int|
            0 <= j < s.len() && (first_index(s, c) < 0 || j < first_index(s, c)) ==> #[trigger] s[j]
                != c,
    decreases s.len(),
{
    if s.len() > 0 {
        lemma_first_index(s.drop_first(), c);
        assert forall|j: int|
            0 <= j < s.len() && (first_index(s, c) < 0 || j < first_index(s, c)) implies #[trigger] s[j]
            != c by {
            if j > 0 {
                assert(s[j] == s.drop_first()[j - 1]);
            }
        }
    }
}

/// The names between `{` and `}` in a path template, in order. A `{` with no
/// `}` after it ends the search.
pub open spec fn placeholders(s: Seq<char>) -> Seq<Seq<char>>
    decreases s.len(),
{
    let a = first_index(s, '{');
    if a < 0 {
        Seq::empty()
    } else {
        let b = first_index(s.skip(a), '}');
        if b < 0 {
            Seq::empty()
        } else {
            proof {
                lemma_first_index(s, '{');
                lemma_first_index(s.skip(a), '}');
            }
            seq![s.subrange(a + 1, a + b)] + placeholders(s.skip(a + b + 1))
        }
    }
}

/// Extracts the `{placeholder}` names from a path template.
pub fn path_placeholders(path: &str) -> (out: Vec<String>)
    ensures
        out@.len() == placeholders(path@).len(),
        forall|i: int| 0 <= i < out@.len() ==> #[trigger] out@[i]@ == placeholders(path@)[i],
{
    let cs = chars_of(path);
    let mut out: Vec<String> = Vec::new();
    let mut pos: usize = 0;
    let ghost views: Seq<Seq<char>> = Seq::empty();
    assert(cs@.skip(0) == cs@);
    assert(views + placeholders(cs@) == placeholders(cs@));
    loop
        invariant
            pos <= cs@.len(),
            cs@ == path@,
            views.len() == out@.len(),
            forall|i: int| 0 <= i < out@.len() ==> #[trigger] out@[i]@ == views[i],
            views + placeholders(cs@.skip(pos as int)) == placeholders(cs@),
        decreases cs@.len() - pos,
    {
        let ghost rest = cs@.skip(pos as int);
        proof {
            lemma_first_index(rest, '{');
        }
        // Find the next `{`.
        let mut a = pos;
        while a < cs.len() && cs[a] != '{'
            invariant
                pos <= a <= cs@.len(),
                rest == cs@.skip(pos as int),
                forall|j: int| pos <= j < a ==> cs@[j] != '{',
            decreases cs@.len() - a,
        {
            a = a + 1;
        }
        if a == cs.len() {
            proof {
                assert(first_index(rest, '{') < 0) by {
                    if first_index(rest, '{') >= 0 {
                        assert(rest[first_index(rest, '{')] == cs@[pos + first_index(rest, '{')]);
                    }
                }
                assert(placeholders(rest) == Seq::<Seq<char>>::empty());
                assert(views + Seq::<Seq<char>>::empty() == views);
            }
            return out;
        }
        assert(first_index(rest, '{') == a - pos) by {
            let f = first_index(rest, '{');
            assert(rest[a - pos] == '{');
            if f >= 0 && f < a - pos {
                assert(rest[f] == cs@[pos + f]);
            }
        }
        let ghost rest2 = rest.skip(a - pos);
        proof {
            lemma_first_index(rest2, '}');
        }
        // Find the `}` after it.
        let mut b = a;
        while b < cs.len() && cs[b] != '}'
            invariant
                a <= b <= cs@.len(),
                forall|j: int| a <= j < b ==> cs@[j] != '}',
            decreases cs@.len() - b,
        {
            b = b + 1;
        }
        if b == cs.len() {
            proof {
                assert(first_index(rest2, '}') < 0) by {
                    let f = first_index(rest2, '}');
                    if f >= 0 {
                        assert(rest2[f] == cs@[a + f]);
                    }
                }
                assert(placeholders(rest) == Seq::<Seq<char>>::empty());
                assert(views + Seq::<Seq<char>>::empty() == views);
            }
            return out;
        }
        assert(first_index(rest2, '}') == b - a) by {
            let f = first_index(rest2, '}');
            assert(rest2[b - a] == cs@[b as int]);
            if f >= 0 && f < b - a {
                assert(rest2[f] == cs@[a + f]);
            }
        }
        let name = string_of_range(&cs, a + 1, b);
        proof {
            assert(rest.subrange((a - pos) + 1, (a - pos) + (b - a)) == cs@.subrange(
                a + 1,
                b as int,
            ));
            assert(rest.skip((a - pos) + (b - a) + 1) == cs@.skip(b + 1));
            assert(placeholders(rest) == seq![cs@.subrange(a + 1, b as int)] + placeholders(
                cs@.skip(b + 1),
            ));
            assert(views.push(name@) + placeholders(cs@.skip(b + 1)) == views + placeholders(
                rest,
            ));
            views = views.push(name@);
        }
        out.push(name);
        pos = b + 1;
    }
}

/// Is this multipart field a binary file upload?
pub open spec fn is_binary_field(schema: JsonV) -> bool {
    str_field(schema, "contentEncoding"@) == Some("binary"@) || str_field(schema, "format"@)
        == Some("binary"@)
}

fn is_binary(schema: &Json) -> (r: bool)
    ensures
        r == is_binary_field(schema@),
{
    let a = match schema.get("contentEncoding") {
        Some(e) => match e.as_str() {
            Some(s) => crate::text::str_eq(s, "binary"),
            None => false,
        },
        None => false,
    };
    let b = match schema.get("format") {
        Some(e) => match e.as_str() {
            Some(s) => crate::text::str_eq(s, "binary"),
            None => false,
        },
        None => false,
    };
    a || b
}


/// `{"type": "string"}`.
pub open spec fn string_schema() -> JsonV {
    JsonV::Object(seq![("type"@, JsonV::Str("string"@))])
}

fn string_schema_exec() -> (r: Json)
    ensures
        r@ == string_schema(),
{
    let mut m: Vec<(String, Json)> = Vec::new();
    let e = (owned("type"), Json::Str(owned("string")));
    proof {
        lemma_jv_members_push(m@, e);
    }
    m.push(e);
    assert(jv_members(m@) == seq![("type"@, JsonV::Str("string"@))]);
    Json::Object(m)
}

/// The note put on a parameter schema that has no description of its own.
pub open spec fn param_note(desc: Option<Seq<char>>, loc: Seq<char>) -> Seq<char> {
    match desc {
        Some(d) => d + " ("@ + loc + " parameter)"@,
        None => loc + " parameter"@,
    }
}

/// A parameter schema with a description that says where the parameter goes,
/// unless it is not an object or already has a description.
pub open spec fn annotated(schema: JsonV, desc: Option<Seq<char>>, loc: Seq<char>) -> JsonV {
    match schema {
        JsonV::Object(m) => if member_index(m, "description"@) >= 0 {
            schema
        } else {
            JsonV::Object(member_insert(m, "description"@, JsonV::Str(param_note(desc, loc))))
        },
        _ => schema,
    }
}

fn annotate(schema: Json, desc: Option<&str>, loc: &str) -> (r: Json)
    ensures
        r@ == annotated(
            schema@,
            match desc {
                Some(d) => Some(d@),
                None => None,
            },
            loc@,
        ),
{
    match schema {
        Json::Object(mut m) => {
            match member_position(&m, "description") {
                Some(_) => Json::Object(m),
                None => {
                    let mut note = String::new();
                    match desc {
                        Some(d) => {
                            push_str(&mut note, d);
                            push_str(&mut note, " (");
                            push_str(&mut note, loc);
                            push_str(&mut note, " parameter)");
                        },
                        None => {
                            push_str(&mut note, loc);
                            push_str(&mut note, " parameter");
                        },
                    }
                    assert(note@ =~= param_note(
                        match desc {
                            Some(d) => Some(d@),
                            None => None,
                        },
                        loc@,
                    ));
                    member_set(&mut m, owned("description"), Json::Str(note));
                    Json::Object(m)
                },
            }
        },
        other => other,
    }
}

/// What has been gathered so far of an operation's tool.
pub struct DraftV {
    /// The members of the input schema's `properties`.
    pub props: Seq<(Seq<char>, JsonV)>,
    /// The names listed under `required`.
    pub required: Seq<Seq<char>>,
    /// The component schemas the gathered property schemas refer to.
    pub seeds: Set<Seq<char>>,
    pub path_params: Seq<Seq<char>>,
    pub query_params: Seq<Seq<char>>,
}

/// The draft after one entry of the operation's `parameters`. Path and query
/// parameters become properties (path ones always required); other kinds are
/// not modelled, though the component schemas they refer to are kept.
pub open spec fn param_step(d: DraftV, p: JsonV) -> DraftV {
    match str_field(p, "name"@) {
        None => d,
        Some(name) => {
            let loc = match str_field(p, "in"@) {
                Some(l) => l,
                None => Seq::empty(),
            };
            let is_path = loc == "path"@;
            let req = is_path || bool_field_or_false(p, "required"@);
            let schema0 = match field(p, "schema"@) {
                Some(sc) => sc,
                None => string_schema(),
            };
            let seeds = d.seeds.union(refs(schema0));
            let schema = annotated(schema0, str_field(p, "description"@), loc);
            if is_path || loc == "query"@ {
                DraftV {
                    props: member_insert(d.props, name, schema),
                    required: if req {
                        d.required.push(name)
                    } else {
                        d.required
                    },
                    seeds: seeds,
                    path_params: if is_path {
                        d.path_params.push(name)
                    } else {
                        d.path_params
                    },
                    query_params: if is_path {
                        d.query_params
                    } else {
                        d.query_params.push(name)
                    },
                }
            } else {
                DraftV { seeds: seeds, ..d }
            }
        },
    }
}

pub open spec fn params_steps(d: DraftV, ps: Seq<JsonV>) -> DraftV
    decreases ps.len(),
{
    if ps.len() == 0 {
        d
    } else {
        param_step(params_steps(d, ps.drop_last()), ps.last())
    }
}

/// `{"type": "string", "description": "Path parameter"}`.
pub open spec fn path_param_schema() -> JsonV {
    JsonV::Object(
        seq![("type"@, JsonV::Str("string"@)), ("description"@, JsonV::Str("Path parameter"@))],
    )
}

/// The draft after making sure a path placeholder is a modelled parameter.
pub open spec fn placeholder_step(d: DraftV, ph: Seq<char>) -> DraftV {
    if d.path_params.contains(ph) {
        d
    } else {
        DraftV {
            props: member_insert(d.props, ph, path_param_schema()),
            required: d.required.push(ph),
            path_params: d.path_params.push(ph),
            ..d
        }
    }
}

pub open spec fn placeholder_steps(d: DraftV, phs: Seq<Seq<char>>) -> DraftV
    decreases phs.len(),
{
    if phs.len() == 0 {
        d
    } else {
        placeholder_step(placeholder_steps(d, phs.drop_last()), phs.last())
    }
}

/// The exec form of a draft.
struct Draft {
    props: Vec<(String, Json)>,
    required: Vec<String>,
    seeds: Vec<String>,
    path_params: Vec<String>,
    query_params: Vec<String>,
}

pub open spec fn views(v: Seq<String>) -> Seq<Seq<char>> {
    Seq::new(v.len(), |i: int| v[i]@)
}

impl Draft {
    spec fn view(&self) -> DraftV {
        DraftV {
            props: jv_members(self.props@),
            required: views(self.required@),
            seeds: names(self.seeds@),
            path_params: views(self.path_params@),
            query_params: views(self.query_params@),
        }
    }
}

fn push_string(v: &mut Vec<String>, s: String)
    ensures
        views(final(v)@) == views(old(v)@).push(s@),
{
    v.push(s);
    assert(views(v@) =~= views(old(v)@).push(s@));
}

fn contains_str(v: &Vec<String>, x: &str) -> (r: bool)
    ensures
        r == views(v@).contains(x@),
{
    let r = contains_name(v, x);
    proof {
        if r {
            let i = choose|i: int| 0 <= i < v@.len() && #[trigger] v@[i]@ == x@;
            assert(views(v@)[i] == x@);
        } else {
            if views(v@).contains(x@) {
                let i = choose|i: int| 0 <= i < views(v@).len() && views(v@)[i] == x@;
                assert(v@[i]@ == x@);
            }
        }
    }
    r
}

fn param_apply(d: &mut Draft, p: &Json)
    ensures
        final(d).view() == param_step(old(d).view(), p@),
{
    let name = match p.get("name") {
        Some(n) => match n.as_str() {
            Some(s) => s,
            None => return,
        },
        None => return,
    };
    let loc: &str = match p.get("in") {
        Some(l) => match l.as_str() {
            Some(s) => s,
            None => "",
        },
        None => "",
    };
    assert(loc@ == match str_field(p@, "in"@) {
        Some(l) => l,
        None => Seq::<char>::empty(),
    }) by {
        reveal_strlit("");
    }
    let is_path = str_eq(loc, "path");
    let req = is_path || match p.get("required") {
        Some(b) => match b {
            Json::Bool(x) => *x,
            _ => false,
        },
        None => false,
    };
    let schema0 = match p.get("schema") {
        Some(sc) => sc.deep_clone(),
        None => string_schema_exec(),
    };
    collect_refs(&schema0, &mut d.seeds);
    let desc: Option<&str> = match p.get("description") {
        Some(x) => x.as_str(),
        None => None,
    };
    let schema = annotate(schema0, desc, loc);
    let is_query = str_eq(loc, "query");
    if is_path || is_query {
        member_set(&mut d.props, owned(name), schema);
        if req {
            push_string(&mut d.required, owned(name));
        }
        if is_path {
            push_string(&mut d.path_params, owned(name));
        } else {
            push_string(&mut d.query_params, owned(name));
        }
    }
}

fn placeholder_apply(d: &mut Draft, ph: &String)
    ensures
        final(d).view() == placeholder_step(old(d).view(), ph@),
{
    if !contains_str(&d.path_params, ph.as_str()) {
        push_string(&mut d.path_params, ph.clone());
        let mut m: Vec<(String, Json)> = Vec::new();
        member_set(&mut m, owned("type"), Json::Str(owned("string")));
        let e = (owned("description"), Json::Str(owned("Path parameter")));
        proof {
            lemma_jv_members_push(m@, e);
            reveal_strlit("type");
            reveal_strlit("description");
        }
        m.push(e);
        assert(jv_members(m@) =~= seq![
            ("type"@, JsonV::Str("string"@)),
            ("description"@, JsonV::Str("Path parameter"@)),
        ]);
        member_set(&mut d.props, ph.clone(), Json::Object(m));
        push_string(&mut d.required, ph.clone());
    }
}


/// How an operation takes file uploads.
pub enum FileMode {
    /// No file uploads.
    NoFiles,
    /// Each named binary field is its own string property holding a local path.
    Named(Vec<String>),
    /// A `files` array of local paths, sent as `files[0]`, `files[1]`, ...
    Array,
}

pub enum FileModeV {
    NoFiles,
    Named(Seq<Seq<char>>),
    Array,
}

impl FileMode {
    pub open spec fn view(&self) -> FileModeV {
        match self {
            FileMode::NoFiles => FileModeV::NoFiles,
            FileMode::Named(v) => FileModeV::Named(views(v@)),
            FileMode::Array => FileModeV::Array,
        }
    }
}

/// The names of the binary (file) fields of a flattened property list, in order.
pub open spec fn binary_names(all: Seq<(Seq<char>, JsonV)>) -> Seq<Seq<char>>
    decreases all.len(),
{
    if all.len() == 0 {
        Seq::empty()
    } else {
        let r = binary_names(all.drop_last());
        if is_binary_field(all.last().1) {
            r.push(all.last().0)
        } else {
            r
        }
    }
}

/// The non-binary members of a flattened property list, in order.
pub open spec fn non_binary(all: Seq<(Seq<char>, JsonV)>) -> Seq<(Seq<char>, JsonV)>
    decreases all.len(),
{
    if all.len() == 0 {
        Seq::empty()
    } else {
        let r = non_binary(all.drop_last());
        if is_binary_field(all.last().1) {
            r
        } else {
            r.push(all.last())
        }
    }
}

/// `{"type": "object", "properties": props}`.
pub open spec fn object_schema(props: Seq<(Seq<char>, JsonV)>) -> JsonV {
    JsonV::Object(seq![("type"@, JsonV::Str("object"@)), ("properties"@, JsonV::Object(props))])
}

/// The property schema of a single named file upload.
pub open spec fn file_path_schema(f: Seq<char>) -> JsonV {
    JsonV::Object(
        seq![
            ("type"@, JsonV::Str("string"@)),
            (
                "description"@,
                JsonV::Str("Local filesystem path to upload as the `"@ + f + "` file part"@),
            ),
        ],
    )
}

/// The property schema of the `files` array.
pub open spec fn files_schema() -> JsonV {
    JsonV::Object(
        seq![
            ("type"@, JsonV::Str("array"@)),
            ("items"@, JsonV::Object(seq![("type"@, JsonV::Str("string"@))])),
            (
                "description"@,
                JsonV::Str(
                    "Local filesystem paths to attach as file uploads (sent as files[0], files[1], ...)"@,
                ),
            ),
        ],
    )
}

/// The draft and file mode after the operation's request body: the JSON body
/// becomes `body`; a multipart body's non-file fields become `body` when there
/// is no JSON body, and its file fields become either one named path property
/// (a single field whose name has no `[`) or a `files` array.
pub open spec fn body_step(
    d: DraftV,
    op: JsonV,
    schemas: Seq<(Seq<char>, JsonV)>,
) -> (DraftV, FileModeV) {
    match field(op, "requestBody"@) {
        None => (d, FileModeV::NoFiles),
        Some(rb) => {
            let body_required = bool_field_or_false(rb, "required"@);
            let content = field(rb, "content"@);
            let js = opt_field(opt_field(content, "application/json"@), "schema"@);
            let ms = opt_field(opt_field(content, "multipart/form-data"@), "schema"@);
            let d1 = match js {
                Some(j) => DraftV {
                    props: member_insert(d.props, "body"@, j),
                    required: if body_required {
                        d.required.push("body"@)
                    } else {
                        d.required
                    },
                    seeds: d.seeds.union(refs(j)),
                    ..d
                },
                None => d,
            };
            let has1 = js is Some;
            match ms {
                None => (d1, FileModeV::NoFiles),
                Some(msc) => {
                    let all = flat_props(msc, schemas);
                    let bin = binary_names(all);
                    let nb = non_binary(all);
                    let use_nb = !has1 && nb.len() > 0;
                    let d2 = if use_nb {
                        DraftV {
                            props: member_insert(d1.props, "body"@, object_schema(nb)),
                            required: if body_required {
                                d1.required.push("body"@)
                            } else {
                                d1.required
                            },
                            seeds: d1.seeds.union(refs(object_schema(nb))),
                            ..d1
                        }
                    } else {
                        d1
                    };
                    let has2 = has1 || use_nb;
                    if bin.len() == 1 && first_index(bin[0], '[') < 0 {
                        (
                            DraftV {
                                props: member_insert(d2.props, bin[0], file_path_schema(bin[0])),
                                required: if body_required && !has2 {
                                    d2.required.push(bin[0])
                                } else {
                                    d2.required
                                },
                                ..d2
                            },
                            FileModeV::Named(seq![bin[0]]),
                        )
                    } else if bin.len() > 0 {
                        (
                            DraftV { props: member_insert(d2.props, "files"@, files_schema()), ..d2 },
                            FileModeV::Array,
                        )
                    } else {
                        (d2, FileModeV::NoFiles)
                    }
                },
            }
        },
    }
}

fn push_member(m: &mut Vec<(String, Json)>, k: &str, v: Json)
    ensures
        jv_members(final(m)@) == jv_members(old(m)@).push((k@, v@)),
{
    let e = (owned(k), v);
    proof {
        lemma_jv_members_push(m@, e);
    }
    m.push(e);
}

fn has_char(s: &String, c: char) -> (r: bool)
    ensures
        r == (first_index(s@, c) >= 0),
{
    let cs = chars_of(s.as_str());
    proof {
        lemma_first_index(s@, c);
    }
    let mut i: usize = 0;
    while i < cs.len()
        invariant
            i <= cs@.len(),
            cs@ == s@,
            forall|j: int| 0 <= j < i ==> cs@[j] != c,
        decreases cs.len() - i,
    {
        if cs[i] == c {
            proof {
                lemma_first_index(s@, c);
            }
            return true;
        }
        i = i + 1;
    }
    false
}

/// Splits flattened multipart properties into file field names and the rest.
fn split_binary(all: &Vec<(String, Json)>) -> (r: (Vec<String>, Vec<(String, Json)>))
    ensures
        views(r.0@) == binary_names(jv_members(all@)),
        jv_members(r.1@) == non_binary(jv_members(all@)),
{
    let ghost av = jv_members(all@);
    proof {
        lemma_jv_members(all@);
    }
    let mut bin: Vec<String> = Vec::new();
    let mut nb: Vec<(String, Json)> = Vec::new();
    let mut i: usize = 0;
    while i < all.len()
        invariant
            i <= all.len(),
            av == jv_members(all@),
            av.len() == all@.len(),
            forall|j: int| 0 <= j < all@.len() ==> #[trigger] av[j] == (all@[j].0@, jv(all@[j].1)),
            views(bin@) == binary_names(av.take(i as int)),
            jv_members(nb@) == non_binary(av.take(i as int)),
        decreases all.len() - i,
    {
        assert(av.take(i + 1).drop_last() == av.take(i as int));
        if is_binary(&all[i].1) {
            push_string(&mut bin, all[i].0.clone());
        } else {
            let e = (all[i].0.clone(), all[i].1.deep_clone());
            proof {
                lemma_jv_members_push(nb@, e);
            }
            nb.push(e);
        }
        i = i + 1;
    }
    assert(av.take(all.len() as int) == av);
    (bin, nb)
}

fn object_schema_exec(props: Vec<(String, Json)>) -> (r: Json)
    ensures
        r@ == object_schema(jv_members(props@)),
{
    let mut m: Vec<(String, Json)> = Vec::new();
    push_member(&mut m, "type", Json::Str(owned("object")));
    push_member(&mut m, "properties", Json::Object(props));
    assert(jv_members(m@) =~= seq![
        ("type"@, JsonV::Str("object"@)),
        ("properties"@, JsonV::Object(jv_members(props@))),
    ]);
    Json::Object(m)
}

fn file_path_schema_exec(f: &String) -> (r: Json)
    ensures
        r@ == file_path_schema(f@),
{
    let mut desc = owned("Local filesystem path to upload as the `");
    push_str(&mut desc, f.as_str());
    push_str(&mut desc, "` file part");
    let mut m: Vec<(String, Json)> = Vec::new();
    push_member(&mut m, "type", Json::Str(owned("string")));
    push_member(&mut m, "description", Json::Str(desc));
    assert(jv_members(m@) =~= seq![
        ("type"@, JsonV::Str("string"@)),
        ("description"@, JsonV::Str("Local filesystem path to upload as the `"@ + f@ + "` file part"@)),
    ]);
    Json::Object(m)
}

fn files_schema_exec() -> (r: Json)
    ensures
        r@ == files_schema(),
{
    let mut items: Vec<(String, Json)> = Vec::new();
    push_member(&mut items, "type", Json::Str(owned("string")));
    assert(jv_members(items@) =~= seq![("type"@, JsonV::Str("string"@))]);
    let mut m: Vec<(String, Json)> = Vec::new();
    push_member(&mut m, "type", Json::Str(owned("array")));
    push_member(&mut m, "items", Json::Object(items));
    push_member(
        &mut m,
        "description",
        Json::Str(
            owned(
                "Local filesystem paths to attach as file uploads (sent as files[0], files[1], ...)",
            ),
        ),
    );
    assert(jv_members(m@) =~= seq![
        ("type"@, JsonV::Str("array"@)),
        ("items"@, JsonV::Object(seq![("type"@, JsonV::Str("string"@))])),
        (
            "description"@,
            JsonV::Str(
                "Local filesystem paths to attach as file uploads (sent as files[0], files[1], ...)"@,
            ),
        ),
    ]);
    Json::Object(m)
}

fn opt_get<'a>(j: Option<&'a Json>, k: &str) -> (r: Option<&'a Json>)
    ensures
        match r {
            Some(x) => opt_field(
                match j {
                    Some(y) => Some(y@),
                    None => None,
                },
                k@,
            ) == Some(x@),
            None => opt_field(
                match j {
                    Some(y) => Some(y@),
                    None => None,
                },
                k@,
            ) is None,
        },
{
    match j {
        Some(y) => y.get(k),
        None => None,
    }
}

fn body_apply(d: &mut Draft, op: &Json, schemas: &Vec<(String, Json)>) -> (fm: FileMode)
    ensures
        (final(d).view(), fm.view()) == body_step(old(d).view(), op@, jv_members(schemas@)),
{
    let rb = match op.get("requestBody") {
        Some(rb) => rb,
        None => return FileMode::NoFiles,
    };
    let body_required = match rb.get("required") {
        Some(Json::Bool(b)) => *b,
        _ => false,
    };
    let content = rb.get("content");
    let js = opt_get(opt_get(content, "application/json"), "schema");
    let ms = opt_get(opt_get(content, "multipart/form-data"), "schema");
    let mut has_json_body = false;
    if let Some(j) = js {
        collect_refs(j, &mut d.seeds);
        member_set(&mut d.props, owned("body"), j.deep_clone());
        has_json_body = true;
        if body_required {
            push_string(&mut d.required, owned("body"));
        }
    }
    let msc = match ms {
        Some(x) => x,
        None => return FileMode::NoFiles,
    };
    let mut all: Vec<(String, Json)> = Vec::new();
    let mut seen: Vec<String> = Vec::new();
    proof {
        lemma_unseen_bound(jv_members(schemas@), names(seen@));
        assert(names(seen@) =~= Set::empty());
        assert(jv_members(all@) =~= Seq::empty());
    }
    flatten_props(msc, schemas, &mut all, &mut seen, Ghost(jv_members(schemas@).len()));
    let (bin, nb) = split_binary(&all);
    if !has_json_body && nb.len() > 0 {
        let body_schema = object_schema_exec(nb);
        collect_refs(&body_schema, &mut d.seeds);
        member_set(&mut d.props, owned("body"), body_schema);
        has_json_body = true;
        if body_required {
            push_string(&mut d.required, owned("body"));
        }
    }
    if bin.len() == 1 && !has_char(&bin[0], '[') {
        let fname = bin[0].clone();
        member_set(&mut d.props, fname.clone(), file_path_schema_exec(&fname));
        if body_required && !has_json_body {
            push_string(&mut d.required, fname.clone());
        }
        let mut named: Vec<String> = Vec::new();
        push_string(&mut named, fname);
        assert(views(named@) =~= seq![views(bin@)[0]]);
        FileMode::Named(named)
    } else if bin.len() > 0 {
        member_set(&mut d.props, owned("files"), files_schema_exec());
        FileMode::Array
    } else {
        FileMode::NoFiles
    }
}


/// The upper-case form of an ASCII lower-case letter; other characters stay.
pub open spec fn ascii_upper_char(c: char) -> char {
    if 'a' <= c && c <= 'z' {
        ((c as u8) - 32) as u8 as char
    } else {
        c
    }
}

pub open spec fn ascii_upper(s: Seq<char>) -> Seq<char> {
    Seq::new(s.len(), |i: int| ascii_upper_char(s[i]))
}

pub fn ascii_upper_exec(s: &str) -> (r: String)
    ensures
        r@ == ascii_upper(s@),
{
    let cs = chars_of(s);
    let mut r = String::new();
    let mut i: usize = 0;
    while i < cs.len()
        invariant
            i <= cs@.len(),
            cs@ == s@,
            r@ == ascii_upper(s@).take(i as int),
        decreases cs.len() - i,
    {
        let c = cs[i];
        let u = if 'a' <= c && c <= 'z' {
            let b: u8 = (c as u8) - 32;
            b as char
        } else {
            c
        };
        crate::text::push_char(&mut r, u);
        i = i + 1;
        assert(r@ =~= ascii_upper(s@).take(i as int));
    }
    assert(ascii_upper(s@).take(cs@.len() as int) =~= ascii_upper(s@));
    r
}

/// `METHOD /path`.
pub open spec fn route(method: Seq<char>, path: Seq<char>) -> Seq<char> {
    ascii_upper(method) + " "@ + path
}

pub open spec fn nonempty_text(j: Option<JsonV>) -> Option<Seq<char>> {
    match j {
        Some(JsonV::Str(t)) => if t.len() > 0 {
            Some(t)
        } else {
            None
        },
        _ => None,
    }
}

/// The operation's summary, else its description, when not empty.
pub open spec fn summary_text(op: JsonV) -> Option<Seq<char>> {
    match nonempty_text(field(op, "summary"@)) {
        Some(t) => Some(t),
        None => nonempty_text(field(op, "description"@)),
    }
}

/// A tool's description: `summary [METHOD /path]`, or just the route when
/// the operation has neither summary nor description.
pub open spec fn tool_description(op: JsonV, method: Seq<char>, path: Seq<char>) -> Seq<char> {
    match summary_text(op) {
        Some(t) => t + " ["@ + route(method, path) + "]"@,
        None => route(method, path),
    }
}

fn nonempty_text_exec(j: Option<&Json>) -> (r: Option<&str>)
    ensures
        match r {
            Some(t) => nonempty_text(
                match j {
                    Some(x) => Some(x@),
                    None => None,
                },
            ) == Some(t@),
            None => nonempty_text(
                match j {
                    Some(x) => Some(x@),
                    None => None,
                },
            ) is None,
        },
{
    match j {
        Some(Json::Str(t)) => {
            if t.as_str().unicode_len() > 0 {
                Some(t.as_str())
            } else {
                None
            }
        },
        _ => None,
    }
}

fn build_description(op: &Json, method: &str, path: &str) -> (r: String)
    ensures
        r@ == tool_description(op@, method@, path@),
{
    let mut route = ascii_upper_exec(method);
    push_str(&mut route, " ");
    push_str(&mut route, path);
    let text = match nonempty_text_exec(op.get("summary")) {
        Some(t) => Some(t),
        None => nonempty_text_exec(op.get("description")),
    };
    match text {
        Some(t) => {
            let mut r = owned(t);
            push_str(&mut r, " [");
            push_str(&mut r, route.as_str());
            push_str(&mut r, "]");
            assert(r@ =~= tool_description(op@, method@, path@));
            r
        },
        None => route,
    }
}

/// Every key of a member list comes before the next, as Rust orders strings.
pub open spec fn keys_ascending(m: Seq<(Seq<char>, JsonV)>) -> bool {
    forall|i: int, j: int| 0 <= i < j < m.len() ==> text_lt(#[trigger] m[i].0, #[trigger] m[j].0)
}

/// `defs` inlines, under their own names and in ascending order of name,
/// exactly the component schemas in `closure` that the spec defines.
pub open spec fn defs_match(
    defs: Seq<(Seq<char>, JsonV)>,
    closure: Set<Seq<char>>,
    schemas: Seq<(Seq<char>, JsonV)>,
) -> bool {
    &&& keys_distinct(defs)
    &&& keys_ascending(defs)
    &&& member_keys(defs) == closure.filter(|n: Seq<char>| def_of(schemas, n) is Some)
    &&& forall|n: Seq<char>|
        #[trigger] member_keys(defs).contains(n) ==> member_get(defs, n) == def_of(schemas, n)
}

fn build_defs(closure: &Vec<String>, schemas: &Vec<(String, Json)>) -> (defs: Vec<(String, Json)>)
    ensures
        defs_match(jv_members(defs@), names(closure@), jv_members(schemas@)),
{
    let ghost sv = jv_members(schemas@);
    let order = sorted_names(closure);
    let mut defs: Vec<(String, Json)> = Vec::new();
    assert(member_keys(jv_members(defs@)) =~= Set::empty());
    assert(names(order@.take(0)) =~= Set::empty());
    assert(names(order@.take(0)).filter(|n: Seq<char>| def_of(sv, n) is Some) =~= Set::empty());
    let mut i: usize = 0;
    while i < order.len()
        invariant
            i <= order.len(),
            sv == jv_members(schemas@),
            names_ascending(order@),
            defs_match(jv_members(defs@), names(order@.take(i as int)), sv),
        decreases order.len() - i,
    {
        let ghost before = jv_members(defs@);
        proof {
            assert(order@.take(i + 1) == order@.take(i as int).push(order@[i as int]));
            lemma_names_push(order@.take(i as int), order@[i as int]);
        }
        match member_lookup(schemas, order[i].as_str()) {
            Some(def) => {
                let name = order[i].clone();
                let ghost nv = name@;
                proof {
                    lemma_jv_members(defs@);
                    lemma_member_index(before, nv);
                    if member_index(before, nv) >= 0 {
                        let k = member_index(before, nv);
                        assert(member_keys(before).contains(nv));
                        let j = choose|j: int| 0 <= j < i && #[trigger] order@.take(i as int)[j]@ == nv;
                        assert(order@[j]@ == nv);
                        crate::text::lemma_text_lt_total(nv, nv);
                    }
                    assert(member_insert(before, nv, def@) == before.push((nv, def@)));
                }
                member_set(&mut defs, name, def.deep_clone());
                proof {
                    lemma_member_insert(before, nv, def@);
                    let after = jv_members(defs@);
                    assert(member_keys(after) =~= names(order@.take(i + 1)).filter(
                        |n: Seq<char>| def_of(sv, n) is Some,
                    ));
                    assert forall|n: Seq<char>| #[trigger]
                        member_keys(after).contains(n) implies member_get(after, n) == def_of(
                        sv,
                        n,
                    ) by {
                        if n != nv {
                            assert(member_keys(before).contains(n));
                        }
                    }
                    assert forall|a: int, b: int| 0 <= a < b < after.len() implies text_lt(
                        #[trigger] after[a].0,
                        #[trigger] after[b].0,
                    ) by {
                        if b == before.len() {
                            assert(after[a] == before[a]);
                            assert(member_keys(before).contains(before[a].0));
                            let j = choose|j: int|
                                0 <= j < i && #[trigger] order@.take(i as int)[j]@ == before[a].0;
                            assert(order@[j]@ == before[a].0);
                        } else {
                            assert(after[a] == before[a] && after[b] == before[b]);
                        }
                    }
                }
            },
            None => {
                proof {
                    assert(member_keys(before) =~= names(order@.take(i + 1)).filter(
                        |n: Seq<char>| def_of(sv, n) is Some,
                    ));
                }
            },
        }
        i = i + 1;
    }
    assert(order@.take(order@.len() as int) == order@);
    defs
}

/// The `required` array.
pub open spec fn required_array(rs: Seq<Seq<char>>) -> Seq<JsonV> {
    Seq::new(rs.len(), |i: int| JsonV::Str(rs[i]))
}

/// The members of an input schema before its refs are rebased: `type`,
/// `properties`, then `required` and `$defs` when not empty.
pub open spec fn input_members(d: DraftV, defs: Seq<(Seq<char>, JsonV)>) -> Seq<
    (Seq<char>, JsonV),
> {
    let base = seq![("type"@, JsonV::Str("object"@)), ("properties"@, JsonV::Object(d.props))];
    let with_req = if d.required.len() > 0 {
        base.push(("required"@, JsonV::Array(required_array(d.required))))
    } else {
        base
    };
    if defs.len() > 0 {
        with_req.push(("$defs"@, JsonV::Object(defs)))
    } else {
        with_req
    }
}

/// The operation's `parameters`, when it lists them.
pub open spec fn params_of(op: JsonV) -> Seq<JsonV> {
    match field(op, "parameters"@) {
        Some(JsonV::Array(ps)) => ps,
        _ => Seq::empty(),
    }
}

pub open spec fn empty_draft() -> DraftV {
    DraftV {
        props: Seq::empty(),
        required: Seq::empty(),
        seeds: Set::empty(),
        path_params: Seq::empty(),
        query_params: Seq::empty(),
    }
}

/// The draft of an operation's tool once parameters, path placeholders and
/// the request body have been gathered.
pub open spec fn op_draft(
    op: JsonV,
    path: Seq<char>,
    schemas: Seq<(Seq<char>, JsonV)>,
) -> (DraftV, FileModeV) {
    let d1 = params_steps(empty_draft(), params_of(op));
    let d2 = placeholder_steps(d1, placeholders(path));
    body_step(d2, op, schemas)
}

/// A tool definition: name, description and input schema (an object's members).
pub struct ToolDef {
    pub name: String,
    pub description: String,
    pub input_schema: Vec<(String, Json)>,
}

/// A fully-resolved operation ready to dispatch.
pub struct Operation {
    pub operation_id: String,
    /// Uppercase HTTP method, e.g. `POST`.
    pub method: String,
    /// Path template with `{placeholders}`, relative to the base URL.
    pub path_template: String,
    pub path_params: Vec<String>,
    /// Names of query parameters this operation accepts.
    pub query_params: Vec<String>,
    pub file_mode: FileMode,
    /// The tool definition (name + description + input schema).
    pub tool: ToolDef,
}

/// `r` is the operation built from the spec operation object `op`, found
/// under `method` of `path` and named `operation_id`.
pub open spec fn built_operation(
    r: Operation,
    operation_id: Seq<char>,
    method: Seq<char>,
    path: Seq<char>,
    op: JsonV,
    schemas: Seq<(Seq<char>, JsonV)>,
) -> bool {
    let (d, fm) = op_draft(op, path, schemas);
    &&& r.operation_id@ == operation_id
    &&& r.method@ == ascii_upper(method)
    &&& r.path_template@ == path
    &&& views(r.path_params@) == d.path_params
    &&& views(r.query_params@) == d.query_params
    &&& r.file_mode.view() == fm
    &&& r.tool.name@ == operation_id
    &&& r.tool.description@ == tool_description(op, method, path)
    &&& exists|defs: Seq<(Seq<char>, JsonV)>|
        #![trigger input_members(d, defs)]
        defs_match(defs, ref_closure_set(schemas, d.seeds), schemas) && JsonV::Object(
            jv_members(r.tool.input_schema@),
        ) == rebased(JsonV::Object(input_members(d, defs)))
}

fn required_json(rs: &Vec<String>) -> (r: Vec<Json>)
    ensures
        jv_seq(r@) == required_array(views(rs@)),
{
    let mut r: Vec<Json> = Vec::new();
    let mut i: usize = 0;
    while i < rs.len()
        invariant
            i <= rs.len(),
            jv_seq(r@) == required_array(views(rs@)).take(i as int),
        decreases rs.len() - i,
    {
        let e = Json::Str(rs[i].clone());
        proof {
            lemma_jv_seq_push(r@, e);
        }
        r.push(e);
        i = i + 1;
        assert(jv_seq(r@) =~= required_array(views(rs@)).take(i as int));
    }
    assert(required_array(views(rs@)).take(rs.len() as int) =~= required_array(views(rs@)));
    r
}

/// Builds one operation (including its tool) from a spec operation object.
fn build_operation(
    operation_id: &str,
    method: &str,
    path: &str,
    op: &Json,
    schemas: &Vec<(String, Json)>,
) -> (r: Operation)
    ensures
        built_operation(r, operation_id@, method@, path@, op@, jv_members(schemas@)),
{
    let ghost sv = jv_members(schemas@);
    let mut d = Draft {
        props: Vec::new(),
        required: Vec::new(),
        seeds: Vec::new(),
        path_params: Vec::new(),
        query_params: Vec::new(),
    };
    proof {
        assert(d.view() =~= empty_draft()) by {
            assert(names(d.seeds@) =~= Set::empty());
            assert(views(d.required@) =~= Seq::empty());
            assert(views(d.path_params@) =~= Seq::empty());
            assert(views(d.query_params@) =~= Seq::empty());
            assert(jv_members(d.props@) =~= Seq::empty());
        }
    }
    // Parameters (path + query).
    match op.get("parameters") {
        Some(Json::Array(ps)) => {
            let ghost pv = jv_seq(ps@);
            proof {
                lemma_jv_seq(ps@);
            }
            let mut i: usize = 0;
            while i < ps.len()
                invariant
                    i <= ps.len(),
                    pv == jv_seq(ps@),
                    pv.len() == ps@.len(),
                    forall|j: int| 0 <= j < ps@.len() ==> #[trigger] pv[j] == jv(ps@[j]),
                    d.view() == params_steps(empty_draft(), pv.take(i as int)),
                decreases ps.len() - i,
            {
                param_apply(&mut d, &ps[i]);
                assert(pv.take(i + 1).drop_last() == pv.take(i as int));
                i = i + 1;
            }
            assert(pv.take(ps.len() as int) == pv);
        },
        _ => {},
    }
    let ghost d1 = d.view();
    assert(d1 == params_steps(empty_draft(), params_of(op@)));
    // Every `{placeholder}` in the path is a modelled parameter.
    let phs = path_placeholders(path);
    let ghost phv = placeholders(path@);
    let mut k: usize = 0;
    while k < phs.len()
        invariant
            k <= phs.len(),
            phs@.len() == phv.len(),
            forall|i: int| 0 <= i < phs@.len() ==> #[trigger] phs@[i]@ == phv[i],
            d.view() == placeholder_steps(d1, phv.take(k as int)),
        decreases phs.len() - k,
    {
        placeholder_apply(&mut d, &phs[k]);
        assert(phv.take(k + 1).drop_last() == phv.take(k as int));
        k = k + 1;
    }
    assert(phv.take(phs.len() as int) == phv);
    // Request body and file uploads.
    let file_mode = body_apply(&mut d, op, schemas);
    let ghost dv = d.view();
    // Self-contained input schema with the needed component schemas inlined.
    let closure = ref_closure(&d.seeds, schemas);
    let defs = build_defs(&closure, schemas);
    let mut input: Vec<(String, Json)> = Vec::new();
    push_member(&mut input, "type", Json::Str(owned("object")));
    push_member(&mut input, "properties", Json::Object(d.props));
    if d.required.len() > 0 {
        let req = required_json(&d.required);
        push_member(&mut input, "required", Json::Array(req));
    }
    let ghost defs_v = jv_members(defs@);
    if defs.len() > 0 {
        proof {
            lemma_jv_members(defs@);
        }
        push_member(&mut input, "$defs", Json::Object(defs));
    }
    proof {
        lemma_jv_members(defs@);
        assert(jv_members(input@) =~= input_members(dv, defs_v));
    }
    let rewritten = rewrite_refs(&Json::Object(input));
    let input_schema = match rewritten {
        Json::Object(m) => m,
        _ => {
            proof {
                assert(false);
            }
            Vec::new()
        },
    };
    let description = build_description(op, method, path);
    let r = Operation {
        operation_id: owned(operation_id),
        method: ascii_upper_exec(method),
        path_template: owned(path),
        path_params: d.path_params,
        query_params: d.query_params,
        file_mode,
        tool: ToolDef { name: owned(operation_id), description, input_schema },
    };
    assert(defs_match(defs_v, ref_closure_set(sv, dv.seeds), sv));
    assert(JsonV::Object(jv_members(r.tool.input_schema@)) == rebased(
        JsonV::Object(input_members(dv, defs_v)),
    ));
    r
}


/// Where an operation comes from: its `operationId`, HTTP method (lower
/// case, as the spec keys it), path template, and operation object.
pub type OpSource = (Seq<char>, Seq<char>, Seq<char>, JsonV);

/// The operation under `method` of a path item, when it is an object with a
/// string `operationId` (one without is skipped).
pub open spec fn method_source(path: Seq<char>, item: JsonV, method: Seq<char>) -> Seq<OpSource> {
    match field(item, method) {
        Some(JsonV::Object(o)) => match str_field(JsonV::Object(o), "operationId"@) {
            Some(id) => seq![(id, method, path, JsonV::Object(o))],
            None => Seq::empty(),
        },
        _ => Seq::empty(),
    }
}

/// The operations of one path item, in the order get, post, put, patch, delete.
pub open spec fn item_sources(path: Seq<char>, item: JsonV) -> Seq<OpSource> {
    match item {
        JsonV::Object(_) => method_source(path, item, "get"@) + method_source(path, item, "post"@)
            + method_source(path, item, "put"@) + method_source(path, item, "patch"@)
            + method_source(path, item, "delete"@),
        _ => Seq::empty(),
    }
}

/// The operations of all paths, in the order the spec lists the paths.
pub open spec fn op_sources(paths: Seq<(Seq<char>, JsonV)>) -> Seq<OpSource>
    decreases paths.len(),
{
    if paths.len() == 0 {
        Seq::empty()
    } else {
        op_sources(paths.drop_last()) + item_sources(paths.last().0, paths.last().1)
    }
}

/// `s` without trailing `c`s (Rust's `trim_end_matches(c)`).
pub open spec fn trim_trailing(s: Seq<char>, c: char) -> Seq<char>
    decreases s.len(),
{
    if s.len() > 0 && s.last() == c {
        trim_trailing(s.drop_last(), c)
    } else {
        s
    }
}

/// The base URL used when the spec names no server.
pub open spec fn default_base_url() -> Seq<char> {
    "https://discord.com/api/v10"@
}

/// The spec's first server URL, else the default, without trailing slashes.
pub open spec fn base_url_of(doc: JsonV) -> Seq<char> {
    let url = match field(doc, "servers"@) {
        Some(JsonV::Array(a)) => if a.len() > 0 {
            str_field(a[0], "url"@)
        } else {
            None
        },
        _ => None,
    };
    trim_trailing(
        match url {
            Some(u) => u,
            None => default_base_url(),
        },
        '/',
    )
}

/// The spec's component schemas (`components.schemas`), empty when absent.
pub open spec fn schemas_of(doc: JsonV) -> Seq<(Seq<char>, JsonV)> {
    match opt_field(field(doc, "components"@), "schemas"@) {
        Some(JsonV::Object(m)) => m,
        _ => Seq::empty(),
    }
}

/// Why a spec could not be read.
pub enum SpecError {
    /// The spec has no `paths` object.
    NoPaths,
    /// The spec text is not JSON; serde_json's message.
    InvalidJson(String),
}

/// Whether `r` is what reading the spec document `doc` gives: the registry
/// of its operations, with its base URL, where it has a `paths` object.
pub open spec fn read_from_doc(doc: JsonV, r: Result<Registry, SpecError>) -> bool {
    match field(doc, "paths"@) {
        Some(JsonV::Object(paths)) => r matches Ok(reg) && reg.base_url@ == base_url_of(doc)
            && ops_built(reg.operations@, op_sources(paths), schemas_of(doc)),
        _ => r matches Err(SpecError::NoPaths),
    }
}

/// The registry of all operations parsed from a spec.
pub struct Registry {
    pub operations: Vec<Operation>,
    pub base_url: String,
}

/// `ops` are the operations built, one for one and in order, from `sources`.
pub open spec fn ops_built(
    ops: Seq<Operation>,
    sources: Seq<OpSource>,
    schemas: Seq<(Seq<char>, JsonV)>,
) -> bool {
    &&& ops.len() == sources.len()
    &&& forall|i: int|
        0 <= i < ops.len() ==> #[trigger] built_operation(
            ops[i],
            sources[i].0,
            sources[i].1,
            sources[i].2,
            sources[i].3,
            schemas,
        )
}

fn trim_trailing_exec(s: &str, c: char) -> (r: String)
    ensures
        r@ == trim_trailing(s@, c),
{
    let cs = chars_of(s);
    let mut n = cs.len();
    assert(cs@.take(n as int) == s@);
    while n > 0 && cs[n - 1] == c
        invariant
            n <= cs@.len(),
            cs@ == s@,
            trim_trailing(cs@.take(n as int), c) == trim_trailing(s@, c),
        decreases n,
    {
        assert(cs@.take(n as int).drop_last() == cs@.take(n - 1));
        n = n - 1;
    }
    assert(cs@.take(0) == Seq::<char>::empty());
    let r = string_of_range(&cs, 0, n);
    assert(cs@.subrange(0, n as int) == cs@.take(n as int));
    r
}

fn method_apply(
    ops: &mut Vec<Operation>,
    path: &String,
    item: &Json,
    method: &str,
    schemas: &Vec<(String, Json)>,
    Ghost(srcs): Ghost<Seq<OpSource>>,
)
    requires
        ops_built(old(ops)@, srcs, jv_members(schemas@)),
    ensures
        ops_built(final(ops)@, srcs + method_source(path@, item@, method@), jv_members(schemas@)),
{
    match item.get(method) {
        Some(op) => {
            match op {
                Json::Object(_) => {
                    match op.get("operationId") {
                        Some(idv) => match idv.as_str() {
                            Some(id) => {
                                let o = build_operation(id, method, path.as_str(), op, schemas);
                                let ghost before = ops@;
                                ops.push(o);
                                proof {
                                    let all = srcs + method_source(path@, item@, method@);
                                    assert forall|i: int| 0 <= i < ops@.len() implies #[trigger] built_operation(
                                        ops@[i],
                                        all[i].0,
                                        all[i].1,
                                        all[i].2,
                                        all[i].3,
                                        jv_members(schemas@),
                                    ) by {
                                        if i < before.len() {
                                            assert(ops@[i] == before[i]);
                                        }
                                    }
                                }
                            },
                            None => {
                                assert(srcs + method_source(path@, item@, method@) =~= srcs);
                            },
                        },
                        None => {
                            assert(srcs + method_source(path@, item@, method@) =~= srcs);
                        },
                    }
                },
                _ => {
                    assert(srcs + method_source(path@, item@, method@) =~= srcs);
                },
            }
        },
        None => {
            assert(srcs + method_source(path@, item@, method@) =~= srcs);
        },
    }
}

impl Registry {
    /// Reads a spec (JSON text) into a registry: text that is not JSON is
    /// refused with serde_json's message.
    pub fn from_spec_str(spec: &str) -> (r: Result<Registry, SpecError>)
        ensures
            match json_of_text(spec@) {
                Err(e) => r matches Err(SpecError::InvalidJson(m)) && m@ == e,
                Ok(doc) => read_from_doc(doc, r),
            },
    {
        match parse_json(spec) {
            Ok(doc) => Registry::from_spec(&doc),
            Err(e) => Err(SpecError::InvalidJson(e)),
        }
    }

    /// Reads a spec document (already parsed from JSON) into a registry.
    #[verifier::spinoff_prover]
    #[verifier::rlimit(40)]
    pub fn from_spec(doc: &Json) -> (r: Result<Registry, SpecError>)
        ensures
            read_from_doc(doc@, r),
    {
        let base_url = {
            let url: Option<&str> = match doc.get("servers") {
                Some(Json::Array(a)) => {
                    proof {
                        lemma_jv_seq(a@);
                    }
                    if a.len() > 0 {
                        match a[0].get("url") {
                            Some(u) => u.as_str(),
                            None => None,
                        }
                    } else {
                        None
                    }
                },
                _ => None,
            };
            match url {
                Some(u) => trim_trailing_exec(u, '/'),
                None => trim_trailing_exec("https://discord.com/api/v10", '/'),
            }
        };
        let empty: Vec<(String, Json)> = Vec::new();
        let schemas: &Vec<(String, Json)> = match doc.get("components") {
            Some(c) => match c.get("schemas") {
                Some(Json::Object(m)) => m,
                _ => &empty,
            },
            None => &empty,
        };
        assert(jv_members(schemas@) == schemas_of(doc@)) by {
            assert(jv_members(empty@) =~= Seq::empty());
        }
        let paths = match doc.get("paths") {
            Some(Json::Object(p)) => p,
            _ => return Err(SpecError::NoPaths),
        };
        let ghost pv = jv_members(paths@);
        let ghost sv = jv_members(schemas@);
        proof {
            lemma_jv_members(paths@);
        }
        let mut operations: Vec<Operation> = Vec::new();
        let mut i: usize = 0;
        while i < paths.len()
            invariant
                i <= paths.len(),
                pv == jv_members(paths@),
                pv.len() == paths@.len(),
                sv == jv_members(schemas@),
                forall|j: int|
                    0 <= j < paths@.len() ==> #[trigger] pv[j] == (paths@[j].0@, jv(paths@[j].1)),
                ops_built(operations@, op_sources(pv.take(i as int)), sv),
            decreases paths.len() - i,
        {
            let path = &paths[i].0;
            let item = &paths[i].1;
            let ghost src0 = op_sources(pv.take(i as int));
            match item {
                Json::Object(_) => {
                    let ghost s1 = src0 + method_source(path@, item@, "get"@);
                    let ghost s2 = s1 + method_source(path@, item@, "post"@);
                    let ghost s3 = s2 + method_source(path@, item@, "put"@);
                    let ghost s4 = s3 + method_source(path@, item@, "patch"@);
                    method_apply(&mut operations, path, item, "get", schemas, Ghost(src0));
                    method_apply(&mut operations, path, item, "post", schemas, Ghost(s1));
                    method_apply(&mut operations, path, item, "put", schemas, Ghost(s2));
                    method_apply(&mut operations, path, item, "patch", schemas, Ghost(s3));
                    method_apply(&mut operations, path, item, "delete", schemas, Ghost(s4));
                    assert(s4 + method_source(path@, item@, "delete"@) =~= src0 + item_sources(
                        path@,
                        item@,
                    ));
                },
                _ => {
                    assert(src0 + item_sources(path@, item@) =~= src0);
                },
            }
            assert(pv.take(i + 1).drop_last() == pv.take(i as int));
            i = i + 1;
        }
        assert(pv.take(paths.len() as int) == pv);
        Ok(Registry { operations, base_url })
    }

    /// The number of operations.
    pub fn len(&self) -> (n: usize)
        ensures
            n == self.operations@.len(),
    {
        self.operations.len()
    }

    /// Whether there are no operations.
    pub fn is_empty(&self) -> (b: bool)
        ensures
            b == (self.operations@.len() == 0),
    {
        self.operations.len() == 0
    }

    /// Looks up an operation by tool name (operationId). When several share
    /// the name, the last one listed wins.
    pub fn get(&self, name: &str) -> (r: Option<&Operation>)
        ensures
            match r {
                Some(op) => exists|i: int|
                    0 <= i < self.operations@.len() && self.operations@[i] == *op
                        && op.operation_id@ == name@ && forall|j: int|
                        i < j < self.operations@.len() ==> (#[trigger] self.operations@[j]).operation_id@
                            != name@,
                None => forall|j: int|
                    0 <= j < self.operations@.len() ==> (#[trigger] self.operations@[j]).operation_id@
                        != name@,
            },
    {
        let mut i = self.operations.len();
        while i > 0
            invariant
                i <= self.operations@.len(),
                forall|j: int|
                    i <= j < self.operations@.len() ==> (#[trigger] self.operations@[j]).operation_id@
                        != name@,
            decreases i,
        {
            i = i - 1;
            if str_eq(self.operations[i].operation_id.as_str(), name) {
                return Some(&self.operations[i]);
            }
        }
        None
    }

    /// All tool definitions, in operation order.
    pub fn tools(&self) -> (r: Vec<ToolDef>)
        ensures
            r@.len() == self.operations@.len(),
            forall|i: int|
                0 <= i < r@.len() ==> tool_eq(#[trigger] r@[i], self.operations@[i].tool),
    {
        let mut r: Vec<ToolDef> = Vec::new();
        let mut i: usize = 0;
        while i < self.operations.len()
            invariant
                i <= self.operations@.len(),
                r@.len() == i,
                forall|j: int| 0 <= j < i ==> tool_eq(#[trigger] r@[j], self.operations@[j].tool),
            decreases self.operations.len() - i,
        {
            r.push(self.operations[i].tool.clone_tool());
            i = i + 1;
        }
        r
    }
}

/// Two tool definitions with the same name, description and input schema.
pub open spec fn tool_eq(a: ToolDef, b: ToolDef) -> bool {
    &&& a.name@ == b.name@
    &&& a.description@ == b.description@
    &&& jv_members(a.input_schema@) == jv_members(b.input_schema@)
}

impl ToolDef {
    pub fn clone_tool(&self) -> (r: ToolDef)
        ensures
            tool_eq(r, *self),
    {
        ToolDef {
            name: self.name.clone(),
            description: self.description.clone(),
            input_schema: crate::json::clone_members(&self.input_schema),
        }
    }
}


proof fn lemma_placeholder_steps(d: DraftV, phs: Seq<Seq<char>>)
    ensures
        forall|x: Seq<char>|
            d.path_params.contains(x) ==> #[trigger] placeholder_steps(d, phs).path_params.contains(
                x,
            ),
        forall|i: int|
            0 <= i < phs.len() ==> placeholder_steps(d, phs).path_params.contains(#[trigger] phs[i]),
    decreases phs.len(),
{
    if phs.len() > 0 {
        let p = phs.drop_last();
        lemma_placeholder_steps(d, p);
        let e = placeholder_steps(d, p);
        let r = placeholder_steps(d, phs);
        assert forall|x: Seq<char>| e.path_params.contains(x) implies r.path_params.contains(x) by {
            if !e.path_params.contains(phs.last()) {
                let j = choose|j: int| 0 <= j < e.path_params.len() && e.path_params[j] == x;
                assert(r.path_params[j] == x);
            }
        }
        assert forall|i: int| 0 <= i < phs.len() implies r.path_params.contains(#[trigger] phs[i]) by {
            if i < p.len() {
                assert(p[i] == phs[i]);
                assert(e.path_params.contains(p[i]));
            } else {
                if !e.path_params.contains(phs.last()) {
                    assert(r.path_params[e.path_params.len() as int] == phs.last());
                }
            }
        }
    }
}

/// Every built tool's input schema is an object schema (`"type": "object"`),
/// and no `$ref` in it still points at `#/components/schemas/`: all have been
/// rebased onto the schema's own `$defs`.
pub proof fn law_tool_schema_is_rebased_object(
    r: Operation,
    operation_id: Seq<char>,
    method: Seq<char>,
    path: Seq<char>,
    op: JsonV,
    schemas: Seq<(Seq<char>, JsonV)>,
)
    requires
        built_operation(r, operation_id, method, path, op, schemas),
    ensures
        member_get(jv_members(r.tool.input_schema@), "type"@) == Some(JsonV::Str("object"@)),
        refs(JsonV::Object(jv_members(r.tool.input_schema@))) == Set::<Seq<char>>::empty(),
{
    let (d, fm) = op_draft(op, path, schemas);
    let defs = choose|defs: Seq<(Seq<char>, JsonV)>|
        #![trigger input_members(d, defs)]
        defs_match(defs, ref_closure_set(schemas, d.seeds), schemas) && JsonV::Object(
            jv_members(r.tool.input_schema@),
        ) == rebased(JsonV::Object(input_members(d, defs)));
    let im = input_members(d, defs);
    let m = jv_members(r.tool.input_schema@);
    lemma_rebased_has_no_component_refs(JsonV::Object(im));
    lemma_rebased_members_len(im);
    reveal_strlit("type");
    reveal_strlit("$ref");
    assert(im[0] == ("type"@, JsonV::Str("object"@)));
    assert(m == crate::refs::rebased_members(im));
    assert("type"@[0] != "$ref"@[0]);
    assert("type"@ != "$ref"@);
    assert(rebased(JsonV::Str("object"@)) == JsonV::Str("object"@));
    assert(m[0] == ("type"@, JsonV::Str("object"@)));
    lemma_member_index(m, "type"@);
}

/// Every `{placeholder}` of an operation's path is one of its path
/// parameters.
pub proof fn law_placeholders_are_path_params(
    r: Operation,
    operation_id: Seq<char>,
    method: Seq<char>,
    path: Seq<char>,
    op: JsonV,
    schemas: Seq<(Seq<char>, JsonV)>,
)
    requires
        built_operation(r, operation_id, method, path, op, schemas),
    ensures
        forall|i: int|
            0 <= i < placeholders(path).len() ==> views(r.path_params@).contains(
                #[trigger] placeholders(path)[i],
            ),
{
    let d1 = params_steps(empty_draft(), params_of(op));
    lemma_placeholder_steps(d1, placeholders(path));
}

/// Every operation of a registry read from a spec is listed as a tool under
/// its own operation ID (so a listed tool's name always finds its operation),
/// has an object input schema with all its references rebased, and models
/// all its path placeholders.
pub proof fn law_registry_operations(reg: Registry, doc: JsonV, i: int)
    requires
        field(doc, "paths"@) matches Some(JsonV::Object(paths)) && ops_built(
            reg.operations@,
            op_sources(paths),
            schemas_of(doc),
        ),
        0 <= i < reg.operations@.len(),
    ensures
        reg.operations@[i].tool.name@ == reg.operations@[i].operation_id@,
        member_get(jv_members(reg.operations@[i].tool.input_schema@), "type"@) == Some(
            JsonV::Str("object"@),
        ),
        refs(JsonV::Object(jv_members(reg.operations@[i].tool.input_schema@))) == Set::<
            Seq<char>,
        >::empty(),
        forall|k: int|
            0 <= k < placeholders(reg.operations@[i].path_template@).len() ==> views(
                reg.operations@[i].path_params@,
            ).contains(#[trigger] placeholders(reg.operations@[i].path_template@)[k]),
{
    let paths = field(doc, "paths"@)->Some_0->Object_0;
    let src = op_sources(paths)[i];
    assert(built_operation(reg.operations@[i], src.0, src.1, src.2, src.3, schemas_of(doc)));
    law_tool_schema_is_rebased_object(reg.operations@[i], src.0, src.1, src.2, src.3, schemas_of(doc));
    law_placeholders_are_path_params(reg.operations@[i], src.0, src.1, src.2, src.3, schemas_of(doc));
}


/// The `url` of the spec's first server, when it is a string.
pub open spec fn first_server_url(doc: JsonV) -> Option<Seq<char>> {
    match field(doc, "servers"@) {
        Some(JsonV::Array(a)) => if a.len() > 0 {
            match field(a[0], "url"@) {
                Some(JsonV::Str(u)) => Some(u),
                _ => None,
            }
        } else {
            None
        },
        _ => None,
    }
}

/// `k` copies of `c`.
pub open spec fn repeated(c: char, k: nat) -> Seq<char> {
    Seq::new(k, |i: int| c)
}

proof fn lemma_trim_trailing(s: Seq<char>, c: char)
    ensures
        exists|k: nat| s == #[trigger] trim_trailing(s, c) + repeated(c, k),
        trim_trailing(s, c).len() == 0 || trim_trailing(s, c).last() != c,
    decreases s.len(),
{
    if s.len() > 0 && s.last() == c {
        lemma_trim_trailing(s.drop_last(), c);
        let t = trim_trailing(s, c);
        let k = choose|k: nat| s.drop_last() == #[trigger] trim_trailing(s.drop_last(), c)
            + repeated(c, k);
        assert(t == trim_trailing(s.drop_last(), c));
        assert(repeated(c, k + 1) =~= repeated(c, k).push(c));
        assert(s =~= s.drop_last().push(c));
        assert(t + repeated(c, k + 1) =~= (t + repeated(c, k)).push(c));
        assert(s =~= t + repeated(c, k + 1));
    } else {
        assert(s =~= trim_trailing(s, c) + repeated(c, 0));
    }
}

/// A registry's base URL is the spec's first server URL with its trailing
/// slashes removed (the URL is the base URL followed only by slashes, and
/// the base URL does not end in one); where the spec names no server URL,
/// it is `https://discord.com/api/v10`.
pub proof fn law_base_url(doc: JsonV, reg: Registry)
    requires
        read_from_doc(doc, Ok(reg)),
    ensures
        match first_server_url(doc) {
            Some(u) => (exists|k: nat| u == reg.base_url@ + #[trigger] repeated('/', k)) && (
            reg.base_url@.len() == 0 || reg.base_url@.last() != '/'),
            None => reg.base_url@ == "https://discord.com/api/v10"@,
        },
{
    assert(reg.base_url@ == base_url_of(doc));
    match first_server_url(doc) {
        Some(u) => {
            assert(base_url_of(doc) == trim_trailing(u, '/'));
            lemma_trim_trailing(u, '/');
            let k = choose|k: nat| u == #[trigger] trim_trailing(u, '/') + repeated('/', k);
            assert(u == reg.base_url@ + repeated('/', k));
        },
        None => {
            let d = "https://discord.com/api/v10"@;
            reveal_strlit("https://discord.com/api/v10");
            assert(base_url_of(doc) == trim_trailing(d, '/'));
            assert(d.last() != '/');
        },
    }
}

} // verus!
