//! What a tool call sends to Discord, decided from the operation and the
//! call's arguments; and what the call answers, decided from Discord's reply.
use vstd::prelude::*;
use vstd::string::StringSliceAdditionalSpecFns;

use crate::json::{json_of_text, parse_json, field, jv, jv_seq, lemma_jv_seq, lemma_jv_members_push, jv_members, Json, JsonV};
use crate::jsontext::{json_text, to_json_text};
use crate::openapi::{views, FileMode, FileModeV, Operation};
use crate::text::{has_prefix, owned, push_char, push_str, str_eq};

verus! {

/// The decimal digits of a number.
pub open spec fn decimal(n: nat) -> Seq<char>
    decreases n,
{
    if n < 10 {
        seq![((48 + n) as u8) as char]
    } else {
        decimal(n / 10).push(((48 + n % 10) as u8) as char)
    }
}

/// Appends the decimal digits of `n`.
pub fn push_decimal(out: &mut String, n: u64)
    ensures
        final(out)@ == old(out)@ + decimal(n as nat),
    decreases n,
{
    if n >= 10 {
        push_decimal(out, n / 10);
    }
    let d: u8 = (n % 10) as u8;
    push_char(out, (48u8 + d) as char);
    assert(out@ =~= old(out)@ + decimal(n as nat));
}

/// The decimal text of a number.
pub fn decimal_string(n: u64) -> (r: String)
    ensures
        r@ == decimal(n as nat),
{
    let mut r = String::new();
    push_decimal(&mut r, n);
    assert(r@ =~= decimal(n as nat));
    r
}

/// How a scalar argument is written into a URL: strings as they are, any
/// other value as its JSON text.
pub open spec fn scalar_text(v: JsonV) -> Seq<char> {
    match v {
        JsonV::Str(s) => s,
        _ => json_text(v),
    }
}

/// Renders a JSON value as a string for URL paths and queries.
pub fn scalar_to_string(v: &Json) -> (r: String)
    ensures
        r@ == scalar_text(v@),
{
    match v {
        Json::Str(s) => s.clone(),
        _ => to_json_text(v),
    }
}

/// The bytes that pass through path percent-encoding unchanged: the URL
/// "unreserved" characters (ASCII letters, digits, `-`, `_`, `.`, `~`).
pub open spec fn unreserved(b: u8) -> bool {
    ||| (48 <= b && b <= 57)
    ||| (65 <= b && b <= 90)
    ||| (97 <= b && b <= 122)
    ||| b == 45
    ||| b == 95
    ||| b == 46
    ||| b == 126
}

/// A hexadecimal digit in upper case.
pub open spec fn hex_upper(d: u8) -> char {
    if d < 10 {
        (48u8 + d) as u8 as char
    } else {
        (55u8 + d) as u8 as char
    }
}

/// `%XX` for a byte, with upper-case hex digits.
pub open spec fn percent_triple(b: u8) -> Seq<char> {
    seq!['%', hex_upper(b / 16), hex_upper(b % 16)]
}

/// The percent-encoding of one byte of a path segment.
pub open spec fn pct_byte(b: u8) -> Seq<char> {
    if unreserved(b) {
        seq![b as char]
    } else {
        percent_triple(b)
    }
}

/// The percent-encoding of the bytes of a path segment.
pub open spec fn pct_encoded(bs: Seq<u8>) -> Seq<char>
    decreases bs.len(),
{
    if bs.len() == 0 {
        Seq::empty()
    } else {
        pct_encoded(bs.drop_last()) + pct_byte(bs.last())
    }
}

/// `%XX` for a byte.
///
/// Trusted: `percent_encoding::percent_encode_byte`, which returns the three
/// characters `%`, then the byte's two hexadecimal digits in upper case.
#[verifier::external_body]
fn percent_encode_byte(b: u8) -> (r: &'static str)
    ensures
        r@ == percent_triple(b),
{
    percent_encoding::percent_encode_byte(b)
}

/// Percent-encodes a path segment: every UTF-8 byte but the unreserved ones
/// becomes `%XX`.
pub fn percent_encode_path(s: &str) -> (r: String)
    ensures
        r@ == pct_encoded(s.spec_bytes()),
{
    let bytes = s.as_bytes();
    let mut r = String::new();
    let mut i: usize = 0;
    while i < bytes.len()
        invariant
            i <= bytes@.len(),
            bytes@ == s.spec_bytes(),
            r@ == pct_encoded(bytes@.take(i as int)),
        decreases bytes.len() - i,
    {
        let b = bytes[i];
        let ghost before = r@;
        if (48 <= b && b <= 57) || (65 <= b && b <= 90) || (97 <= b && b <= 122) || b == 45 || b
            == 95 || b == 46 || b == 126 {
            push_char(&mut r, b as char);
        } else {
            push_str(&mut r, percent_encode_byte(b));
        }
        assert(bytes@.take(i + 1).drop_last() == bytes@.take(i as int));
        assert(r@ =~= before + pct_byte(b));
        i = i + 1;
    }
    assert(bytes@.take(bytes@.len() as int) == bytes@);
    r
}

/// `s` with every (non-overlapping, leftmost-first) occurrence of `p`
/// replaced by `w` (Rust's `str::replace`, for a non-empty pattern).
pub open spec fn replace_all(s: Seq<char>, p: Seq<char>, w: Seq<char>) -> Seq<char>
    decreases s.len(),
{
    if s.len() == 0 || p.len() == 0 {
        s
    } else if has_prefix(s, p) {
        w + replace_all(s.skip(p.len() as int), p, w)
    } else {
        seq![s[0]] + replace_all(s.drop_first(), p, w)
    }
}

/// Replaces every occurrence of `p` in `s` by `w`.
pub fn replace_all_exec(s: &str, p: &str, w: &str) -> (r: String)
    requires
        p@.len() > 0,
    ensures
        r@ == replace_all(s@, p@, w@),
{
    let cs = crate::text::chars_of(s);
    let ps = crate::text::chars_of(p);
    let mut r = String::new();
    let mut i: usize = 0;
    let n = cs.len();
    assert(cs@.skip(0) == cs@);
    while i < cs.len()
        invariant
            n == cs@.len(),
            i <= cs@.len(),
            cs@ == s@,
            ps@ == p@,
            ps@.len() > 0,
            r@ + replace_all(cs@.skip(i as int), p@, w@) == replace_all(s@, p@, w@),
        decreases cs.len() - i,
    {
        let ghost rest = cs@.skip(i as int);
        // Does the pattern start at `i`?
        let mut matches = ps.len() <= cs.len() - i;
        let mut k: usize = 0;
        if matches {
            while k < ps.len()
                invariant
                    n == cs@.len(),
                    k <= ps@.len(),
                    i < cs@.len(),
                    i + ps@.len() <= cs@.len(),
                    rest == cs@.skip(i as int),
                    matches ==> forall|t: int| 0 <= t < k ==> cs@[i + t] == ps@[t],
                    !matches ==> !has_prefix(rest, ps@),
                decreases ps.len() - k,
            {
                if cs[i + k] != ps[k] {
                    assert(rest.take(ps@.len() as int)[k as int] != ps@[k as int]);
                    matches = false;
                }
                k = k + 1;
            }
            if matches {
                assert(rest.take(ps@.len() as int) =~= ps@);
            }
        }
        if matches {
            push_str(&mut r, w);
            assert(rest.skip(ps@.len() as int) == cs@.skip(i + ps@.len()));
            i = i + ps.len();
        } else {
            push_char(&mut r, cs[i]);
            assert(rest.drop_first() == cs@.skip(i + 1));
            i = i + 1;
        }
    }
    assert(cs@.skip(cs@.len() as int) =~= Seq::<char>::empty());
    assert(r@ + Seq::<char>::empty() == r@);
    r
}

/// The placeholder text `{name}`.
pub open spec fn braced(name: Seq<char>) -> Seq<char> {
    seq!['{'] + name + seq!['}']
}

/// The path after substituting the path parameters `names` (in order), each
/// by the percent-encoded text of its argument; `None` when an argument is
/// missing.
pub open spec fn resolved_path(path: Seq<char>, names: Seq<Seq<char>>, args: JsonV) -> Option<
    Seq<char>,
>
    decreases names.len(),
{
    if names.len() == 0 {
        Some(path)
    } else {
        match resolved_path(path, names.drop_last(), args) {
            Some(p) => match field(args, names.last()) {
                Some(v) => Some(
                    replace_all(
                        p,
                        braced(names.last()),
                        pct_encoded(vstd::utf8::encode_utf8(scalar_text(v))),
                    ),
                ),
                None => None,
            },
            None => None,
        }
    }
}

/// The first path parameter that the arguments lack.
pub open spec fn first_missing(names: Seq<Seq<char>>, args: JsonV) -> Option<Seq<char>>
    decreases names.len(),
{
    if names.len() == 0 {
        None
    } else {
        match first_missing(names.drop_last(), args) {
            Some(n) => Some(n),
            None => if field(args, names.last()) is None {
                Some(names.last())
            } else {
                None
            },
        }
    }
}

pub proof fn lemma_missing_iff_unresolved(path: Seq<char>, names: Seq<Seq<char>>, args: JsonV)
    ensures
        (resolved_path(path, names, args) is None) == (first_missing(names, args) is Some),
    decreases names.len(),
{
    if names.len() > 0 {
        lemma_missing_iff_unresolved(path, names.drop_last(), args);
    }
}

pub proof fn lemma_first_missing_prefix(names: Seq<Seq<char>>, j: int)
    requires
        0 <= j <= names.len(),
    ensures
        forall|args: JsonV|
            #![trigger first_missing(names.take(j), args)]
            first_missing(names.take(j), args) is Some ==> first_missing(names, args) == first_missing(
                names.take(j),
                args,
            ),
    decreases names.len(),
{
    if names.len() > j {
        let d = names.drop_last();
        assert(d.take(j) == names.take(j));
        lemma_first_missing_prefix(d, j);
    } else {
        assert(names.take(j) == names);
    }
}

/// The query pairs one argument gives: an array gives one pair per item
/// (repeated key), any other value one pair.
pub open spec fn query_pairs_for(key: Seq<char>, v: JsonV) -> Seq<(Seq<char>, Seq<char>)> {
    match v {
        JsonV::Array(items) => Seq::new(items.len(), |i: int| (key, scalar_text(items[i]))),
        _ => seq![(key, scalar_text(v))],
    }
}

/// The query of a call: for each query parameter in order whose argument is
/// present and not null, its pairs.
pub open spec fn query_of(params: Seq<Seq<char>>, args: JsonV) -> Seq<(Seq<char>, Seq<char>)>
    decreases params.len(),
{
    if params.len() == 0 {
        Seq::empty()
    } else {
        query_of(params.drop_last(), args) + match field(args, params.last()) {
            Some(v) => if v is Null {
                Seq::empty()
            } else {
                query_pairs_for(params.last(), v)
            },
            None => Seq::empty(),
        }
    }
}

pub open spec fn pair_views(q: Seq<(String, String)>) -> Seq<(Seq<char>, Seq<char>)> {
    Seq::new(q.len(), |i: int| (q[i].0@, q[i].1@))
}

/// Appends a query parameter, expanding arrays into repeated keys.
pub fn push_query(query: &mut Vec<(String, String)>, key: &str, v: &Json)
    ensures
        pair_views(final(query)@) == pair_views(old(query)@) + query_pairs_for(key@, v@),
{
    match v {
        Json::Array(items) => {
            let ghost iv = jv_seq(items@);
            proof {
                lemma_jv_seq(items@);
            }
            let mut i: usize = 0;
            while i < items.len()
                invariant
                    i <= items.len(),
                    iv == jv_seq(items@),
                    iv.len() == items@.len(),
                    forall|j: int| 0 <= j < items@.len() ==> #[trigger] iv[j] == jv(items@[j]),
                    pair_views(query@) == pair_views(old(query)@) + Seq::new(
                        i as nat,
                        |t: int| (key@, scalar_text(iv[t])),
                    ),
                decreases items.len() - i,
            {
                let ghost before = query@;
                query.push((owned(key), scalar_to_string(&items[i])));
                assert(pair_views(query@) =~= pair_views(before).push((key@, scalar_text(iv[i as int]))));
                i = i + 1;
                assert(pair_views(query@) =~= pair_views(old(query)@) + Seq::new(
                    i as nat,
                    |t: int| (key@, scalar_text(iv[t])),
                ));
            }
            assert(Seq::new(items@.len(), |t: int| (key@, scalar_text(iv[t]))) =~= query_pairs_for(
                key@,
                v@,
            ));
        },
        _ => {
            query.push((owned(key), scalar_to_string(v)));
            assert(pair_views(query@) =~= pair_views(old(query)@) + query_pairs_for(key@, v@));
        },
    }
}

/// Whether a call should be sent as `multipart/form-data`: some named file
/// field holds a path, or `files` is an array holding a path.
pub open spec fn wants_multipart(fm: FileModeV, args: JsonV) -> bool {
    match fm {
        FileModeV::NoFiles => false,
        FileModeV::Named(fields) => exists|i: int|
            0 <= i < fields.len() && #[trigger] crate::json::str_field(args, fields[i]) is Some,
        FileModeV::Array => match field(args, "files"@) {
            Some(JsonV::Array(a)) => exists|i: int| 0 <= i < a.len() && #[trigger] a[i] is Str,
            _ => false,
        },
    }
}

/// One file to upload: the form part's name and the local path to read.
pub struct UploadPart {
    pub name: String,
    pub path: String,
}

/// The file parts of a multipart call, in order: each named field holding a
/// path, or each string item `i` of `files` as part `files[i]`.
pub open spec fn upload_parts(fm: FileModeV, args: JsonV) -> Seq<(Seq<char>, Seq<char>)> {
    match fm {
        FileModeV::NoFiles => Seq::empty(),
        FileModeV::Named(fields) => named_parts(fields, args),
        FileModeV::Array => match field(args, "files"@) {
            Some(JsonV::Array(a)) => array_parts(a, a.len() as int),
            _ => Seq::empty(),
        },
    }
}

pub open spec fn named_parts(fields: Seq<Seq<char>>, args: JsonV) -> Seq<(Seq<char>, Seq<char>)>
    decreases fields.len(),
{
    if fields.len() == 0 {
        Seq::empty()
    } else {
        named_parts(fields.drop_last(), args) + match crate::json::str_field(args, fields.last()) {
            Some(p) => seq![(fields.last(), p)],
            None => Seq::empty(),
        }
    }
}

/// The parts given by the first `n` items of `files`.
pub open spec fn array_parts(a: Seq<JsonV>, n: int) -> Seq<(Seq<char>, Seq<char>)>
    decreases n,
{
    if n <= 0 {
        Seq::empty()
    } else {
        array_parts(a, n - 1) + match a[n - 1] {
            JsonV::Str(p) => seq![("files["@ + decimal((n - 1) as nat) + "]"@, p)],
            _ => Seq::empty(),
        }
    }
}

pub open spec fn part_views(v: Seq<UploadPart>) -> Seq<(Seq<char>, Seq<char>)> {
    Seq::new(v.len(), |i: int| (v[i].name@, v[i].path@))
}

/// What a call sends as its body.
pub enum RequestBody {
    /// No body.
    Empty,
    /// The `body` argument, as JSON.
    Json(Json),
    /// A multipart form: the `body` argument's JSON text as the
    /// `payload_json` part when there is one, then the file parts.
    Multipart { payload_json: Option<String>, parts: Vec<UploadPart> },
}

/// A request ready to send.
pub struct RequestPlan {
    /// Upper-case HTTP method.
    pub method: String,
    pub url: String,
    pub query: Vec<(String, String)>,
    pub body: RequestBody,
}

/// Why a call could not be sent.
pub enum PlanError {
    /// A required path parameter has no argument.
    MissingPathParam(String),
}

/// The `body` argument, unless absent or null.
pub open spec fn body_arg(args: JsonV) -> Option<JsonV> {
    match field(args, "body"@) {
        Some(b) => if b is Null {
            None
        } else {
            Some(b)
        },
        None => None,
    }
}

fn wants_multipart_exec(fm: &FileMode, args: &Json) -> (r: bool)
    ensures
        r == wants_multipart(fm.view(), args@),
{
    match fm {
        FileMode::NoFiles => false,
        FileMode::Named(fields) => {
            let mut i: usize = 0;
            while i < fields.len()
                invariant
                    i <= fields.len(),
                    *fm == FileMode::Named(*fields),
                    forall|j: int|
                        0 <= j < i ==> crate::json::str_field(args@, (#[trigger] fields@[j])@)
                            is None,
                decreases fields.len() - i,
            {
                let found = match args.get(fields[i].as_str()) {
                    Some(v) => v.as_str().is_some(),
                    None => false,
                };
                if found {
                    assert(views(fields@)[i as int] == fields@[i as int]@);
                    assert(crate::json::str_field(args@, views(fields@)[i as int]) is Some);
                    return true;
                }
                i = i + 1;
            }
            proof {
                assert forall|j: int| 0 <= j < views(fields@).len() implies !(
                #[trigger] crate::json::str_field(args@, views(fields@)[j]) is Some) by {
                    assert(views(fields@)[j] == fields@[j]@);
                }
            }
            false
        },
        FileMode::Array => {
            let f = args.get("files");
            match f {
                Some(Json::Array(a)) => {
                    let ghost av = jv_seq(a@);
                    proof {
                        lemma_jv_seq(a@);
                    }
                    assert(field(args@, "files"@) == Some(JsonV::Array(av)));
                    let mut i: usize = 0;
                    while i < a.len()
                        invariant
                            i <= a.len(),
                            field(args@, "files"@) == Some(JsonV::Array(av)),
                            fm.view() == FileModeV::Array,
                            av == jv_seq(a@),
                            av.len() == a@.len(),
                            forall|j: int| 0 <= j < a@.len() ==> #[trigger] av[j] == jv(a@[j]),
                            forall|j: int| 0 <= j < i ==> !(#[trigger] av[j] is Str),
                        decreases a.len() - i,
                    {
                        if a[i].as_str().is_some() {
                            assert(av[i as int] is Str);
                            return true;
                        }
                        i = i + 1;
                    }
                    false
                },
                _ => false,
            }
        },
    }
}

fn upload_parts_exec(fm: &FileMode, args: &Json) -> (r: Vec<UploadPart>)
    ensures
        part_views(r@) == upload_parts(fm.view(), args@),
{
    let mut r: Vec<UploadPart> = Vec::new();
    match fm {
        FileMode::NoFiles => {
            assert(part_views(r@) =~= Seq::empty());
        },
        FileMode::Named(fields) => {
            let ghost fv = views(fields@);
            let mut i: usize = 0;
            assert(part_views(r@) =~= named_parts(fv.take(0), args@));
            while i < fields.len()
                invariant
                    i <= fields.len(),
                    fv == views(fields@),
                    part_views(r@) == named_parts(fv.take(i as int), args@),
                decreases fields.len() - i,
            {
                assert(fv.take(i + 1).drop_last() == fv.take(i as int));
                assert(fv.take(i + 1).last() == fields@[i as int]@);
                match args.get(fields[i].as_str()) {
                    Some(v) => match v.as_str() {
                        Some(p) => {
                            r.push(UploadPart { name: fields[i].clone(), path: owned(p) });
                        },
                        None => {},
                    },
                    None => {},
                }
                assert(part_views(r@) =~= named_parts(fv.take(i + 1), args@));
                i = i + 1;
            }
            assert(fv.take(fields@.len() as int) == fv);
        },
        FileMode::Array => {
            match args.get("files") {
                Some(Json::Array(a)) => {
                    let ghost av = jv_seq(a@);
                    proof {
                        lemma_jv_seq(a@);
                    }
                    let mut i: usize = 0;
                    assert(part_views(r@) =~= array_parts(av, 0));
                    while i < a.len()
                        invariant
                            i <= a.len(),
                            av == jv_seq(a@),
                            av.len() == a@.len(),
                            forall|j: int| 0 <= j < a@.len() ==> #[trigger] av[j] == jv(a@[j]),
                            part_views(r@) == array_parts(av, i as int),
                        decreases a.len() - i,
                    {
                        match a[i].as_str() {
                            Some(p) => {
                                let mut name = owned("files[");
                                push_decimal(&mut name, i as u64);
                                push_str(&mut name, "]");
                                r.push(UploadPart { name, path: owned(p) });
                            },
                            None => {},
                        }
                        assert(part_views(r@) =~= array_parts(av, i + 1));
                        i = i + 1;
                    }
                },
                _ => {
                    assert(part_views(r@) =~= Seq::empty());
                },
            }
        },
    }
    r
}

/// The request a call makes: the method; the base URL followed by the path
/// with each path parameter substituted (percent-encoded); the query; and
/// the body — multipart when file arguments are given, else the `body`
/// argument as JSON, else none.
pub open spec fn plan_matches(
    p: RequestPlan,
    base_url: Seq<char>,
    method: Seq<char>,
    path: Seq<char>,
    path_params: Seq<Seq<char>>,
    query_params: Seq<Seq<char>>,
    fm: FileModeV,
    args: JsonV,
) -> bool {
    &&& p.method@ == method
    &&& resolved_path(path, path_params, args) matches Some(rp) && p.url@ == base_url + rp
    &&& pair_views(p.query@) == query_of(query_params, args)
    &&& if wants_multipart(fm, args) {
        p.body matches RequestBody::Multipart { payload_json, parts } && part_views(parts@)
            == upload_parts(fm, args) && match body_arg(args) {
            Some(b) => payload_json matches Some(t) && t@ == json_text(b),
            None => payload_json is None,
        }
    } else {
        match body_arg(args) {
            Some(b) => p.body matches RequestBody::Json(j) && j@ == b,
            None => p.body is Empty,
        }
    }
}

/// Plans the request for one tool call against `base_url`.
pub fn plan_request(base_url: &str, op: &Operation, args: &Json) -> (r: Result<
    RequestPlan,
    PlanError,
>)
    ensures
        match r {
            Ok(p) => plan_matches(
                p,
                base_url@,
                op.method@,
                op.path_template@,
                views(op.path_params@),
                views(op.query_params@),
                op.file_mode.view(),
                args@,
            ),
            Err(PlanError::MissingPathParam(n)) => first_missing(views(op.path_params@), args@)
                == Some(n@),
        },
{
    // Resolve path parameters into the URL.
    let ghost names = views(op.path_params@);
    let mut path = op.path_template.clone();
    let mut i: usize = 0;
    while i < op.path_params.len()
        invariant
            i <= op.path_params@.len(),
            names == views(op.path_params@),
            resolved_path(op.path_template@, names.take(i as int), args@) == Some(path@),
            first_missing(names.take(i as int), args@) is None,
        decreases op.path_params.len() - i,
    {
        let name = &op.path_params[i];
        assert(names.take(i + 1).drop_last() == names.take(i as int));
        assert(names.take(i + 1).last() == name@);
        let raw = match args.get(name.as_str()) {
            Some(v) => v,
            None => {
                proof {
                    assert(first_missing(names.take(i + 1), args@) == Some(name@));
                    lemma_first_missing_prefix(names, i + 1);
                }
                return Err(PlanError::MissingPathParam(name.clone()));
            },
        };
        let s = scalar_to_string(raw);
        let encoded = percent_encode_path(s.as_str());
        let mut pat = owned("{");
        push_str(&mut pat, name.as_str());
        push_str(&mut pat, "}");
        proof {
            reveal_strlit("{");
            reveal_strlit("}");
        }
        assert(pat@ =~= braced(name@));
        path = replace_all_exec(path.as_str(), pat.as_str(), encoded.as_str());
        i = i + 1;
    }
    assert(names.take(op.path_params@.len() as int) == names);
    let mut url = owned(base_url);
    push_str(&mut url, path.as_str());
    // Collect query parameters.
    let ghost qn = views(op.query_params@);
    let mut query: Vec<(String, String)> = Vec::new();
    let mut k: usize = 0;
    assert(pair_views(query@) =~= Seq::empty());
    while k < op.query_params.len()
        invariant
            k <= op.query_params@.len(),
            qn == views(op.query_params@),
            pair_views(query@) == query_of(qn.take(k as int), args@),
        decreases op.query_params.len() - k,
    {
        let name = &op.query_params[k];
        assert(qn.take(k + 1).drop_last() == qn.take(k as int));
        assert(qn.take(k + 1).last() == name@);
        match args.get(name.as_str()) {
            Some(v) => {
                if !v.is_null() {
                    push_query(&mut query, name.as_str(), v);
                } else {
                    assert(pair_views(query@) =~= query_of(qn.take(k + 1), args@));
                }
            },
            None => {
                assert(pair_views(query@) =~= query_of(qn.take(k + 1), args@));
            },
        }
        k = k + 1;
    }
    assert(qn.take(op.query_params@.len() as int) == qn);
    let body: Option<&Json> = match args.get("body") {
        Some(b) => if b.is_null() {
            None
        } else {
            Some(b)
        },
        None => None,
    };
    let req_body = if wants_multipart_exec(&op.file_mode, args) {
        let payload_json = match body {
            Some(b) => Some(to_json_text(b)),
            None => None,
        };
        RequestBody::Multipart { payload_json, parts: upload_parts_exec(&op.file_mode, args) }
    } else {
        match body {
            Some(b) => RequestBody::Json(b.deep_clone()),
            None => RequestBody::Empty,
        }
    };
    Ok(RequestPlan { method: op.method.clone(), url, query, body: req_body })
}

/// The `Authorization` header value that every call carries: the bot token
/// after `Bot `.
pub fn authorization(token: &str) -> (r: String)
    ensures
        r@ == "Bot "@ + token@,
{
    let mut r = owned("Bot ");
    push_str(&mut r, token);
    r
}

/// Most times a rate-limited (HTTP 429) request is sent again.
pub const MAX_RATE_LIMIT_RETRIES: u32 = 3;

/// Whether a reply is a rate limit that should be retried after `attempt`
/// retries so far.
pub fn should_retry(status: u16, attempt: u32) -> (r: bool)
    ensures
        r == (status == 429 && attempt < 3),
{
    status == 429 && attempt < MAX_RATE_LIMIT_RETRIES
}

/// Whether an HTTP status is a success (2xx).
pub open spec fn is_success(status: u16) -> bool {
    200 <= status && status <= 299
}

/// The body of a reply as the tool returns it: null when empty, the JSON it
/// holds when it parses (`parsed`), else the text itself.
pub open spec fn reply_body(text: Seq<char>, parsed: Option<JsonV>) -> JsonV {
    if text.len() == 0 {
        JsonV::Null
    } else {
        match parsed {
            Some(j) => j,
            None => JsonV::Str(text),
        }
    }
}

/// `{"status": status, "ok": is_success(status), "body": body}`.
pub open spec fn reply_payload(status: u16, text: Seq<char>, parsed: Option<JsonV>) -> JsonV {
    JsonV::Object(
        seq![
            ("status"@, JsonV::Number(decimal(status as nat))),
            ("ok"@, JsonV::Bool(is_success(status))),
            ("body"@, reply_body(text, parsed)),
        ],
    )
}

/// The document that serde_json reads from a reply's text, when it is JSON.
pub open spec fn reply_json(text: Seq<char>) -> Option<JsonV> {
    match json_of_text(text) {
        Ok(j) => Some(j),
        Err(_) => None,
    }
}

/// The result of a call from Discord's reply status and text: the payload,
/// with the text read as JSON where it is JSON, and whether it reports
/// success.
pub fn reply_from_text(status: u16, text: String) -> (r: (Json, bool))
    ensures
        r.0@ == reply_payload(
            status,
            text@,
            if text@.len() == 0 {
                None
            } else {
                reply_json(text@)
            },
        ),
        r.1 == is_success(status),
{
    let parsed = if text.as_str().unicode_len() == 0 {
        None
    } else {
        match parse_json(text.as_str()) {
            Ok(j) => Some(j),
            Err(_) => None,
        }
    };
    reply_result(status, text, parsed)
}

/// The result of a call from Discord's reply: the payload, and whether it
/// reports success (an unsuccessful reply is a tool error the model can read).
/// `parsed` is the reply text read as JSON, when it is valid JSON.
pub fn reply_result(status: u16, text: String, parsed: Option<Json>) -> (r: (Json, bool))
    ensures
        r.0@ == reply_payload(
            status,
            text@,
            match parsed {
                Some(j) => Some(j@),
                None => None,
            },
        ),
        r.1 == is_success(status),
{
    let ok = 200 <= status && status <= 299;
    let ghost tv = text@;
    let ghost pv = match &parsed {
        Some(j) => Some(j@),
        None => None,
    };
    let body = if text.as_str().unicode_len() == 0 {
        Json::Null
    } else {
        match parsed {
            Some(j) => j,
            None => Json::Str(text),
        }
    };
    assert(body@ == reply_body(tv, pv));
    let mut m: Vec<(String, Json)> = Vec::new();
    let e1 = (owned("status"), Json::Number(decimal_string(status as u64)));
    let e2 = (owned("ok"), Json::Bool(ok));
    let e3 = (owned("body"), body);
    proof {
        lemma_jv_members_push(m@, e1);
        lemma_jv_members_push(m@.push(e1), e2);
        lemma_jv_members_push(m@.push(e1).push(e2), e3);
    }
    m.push(e1);
    m.push(e2);
    m.push(e3);
    assert(jv_members(m@) =~= seq![
        ("status"@, JsonV::Number(decimal(status as nat))),
        ("ok"@, JsonV::Bool(is_success(status))),
        ("body"@, reply_body(tv, pv)),
    ]);
    let r = Json::Object(m);
    assert(r@ == reply_payload(status, tv, pv));
    (r, ok)
}


proof fn lemma_named_parts_nonempty(fields: Seq<Seq<char>>, args: JsonV)
    ensures
        named_parts(fields, args).len() > 0 <==> exists|i: int|
            0 <= i < fields.len() && #[trigger] crate::json::str_field(args, fields[i]) is Some,
    decreases fields.len(),
{
    if fields.len() > 0 {
        let d = fields.drop_last();
        lemma_named_parts_nonempty(d, args);
        if exists|i: int| 0 <= i < d.len() && #[trigger] crate::json::str_field(args, d[i]) is Some {
            let i = choose|i: int|
                0 <= i < d.len() && #[trigger] crate::json::str_field(args, d[i]) is Some;
            assert(fields[i] == d[i]);
        }
        if exists|i: int|
            0 <= i < fields.len() && #[trigger] crate::json::str_field(args, fields[i]) is Some {
            let i = choose|i: int|
                0 <= i < fields.len() && #[trigger] crate::json::str_field(args, fields[i]) is Some;
            if i < d.len() {
                assert(d[i] == fields[i]);
            }
        }
    }
}

proof fn lemma_array_parts_nonempty(a: Seq<JsonV>, n: int)
    requires
        n <= a.len(),
    ensures
        array_parts(a, n).len() > 0 <==> exists|i: int| 0 <= i < n && #[trigger] a[i] is Str,
    decreases n,
{
    if n > 0 {
        lemma_array_parts_nonempty(a, n - 1);
    }
}

/// A call is sent as `multipart/form-data` exactly when it has at least one
/// file part to upload.
pub proof fn law_multipart_iff_files(fm: FileModeV, args: JsonV)
    ensures
        wants_multipart(fm, args) <==> upload_parts(fm, args).len() > 0,
{
    match fm {
        FileModeV::NoFiles => {},
        FileModeV::Named(fields) => lemma_named_parts_nonempty(fields, args),
        FileModeV::Array => match field(args, "files"@) {
            Some(JsonV::Array(a)) => lemma_array_parts_nonempty(a, a.len() as int),
            _ => {},
        },
    }
}

} // verus!
