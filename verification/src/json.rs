use vstd::prelude::*;

use crate::text::str_eq;

verus! {

/// A JSON document as the library reads and builds it.
///
/// Objects are ordered member lists; the functions of this module that build
/// objects keep their keys distinct, as a JSON map does.
pub enum Json {
    Null,
    Bool(bool),
    /// A number, held as the text that denotes it (e.g. `42`, `-1.5e3`).
    Number(String),
    Str(String),
    Array(Vec<Json>),
    Object(Vec<(String, Json)>),
}

/// The mathematical value of a JSON document.
pub enum JsonV {
    Null,
    Bool(bool),
    Number(Seq<char>),
    Str(Seq<char>),
    Array(Seq<JsonV>),
    Object(Seq<(Seq<char>, JsonV)>),
}

pub open spec fn jv(j: Json) -> JsonV
    decreases j,
{
    match j {
        Json::Null => JsonV::Null,
        Json::Bool(b) => JsonV::Bool(b),
        Json::Number(n) => JsonV::Number(n@),
        Json::Str(s) => JsonV::Str(s@),
        Json::Array(v) => JsonV::Array(jv_seq(v@)),
        Json::Object(m) => JsonV::Object(jv_members(m@)),
    }
}

pub open spec fn jv_seq(s: Seq<Json>) -> Seq<JsonV>
    decreases s,
{
    if s.len() == 0 {
        Seq::empty()
    } else {
        jv_seq(s.drop_last()).push(jv(s.last()))
    }
}

pub open spec fn jv_members(s: Seq<(String, Json)>) -> Seq<(Seq<char>, JsonV)>
    decreases s,
{
    if s.len() == 0 {
        Seq::empty()
    } else {
        jv_members(s.drop_last()).push((s.last().0@, jv(s.last().1)))
    }
}

impl View for Json {
    type V = JsonV;

    open spec fn view(&self) -> JsonV {
        jv(*self)
    }
}

pub proof fn lemma_jv_seq(s: Seq<Json>)
    ensures
        jv_seq(s).len() == s.len(),
        forall|i: int| 0 <= i < s.len() ==> #[trigger] jv_seq(s)[i] == jv(s[i]),
    decreases s.len(),
{
    if s.len() > 0 {
        lemma_jv_seq(s.drop_last());
    }
}

pub proof fn lemma_jv_members(s: Seq<(String, Json)>)
    ensures
        jv_members(s).len() == s.len(),
        forall|i: int|
            0 <= i < s.len() ==> #[trigger] jv_members(s)[i] == (s[i].0@, jv(s[i].1)),
    decreases s.len(),
{
    if s.len() > 0 {
        lemma_jv_members(s.drop_last());
    }
}

pub proof fn lemma_jv_members_push(s: Seq<(String, Json)>, e: (String, Json))
    ensures
        jv_members(s.push(e)) == jv_members(s).push((e.0@, jv(e.1))),
{
    assert(s.push(e).drop_last() == s);
}

pub proof fn lemma_jv_seq_push(s: Seq<Json>, e: Json)
    ensures
        jv_seq(s.push(e)) == jv_seq(s).push(jv(e)),
{
    assert(s.push(e).drop_last() == s);
}

/// Index of the first member named `k`, or -1 when there is none.
pub open spec fn member_index(m: Seq<(Seq<char>, JsonV)>, k: Seq<char>) -> int
    decreases m.len(),
{
    if m.len() == 0 {
        -1
    } else {
        let r = member_index(m.drop_last(), k);
        if r >= 0 {
            r
        } else if m.last().0 == k {
            m.len() - 1
        } else {
            -1
        }
    }
}

pub proof fn lemma_member_index(m: Seq<(Seq<char>, JsonV)>, k: Seq<char>)
    ensures
        -1 <= member_index(m, k) < m.len(),
        member_index(m, k) >= 0 ==> m[member_index(m, k)].0 == k,
        member_index(m, k) >= 0 ==> forall|j: int|
            0 <= j < member_index(m, k) ==> #[trigger] m[j].0 != k,
        member_index(m, k) < 0 ==> forall|j: int| 0 <= j < m.len() ==> #[trigger] m[j].0 != k,
    decreases m.len(),
{
    if m.len() > 0 {
        let d = m.drop_last();
        lemma_member_index(d, k);
        assert forall|j: int| 0 <= j < d.len() implies #[trigger] m[j] == d[j] by {}
    }
}

/// The value of the member named `k` of an object's member list.
pub open spec fn member_get(m: Seq<(Seq<char>, JsonV)>, k: Seq<char>) -> Option<JsonV> {
    let i = member_index(m, k);
    if i >= 0 {
        Some(m[i].1)
    } else {
        None
    }
}

/// What `j[k]` reads: the member `k` when `j` is an object that has one.
pub open spec fn field(j: JsonV, k: Seq<char>) -> Option<JsonV> {
    match j {
        JsonV::Object(m) => member_get(m, k),
        _ => None,
    }
}

/// A JSON map insert: the member named `k` takes the value `v`, in place when
/// the key is present, else appended.
pub open spec fn member_insert(m: Seq<(Seq<char>, JsonV)>, k: Seq<char>, v: JsonV) -> Seq<
    (Seq<char>, JsonV),
> {
    let i = member_index(m, k);
    if i >= 0 {
        m.update(i, (k, v))
    } else {
        m.push((k, v))
    }
}

/// The keys of a member list.
pub open spec fn member_keys(m: Seq<(Seq<char>, JsonV)>) -> Set<Seq<char>> {
    Set::new(|k: Seq<char>| exists|i: int| 0 <= i < m.len() && #[trigger] m[i].0 == k)
}

/// No two members share a key.
pub open spec fn keys_distinct(m: Seq<(Seq<char>, JsonV)>) -> bool {
    forall|i: int, j: int| 0 <= i < j < m.len() ==> #[trigger] m[i].0 != #[trigger] m[j].0
}

pub proof fn lemma_member_insert(m: Seq<(Seq<char>, JsonV)>, k: Seq<char>, v: JsonV)
    ensures
        member_get(member_insert(m, k, v), k) == Some(v),
        forall|k2: Seq<char>|
            k2 != k ==> #[trigger] member_get(member_insert(m, k, v), k2) == member_get(m, k2),
        keys_distinct(m) ==> keys_distinct(member_insert(m, k, v)),
        member_keys(member_insert(m, k, v)) == member_keys(m).insert(k),
{
    let r = member_insert(m, k, v);
    lemma_member_index(m, k);
    lemma_member_index(r, k);
    let i0 = member_index(m, k);
    let i1 = member_index(r, k);
    if i0 >= 0 {
        assert(r[i0].0 == k);
        if i1 < i0 {
            assert(r[i1].0 == m[i1].0);
        }
        assert(i1 == i0);
    } else {
        assert(r[m.len() as int].0 == k);
        if i1 < m.len() {
            assert(r[i1].0 == m[i1].0);
        }
        assert(i1 == m.len());
    }
    assert forall|k2: Seq<char>| k2 != k implies #[trigger] member_get(r, k2) == member_get(
        m,
        k2,
    ) by {
        lemma_member_index(m, k2);
        lemma_member_index(r, k2);
        let a = member_index(m, k2);
        let b = member_index(r, k2);
        if a >= 0 {
            assert(r[a].0 == k2);
            assert(b == a) by {
                if b < a {
                    assert(r[b].0 == m[b].0);
                }
            }
        } else {
            if b >= 0 {
                assert(b < m.len());
                assert(r[b].0 == m[b].0);
            }
        }
    }
    assert(member_keys(r) =~= member_keys(m).insert(k)) by {
        assert forall|x: Seq<char>| member_keys(m).insert(k).contains(x) implies member_keys(
            r,
        ).contains(x) by {
            if x == k {
                let i = member_index(m, k);
                if i >= 0 {
                    assert(r[i].0 == k);
                } else {
                    assert(r[m.len() as int].0 == k);
                }
            } else {
                let j = choose|j: int| 0 <= j < m.len() && #[trigger] m[j].0 == x;
                assert(r[j].0 == x);
            }
        }
        assert forall|x: Seq<char>| member_keys(r).contains(x) implies member_keys(m).insert(
            k,
        ).contains(x) by {
            let j = choose|j: int| 0 <= j < r.len() && #[trigger] r[j].0 == x;
            if x != k {
                assert(m[j].0 == x);
            }
        }
    }
}

pub open spec fn as_str(j: JsonV) -> Option<Seq<char>> {
    match j {
        JsonV::Str(s) => Some(s),
        _ => None,
    }
}

pub open spec fn opt_field(j: Option<JsonV>, k: Seq<char>) -> Option<JsonV> {
    match j {
        Some(x) => field(x, k),
        None => None,
    }
}

/// `j[k]` as a string, when it is one.
pub open spec fn str_field(j: JsonV, k: Seq<char>) -> Option<Seq<char>> {
    match field(j, k) {
        Some(x) => as_str(x),
        None => None,
    }
}

/// `j[k]` as a boolean, false when absent or not a boolean.
pub open spec fn bool_field_or_false(j: JsonV, k: Seq<char>) -> bool {
    match field(j, k) {
        Some(JsonV::Bool(b)) => b,
        _ => false,
    }
}

impl Json {
    /// A copy of the document.
    pub fn deep_clone(&self) -> (r: Json)
        ensures
            r@ == self@,
        decreases self,
    {
        match self {
            Json::Null => Json::Null,
            Json::Bool(b) => Json::Bool(*b),
            Json::Number(n) => Json::Number(n.clone()),
            Json::Str(s) => Json::Str(s.clone()),
            Json::Array(v) => Json::Array(clone_items(v)),
            Json::Object(m) => Json::Object(clone_members(m)),
        }
    }

    /// `self[key]` when `self` is an object with such a member.
    pub fn get(&self, key: &str) -> (r: Option<&Json>)
        ensures
            match r {
                Some(x) => field(self@, key@) == Some(x@),
                None => field(self@, key@) is None,
            },
    {
        match self {
            Json::Object(m) => member_lookup(m, key),
            _ => None,
        }
    }

    pub fn as_str(&self) -> (r: Option<&str>)
        ensures
            match r {
                Some(s) => as_str(self@) == Some(s@),
                None => as_str(self@) is None,
            },
    {
        match self {
            Json::Str(s) => Some(s.as_str()),
            _ => None,
        }
    }

    pub fn as_array(&self) -> (r: Option<&Vec<Json>>)
        ensures
            match r {
                Some(v) => self@ == JsonV::Array(jv_seq(v@)),
                None => !(self@ is Array),
            },
    {
        match self {
            Json::Array(v) => Some(v),
            _ => None,
        }
    }

    pub fn is_null(&self) -> (r: bool)
        ensures
            r == (self@ is Null),
    {
        match self {
            Json::Null => true,
            _ => false,
        }
    }
}

pub fn clone_items(v: &Vec<Json>) -> (r: Vec<Json>)
    ensures
        jv_seq(r@) == jv_seq(v@),
    decreases v,
{
    let mut r: Vec<Json> = Vec::new();
    let mut i: usize = 0;
    while i < v.len()
        invariant
            i <= v.len(),
            jv_seq(r@) == jv_seq(v@.take(i as int)),
        decreases v.len() - i,
    {
        assert(decreases_to!(v => v@[i as int]));
        let c = v[i].deep_clone();
        proof {
            lemma_jv_seq_push(r@, c);
            assert(v@.take(i + 1).drop_last() == v@.take(i as int));
        }
        r.push(c);
        i = i + 1;
    }
    assert(v@.take(v.len() as int) == v@);
    r
}

pub fn clone_members(m: &Vec<(String, Json)>) -> (r: Vec<(String, Json)>)
    ensures
        jv_members(r@) == jv_members(m@),
    decreases m,
{
    let mut r: Vec<(String, Json)> = Vec::new();
    let mut i: usize = 0;
    while i < m.len()
        invariant
            i <= m.len(),
            jv_members(r@) == jv_members(m@.take(i as int)),
        decreases m.len() - i,
    {
        assert(decreases_to!(m => m@[i as int].1));
        let c = m[i].1.deep_clone();
        let e = (m[i].0.clone(), c);
        proof {
            lemma_jv_members_push(r@, e);
            assert(m@.take(i + 1).drop_last() == m@.take(i as int));
        }
        r.push(e);
        i = i + 1;
    }
    assert(m@.take(m.len() as int) == m@);
    r
}

/// Finds the member named `key`.
pub fn member_lookup<'a>(m: &'a Vec<(String, Json)>, key: &str) -> (r: Option<&'a Json>)
    ensures
        match r {
            Some(x) => member_get(jv_members(m@), key@) == Some(x@),
            None => member_get(jv_members(m@), key@) is None,
        },
{
    proof {
        lemma_jv_members(m@);
    }
    match member_position(m, key) {
        Some(i) => Some(&m[i].1),
        None => None,
    }
}

/// Position of the first member named `key`.
pub fn member_position(m: &Vec<(String, Json)>, key: &str) -> (r: Option<usize>)
    ensures
        match r {
            Some(i) => i < m@.len() && member_index(jv_members(m@), key@) == i as int,
            None => member_index(jv_members(m@), key@) < 0,
        },
{
    proof {
        lemma_jv_members(m@);
    }
    let mut i: usize = 0;
    while i < m.len()
        invariant
            i <= m.len(),
            jv_members(m@).len() == m@.len(),
            forall|j: int|
                0 <= j < m@.len() ==> #[trigger] jv_members(m@)[j] == (m@[j].0@, jv(m@[j].1)),
            forall|j: int| 0 <= j < i ==> (#[trigger] m@[j]).0@ != key@,
        decreases m.len() - i,
    {
        if str_eq(m[i].0.as_str(), key) {
            proof {
                lemma_member_index(jv_members(m@), key@);
                let a = member_index(jv_members(m@), key@);
                assert(jv_members(m@)[i as int].0 == key@);
                if a >= 0 && a < i {
                    assert(jv_members(m@)[a].0 == m@[a].0@);
                }
            }
            return Some(i);
        }
        i = i + 1;
    }
    proof {
        lemma_member_index(jv_members(m@), key@);
        let a = member_index(jv_members(m@), key@);
        if a >= 0 {
            assert(jv_members(m@)[a].0 == m@[a].0@);
        }
    }
    None
}

/// Sets the member `key` to `value` (a JSON map insert).
pub fn member_set(m: &mut Vec<(String, Json)>, key: String, value: Json)
    ensures
        jv_members(final(m)@) == member_insert(jv_members(old(m)@), key@, value@),
{
    proof {
        lemma_jv_members(old(m)@);
    }
    let pos = member_position(m, key.as_str());
    let ghost kv = key@;
    let ghost vv = value@;
    match pos {
        Some(i) => {
            let ghost before = m@;
            m.set(i, (key, value));
            proof {
                lemma_jv_members(m@);
                assert(jv_members(m@) =~= jv_members(before).update(i as int, (kv, vv)));
            }
        },
        None => {
            let ghost before = m@;
            let e = (key, value);
            proof {
                lemma_jv_members_push(before, e);
            }
            m.push(e);
        },
    }
}


#[verifier::external_type_specification]
#[verifier::external_body]
pub struct ExJsonValue(serde_json::Value);

/// What `serde_json` reads from a JSON text: the document, with each number
/// held as the text serde_json writes for it; or serde_json's message for a
/// text that is not JSON.
pub uninterp spec fn json_of_text(text: Seq<char>) -> Result<JsonV, Seq<char>>;

/// A `serde_json::Value` as a library document, one for one.
///
/// Trusted: moves each variant of the `serde_json::Value` into the same
/// variant, writing numbers with `Number`'s `Display`; it claims nothing,
/// and `parse_json` states what the two give together.
#[verifier::external_body]
fn json_from_value(v: serde_json::Value) -> Json {
    match v {
        serde_json::Value::Null => Json::Null,
        serde_json::Value::Bool(b) => Json::Bool(b),
        serde_json::Value::Number(n) => Json::Number(n.to_string()),
        serde_json::Value::String(s) => Json::Str(s),
        serde_json::Value::Array(a) => Json::Array(a.into_iter().map(json_from_value).collect()),
        serde_json::Value::Object(m) => Json::Object(
            m.into_iter().map(|(k, v)| (k, json_from_value(v))).collect(),
        ),
    }
}

/// Reads a JSON text.
///
/// Trusted: `serde_json::from_str::<serde_json::Value>`, converted one for
/// one into a library document (or its error's `Display` text). The contract
/// names the outcome: it depends on the text alone.
#[verifier::external_body]
pub fn parse_json(text: &str) -> (r: Result<Json, String>)
    ensures
        match json_of_text(text@) {
            Ok(j) => r matches Ok(x) && x@ == j,
            Err(e) => r matches Err(m) && m@ == e,
        },
{
    match serde_json::from_str::<serde_json::Value>(text) {
        Ok(v) => Ok(json_from_value(v)),
        Err(e) => Err(e.to_string()),
    }
}

} // verus!
