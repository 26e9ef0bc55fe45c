//! `$ref` handling for JSON Schemas: collecting the component schemas a
//! schema refers to, closing that set under reference, and rebasing the refs
//! onto `#/$defs/`.
use vstd::prelude::*;

use crate::json::{
    member_insert, member_position, member_set,
    lemma_member_index, member_get, member_index, member_lookup,
    jv, jv_members, jv_seq, lemma_jv_members, lemma_jv_members_push, lemma_jv_seq, lemma_jv_seq_push,
    Json, JsonV,
};
use crate::text::{
    lemma_text_lt_total, lemma_text_lt_trans, owned, push_str, str_eq, strip_prefix,
    strip_prefix_exec, text_less, text_lt,
};

verus! {

/// The prefix of a reference to a component schema.
pub open spec fn components_prefix() -> Seq<char> {
    "#/components/schemas/"@
}

/// The prefix of a reference into a schema's own `$defs`.
pub open spec fn defs_prefix() -> Seq<char> {
    "#/$defs/"@
}

/// The component schema that a `$ref` value names, if it names one.
pub open spec fn ref_target(v: JsonV) -> Option<Seq<char>> {
    match v {
        JsonV::Str(r) => strip_prefix(r, components_prefix()),
        _ => None,
    }
}

/// The names of all component schemas referred to (through a `$ref` member
/// whose value is a `#/components/schemas/...` string) anywhere in `j`. The
/// value of a `$ref` member is not searched further.
pub open spec fn refs(j: JsonV) -> Set<Seq<char>>
    decreases j, 0int,
{
    match j {
        JsonV::Array(a) => refs_items(a),
        JsonV::Object(m) => refs_members(m),
        _ => Set::empty(),
    }
}

pub open spec fn refs_items(s: Seq<JsonV>) -> Set<Seq<char>>
    decreases s, 0int,
{
    if s.len() == 0 {
        Set::empty()
    } else {
        refs_items(s.drop_last()).union(refs(s.last()))
    }
}

pub open spec fn refs_members(s: Seq<(Seq<char>, JsonV)>) -> Set<Seq<char>>
    decreases s, 0int,
{
    if s.len() == 0 {
        Set::empty()
    } else {
        refs_members(s.drop_last()).union(member_refs(s.last().0, s.last().1))
    }
}

pub open spec fn member_refs(k: Seq<char>, v: JsonV) -> Set<Seq<char>>
    decreases v, 1int,
{
    if k == "$ref"@ {
        match ref_target(v) {
            Some(n) => Set::empty().insert(n),
            None => Set::empty(),
        }
    } else {
        refs(v)
    }
}

/// `j` with every `#/components/schemas/X` held by a `$ref` member rewritten
/// to `#/$defs/X`.
pub open spec fn rebased(j: JsonV) -> JsonV
    decreases j, 0int,
{
    match j {
        JsonV::Array(a) => JsonV::Array(rebased_items(a)),
        JsonV::Object(m) => JsonV::Object(rebased_members(m)),
        _ => j,
    }
}

pub open spec fn rebased_items(s: Seq<JsonV>) -> Seq<JsonV>
    decreases s, 0int,
{
    if s.len() == 0 {
        Seq::empty()
    } else {
        rebased_items(s.drop_last()).push(rebased(s.last()))
    }
}

pub open spec fn rebased_members(s: Seq<(Seq<char>, JsonV)>) -> Seq<(Seq<char>, JsonV)>
    decreases s, 0int,
{
    if s.len() == 0 {
        Seq::empty()
    } else {
        rebased_members(s.drop_last()).push(rebased_member(s.last().0, s.last().1))
    }
}

pub open spec fn rebased_member(k: Seq<char>, v: JsonV) -> (Seq<char>, JsonV)
    decreases v, 1int,
{
    if k == "$ref"@ {
        match ref_target(v) {
            Some(n) => (k, JsonV::Str(defs_prefix() + n)),
            None => (k, v),
        }
    } else {
        (k, rebased(v))
    }
}

/// The set of names a list of strings holds.
pub open spec fn names(v: Seq<String>) -> Set<Seq<char>> {
    Set::new(|x: Seq<char>| exists|i: int| 0 <= i < v.len() && #[trigger] v[i]@ == x)
}

pub proof fn lemma_names_push(v: Seq<String>, s: String)
    ensures
        names(v.push(s)) == names(v).insert(s@),
{
    assert(names(v.push(s)) =~= names(v).insert(s@)) by {
        assert forall|x: Seq<char>| names(v).insert(s@).contains(x) implies names(
            v.push(s),
        ).contains(x) by {
            if x == s@ {
                assert(v.push(s)[v.len() as int]@ == x);
            } else {
                let i = choose|i: int| 0 <= i < v.len() && #[trigger] v[i]@ == x;
                assert(v.push(s)[i]@ == x);
            }
        }
        assert forall|x: Seq<char>| names(v.push(s)).contains(x) implies names(v).insert(
            s@,
        ).contains(x) by {
            let i = choose|i: int| 0 <= i < v.len() + 1 && #[trigger] v.push(s)[i]@ == x;
            if i < v.len() {
                assert(v[i]@ == x);
            }
        }
    }
}

pub proof fn lemma_names_insert(v: Seq<String>, p: int, s: String)
    requires
        0 <= p <= v.len(),
    ensures
        names(v.insert(p, s)) == names(v).insert(s@),
{
    let w = v.insert(p, s);
    assert(names(w) =~= names(v).insert(s@)) by {
        assert forall|x: Seq<char>| names(v).insert(s@).contains(x) implies names(w).contains(x) by {
            if x == s@ {
                assert(w[p]@ == x);
            } else {
                let i = choose|i: int| 0 <= i < v.len() && #[trigger] v[i]@ == x;
                if i < p {
                    assert(w[i]@ == x);
                } else {
                    assert(w[i + 1]@ == x);
                }
            }
        }
        assert forall|x: Seq<char>| names(w).contains(x) implies names(v).insert(s@).contains(x) by {
            let i = choose|i: int| 0 <= i < w.len() && #[trigger] w[i]@ == x;
            if i < p {
                assert(v[i]@ == x);
            } else if i > p {
                assert(v[i - 1]@ == x);
            }
        }
    }
}

/// Every name in `v` comes before the next, as Rust orders strings.
pub open spec fn names_ascending(v: Seq<String>) -> bool {
    forall|i: int, j: int| 0 <= i < j < v.len() ==> text_lt(#[trigger] v[i]@, #[trigger] v[j]@)
}

/// The names of `v`, each once, in ascending order (the order in which a
/// `BTreeSet` of them is walked).
pub fn sorted_names(v: &Vec<String>) -> (r: Vec<String>)
    ensures
        names(r@) == names(v@),
        names_ascending(r@),
{
    let mut r: Vec<String> = Vec::new();
    let mut i: usize = 0;
    assert(names(v@.take(0)) =~= names(r@));
    while i < v.len()
        invariant
            i <= v.len(),
            names(r@) == names(v@.take(i as int)),
            names_ascending(r@),
        decreases v.len() - i,
    {
        let x = &v[i];
        let mut p: usize = 0;
        while p < r.len() && text_less(r[p].as_str(), x.as_str())
            invariant
                p <= r@.len(),
                forall|k: int| 0 <= k < p ==> text_lt(#[trigger] r@[k]@, x@),
            decreases r.len() - p,
        {
            p = p + 1;
        }
        proof {
            assert(v@.take(i + 1) == v@.take(i as int).push(v@[i as int]));
            lemma_names_push(v@.take(i as int), v@[i as int]);
        }
        if p < r.len() && str_eq(r[p].as_str(), x.as_str()) {
            assert(names(r@).contains(x@));
            assert(names(r@).insert(x@) =~= names(r@));
        } else {
            let ghost old_r = r@;
            let y = x.clone();
            r.insert(p, y);
            proof {
                lemma_names_insert(old_r, p as int, y);
                if p < old_r.len() {
                    lemma_text_lt_total(old_r[p as int]@, x@);
                }
                assert forall|a: int, b: int| 0 <= a < b < r@.len() implies text_lt(
                    #[trigger] r@[a]@,
                    #[trigger] r@[b]@,
                ) by {
                    if b < p {
                        assert(r@[a] == old_r[a] && r@[b] == old_r[b]);
                    } else if b == p {
                        assert(r@[a] == old_r[a]);
                    } else {
                        let rb = old_r[b - 1];
                        assert(r@[b] == rb);
                        if p < b - 1 {
                            assert(text_lt(old_r[p as int]@, rb@));
                            lemma_text_lt_trans(x@, old_r[p as int]@, rb@);
                        }
                        if a < p {
                            assert(r@[a] == old_r[a]);
                            lemma_text_lt_trans(old_r[a]@, x@, rb@);
                        } else if a > p {
                            assert(r@[a] == old_r[a - 1]);
                        }
                    }
                }
            }
        }
        i = i + 1;
    }
    assert(v@.take(v.len() as int) == v@);
    r
}

/// Whether the list holds a string equal to `x`.
pub fn contains_name(v: &Vec<String>, x: &str) -> (r: bool)
    ensures
        r == names(v@).contains(x@),
{
    let mut i: usize = 0;
    while i < v.len()
        invariant
            i <= v.len(),
            forall|j: int| 0 <= j < i ==> (#[trigger] v@[j])@ != x@,
        decreases v.len() - i,
    {
        if str_eq(v[i].as_str(), x) {
            assert(v@[i as int]@ == x@);
            return true;
        }
        i = i + 1;
    }
    false
}

/// Adds `x` to the set of names held by `v`, unless it is there already.
pub fn insert_name(v: &mut Vec<String>, x: String) -> (added: bool)
    ensures
        names(final(v)@) == names(old(v)@).insert(x@),
        added == !names(old(v)@).contains(x@),
        added ==> final(v)@ == old(v)@.push(x),
        !added ==> final(v)@ == old(v)@,
{
    if contains_name(v, x.as_str()) {
        assert(names(v@).insert(x@) =~= names(v@));
        false
    } else {
        proof {
            lemma_names_push(v@, x);
        }
        v.push(x);
        true
    }
}

/// Collects into `out` the names of the component schemas that `v` refers to.
pub fn collect_refs(v: &Json, out: &mut Vec<String>)
    ensures
        names(final(out)@) == names(old(out)@).union(refs(v@)),
    decreases v, 0int,
{
    match v {
        Json::Object(m) => {
            let ghost mv = jv_members(m@);
            proof {
                lemma_jv_members(m@);
            }
            let mut i: usize = 0;
            while i < m.len()
                invariant
                    i <= m.len(),
                    *v == Json::Object(*m),
                    mv == jv_members(m@),
                    mv.len() == m@.len(),
                    forall|j: int|
                        0 <= j < m@.len() ==> #[trigger] mv[j] == (m@[j].0@, jv(m@[j].1)),
                    names(out@) == names(old(out)@).union(refs_members(mv.take(i as int))),
                decreases m.len() - i,
            {
                let ghost before = out@;
                proof {
                    assert(decreases_to!(*v => v->Object_0));
                    assert(decreases_to!(m => m@[i as int]));
                    assert(decreases_to!(m@[i as int] => m@[i as int].1));
                }
                collect_member_refs(&m[i].0, &m[i].1, out);
                assert(mv.take(i + 1).drop_last() == mv.take(i as int));
                assert(names(out@) =~= names(old(out)@).union(
                    refs_members(mv.take(i + 1)),
                ));
                i = i + 1;
            }
            assert(mv.take(m.len() as int) == mv);
        },
        Json::Array(a) => {
            let ghost av = jv_seq(a@);
            proof {
                lemma_jv_seq(a@);
            }
            let mut i: usize = 0;
            while i < a.len()
                invariant
                    i <= a.len(),
                    *v == Json::Array(*a),
                    av == jv_seq(a@),
                    av.len() == a@.len(),
                    forall|j: int| 0 <= j < a@.len() ==> #[trigger] av[j] == jv(a@[j]),
                    names(out@) == names(old(out)@).union(refs_items(av.take(i as int))),
                decreases a.len() - i,
            {
                proof {
                    assert(decreases_to!(*v => v->Array_0));
                    assert(decreases_to!(a => a@[i as int]));
                }
                collect_refs(&a[i], out);
                assert(av.take(i + 1).drop_last() == av.take(i as int));
                assert(names(out@) =~= names(old(out)@).union(refs_items(av.take(i + 1))));
                i = i + 1;
            }
            assert(av.take(a.len() as int) == av);
        },
        _ => {
            assert(names(out@) =~= names(old(out)@).union(refs(v@)));
        },
    }
}

fn collect_member_refs(k: &String, v: &Json, out: &mut Vec<String>)
    ensures
        names(final(out)@) == names(old(out)@).union(member_refs(k@, v@)),
    decreases v, 1int,
{
    if str_eq(k.as_str(), "$ref") {
        match v {
            Json::Str(r) => {
                match strip_prefix_exec(r.as_str(), "#/components/schemas/") {
                    Some(name) => {
                        insert_name(out, name);
                        assert(names(out@) =~= names(old(out)@).union(member_refs(k@, v@)));
                    },
                    None => {
                        assert(names(out@) =~= names(old(out)@).union(member_refs(k@, v@)));
                    },
                }
            },
            _ => {
                assert(names(out@) =~= names(old(out)@).union(member_refs(k@, v@)));
            },
        }
    } else {
        collect_refs(v, out);
    }
}

/// `v` with its component refs rebased onto `#/$defs/`.
pub fn rewrite_refs(v: &Json) -> (r: Json)
    ensures
        r@ == rebased(v@),
    decreases v, 0int,
{
    match v {
        Json::Object(m) => {
            let ghost mv = jv_members(m@);
            proof {
                lemma_jv_members(m@);
            }
            let mut out: Vec<(String, Json)> = Vec::new();
            let mut i: usize = 0;
            while i < m.len()
                invariant
                    i <= m.len(),
                    *v == Json::Object(*m),
                    mv == jv_members(m@),
                    mv.len() == m@.len(),
                    forall|j: int|
                        0 <= j < m@.len() ==> #[trigger] mv[j] == (m@[j].0@, jv(m@[j].1)),
                    jv_members(out@) == rebased_members(mv.take(i as int)),
                decreases m.len() - i,
            {
                proof {
                    assert(decreases_to!(*v => v->Object_0));
                    assert(decreases_to!(m => m@[i as int]));
                    assert(decreases_to!(m@[i as int] => m@[i as int].1));
                }
                let e = rewrite_member(&m[i].0, &m[i].1);
                proof {
                    lemma_jv_members_push(out@, e);
                }
                out.push(e);
                assert(mv.take(i + 1).drop_last() == mv.take(i as int));
                i = i + 1;
            }
            assert(mv.take(m.len() as int) == mv);
            Json::Object(out)
        },
        Json::Array(a) => {
            let ghost av = jv_seq(a@);
            proof {
                lemma_jv_seq(a@);
            }
            let mut out: Vec<Json> = Vec::new();
            let mut i: usize = 0;
            while i < a.len()
                invariant
                    i <= a.len(),
                    *v == Json::Array(*a),
                    av == jv_seq(a@),
                    av.len() == a@.len(),
                    forall|j: int| 0 <= j < a@.len() ==> #[trigger] av[j] == jv(a@[j]),
                    jv_seq(out@) == rebased_items(av.take(i as int)),
                decreases a.len() - i,
            {
                proof {
                    assert(decreases_to!(*v => v->Array_0));
                    assert(decreases_to!(a => a@[i as int]));
                }
                let e = rewrite_refs(&a[i]);
                proof {
                    lemma_jv_seq_push(out@, e);
                }
                out.push(e);
                assert(av.take(i + 1).drop_last() == av.take(i as int));
                i = i + 1;
            }
            assert(av.take(a.len() as int) == av);
            Json::Array(out)
        },
        _ => v.deep_clone(),
    }
}

fn rewrite_member(k: &String, v: &Json) -> (r: (String, Json))
    ensures
        (r.0@, r.1@) == rebased_member(k@, v@),
    decreases v, 1int,
{
    if str_eq(k.as_str(), "$ref") {
        match v {
            Json::Str(s) => {
                match strip_prefix_exec(s.as_str(), "#/components/schemas/") {
                    Some(name) => {
                        let mut t = owned("#/$defs/");
                        push_str(&mut t, name.as_str());
                        (k.clone(), Json::Str(t))
                    },
                    None => (k.clone(), v.deep_clone()),
                }
            },
            _ => (k.clone(), v.deep_clone()),
        }
    } else {
        (k.clone(), rewrite_refs(v))
    }
}


/// A copy of a list of names.
pub fn clone_names(v: &Vec<String>) -> (r: Vec<String>)
    ensures
        r@ == v@,
{
    let mut r: Vec<String> = Vec::new();
    let mut i: usize = 0;
    while i < v.len()
        invariant
            i <= v.len(),
            r@ == v@.take(i as int),
        decreases v.len() - i,
    {
        r.push(v[i].clone());
        i = i + 1;
        assert(r@ =~= v@.take(i as int));
    }
    assert(v@.take(v.len() as int) =~= v@);
    r
}

/// The component schema named `n`.
pub open spec fn def_of(schemas: Seq<(Seq<char>, JsonV)>, n: Seq<char>) -> Option<JsonV> {
    member_get(schemas, n)
}

/// `p` is a chain of references that starts at a seed name: each name in it
/// is a component schema that refers to the next.
pub open spec fn is_ref_path(
    schemas: Seq<(Seq<char>, JsonV)>,
    seed: Set<Seq<char>>,
    p: Seq<Seq<char>>,
) -> bool {
    &&& p.len() > 0
    &&& seed.contains(p[0])
    &&& forall|i: int|
        0 <= i < p.len() - 1 ==> match #[trigger] def_of(schemas, p[i]) {
            Some(d) => refs(d).contains(p[i + 1]),
            None => false,
        }
}

/// The names reachable from the seed names through references.
pub open spec fn ref_closure_set(schemas: Seq<(Seq<char>, JsonV)>, seed: Set<Seq<char>>) -> Set<
    Seq<char>,
> {
    Set::new(
        |n: Seq<char>|
            exists|p: Seq<Seq<char>>| #[trigger] is_ref_path(schemas, seed, p) && p.last() == n,
    )
}

/// A set that holds the seed and every name referred to by the schemas of
/// its members.
pub open spec fn closed_over(
    schemas: Seq<(Seq<char>, JsonV)>,
    seed: Set<Seq<char>>,
    s: Set<Seq<char>>,
) -> bool {
    &&& seed.subset_of(s)
    &&& forall|x: Seq<char>|
        #![trigger s.contains(x)]
        s.contains(x) ==> match def_of(schemas, x) {
            Some(d) => refs(d).subset_of(s),
            None => true,
        }
}

/// Every set closed over the references holds the whole closure.
pub proof fn lemma_closure_least(
    schemas: Seq<(Seq<char>, JsonV)>,
    seed: Set<Seq<char>>,
    s: Set<Seq<char>>,
)
    requires
        closed_over(schemas, seed, s),
    ensures
        ref_closure_set(schemas, seed).subset_of(s),
{
    assert forall|n: Seq<char>| ref_closure_set(schemas, seed).contains(n) implies s.contains(
        n,
    ) by {
        let p = choose|p: Seq<Seq<char>>| #[trigger] is_ref_path(schemas, seed, p) && p.last() == n;
        lemma_path_in_closed(schemas, seed, s, p, p.len() - 1);
    }
}

proof fn lemma_path_in_closed(
    schemas: Seq<(Seq<char>, JsonV)>,
    seed: Set<Seq<char>>,
    s: Set<Seq<char>>,
    p: Seq<Seq<char>>,
    i: int,
)
    requires
        closed_over(schemas, seed, s),
        is_ref_path(schemas, seed, p),
        0 <= i < p.len(),
    ensures
        s.contains(p[i]),
    decreases i,
{
    if i > 0 {
        lemma_path_in_closed(schemas, seed, s, p, i - 1);
        assert(s.contains(p[i - 1]));
        let d = def_of(schemas, p[i - 1]);
        assert(d is Some);
    }
}

pub proof fn lemma_closure_step(
    schemas: Seq<(Seq<char>, JsonV)>,
    seed: Set<Seq<char>>,
    n: Seq<char>,
    d: JsonV,
    r: Seq<char>,
)
    requires
        ref_closure_set(schemas, seed).contains(n),
        def_of(schemas, n) == Some(d),
        refs(d).contains(r),
    ensures
        ref_closure_set(schemas, seed).contains(r),
{
    let p = choose|p: Seq<Seq<char>>| #[trigger] is_ref_path(schemas, seed, p) && p.last() == n;
    let q = p.push(r);
    assert forall|i: int| 0 <= i < q.len() - 1 implies match #[trigger] def_of(schemas, q[i]) {
        Some(d) => refs(d).contains(q[i + 1]),
        None => false,
    } by {
        if i < p.len() - 1 {
            assert(q[i] == p[i]);
            assert(q[i + 1] == p[i + 1]);
            assert(def_of(schemas, p[i]) is Some);
        }
    }
    assert(is_ref_path(schemas, seed, q));
}

pub proof fn lemma_seed_in_closure(schemas: Seq<(Seq<char>, JsonV)>, seed: Set<Seq<char>>, n: Seq<char>)
    requires
        seed.contains(n),
    ensures
        ref_closure_set(schemas, seed).contains(n),
{
    let p = seq![n];
    assert(is_ref_path(schemas, seed, p));
}

/// Number of schema entries whose names are not in `seen`.
pub open spec fn unseen(schemas: Seq<(Seq<char>, JsonV)>, seen: Set<Seq<char>>) -> nat
    decreases schemas.len(),
{
    if schemas.len() == 0 {
        0
    } else {
        unseen(schemas.drop_last(), seen) + if seen.contains(schemas.last().0) {
            0nat
        } else {
            1nat
        }
    }
}

pub proof fn lemma_unseen_mono(
    schemas: Seq<(Seq<char>, JsonV)>,
    a: Set<Seq<char>>,
    b: Set<Seq<char>>,
)
    requires
        a.subset_of(b),
    ensures
        unseen(schemas, b) <= unseen(schemas, a),
    decreases schemas.len(),
{
    if schemas.len() > 0 {
        lemma_unseen_mono(schemas.drop_last(), a, b);
    }
}

pub proof fn lemma_unseen_insert(schemas: Seq<(Seq<char>, JsonV)>, a: Set<Seq<char>>, k: Seq<char>)
    requires
        member_index(schemas, k) >= 0,
        !a.contains(k),
    ensures
        unseen(schemas, a.insert(k)) < unseen(schemas, a),
    decreases schemas.len(),
{
    let d = schemas.drop_last();
    lemma_member_index(schemas, k);
    lemma_unseen_mono(d, a, a.insert(k));
    if member_index(d, k) >= 0 {
        lemma_unseen_insert(d, a, k);
    }
}

/// The names of the component schemas reachable from `seed` through
/// references (including the seed names themselves).
pub fn ref_closure(seed: &Vec<String>, schemas: &Vec<(String, Json)>) -> (r: Vec<String>)
    ensures
        names(r@) == ref_closure_set(jv_members(schemas@), names(seed@)),
{
    let ghost sv = jv_members(schemas@);
    let ghost sd = names(seed@);
    let ghost cl = ref_closure_set(sv, sd);
    let mut seen: Vec<String> = Vec::new();
    let mut stack: Vec<String> = clone_names(seed);
    assert(names(seen@) =~= Set::empty());
    proof {
        assert forall|x: Seq<char>| names(stack@).contains(x) implies cl.contains(x) by {
            lemma_seed_in_closure(sv, sd, x);
        }
    }
    while stack.len() > 0
        invariant
            sv == jv_members(schemas@),
            sd == names(seed@),
            cl == ref_closure_set(sv, sd),
            names(seen@).subset_of(cl),
            names(stack@).subset_of(cl),
            sd.subset_of(names(seen@).union(names(stack@))),
            forall|x: Seq<char>|
                #![trigger names(seen@).contains(x)]
                names(seen@).contains(x) ==> match def_of(sv, x) {
                    Some(d) => refs(d).subset_of(names(seen@).union(names(stack@))),
                    None => true,
                },
        decreases unseen(sv, names(seen@)), stack@.len(),
    {
        let ghost stack0 = stack@;
        let ghost seen0 = names(seen@);
        let name = stack.pop().unwrap();
        assert(stack0 == stack@.push(name));
        proof {
            lemma_names_push(stack@, name);
        }
        let key = name.clone();
        let added = insert_name(&mut seen, name);
        if added {
            let found = member_lookup(schemas, key.as_str());
            match found {
                Some(def) => {
                    proof {
                        lemma_member_index(sv, key@);
                        lemma_unseen_insert(sv, seen0, key@);
                    }
                    let mut found_refs: Vec<String> = Vec::new();
                    collect_refs(def, &mut found_refs);
                    assert(names(found_refs@) =~= refs(def@));
                    let ghost stack1 = stack@;
                    let mut j: usize = 0;
                    while j < found_refs.len()
                        invariant
                            j <= found_refs.len(),
                            names(found_refs@) == refs(def@),
                            names(stack@).subset_of(cl),
                            names(stack1).subset_of(names(stack@)),
                            cl.contains(key@),
                            def_of(sv, key@) == Some(def@),
                            cl == ref_closure_set(sv, sd),
                            forall|t: int|
                                0 <= t < j ==> names(seen@).union(names(stack@)).contains(
                                    #[trigger] found_refs@[t]@,
                                ),
                        decreases found_refs.len() - j,
                    {
                        let r = found_refs[j].clone();
                        assert(refs(def@).contains(r@)) by {
                            assert(names(found_refs@).contains(found_refs@[j as int]@));
                        }
                        proof {
                            lemma_closure_step(sv, sd, key@, def@, r@);
                        }
                        if !contains_name(&seen, r.as_str()) {
                            let ghost st = stack@;
                            proof {
                                lemma_names_push(st, r);
                            }
                            stack.push(r);
                            assert(st.push(r) == stack@);
                        }
                        proof {
                            assert forall|t: int| 0 <= t < j + 1 implies names(seen@).union(
                                names(stack@),
                            ).contains(#[trigger] found_refs@[t]@) by {
                                if t == j {
                                } else {
                                }
                            }
                        }
                        j = j + 1;
                    }
                    proof {
                        assert(refs(def@).subset_of(names(seen@).union(names(stack@)))) by {
                            assert forall|x: Seq<char>| refs(def@).contains(x) implies names(
                                seen@,
                            ).union(names(stack@)).contains(x) by {
                                assert(names(found_refs@).contains(x));
                                let t = choose|t: int|
                                    0 <= t < found_refs@.len() && #[trigger] found_refs@[t]@ == x;
                            }
                        }
                    }
                },
                None => {
                    proof {
                        lemma_unseen_mono(sv, seen0, names(seen@));
                    }
                },
            }
        }
    }
    proof {
        assert(names(stack@) =~= Set::empty());
        lemma_closure_least(sv, sd, names(seen@));
        assert(names(seen@) =~= cl);
    }
    seen
}


/// `out` with each member of `props` inserted in turn.
pub open spec fn insert_all(
    out: Seq<(Seq<char>, JsonV)>,
    props: Seq<(Seq<char>, JsonV)>,
) -> Seq<(Seq<char>, JsonV)>
    decreases props.len(),
{
    if props.len() == 0 {
        out
    } else {
        member_insert(insert_all(out, props.drop_last()), props.last().0, props.last().1)
    }
}

/// The properties that an object schema composes, through its own
/// `properties`, the members of its `allOf`, and the component schema its
/// `$ref` names, each component schema expanded at most once (`seen` holds
/// those already expanded). The walk expands `$ref`s first, then `allOf`
/// members in order, then inserts the schema's own properties; a later
/// property of the same name replaces an earlier one. `budget` bounds the
/// number of expansions and is never exhausted when it is at least the
/// number of schemas not yet seen.
pub open spec fn flattened(
    schema: JsonV,
    schemas: Seq<(Seq<char>, JsonV)>,
    out: Seq<(Seq<char>, JsonV)>,
    seen: Set<Seq<char>>,
    budget: nat,
) -> (Seq<(Seq<char>, JsonV)>, Set<Seq<char>>)
    decreases budget, schema,
{
    match schema {
        JsonV::Object(mm) => {
            let (o1, s1) = match member_get(mm, "$ref"@) {
                Some(JsonV::Str(r)) => match strip_prefix(r, components_prefix()) {
                    Some(name) => if !seen.contains(name) {
                        match def_of(schemas, name) {
                            Some(def) => if budget > 0 {
                                flattened(def, schemas, out, seen.insert(name), (budget - 1) as nat)
                            } else {
                                (out, seen.insert(name))
                            },
                            None => (out, seen.insert(name)),
                        }
                    } else {
                        (out, seen)
                    },
                    None => (out, seen),
                },
                _ => (out, seen),
            };
            let ai = member_index(mm, "allOf"@);
            let (o2, s2) = if 0 <= ai < mm.len() {
                match mm[ai].1 {
                    JsonV::Array(items) => {
                        flattened_all(items, schemas, o1, s1, budget)
                    },
                    _ => (o1, s1),
                }
            } else {
                (o1, s1)
            };
            let o3 = match member_get(mm, "properties"@) {
                Some(JsonV::Object(props)) => insert_all(o2, props),
                _ => o2,
            };
            (o3, s2)
        },
        _ => (out, seen),
    }
}

pub open spec fn flattened_all(
    items: Seq<JsonV>,
    schemas: Seq<(Seq<char>, JsonV)>,
    out: Seq<(Seq<char>, JsonV)>,
    seen: Set<Seq<char>>,
    budget: nat,
) -> (Seq<(Seq<char>, JsonV)>, Set<Seq<char>>)
    decreases budget, items,
{
    if items.len() == 0 {
        (out, seen)
    } else {
        let (o, s) = flattened_all(items.drop_last(), schemas, out, seen, budget);
        flattened(items.last(), schemas, o, s, budget)
    }
}

/// The flattened properties of a schema, walked from scratch.
pub open spec fn flat_props(schema: JsonV, schemas: Seq<(Seq<char>, JsonV)>) -> Seq<
    (Seq<char>, JsonV),
> {
    flattened(schema, schemas, Seq::empty(), Set::empty(), schemas.len()).0
}

pub proof fn lemma_unseen_bound(schemas: Seq<(Seq<char>, JsonV)>, a: Set<Seq<char>>)
    ensures
        unseen(schemas, a) <= schemas.len(),
    decreases schemas.len(),
{
    if schemas.len() > 0 {
        lemma_unseen_bound(schemas.drop_last(), a);
    }
}

/// Flattens an (`allOf`/`$ref`-composed) object schema into `out`.
pub(crate) fn flatten_props(
    schema: &Json,
    schemas: &Vec<(String, Json)>,
    out: &mut Vec<(String, Json)>,
    seen: &mut Vec<String>,
    Ghost(budget): Ghost<nat>,
)
    requires
        budget >= unseen(jv_members(schemas@), names(old(seen)@)),
    ensures
        (jv_members(final(out)@), names(final(seen)@)) == flattened(
            schema@,
            jv_members(schemas@),
            jv_members(old(out)@),
            names(old(seen)@),
            budget,
        ),
        names(old(seen)@).subset_of(names(final(seen)@)),
    decreases budget, schema,
{
    let ghost sv = jv_members(schemas@);
    match schema {
        Json::Object(m) => {
            let ghost mm = jv_members(m@);
            proof {
                lemma_jv_members(m@);
                lemma_member_index(mm, "$ref"@);
                lemma_member_index(mm, "allOf"@);
                lemma_member_index(mm, "properties"@);
            }
            // The component schema named by `$ref`.
            match member_lookup(m, "$ref") {
                Some(Json::Str(r)) => {
                    match strip_prefix_exec(r.as_str(), "#/components/schemas/") {
                        Some(name) => {
                            let ghost seen0 = names(seen@);
                            let key = name.clone();
                            if insert_name(seen, name) {
                                match member_lookup(schemas, key.as_str()) {
                                    Some(def) => {
                                        proof {
                                            lemma_member_index(sv, key@);
                                            lemma_unseen_insert(sv, seen0, key@);
                                        }
                                        let ghost seen1 = names(seen@);
                                        flatten_props(
                                            def,
                                            schemas,
                                            out,
                                            seen,
                                            Ghost((budget - 1) as nat),
                                        );
                                    },
                                    None => {},
                                }
                            }
                        },
                        None => {},
                    }
                },
                _ => {},
            }
            let ghost o1 = jv_members(out@);
            let ghost s1 = names(seen@);
            assert((o1, s1) == match member_get(mm, "$ref"@) {
                Some(JsonV::Str(r)) => match strip_prefix(r, components_prefix()) {
                    Some(name) => if !names(old(seen)@).contains(name) {
                        match def_of(sv, name) {
                            Some(def) => if budget > 0 {
                                flattened(def, sv, jv_members(old(out)@), names(old(seen)@).insert(name), (budget - 1) as nat)
                            } else {
                                (jv_members(old(out)@), names(old(seen)@).insert(name))
                            },
                            None => (jv_members(old(out)@), names(old(seen)@).insert(name)),
                        }
                    } else {
                        (jv_members(old(out)@), names(old(seen)@))
                    },
                    None => (jv_members(old(out)@), names(old(seen)@)),
                },
                _ => (jv_members(old(out)@), names(old(seen)@)),
            });
            assert(names(old(seen)@).subset_of(s1));
            proof {
                lemma_unseen_mono(sv, names(old(seen)@), s1);
            }
            // The members of `allOf`, in order.
            match member_position(m, "allOf") {
                Some(ai) => {
                    proof {
                        assert(decreases_to!(*schema => schema->Object_0));
                        assert(decreases_to!(*m => m@[ai as int]));
                        assert(decreases_to!(m@[ai as int] => m@[ai as int].1));
                    }
                    match &m[ai].1 {
                        Json::Array(items) => {
                            let ghost iv = jv_seq(items@);
                            proof {
                                lemma_jv_seq(items@);
                                assert(decreases_to!(m@[ai as int].1 => m@[ai as int].1->Array_0));
                            }
                            let mut i: usize = 0;
                            while i < items.len()
                                invariant
                                    i <= items.len(),
                                    iv == jv_seq(items@),
                                    iv.len() == items@.len(),
                                    forall|j: int|
                                        0 <= j < items@.len() ==> #[trigger] iv[j] == jv(items@[j]),
                                    sv == jv_members(schemas@),
                                    budget >= unseen(sv, names(seen@)),
                                    s1.subset_of(names(seen@)),
                                    (jv_members(out@), names(seen@)) == flattened_all(
                                        iv.take(i as int),
                                        sv,
                                        o1,
                                        s1,
                                        budget,
                                    ),
                                    *schema == Json::Object(*m),
                                    m@[ai as int].1 == Json::Array(*items),
                                    ai < m@.len(),
                                decreases items.len() - i,
                            {
                                proof {
                                    assert(decreases_to!(*schema => schema->Object_0));
                                    assert(decreases_to!(*m => m@[ai as int]));
                                    assert(decreases_to!(m@[ai as int] => m@[ai as int].1));
                                    assert(decreases_to!(m@[ai as int].1 => m@[ai as int].1->Array_0));
                                    assert(decreases_to!(m@[ai as int].1->Array_0 => items@[i as int]));
                                }
                                let ghost sb = names(seen@);
                                flatten_props(&items[i], schemas, out, seen, Ghost(budget));
                                proof {
                                    lemma_unseen_mono(sv, sb, names(seen@));
                                    assert(iv.take(i + 1).drop_last() == iv.take(i as int));
                                }
                                i = i + 1;
                            }
                            assert(iv.take(items.len() as int) == iv);
                        },
                        _ => {},
                    }
                },
                None => {},
            }
            // The schema's own properties.
            match member_lookup(m, "properties") {
                Some(Json::Object(props)) => {
                    let ghost pv = jv_members(props@);
                    proof {
                        lemma_jv_members(props@);
                    }
                    let ghost o2 = jv_members(out@);
                    let mut k: usize = 0;
                    while k < props.len()
                        invariant
                            k <= props.len(),
                            pv == jv_members(props@),
                            pv.len() == props@.len(),
                            forall|j: int|
                                0 <= j < props@.len() ==> #[trigger] pv[j] == (
                                    props@[j].0@,
                                    jv(props@[j].1),
                                ),
                            jv_members(out@) == insert_all(o2, pv.take(k as int)),
                        decreases props.len() - k,
                    {
                        let key = props[k].0.clone();
                        let val = props[k].1.deep_clone();
                        member_set(out, key, val);
                        assert(pv.take(k + 1).drop_last() == pv.take(k as int));
                        k = k + 1;
                    }
                    assert(pv.take(props.len() as int) == pv);
                },
                _ => {},
            }
        },
        _ => {},
    }
}


pub proof fn lemma_rebased_members_len(s: Seq<(Seq<char>, JsonV)>)
    ensures
        rebased_members(s).len() == s.len(),
        forall|i: int|
            0 <= i < s.len() ==> #[trigger] rebased_members(s)[i] == rebased_member(s[i].0, s[i].1),
    decreases s.len(),
{
    if s.len() > 0 {
        lemma_rebased_members_len(s.drop_last());
    }
}

/// A rebased reference never names a component schema.
proof fn lemma_defs_ref_not_component(n: Seq<char>)
    ensures
        strip_prefix(defs_prefix() + n, components_prefix()) is None,
{
    reveal_strlit("#/$defs/");
    reveal_strlit("#/components/schemas/");
    let s = defs_prefix() + n;
    if s.len() >= components_prefix().len() {
        assert(s.take(components_prefix().len() as int)[2] == '$');
        assert(components_prefix()[2] == 'c');
    }
}

/// Rebasing leaves no reference to a component schema anywhere in a
/// document: after it, every `$ref` points into `#/$defs/` (or was never a
/// component reference).
pub proof fn lemma_rebased_has_no_component_refs(j: JsonV)
    ensures
        refs(rebased(j)) == Set::<Seq<char>>::empty(),
    decreases j, 0int,
{
    match j {
        JsonV::Array(a) => lemma_rebased_items_no_refs(a),
        JsonV::Object(m) => lemma_rebased_members_no_refs(m),
        _ => {},
    }
}

proof fn lemma_rebased_items_no_refs(s: Seq<JsonV>)
    ensures
        refs_items(rebased_items(s)) == Set::<Seq<char>>::empty(),
    decreases s, 0int,
{
    if s.len() > 0 {
        lemma_rebased_items_no_refs(s.drop_last());
        lemma_rebased_has_no_component_refs(s.last());
        let r = rebased_items(s);
        assert(r.drop_last() == rebased_items(s.drop_last()));
        assert(refs_items(r) =~= Set::<Seq<char>>::empty());
    } else {
        assert(rebased_items(s).len() == 0);
    }
}

proof fn lemma_rebased_members_no_refs(s: Seq<(Seq<char>, JsonV)>)
    ensures
        refs_members(rebased_members(s)) == Set::<Seq<char>>::empty(),
    decreases s, 0int,
{
    if s.len() > 0 {
        lemma_rebased_members_no_refs(s.drop_last());
        lemma_rebased_member_no_refs(s.last().0, s.last().1);
        let r = rebased_members(s);
        assert(r.drop_last() == rebased_members(s.drop_last()));
        assert(refs_members(r) =~= Set::<Seq<char>>::empty());
    } else {
        assert(rebased_members(s).len() == 0);
    }
}

proof fn lemma_rebased_member_no_refs(k: Seq<char>, v: JsonV)
    ensures
        member_refs(rebased_member(k, v).0, rebased_member(k, v).1) == Set::<Seq<char>>::empty(),
    decreases v, 1int,
{
    if k == "$ref"@ {
        match ref_target(v) {
            Some(n) => {
                lemma_defs_ref_not_component(n);
                assert(member_refs(rebased_member(k, v).0, rebased_member(k, v).1) =~= Set::<
                    Seq<char>,
                >::empty());
            },
            None => {
                assert(member_refs(rebased_member(k, v).0, rebased_member(k, v).1) =~= Set::<
                    Seq<char>,
                >::empty());
            },
        }
    } else {
        lemma_rebased_has_no_component_refs(v);
    }
}

} // verus!
