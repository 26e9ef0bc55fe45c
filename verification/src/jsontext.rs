//! Compact JSON text of a document, written as serde_json writes it: no
//! whitespace, members in order, strings escaped with `\"`, `\\`, `\b`, `\t`,
//! `\n`, `\f`, `\r` and `\u00xx` (lower-case hex) for other control
//! characters, numbers as their own text.
use vstd::prelude::*;

use crate::json::{jv, jv_members, jv_seq, lemma_jv_members, lemma_jv_seq, Json, JsonV};
use crate::text::{push_char, push_str};

verus! {

/// A hexadecimal digit in lower case.
pub open spec fn hex_lower(d: u8) -> char {
    if d < 10 {
        (48u8 + d) as u8 as char
    } else {
        (87u8 + d) as u8 as char
    }
}

pub fn hex_lower_exec(d: u8) -> (c: char)
    requires
        d < 16,
    ensures
        c == hex_lower(d),
{
    if d < 10 {
        (48u8 + d) as char
    } else {
        (87u8 + d) as char
    }
}

/// How one character of a string is written inside JSON quotes.
pub open spec fn escape_char(c: char) -> Seq<char> {
    if c == '"' {
        seq!['\\', '"']
    } else if c == '\\' {
        seq!['\\', '\\']
    } else if c == '\u{8}' {
        seq!['\\', 'b']
    } else if c == '\t' {
        seq!['\\', 't']
    } else if c == '\n' {
        seq!['\\', 'n']
    } else if c == '\u{c}' {
        seq!['\\', 'f']
    } else if c == '\r' {
        seq!['\\', 'r']
    } else if (c as u32) < 0x20 {
        seq!['\\', 'u', '0', '0', hex_lower(((c as u32) / 16) as u8), hex_lower(((c as u32) % 16) as u8)]
    } else {
        seq![c]
    }
}

/// The escaped characters of a string.
pub open spec fn escaped(s: Seq<char>) -> Seq<char>
    decreases s.len(),
{
    if s.len() == 0 {
        Seq::empty()
    } else {
        escaped(s.drop_last()) + escape_char(s.last())
    }
}

/// A JSON string literal.
pub open spec fn quoted(s: Seq<char>) -> Seq<char> {
    seq!['"'] + escaped(s) + seq!['"']
}

/// The compact JSON text of a document.
pub open spec fn json_text(j: JsonV) -> Seq<char>
    decreases j,
{
    match j {
        JsonV::Null => "null"@,
        JsonV::Bool(b) => if b {
            "true"@
        } else {
            "false"@
        },
        JsonV::Number(n) => n,
        JsonV::Str(s) => quoted(s),
        JsonV::Array(a) => seq!['['] + items_text(a) + seq![']'],
        JsonV::Object(m) => seq!['{'] + members_text(m) + seq!['}'],
    }
}

pub open spec fn items_text(s: Seq<JsonV>) -> Seq<char>
    decreases s,
{
    if s.len() == 0 {
        Seq::empty()
    } else if s.len() == 1 {
        json_text(s[0])
    } else {
        items_text(s.drop_last()) + seq![','] + json_text(s.last())
    }
}

pub open spec fn members_text(s: Seq<(Seq<char>, JsonV)>) -> Seq<char>
    decreases s,
{
    if s.len() == 0 {
        Seq::empty()
    } else if s.len() == 1 {
        quoted(s[0].0) + seq![':'] + json_text(s[0].1)
    } else {
        members_text(s.drop_last()) + seq![','] + quoted(s.last().0) + seq![':'] + json_text(
            s.last().1,
        )
    }
}

fn write_escaped(out: &mut String, s: &str)
    ensures
        final(out)@ == old(out)@ + quoted(s@),
{
    let cs = crate::text::chars_of(s);
    push_char(out, '"');
    let mut i: usize = 0;
    while i < cs.len()
        invariant
            i <= cs@.len(),
            cs@ == s@,
            out@ == old(out)@ + seq!['"'] + escaped(s@.take(i as int)),
        decreases cs.len() - i,
    {
        let c = cs[i];
        let ghost before = out@;
        if c == '"' {
            push_str(out, "\\\"");
            proof {
                reveal_strlit("\\\"");
            }
        } else if c == '\\' {
            push_str(out, "\\\\");
            proof {
                reveal_strlit("\\\\");
            }
        } else if c == '\u{8}' {
            push_str(out, "\\b");
            proof {
                reveal_strlit("\\b");
            }
        } else if c == '\t' {
            push_str(out, "\\t");
            proof {
                reveal_strlit("\\t");
            }
        } else if c == '\n' {
            push_str(out, "\\n");
            proof {
                reveal_strlit("\\n");
            }
        } else if c == '\u{c}' {
            push_str(out, "\\f");
            proof {
                reveal_strlit("\\f");
            }
        } else if c == '\r' {
            push_str(out, "\\r");
            proof {
                reveal_strlit("\\r");
            }
        } else if (c as u32) < 0x20 {
            push_str(out, "\\u00");
            proof {
                reveal_strlit("\\u00");
            }
            let v: u32 = c as u32;
            push_char(out, hex_lower_exec((v / 16) as u8));
            push_char(out, hex_lower_exec((v % 16) as u8));
        } else {
            push_char(out, c);
        }
        assert(out@ =~= before + escape_char(c));
        assert(s@.take(i + 1).drop_last() == s@.take(i as int));
        i = i + 1;
    }
    assert(s@.take(cs@.len() as int) == s@);
    push_char(out, '"');
    assert(out@ =~= old(out)@ + quoted(s@));
}

/// Appends the compact JSON text of `j` to `out`.
pub fn write_json(out: &mut String, j: &Json)
    ensures
        final(out)@ == old(out)@ + json_text(j@),
    decreases j,
{
    match j {
        Json::Null => {
            push_str(out, "null");
        },
        Json::Bool(b) => {
            if *b {
                push_str(out, "true");
            } else {
                push_str(out, "false");
            }
        },
        Json::Number(n) => {
            push_str(out, n.as_str());
        },
        Json::Str(s) => {
            write_escaped(out, s.as_str());
        },
        Json::Array(a) => {
            let ghost av = jv_seq(a@);
            proof {
                lemma_jv_seq(a@);
            }
            push_char(out, '[');
            let ghost start = out@;
            let mut i: usize = 0;
            while i < a.len()
                invariant
                    i <= a.len(),
                    *j == Json::Array(*a),
                    av == jv_seq(a@),
                    av.len() == a@.len(),
                    forall|k: int| 0 <= k < a@.len() ==> #[trigger] av[k] == jv(a@[k]),
                    out@ == start + items_text(av.take(i as int)),
                decreases a.len() - i,
            {
                proof {
                    assert(decreases_to!(*j => j->Array_0));
                    assert(decreases_to!(a => a@[i as int]));
                }
                let ghost before = out@;
                if i > 0 {
                    push_char(out, ',');
                }
                write_json(out, &a[i]);
                proof {
                    let t = av.take(i + 1);
                    assert(t.drop_last() == av.take(i as int));
                    if i == 0 {
                        assert(av.take(0).len() == 0);
                        assert(items_text(av.take(0)) =~= Seq::<char>::empty());
                    }
                    assert(out@ =~= start + items_text(t));
                }
                i = i + 1;
            }
            assert(av.take(a.len() as int) == av);
            push_char(out, ']');
            assert(out@ =~= old(out)@ + json_text(j@));
        },
        Json::Object(m) => {
            let ghost mv = jv_members(m@);
            proof {
                lemma_jv_members(m@);
            }
            push_char(out, '{');
            let ghost start = out@;
            let mut i: usize = 0;
            while i < m.len()
                invariant
                    i <= m.len(),
                    *j == Json::Object(*m),
                    mv == jv_members(m@),
                    mv.len() == m@.len(),
                    forall|k: int|
                        0 <= k < m@.len() ==> #[trigger] mv[k] == (m@[k].0@, jv(m@[k].1)),
                    out@ == start + members_text(mv.take(i as int)),
                decreases m.len() - i,
            {
                proof {
                    assert(decreases_to!(*j => j->Object_0));
                    assert(decreases_to!(m => m@[i as int]));
                    assert(decreases_to!(m@[i as int] => m@[i as int].1));
                }
                let ghost before = out@;
                if i > 0 {
                    push_char(out, ',');
                }
                write_escaped(out, m[i].0.as_str());
                push_char(out, ':');
                write_json(out, &m[i].1);
                proof {
                    let t = mv.take(i + 1);
                    assert(t.drop_last() == mv.take(i as int));
                    if i == 0 {
                        assert(members_text(mv.take(0)) =~= Seq::<char>::empty());
                    }
                    assert(out@ =~= start + members_text(t));
                }
                i = i + 1;
            }
            assert(mv.take(m.len() as int) == mv);
            push_char(out, '}');
            assert(out@ =~= old(out)@ + json_text(j@));
        },
    }
}

/// The compact JSON text of a document.
pub fn to_json_text(j: &Json) -> (r: String)
    ensures
        r@ == json_text(j@),
{
    let mut out = String::new();
    write_json(&mut out, j);
    assert(out@ =~= json_text(j@));
    out
}


/// The value of a hexadecimal digit, of either case.
pub open spec fn hex_value(c: char) -> Option<int> {
    let v = c as int;
    if 48 <= v <= 57 {
        Some(v - 48)
    } else if 97 <= v <= 102 {
        Some(v - 87)
    } else if 65 <= v <= 70 {
        Some(v - 55)
    } else {
        None
    }
}

/// The character that a two-character escape `\e` stands for in a JSON string.
pub open spec fn short_escape(e: char) -> Option<char> {
    if e == '"' {
        Some('"')
    } else if e == '\\' {
        Some('\\')
    } else if e == '/' {
        Some('/')
    } else if e == 'b' {
        Some('\u{8}')
    } else if e == 'f' {
        Some('\u{c}')
    } else if e == 'n' {
        Some('\n')
    } else if e == 'r' {
        Some('\r')
    } else if e == 't' {
        Some('\t')
    } else {
        None
    }
}

/// The character that a `\uABCD` escape stands for, given its four digits
/// (a lone surrogate stands for no character).
pub open spec fn unicode_escape(a: char, b: char, c: char, d: char) -> Option<char> {
    match (hex_value(a), hex_value(b), hex_value(c), hex_value(d)) {
        (Some(x), Some(y), Some(z), Some(w)) => {
            let v = x * 4096 + y * 256 + z * 16 + w;
            if 0xD800 <= v <= 0xDFFF {
                None
            } else {
                Some(v as char)
            }
        },
        _ => None,
    }
}

pub open spec fn prepend(c: char, r: Option<Seq<char>>) -> Option<Seq<char>> {
    match r {
        Some(t) => Some(seq![c] + t),
        None => None,
    }
}

/// What the text between the quotes of a JSON string literal stands for, as
/// the JSON grammar reads it: `None` where the text is no such body (a raw
/// control character, a bare `"`, or a `\` that starts no escape).
pub open spec fn string_body_value(t: Seq<char>) -> Option<Seq<char>>
    decreases t.len(),
{
    if t.len() == 0 {
        Some(Seq::empty())
    } else if t[0] == '\\' && t.len() >= 2 && short_escape(t[1]) is Some {
        prepend(short_escape(t[1])->0, string_body_value(t.subrange(2, t.len() as int)))
    } else if t[0] == '\\' && t.len() >= 6 && t[1] == 'u' && unicode_escape(t[2], t[3], t[4], t[5]) is Some {
        prepend(
            unicode_escape(t[2], t[3], t[4], t[5])->0,
            string_body_value(t.subrange(6, t.len() as int)),
        )
    } else if t[0] == '\\' || t[0] == '"' || (t[0] as u32) < 0x20 {
        None
    } else {
        prepend(t[0], string_body_value(t.drop_first()))
    }
}

/// Whether a text holds no control character (below U+0020).
pub open spec fn free_of_control_chars(t: Seq<char>) -> bool {
    forall|i: int| 0 <= i < t.len() ==> (#[trigger] t[i] as u32) >= 0x20
}

proof fn lemma_hex_lower(d: u8)
    requires
        d < 16,
    ensures
        hex_value(hex_lower(d)) == Some(d as int),
        (hex_lower(d) as u32) >= 0x20,
{
}

proof fn lemma_escape_char_clean(c: char)
    ensures
        free_of_control_chars(escape_char(c)),
{
    if !(c == '"' || c == '\\' || c == '\u{8}' || c == '\t' || c == '\n' || c == '\u{c}' || c
        == '\r') && (c as u32) < 0x20 {
        lemma_hex_lower(((c as u32) / 16) as u8);
        lemma_hex_lower(((c as u32) % 16) as u8);
    }
}

proof fn lemma_escaped_clean(s: Seq<char>)
    ensures
        free_of_control_chars(escaped(s)),
    decreases s.len(),
{
    if s.len() > 0 {
        lemma_escaped_clean(s.drop_last());
        lemma_escape_char_clean(s.last());
        let a = escaped(s.drop_last());
        let b = escape_char(s.last());
        assert forall|i: int| 0 <= i < (a + b).len() implies (#[trigger] (a + b)[i] as u32) >= 0x20 by {
            if i < a.len() {
                assert((a + b)[i] == a[i]);
            } else {
                assert((a + b)[i] == b[i - a.len()]);
            }
        }
    }
}

proof fn lemma_escaped_concat(a: Seq<char>, b: Seq<char>)
    ensures
        escaped(a + b) == escaped(a) + escaped(b),
    decreases b.len(),
{
    if b.len() == 0 {
        assert(a + b =~= a);
        assert(escaped(a) + escaped(b) =~= escaped(a));
    } else {
        lemma_escaped_concat(a, b.drop_last());
        assert((a + b).drop_last() =~= a + b.drop_last());
        assert((a + b).last() == b.last());
        assert(escaped(a + b) =~= escaped(a) + escaped(b));
    }
}

proof fn lemma_escape_char_reads_back(c: char, t: Seq<char>)
    ensures
        string_body_value(escape_char(c) + t) == prepend(c, string_body_value(t)),
{
    let u = escape_char(c) + t;
    if c == '"' || c == '\\' || c == '\u{8}' || c == '\t' || c == '\n' || c == '\u{c}' || c
        == '\r' {
        assert(u[0] == '\\');
        assert(u.subrange(2, u.len() as int) =~= t);
    } else if (c as u32) < 0x20 {
        let v = c as u32;
        let hi = (v / 16) as u8;
        let lo = (v % 16) as u8;
        lemma_hex_lower(hi);
        lemma_hex_lower(lo);
        assert(u[0] == '\\' && u[1] == 'u' && u[2] == '0' && u[3] == '0');
        assert(u[4] == hex_lower(hi) && u[5] == hex_lower(lo));
        assert(hex_value('0') == Some(0int));
        assert(short_escape('u') is None);
        assert(hi as int * 16 + lo as int == v as int);
        assert(unicode_escape(u[2], u[3], u[4], u[5]) == Some(c));
        assert(u.subrange(6, u.len() as int) =~= t);
    } else {
        assert(u[0] == c);
        assert(u.drop_first() =~= t);
    }
}

proof fn lemma_escaped_reads_back(s: Seq<char>)
    ensures
        string_body_value(escaped(s)) == Some(s),
    decreases s.len(),
{
    if s.len() == 0 {
        assert(escaped(s) =~= Seq::<char>::empty());
    } else {
        let rest = s.drop_first();
        assert(s =~= seq![s[0]] + rest);
        lemma_escaped_concat(seq![s[0]], rest);
        let one = seq![s[0]];
        assert(one.drop_last() =~= Seq::<char>::empty());
        assert(one.last() == s[0]);
        assert(escaped(one.drop_last()) =~= Seq::<char>::empty());
        assert(escaped(one) =~= escape_char(s[0]));
        lemma_escape_char_reads_back(s[0], escaped(rest));
        lemma_escaped_reads_back(rest);
        assert(seq![s[0]] + rest =~= s);
    }
}

/// The compact JSON text of a string is a JSON string literal that reads back
/// as that string: between its two quotes stands a string body whose value
/// is the string, and no character of the text is a raw control character
/// (each one below U+0020, a line feed among them, is written as an escape).
pub proof fn law_string_text_reads_back(s: Seq<char>)
    ensures
        json_text(JsonV::Str(s)).len() >= 2,
        json_text(JsonV::Str(s))[0] == '"',
        json_text(JsonV::Str(s)).last() == '"',
        string_body_value(
            json_text(JsonV::Str(s)).subrange(1, json_text(JsonV::Str(s)).len() - 1),
        ) == Some(s),
        free_of_control_chars(json_text(JsonV::Str(s))),
{
    let t = json_text(JsonV::Str(s));
    let e = escaped(s);
    assert(t == seq!['"'] + e + seq!['"']);
    assert(t.subrange(1, t.len() - 1) =~= e);
    lemma_escaped_reads_back(s);
    lemma_escaped_clean(s);
    assert forall|i: int| 0 <= i < t.len() implies (#[trigger] t[i] as u32) >= 0x20 by {
        if i == 0 || i == t.len() - 1 {
        } else {
            assert(t[i] == e[i - 1]);
        }
    }
}

/// Whether every number text in a document is free of control characters
/// (as every number that the parser reads is).
pub open spec fn numbers_free_of_control_chars(j: JsonV) -> bool
    decreases j,
{
    match j {
        JsonV::Number(n) => free_of_control_chars(n),
        JsonV::Array(a) => items_free_of_control_chars(a),
        JsonV::Object(m) => members_free_of_control_chars(m),
        _ => true,
    }
}

pub open spec fn items_free_of_control_chars(s: Seq<JsonV>) -> bool
    decreases s,
{
    if s.len() == 0 {
        true
    } else {
        items_free_of_control_chars(s.drop_last()) && numbers_free_of_control_chars(s.last())
    }
}

pub open spec fn members_free_of_control_chars(s: Seq<(Seq<char>, JsonV)>) -> bool
    decreases s,
{
    if s.len() == 0 {
        true
    } else {
        members_free_of_control_chars(s.drop_last()) && numbers_free_of_control_chars(s.last().1)
    }
}

proof fn lemma_concat_clean(a: Seq<char>, b: Seq<char>)
    requires
        free_of_control_chars(a),
        free_of_control_chars(b),
    ensures
        free_of_control_chars(a + b),
{
    assert forall|i: int| 0 <= i < (a + b).len() implies (#[trigger] (a + b)[i] as u32) >= 0x20 by {
        if i < a.len() {
            assert((a + b)[i] == a[i]);
        } else {
            assert((a + b)[i] == b[i - a.len()]);
        }
    }
}

proof fn lemma_quoted_clean(s: Seq<char>)
    ensures
        free_of_control_chars(quoted(s)),
{
    lemma_escaped_clean(s);
    lemma_concat_clean(seq!['"'], escaped(s));
    lemma_concat_clean(seq!['"'] + escaped(s), seq!['"']);
}

proof fn lemma_text_clean(j: JsonV)
    requires
        numbers_free_of_control_chars(j),
    ensures
        free_of_control_chars(json_text(j)),
    decreases j,
{
    match j {
        JsonV::Null => {
            reveal_strlit("null");
        },
        JsonV::Bool(b) => {
            reveal_strlit("true");
            reveal_strlit("false");
        },
        JsonV::Number(n) => {},
        JsonV::Str(s) => {
            lemma_quoted_clean(s);
        },
        JsonV::Array(a) => {
            lemma_items_clean(a);
            lemma_concat_clean(seq!['['], items_text(a));
            lemma_concat_clean(seq!['['] + items_text(a), seq![']']);
        },
        JsonV::Object(m) => {
            lemma_members_clean(m);
            lemma_concat_clean(seq!['{'], members_text(m));
            lemma_concat_clean(seq!['{'] + members_text(m), seq!['}']);
        },
    }
}

proof fn lemma_items_clean(s: Seq<JsonV>)
    requires
        items_free_of_control_chars(s),
    ensures
        free_of_control_chars(items_text(s)),
    decreases s,
{
    if s.len() == 1 {
        assert(s.drop_last().len() == 0);
        assert(s.last() == s[0]);
        lemma_text_clean(s[0]);
    } else if s.len() > 1 {
        lemma_items_clean(s.drop_last());
        lemma_text_clean(s.last());
        lemma_concat_clean(items_text(s.drop_last()), seq![',']);
        lemma_concat_clean(items_text(s.drop_last()) + seq![','], json_text(s.last()));
    }
}

proof fn lemma_members_clean(s: Seq<(Seq<char>, JsonV)>)
    requires
        members_free_of_control_chars(s),
    ensures
        free_of_control_chars(members_text(s)),
    decreases s,
{
    if s.len() == 1 {
        assert(s.last() == s[0]);
        lemma_quoted_clean(s[0].0);
        lemma_text_clean(s[0].1);
        lemma_concat_clean(quoted(s[0].0), seq![':']);
        lemma_concat_clean(quoted(s[0].0) + seq![':'], json_text(s[0].1));
    } else if s.len() > 1 {
        lemma_members_clean(s.drop_last());
        lemma_quoted_clean(s.last().0);
        lemma_text_clean(s.last().1);
        let a = members_text(s.drop_last());
        lemma_concat_clean(a, seq![',']);
        lemma_concat_clean(a + seq![','], quoted(s.last().0));
        lemma_concat_clean(a + seq![','] + quoted(s.last().0), seq![':']);
        lemma_concat_clean(a + seq![','] + quoted(s.last().0) + seq![':'], json_text(s.last().1));
    }
}

/// The compact JSON text of a whole document holds no raw control character
/// where its number texts hold none: every control character in a string or
/// a key is written as an escape.
pub proof fn law_document_text_free_of_control_chars(j: JsonV)
    requires
        numbers_free_of_control_chars(j),
    ensures
        free_of_control_chars(json_text(j)),
{
    lemma_text_clean(j);
}

/// The pretty JSON text of a document as serde_json's pretty printer writes
/// it, with `ind` as the indentation of the line it starts on: each item or
/// member on a line of its own, indented two spaces deeper; `": "` after a
/// key; empty arrays and objects as `[]` and `{}`.
pub open spec fn pretty_text(j: JsonV, ind: Seq<char>) -> Seq<char>
    decreases j,
{
    match j {
        JsonV::Array(a) => if a.len() == 0 {
            seq!['[', ']']
        } else {
            seq!['['] + pretty_items(a, ind + seq![' ', ' ']) + seq!['\n'] + ind + seq![']']
        },
        JsonV::Object(m) => if m.len() == 0 {
            seq!['{', '}']
        } else {
            seq!['{'] + pretty_members(m, ind + seq![' ', ' ']) + seq!['\n'] + ind + seq!['}']
        },
        _ => json_text(j),
    }
}

/// The separator before an item or member: a comma unless it is the first,
/// then a new line and the indentation.
pub open spec fn line_start(first: bool, ind: Seq<char>) -> Seq<char> {
    (if first {
        Seq::empty()
    } else {
        seq![',']
    }) + seq!['\n'] + ind
}

pub open spec fn pretty_items(s: Seq<JsonV>, ind: Seq<char>) -> Seq<char>
    decreases s,
{
    if s.len() == 0 {
        Seq::empty()
    } else {
        pretty_items(s.drop_last(), ind) + line_start(s.len() == 1, ind) + pretty_text(
            s.last(),
            ind,
        )
    }
}

pub open spec fn pretty_members(s: Seq<(Seq<char>, JsonV)>, ind: Seq<char>) -> Seq<char>
    decreases s,
{
    if s.len() == 0 {
        Seq::empty()
    } else {
        pretty_members(s.drop_last(), ind) + line_start(s.len() == 1, ind) + quoted(s.last().0)
            + seq![':', ' '] + pretty_text(s.last().1, ind)
    }
}

fn push_line_start(out: &mut String, first: bool, ind: &String)
    ensures
        final(out)@ == old(out)@ + line_start(first, ind@),
{
    if !first {
        push_char(out, ',');
    }
    push_char(out, '\n');
    push_str(out, ind.as_str());
    assert(out@ =~= old(out)@ + line_start(first, ind@));
}

/// Appends the pretty JSON text of `j`, starting on a line indented by `ind`.
pub fn write_pretty(out: &mut String, j: &Json, ind: &String)
    ensures
        final(out)@ == old(out)@ + pretty_text(j@, ind@),
    decreases j,
{
    match j {
        Json::Array(a) => {
            let ghost av = jv_seq(a@);
            proof {
                lemma_jv_seq(a@);
            }
            if a.len() == 0 {
                push_str(out, "[]");
                proof {
                    reveal_strlit("[]");
                }
                assert(out@ =~= old(out)@ + pretty_text(j@, ind@));
                return;
            }
            let mut child = ind.clone();
            push_str(&mut child, "  ");
            proof {
                reveal_strlit("  ");
            }
            assert(child@ =~= ind@ + seq![' ', ' ']);
            push_char(out, '[');
            let ghost start = out@;
            let mut i: usize = 0;
            while i < a.len()
                invariant
                    i <= a.len(),
                    *j == Json::Array(*a),
                    av == jv_seq(a@),
                    av.len() == a@.len(),
                    child@ == ind@ + seq![' ', ' '],
                    forall|k: int| 0 <= k < a@.len() ==> #[trigger] av[k] == jv(a@[k]),
                    out@ == start + pretty_items(av.take(i as int), child@),
                decreases a.len() - i,
            {
                proof {
                    assert(decreases_to!(*j => j->Array_0));
                    assert(decreases_to!(a => a@[i as int]));
                }
                push_line_start(out, i == 0, &child);
                write_pretty(out, &a[i], &child);
                proof {
                    let t = av.take(i + 1);
                    assert(t.drop_last() == av.take(i as int));
                    assert(out@ =~= start + pretty_items(t, child@));
                }
                i = i + 1;
            }
            assert(av.take(a.len() as int) == av);
            push_char(out, '\n');
            push_str(out, ind.as_str());
            push_char(out, ']');
            assert(out@ =~= old(out)@ + pretty_text(j@, ind@));
        },
        Json::Object(m) => {
            let ghost mv = jv_members(m@);
            proof {
                lemma_jv_members(m@);
            }
            if m.len() == 0 {
                push_str(out, "{}");
                proof {
                    reveal_strlit("{}");
                }
                assert(out@ =~= old(out)@ + pretty_text(j@, ind@));
                return;
            }
            let mut child = ind.clone();
            push_str(&mut child, "  ");
            proof {
                reveal_strlit("  ");
            }
            assert(child@ =~= ind@ + seq![' ', ' ']);
            push_char(out, '{');
            let ghost start = out@;
            let mut i: usize = 0;
            while i < m.len()
                invariant
                    i <= m.len(),
                    *j == Json::Object(*m),
                    mv == jv_members(m@),
                    mv.len() == m@.len(),
                    child@ == ind@ + seq![' ', ' '],
                    forall|k: int|
                        0 <= k < m@.len() ==> #[trigger] mv[k] == (m@[k].0@, jv(m@[k].1)),
                    out@ == start + pretty_members(mv.take(i as int), child@),
                decreases m.len() - i,
            {
                proof {
                    assert(decreases_to!(*j => j->Object_0));
                    assert(decreases_to!(m => m@[i as int]));
                    assert(decreases_to!(m@[i as int] => m@[i as int].1));
                }
                push_line_start(out, i == 0, &child);
                write_escaped(out, m[i].0.as_str());
                push_char(out, ':');
                push_char(out, ' ');
                write_pretty(out, &m[i].1, &child);
                proof {
                    let t = mv.take(i + 1);
                    assert(t.drop_last() == mv.take(i as int));
                    assert(out@ =~= start + pretty_members(t, child@));
                }
                i = i + 1;
            }
            assert(mv.take(m.len() as int) == mv);
            push_char(out, '\n');
            push_str(out, ind.as_str());
            push_char(out, '}');
            assert(out@ =~= old(out)@ + pretty_text(j@, ind@));
        },
        _ => {
            write_json(out, j);
        },
    }
}

/// The pretty JSON text of a document, as `serde_json::to_string_pretty`
/// writes it.
pub fn to_json_pretty(j: &Json) -> (r: String)
    ensures
        r@ == pretty_text(j@, Seq::empty()),
{
    let mut out = String::new();
    let ind = String::new();
    write_pretty(&mut out, j, &ind);
    assert(out@ =~= pretty_text(j@, Seq::empty()));
    out
}

} // verus!
