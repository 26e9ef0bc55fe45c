//! Snowflake ID parsing and data URIs for uploads.
use vstd::prelude::*;

use base64::Engine;

use crate::cli::{ascii_lower, ascii_lower_exec, trim_exec};
use crate::text::{chars_of, owned, push_str, str_eq, string_of_range, trim};

verus! {

pub open spec fn is_digit(c: char) -> bool {
    '0' <= c && c <= '9'
}

pub open spec fn all_digits(ds: Seq<char>) -> bool {
    forall|i: int| 0 <= i < ds.len() ==> #[trigger] is_digit(ds[i])
}

/// The value of a string of decimal digits.
pub open spec fn digits_value(ds: Seq<char>) -> nat
    decreases ds.len(),
{
    if ds.len() == 0 {
        0
    } else {
        digits_value(ds.drop_last()) * 10 + ((ds.last() as u32) - 48) as nat
    }
}

/// What `u64::from_str` reads from a string: an optional `+`, then one or
/// more decimal digits whose value fits in 64 bits.
pub open spec fn parse_u64(t: Seq<char>) -> Option<u64> {
    let ds = if t.len() > 0 && t[0] == '+' {
        t.drop_first()
    } else {
        t
    };
    if ds.len() > 0 && all_digits(ds) && digits_value(ds) <= u64::MAX {
        Some(digits_value(ds) as u64)
    } else {
        None
    }
}

proof fn lemma_digits_value_prefix(s: Seq<char>, j: int)
    requires
        0 <= j <= s.len(),
        forall|i: int| 0 <= i < s.len() ==> #[trigger] is_digit(s[i]),
    ensures
        digits_value(s.take(j)) <= digits_value(s),
    decreases s.len(),
{
    if s.len() > j {
        let d = s.drop_last();
        assert(d.take(j) == s.take(j));
        assert forall|i: int| 0 <= i < d.len() implies #[trigger] is_digit(d[i]) by {
            assert(d[i] == s[i]);
        }
        lemma_digits_value_prefix(d, j);
    } else {
        assert(s.take(j) == s);
    }
}

/// Reads an unsigned 64-bit decimal number as `u64::from_str` does.
pub fn parse_u64_exec(t: &str) -> (r: Option<u64>)
    ensures
        r == parse_u64(t@),
{
    let cs = chars_of(t);
    let n = cs.len();
    let start: usize = if n > 0 && cs[0] == '+' {
        1
    } else {
        0
    };
    let ghost ds = if t@.len() > 0 && t@[0] == '+' {
        t@.drop_first()
    } else {
        t@
    };
    assert(ds == cs@.skip(start as int));
    assert(parse_u64(t@) == (if ds.len() > 0 && all_digits(ds) && digits_value(ds) <= u64::MAX {
        Some(digits_value(ds) as u64)
    } else {
        None
    }));
    if start == n {
        return None;
    }
    let mut v: u64 = 0;
    let mut i: usize = start;
    while i < n
        invariant
            n == cs@.len(),
            cs@ == t@,
            start <= i <= n,
            start < n,
            ds == cs@.skip(start as int),
            parse_u64(t@) == (if ds.len() > 0 && all_digits(ds) && digits_value(ds) <= u64::MAX {
                Some(digits_value(ds) as u64)
            } else {
                None
            }),
            forall|j: int| 0 <= j < i - start ==> #[trigger] is_digit(ds[j]),
            v as nat == digits_value(ds.take(i - start)),
        decreases n - i,
    {
        let c = cs[i];
        if !('0' <= c && c <= '9') {
            assert(ds[i - start] == c);
            assert(!is_digit(ds[i - start]));
            assert(!all_digits(ds));
            return None;
        }
        let d: u64 = ((c as u32) - 48) as u64;
        assert(ds.take(i + 1 - start).drop_last() == ds.take(i - start));
        assert(ds.take(i + 1 - start).last() == c);
        if v > (u64::MAX - d) / 10 {
            proof {
                assert(digits_value(ds.take(i + 1 - start)) == digits_value(ds.take(i - start)) * 10
                    + d);
                assert(v * 10 + d > u64::MAX) by (nonlinear_arith)
                    requires
                        v > (u64::MAX - d) / 10,
                        d <= 9,
                ;
                assert forall|j: int| 0 <= j < i + 1 - start implies #[trigger] is_digit(
                    ds.take(i + 1 - start)[j],
                ) by {
                    if j < i - start {
                        assert(is_digit(ds[j]));
                    }
                }
                if all_digits(ds) {
                    lemma_digits_value_prefix(ds, i + 1 - start);
                }
            }
            return None;
        }
        assert(v * 10 + d <= u64::MAX) by (nonlinear_arith)
            requires
                v <= (u64::MAX - d) / 10,
                d <= 9,
        ;
        v = v * 10 + d;
        i = i + 1;
    }
    assert(ds.take(n - start) == ds);
    Some(v)
}

/// Why a snowflake ID was refused.
pub enum IdError {
    /// Not a decimal number that fits in 64 bits.
    NotNumeric,
    /// Zero, which no Discord object has.
    Zero,
}

/// What a snowflake ID string reads as: surrounding whitespace is ignored;
/// the rest must be a non-zero unsigned 64-bit decimal number.
pub open spec fn id_result(s: Seq<char>) -> Result<u64, IdError> {
    match parse_u64(trim(s)) {
        None => Err(IdError::NotNumeric),
        Some(v) => if v == 0 {
            Err(IdError::Zero)
        } else {
            Ok(v)
        },
    }
}

/// Parses a string snowflake ID: surrounding whitespace is ignored; the rest
/// must be a non-zero unsigned 64-bit decimal number.
pub fn parse_id(s: &str) -> (r: Result<u64, IdError>)
    ensures
        r == id_result(s@),
{
    let t = trim_exec(s);
    match parse_u64_exec(t.as_str()) {
        None => Err(IdError::NotNumeric),
        Some(v) => if v == 0 {
            Err(IdError::Zero)
        } else {
            Ok(v)
        },
    }
}

impl IdError {
    /// The message shown for this error about the input `s`.
    pub fn message(&self, s: &str) -> (r: String)
        ensures
            r@ == match self {
                IdError::NotNumeric => "Invalid ID '"@ + s@ + "': must be a numeric snowflake ID"@,
                IdError::Zero => "ID must be non-zero"@,
            },
    {
        match self {
            IdError::NotNumeric => {
                let mut m = owned("Invalid ID '");
                push_str(&mut m, s);
                push_str(&mut m, "': must be a numeric snowflake ID");
                m
            },
            IdError::Zero => owned("ID must be non-zero"),
        }
    }
}

/// Position of the last `c` in `s`, or -1.
pub open spec fn last_index(s: Seq<char>, c: char) -> int
    decreases s.len(),
{
    if s.len() == 0 {
        -1
    } else if s.last() == c {
        s.len() - 1
    } else {
        last_index(s.drop_last(), c)
    }
}

/// The text after the last `.` of a path (the whole path when it has none).
pub open spec fn extension(path: Seq<char>) -> Seq<char> {
    path.skip(last_index(path, '.') + 1)
}

/// The MIME type of a supported upload, by extension (any case): PNG, JPEG,
/// GIF, WebP images, MP3 and Ogg audio.
pub open spec fn mime_of(path: Seq<char>) -> Option<Seq<char>> {
    let e = ascii_lower(extension(path));
    if e == "png"@ {
        Some("image/png"@)
    } else if e == "jpg"@ || e == "jpeg"@ {
        Some("image/jpeg"@)
    } else if e == "gif"@ {
        Some("image/gif"@)
    } else if e == "webp"@ {
        Some("image/webp"@)
    } else if e == "mp3"@ {
        Some("audio/mpeg"@)
    } else if e == "ogg"@ {
        Some("audio/ogg"@)
    } else {
        None
    }
}

/// The message for an upload of an unsupported format.
pub open spec fn unsupported_format_message() -> Seq<char> {
    "Unsupported file format. Supported: png, jpg, gif, webp, mp3, ogg."@
}

pub fn unsupported_format_text() -> (r: String)
    ensures
        r@ == unsupported_format_message(),
{
    owned("Unsupported file format. Supported: png, jpg, gif, webp, mp3, ogg.")
}

/// The MIME type of a supported upload, judged by the path's extension.
pub fn mime_for_path(path: &str) -> (r: Option<String>)
    ensures
        match r {
            Some(m) => mime_of(path@) == Some(m@),
            None => mime_of(path@) is None,
        },
{
    let cs = chars_of(path);
    let mut i = cs.len();
    assert(cs@.take(cs@.len() as int) == cs@);
    while i > 0 && cs[i - 1] != '.'
        invariant
            i <= cs@.len(),
            cs@ == path@,
            last_index(path@, '.') == last_index(cs@.take(i as int), '.'),
        decreases i,
    {
        assert(cs@.take(i as int).drop_last() == cs@.take(i - 1));
        i = i - 1;
    }
    assert(last_index(path@, '.') + 1 == i) by {
        if i > 0 {
            assert(cs@.take(i as int).last() == '.');
        }
    }
    let ext = string_of_range(&cs, i, cs.len());
    assert(ext@ == extension(path@));
    let e = ascii_lower_exec(ext.as_str());
    let es = e.as_str();
    if str_eq(es, "png") {
        Some(owned("image/png"))
    } else if str_eq(es, "jpg") || str_eq(es, "jpeg") {
        Some(owned("image/jpeg"))
    } else if str_eq(es, "gif") {
        Some(owned("image/gif"))
    } else if str_eq(es, "webp") {
        Some(owned("image/webp"))
    } else if str_eq(es, "mp3") {
        Some(owned("audio/mpeg"))
    } else if str_eq(es, "ogg") {
        Some(owned("audio/ogg"))
    } else {
        None
    }
}

/// A character of the standard base64 alphabet (`A-Z`, `a-z`, `0-9`, `+`, `/`).
pub open spec fn b64_char(v: u8) -> char {
    if v < 26 {
        (65u8 + v) as u8 as char
    } else if v < 52 {
        (71u8 + v) as u8 as char
    } else if v < 62 {
        (v - 4) as u8 as char
    } else if v == 62 {
        '+'
    } else {
        '/'
    }
}

/// Standard base64 with `=` padding (RFC 4648, section 4): each group of
/// three bytes becomes four characters; a final group of one or two bytes is
/// padded.
pub open spec fn base64_of(bs: Seq<u8>) -> Seq<char>
    decreases bs.len(),
{
    if bs.len() == 0 {
        Seq::empty()
    } else if bs.len() == 1 {
        seq![b64_char(bs[0] >> 2), b64_char(((bs[0] & 3) << 4) as u8), '=', '=']
    } else if bs.len() == 2 {
        seq![
            b64_char(bs[0] >> 2),
            b64_char((((bs[0] & 3) << 4) | (bs[1] >> 4)) as u8),
            b64_char(((bs[1] & 15) << 2) as u8),
            '=',
        ]
    } else {
        seq![
            b64_char(bs[0] >> 2),
            b64_char((((bs[0] & 3) << 4) | (bs[1] >> 4)) as u8),
            b64_char((((bs[1] & 15) << 2) | (bs[2] >> 6)) as u8),
            b64_char(bs[2] & 63),
        ] + base64_of(bs.skip(3))
    }
}

/// Standard base64 encoding, with padding.
///
/// Trusted: `base64::engine::general_purpose::STANDARD.encode`, the RFC 4648
/// standard alphabet with `=` padding. It panics when the encoded length
/// overflows `usize`, which the precondition rules out.
#[verifier::external_body]
fn base64_standard(bytes: &[u8]) -> (r: String)
    requires
        4 * ((bytes@.len() + 2) / 3) <= usize::MAX,
    ensures
        r@ == base64_of(bytes@),
{
    base64::engine::general_purpose::STANDARD.encode(bytes)
}

/// A data URI (`data:<mime>;base64,<data>`) holding `bytes`.
pub fn data_uri(mime: &str, bytes: &[u8]) -> (r: String)
    requires
        4 * ((bytes@.len() + 2) / 3) <= usize::MAX,
    ensures
        r@ == "data:"@ + mime@ + ";base64,"@ + base64_of(bytes@),
{
    let mut r = owned("data:");
    push_str(&mut r, mime);
    push_str(&mut r, ";base64,");
    let b = base64_standard(bytes);
    push_str(&mut r, b.as_str());
    r
}


/// The MIME type of an upload, decided from its path before the file is
/// read; an unsupported extension is refused.
pub fn upload_mime(path: &str) -> (r: Result<String, crate::tools::ToolError>)
    ensures
        match mime_of(path@) {
            Some(m) => r matches Ok(t) && t@ == m,
            None => r matches Err(crate::tools::ToolError::UnsupportedFormat),
        },
{
    match mime_for_path(path) {
        Some(m) => Ok(m),
        None => Err(crate::tools::ToolError::UnsupportedFormat),
    }
}

/// An upload as a data URI, given its MIME type and the outcome of reading
/// the file: the data URI, or the refusal of a file that could not be read.
pub fn uploaded_data_uri(mime: &str, read: Result<Vec<u8>, String>) -> (r: Result<
    String,
    crate::tools::ToolError,
>)
    requires
        read matches Ok(bytes) ==> 4 * ((bytes@.len() + 2) / 3) <= usize::MAX,
    ensures
        match read {
            Ok(bytes) => r matches Ok(t) && t@ == "data:"@ + mime@ + ";base64,"@ + base64_of(
                bytes@,
            ),
            Err(why) => r matches Err(crate::tools::ToolError::FileUnreadable(w)) && w@ == why@,
        },
{
    match read {
        Ok(bytes) => Ok(data_uri(mime, bytes.as_slice())),
        Err(why) => Err(crate::tools::ToolError::FileUnreadable(why)),
    }
}

} // verus!
