//! Process-level decisions: the version line, the spec's provenance line,
//! which command the arguments ask for, and which spec to load.
use vstd::prelude::*;
use vstd::string::StringSliceAdditionalSpecFns;

use crate::openapi::first_index;
use crate::text::{
    chars_of, has_prefix, is_ws, is_ws_exec, lead_ws, owned, push_char, push_str, str_eq,
    string_of_range, trail_ws, trim,
};

verus! {

/// Removes leading and trailing whitespace (Rust's `str::trim`).
pub fn trim_exec(s: &str) -> (r: String)
    ensures
        r@ == trim(s@),
{
    let cs = chars_of(s);
    let n = cs.len();
    let mut a: usize = 0;
    assert(cs@.skip(0) == cs@);
    while a < n && is_ws_exec(cs[a])
        invariant
            n == cs@.len(),
            cs@ == s@,
            a <= n,
            lead_ws(s@) == a + lead_ws(cs@.skip(a as int)),
        decreases n - a,
    {
        assert(cs@.skip(a as int).drop_first() == cs@.skip(a + 1));
        a = a + 1;
    }
    let ghost rest = s@.skip(a as int);
    assert(lead_ws(rest) == 0);
    let mut b: usize = n;
    assert(rest.take(rest.len() as int) == rest);
    while b > a && is_ws_exec(cs[b - 1])
        invariant
            n == cs@.len(),
            cs@ == s@,
            a <= b <= n,
            rest == s@.skip(a as int),
            trail_ws(rest) == (n - b) + trail_ws(rest.take(b - a)),
        decreases b,
    {
        assert(rest.take(b - a).drop_last() == rest.take(b - a - 1));
        assert(rest.take(b - a).last() == cs@[b - 1]);
        b = b - 1;
    }
    assert(trail_ws(rest.take(b - a)) == 0);
    let r = string_of_range(&cs, a, b);
    assert(r@ =~= trim(s@));
    r
}

/// The ASCII lower-case form of a character.
pub open spec fn ascii_lower_char(c: char) -> char {
    if 'A' <= c && c <= 'Z' {
        ((c as u8) + 32) as u8 as char
    } else {
        c
    }
}

/// A string with its ASCII letters in lower case (Rust's
/// `to_ascii_lowercase`).
pub open spec fn ascii_lower(s: Seq<char>) -> Seq<char> {
    Seq::new(s.len(), |i: int| ascii_lower_char(s[i]))
}

pub fn ascii_lower_exec(s: &str) -> (r: String)
    ensures
        r@ == ascii_lower(s@),
{
    let cs = chars_of(s);
    let mut r = String::new();
    let mut i: usize = 0;
    while i < cs.len()
        invariant
            i <= cs@.len(),
            cs@ == s@,
            r@ == ascii_lower(s@).take(i as int),
        decreases cs.len() - i,
    {
        let c = cs[i];
        let l = if 'A' <= c && c <= 'Z' {
            let b: u8 = (c as u8) + 32;
            b as char
        } else {
            c
        };
        push_char(&mut r, l);
        i = i + 1;
        assert(r@ =~= ascii_lower(s@).take(i as int));
    }
    assert(ascii_lower(s@).take(cs@.len() as int) =~= ascii_lower(s@));
    r
}

/// A flag value that means "on": `1`, `true`, `yes` or `on`, ignoring case
/// and surrounding whitespace.
pub open spec fn truthy(v: Seq<char>) -> bool {
    let t = ascii_lower(trim(v));
    t == "1"@ || t == "true"@ || t == "yes"@ || t == "on"@
}

/// Whether an environment flag's value means "on".
pub fn is_truthy(v: &str) -> (r: bool)
    ensures
        r == truthy(v@),
{
    let t = trim_exec(v);
    let l = ascii_lower_exec(t.as_str());
    str_eq(l.as_str(), "1") || str_eq(l.as_str(), "true") || str_eq(l.as_str(), "yes") || str_eq(
        l.as_str(),
        "on",
    )
}

/// The version line: `discord-mcp-rs <version>`, followed by the git commit
/// (unless it is `unknown`) and the build number (when there is one) in
/// parentheses.
pub open spec fn version_text(pkg: Seq<char>, git: Seq<char>, build: Option<Seq<char>>) -> Seq<
    char,
> {
    let base = "discord-mcp-rs "@ + pkg;
    let has_git = git != "unknown"@;
    match build {
        None => if has_git {
            base + " (git "@ + git + ")"@
        } else {
            base
        },
        Some(b) => if has_git {
            base + " (git "@ + git + ", build "@ + b + ")"@
        } else {
            base + " (build "@ + b + ")"@
        },
    }
}

/// The full version string: crate version plus build metadata (git commit,
/// CI build number).
pub fn version_string(pkg_version: &str, git: &str, build: Option<&str>) -> (r: String)
    ensures
        r@ == version_text(
            pkg_version@,
            git@,
            match build {
                Some(b) => Some(b@),
                None => None,
            },
        ),
{
    let mut s = owned("discord-mcp-rs ");
    push_str(&mut s, pkg_version);
    let has_git = !str_eq(git, "unknown");
    let mut tags: Vec<String> = Vec::new();
    if has_git {
        let mut t = owned("git ");
        push_str(&mut t, git);
        tags.push(t);
    }
    match build {
        Some(b) => {
            let mut t = owned("build ");
            push_str(&mut t, b);
            tags.push(t);
        },
        None => {},
    }
    if tags.len() > 0 {
        push_str(&mut s, " (");
        let mut i: usize = 0;
        while i < tags.len()
            invariant
                i <= tags@.len(),
                tags@.len() <= 2,
                s@ == "discord-mcp-rs "@ + pkg_version@ + " ("@ + (if i == 0 {
                    Seq::<char>::empty()
                } else if i == 1 {
                    tags@[0]@
                } else {
                    tags@[0]@ + ", "@ + tags@[1]@
                }),
            decreases tags.len() - i,
        {
            if i > 0 {
                push_str(&mut s, ", ");
            }
            push_str(&mut s, tags[i].as_str());
            i = i + 1;
        }
        push_str(&mut s, ")");
    }
    proof {
        reveal_strlit(" (");
        reveal_strlit(", ");
        reveal_strlit(")");
        reveal_strlit(" (git ");
        reveal_strlit("git ");
        reveal_strlit(", build ");
        reveal_strlit("build ");
        reveal_strlit(" (build ");
    }
    assert(s@ =~= version_text(
        pkg_version@,
        git@,
        match build {
            Some(b) => Some(b@),
            None => None,
        },
    ));
    s
}

/// The version reported to MCP clients: the crate version, with the git
/// commit as semver build metadata unless it is `unknown`.
pub open spec fn server_version_text(pkg: Seq<char>, git: Seq<char>) -> Seq<char> {
    if git == "unknown"@ {
        pkg
    } else {
        pkg + "+"@ + git
    }
}

pub fn server_version(pkg_version: &str, git: &str) -> (r: String)
    ensures
        r@ == server_version_text(pkg_version@, git@),
{
    if str_eq(git, "unknown") {
        owned(pkg_version)
    } else {
        let mut s = owned(pkg_version);
        push_str(&mut s, "+");
        push_str(&mut s, git);
        s
    }
}

/// The text after `commit:` on the first line of `s` that starts with it.
pub open spec fn commit_field(s: Seq<char>) -> Option<Seq<char>>
    decreases s.len(),
{
    let e = first_index(s, '\n');
    let line = if e < 0 {
        s
    } else {
        s.take(e)
    };
    if has_prefix(line, "commit:"@) {
        Some(line.skip(7))
    } else if e < 0 {
        None
    } else {
        proof {
            crate::openapi::lemma_first_index(s, '\n');
        }
        commit_field(s.skip(e + 1))
    }
}

/// The recorded commit of the spec, trimmed, when the source names one.
pub open spec fn recorded_commit(source: Seq<char>) -> Option<Seq<char>> {
    match commit_field(source) {
        Some(c) => Some(trim(c)),
        None => None,
    }
}

/// Where the first twelve bytes of a commit end (or its whole length).
pub open spec fn short_len(c: Seq<char>) -> int {
    let n = vstd::utf8::encode_utf8(c).len() as int;
    if n < 12 {
        n
    } else {
        12
    }
}

/// The line naming the Discord spec commit the binary was built against:
/// `discord/discord-api-spec@` followed by the first twelve bytes of the
/// recorded commit, or `unknown`.
pub open spec fn spec_source_text(r: Seq<char>, source: Seq<char>) -> bool {
    match recorded_commit(source) {
        Some(c) => exists|p: Seq<char>|
            r == "discord/discord-api-spec@"@ + p && #[trigger] vstd::utf8::encode_utf8(p)
                == vstd::utf8::encode_utf8(c).take(short_len(c)),
        None => r == "discord/discord-api-spec@unknown"@,
    }
}

/// Whether cutting the recorded commit after twelve bytes splits no
/// character (else the cut would panic).
pub open spec fn commit_cut_ok(source: Seq<char>) -> bool {
    match recorded_commit(source) {
        Some(c) => vstd::utf8::is_char_boundary(vstd::utf8::encode_utf8(c), short_len(c)),
        None => true,
    }
}

/// The text after `commit:` on the first line that starts with it.
fn find_commit_field(source: &str) -> (r: Option<String>)
    ensures
        match r {
            Some(c) => commit_field(source@) == Some(c@),
            None => commit_field(source@) is None,
        },
{
    let cs = chars_of(source);
    let n = cs.len();
    let mut pos: usize = 0;
    assert(cs@.skip(0) == cs@);
    loop
        invariant
            n == cs@.len(),
            cs@ == source@,
            pos <= n,
            commit_field(cs@.skip(pos as int)) == commit_field(source@),
        decreases n - pos,
    {
        let ghost rest = cs@.skip(pos as int);
        proof {
            crate::openapi::lemma_first_index(rest, '\n');
        }
        let mut e = pos;
        while e < n && cs[e] != '\n'
            invariant
                n == cs@.len(),
                pos <= e <= n,
                forall|j: int| pos <= j < e ==> cs@[j] != '\n',
            decreases n - e,
        {
            e = e + 1;
        }
        // The line is cs[pos..e].
        let line = string_of_range(&cs, pos, e);
        let ghost f = first_index(rest, '\n');
        assert(f < 0 ==> e == n) by {
            if f < 0 && e < n {
                assert(rest[e - pos] == cs@[e as int]);
            }
        }
        assert(f >= 0 ==> f == e - pos) by {
            if f >= 0 {
                assert(rest[f] == cs@[pos + f]);
                if e < n {
                    assert(rest[e - pos] == cs@[e as int]);
                }
            }
        }
        assert(line@ == (if f < 0 {
            rest
        } else {
            rest.take(f)
        })) by {
            if f < 0 {
                assert(line@ =~= rest);
            } else {
                assert(line@ =~= rest.take(f));
            }
        }
        match crate::text::strip_prefix_exec(line.as_str(), "commit:") {
            Some(c) => {
                proof {
                    reveal_strlit("commit:");
                }
                return Some(c);
            },
            None => {},
        }
        if e == n {
            return None;
        }
        assert(rest.skip(f + 1) == cs@.skip(e + 1));
        pos = e + 1;
    }
}

/// Whether the recorded commit can be cut after twelve bytes without
/// splitting a character (`spec_source_line` needs it).
pub fn commit_cut_fits(source: &str) -> (r: bool)
    ensures
        r == commit_cut_ok(source@),
{
    match find_commit_field(source) {
        Some(c) => {
            let t = trim_exec(c.as_str());
            let ts = t.as_str();
            let len = ts.as_bytes().len();
            let k = if len < 12 {
                len
            } else {
                12
            };
            assert(ts.spec_bytes() == vstd::utf8::encode_utf8(trim(c@)));
            ts.is_char_boundary(k)
        },
        None => true,
    }
}

/// The Discord spec commit the binary was built against, e.g.
/// `discord/discord-api-spec@d6f2c4208693`, read from the spec's
/// provenance text.
pub fn spec_source_line(source: &str) -> (r: String)
    requires
        commit_cut_ok(source@),
    ensures
        spec_source_text(r@, source@),
{
    let mut r = owned("discord/discord-api-spec@");
    match find_commit_field(source) {
        Some(c) => {
            let t = trim_exec(c.as_str());
            let ts = t.as_str();
            let len = ts.as_bytes().len();
            let k = if len < 12 {
                len
            } else {
                12
            };
            assert(ts.spec_bytes() == vstd::utf8::encode_utf8(trim(c@)));
            assert(k as int == short_len(trim(c@)));
            let (head, _) = ts.split_at(k);
            push_str(&mut r, head);
            assert(vstd::utf8::encode_utf8(head@) == vstd::utf8::encode_utf8(trim(c@)).take(
                short_len(trim(c@)),
            )) by {
                assert(head.spec_bytes() =~= ts.spec_bytes().subrange(0, k as int));
                assert(head.spec_bytes() == vstd::utf8::encode_utf8(head@));
            }
        },
        None => {
            push_str(&mut r, "unknown");
            proof {
                reveal_strlit("unknown");
                reveal_strlit("discord/discord-api-spec@");
                reveal_strlit("discord/discord-api-spec@unknown");
            }
            assert(r@ =~= "discord/discord-api-spec@unknown"@);
        },
    }
    r
}

/// What the command line asks for.
pub enum CliAction {
    /// Print the version and spec provenance.
    Version,
    /// Print the help text.
    Help,
    /// Run the MCP server.
    Run,
}

pub open spec fn is_version_flag(a: Seq<char>) -> bool {
    a == "--version"@ || a == "-V"@ || a == "version"@
}

pub open spec fn is_help_flag(a: Seq<char>) -> bool {
    a == "--help"@ || a == "-h"@ || a == "help"@
}

/// The action of the first argument that names one; running the server when
/// none does.
pub open spec fn cli_choice(args: Seq<Seq<char>>) -> CliAction
    decreases args.len(),
{
    if args.len() == 0 {
        CliAction::Run
    } else if is_version_flag(args[0]) {
        CliAction::Version
    } else if is_help_flag(args[0]) {
        CliAction::Help
    } else {
        cli_choice(args.drop_first())
    }
}

/// Decides what `--version` / `--help` style arguments (the program name
/// excluded) ask for.
pub fn handle_cli(args: &Vec<String>) -> (r: CliAction)
    ensures
        r == cli_choice(crate::openapi::views(args@)),
{
    let ghost av = crate::openapi::views(args@);
    let mut i: usize = 0;
    assert(av.skip(0) == av);
    while i < args.len()
        invariant
            i <= args@.len(),
            av == crate::openapi::views(args@),
            cli_choice(av.skip(i as int)) == cli_choice(av),
        decreases args.len() - i,
    {
        let a = args[i].as_str();
        assert(av.skip(i as int)[0] == a@);
        if str_eq(a, "--version") || str_eq(a, "-V") || str_eq(a, "version") {
            return CliAction::Version;
        }
        if str_eq(a, "--help") || str_eq(a, "-h") || str_eq(a, "help") {
            return CliAction::Help;
        }
        assert(av.skip(i as int).drop_first() == av.skip(i + 1));
        i = i + 1;
    }
    CliAction::Run
}

/// Which spec the server loads.
pub enum SpecSource {
    /// An external spec file, by path.
    File(String),
    /// The embedded preview spec.
    Preview,
    /// The embedded stable spec.
    Stable,
}

/// An explicit spec file wins; else the preview spec when the preview flag
/// is truthy; else the stable spec.
pub fn select_spec(spec_path: Option<String>, preview_flag: Option<String>) -> (r: SpecSource)
    ensures
        match spec_path {
            Some(p) => r matches SpecSource::File(q) && q@ == p@,
            None => match preview_flag {
                Some(v) => if truthy(v@) {
                    r is Preview
                } else {
                    r is Stable
                },
                None => r is Stable,
            },
        },
{
    match spec_path {
        Some(p) => SpecSource::File(p),
        None => {
            let preview = match preview_flag {
                Some(v) => is_truthy(v.as_str()),
                None => false,
            };
            if preview {
                SpecSource::Preview
            } else {
                SpecSource::Stable
            }
        },
    }
}


proof fn lemma_flag_words_differ()
    ensures
        "--help"@ != "--version"@,
        "--help"@ != "-V"@,
        "--help"@ != "version"@,
        "-h"@ != "--version"@,
        "-h"@ != "-V"@,
        "-h"@ != "version"@,
        "help"@ != "--version"@,
        "help"@ != "-V"@,
        "help"@ != "version"@,
{
    reveal_strlit("--help");
    reveal_strlit("-h");
    reveal_strlit("help");
    reveal_strlit("--version");
    reveal_strlit("-V");
    reveal_strlit("version");
    assert("--help"@.len() != "--version"@.len());
    assert("--help"@.len() != "-V"@.len());
    assert("--help"@.len() != "version"@.len());
    assert("-h"@.len() != "--version"@.len());
    assert("-h"@[1] != "-V"@[1]);
    assert("-h"@.len() != "version"@.len());
    assert("help"@.len() != "--version"@.len());
    assert("help"@.len() != "-V"@.len());
    assert("help"@.len() != "version"@.len());
}

/// The command line is read flag by flag: the first argument that is
/// `--version`, `-V` or `version` prints the version, unless an earlier one
/// is `--help`, `-h` or `help`, which prints the help; an argument that is
/// none of these is skipped.
pub proof fn law_first_flag_decides(args: Seq<Seq<char>>, i: int)
    requires
        0 <= i < args.len(),
        forall|j: int|
            0 <= j < i ==> !(#[trigger] args[j] == "--help"@ || args[j] == "-h"@ || args[j]
                == "help"@ || args[j] == "--version"@ || args[j] == "-V"@ || args[j]
                == "version"@),
    ensures
        args[i] == "--help"@ || args[i] == "-h"@ || args[i] == "help"@ ==> cli_choice(args)
            is Help,
        args[i] == "--version"@ || args[i] == "-V"@ || args[i] == "version"@ ==> cli_choice(
            args,
        ) is Version,
    decreases i,
{
    lemma_flag_words_differ();
    if i > 0 {
        let rest = args.drop_first();
        assert forall|j: int| 0 <= j < i - 1 implies !(#[trigger] rest[j] == "--help"@ || rest[j]
            == "-h"@ || rest[j] == "help"@ || rest[j] == "--version"@ || rest[j] == "-V"@
            || rest[j] == "version"@) by {
            assert(rest[j] == args[j + 1]);
        }
        law_first_flag_decides(rest, i - 1);
        assert(rest[i - 1] == args[i]);
        assert(!is_version_flag(args[0]) && !is_help_flag(args[0]));
    }
}

/// With no `--version`, `-V`, `version`, `--help`, `-h` or `help` among
/// the arguments, the server runs.
pub proof fn law_no_flag_runs(args: Seq<Seq<char>>)
    requires
        forall|j: int|
            0 <= j < args.len() ==> !(#[trigger] args[j] == "--help"@ || args[j] == "-h"@
                || args[j] == "help"@ || args[j] == "--version"@ || args[j] == "-V"@ || args[j]
                == "version"@),
    ensures
        cli_choice(args) is Run,
    decreases args.len(),
{
    if args.len() > 0 {
        let rest = args.drop_first();
        assert forall|j: int| 0 <= j < rest.len() implies !(#[trigger] rest[j] == "--help"@
            || rest[j] == "-h"@ || rest[j] == "help"@ || rest[j] == "--version"@ || rest[j]
            == "-V"@ || rest[j] == "version"@) by {
            assert(rest[j] == args[j + 1]);
        }
        law_no_flag_runs(rest);
        assert(!(args[0] == "--help"@));
    }
}

} // verus!
