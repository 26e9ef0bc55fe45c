use discord_mcp_rs::cli::{
    commit_cut_fits, handle_cli, is_truthy, select_spec, server_version, spec_source_line,
    version_string, CliAction, SpecSource,
};
use discord_mcp_rs::util::{data_uri, mime_for_path, parse_id, parse_u64_exec, unsupported_format_text, IdError};

fn args(a: &[&str]) -> Vec<String> {
    a.iter().map(|s| s.to_string()).collect()
}

#[test]
fn version_string_names_git_and_build() {
    assert_eq!(version_string("0.2.0", "unknown", None), "discord-mcp-rs 0.2.0");
    assert_eq!(
        version_string("0.2.0", "abc123def456", None),
        "discord-mcp-rs 0.2.0 (git abc123def456)"
    );
    assert_eq!(
        version_string("0.2.0", "abc123def456", Some("17")),
        "discord-mcp-rs 0.2.0 (git abc123def456, build 17)"
    );
    assert_eq!(version_string("0.2.0", "unknown", Some("17")), "discord-mcp-rs 0.2.0 (build 17)");
}

#[test]
fn server_version_adds_the_commit_as_build_metadata() {
    assert_eq!(server_version("0.2.0", "unknown"), "0.2.0");
    assert_eq!(server_version("0.2.0", "abc123"), "0.2.0+abc123");
}

#[test]
fn spec_source_line_cuts_the_commit_to_twelve_bytes() {
    let source = "repo: discord/discord-api-spec\ncommit:  d6f2c42086936b1e2a6f \nfetched: today\n";
    assert!(commit_cut_fits(source));
    assert_eq!(spec_source_line(source), "discord/discord-api-spec@d6f2c4208693");
    assert_eq!(spec_source_line("commit:abc\n"), "discord/discord-api-spec@abc");
    assert_eq!(spec_source_line("no commit here\n"), "discord/discord-api-spec@unknown");
    assert_eq!(spec_source_line("x commit: late\n"), "discord/discord-api-spec@unknown");
    // A cut in the middle of a character is refused rather than made.
    assert!(!commit_cut_fits("commit: 12345678901é\n"));
    assert!(commit_cut_fits("commit: 1234567890é\n"));
}

#[test]
fn cli_flags() {
    assert!(matches!(handle_cli(&args(&[])), CliAction::Run));
    assert!(matches!(handle_cli(&args(&["--version"])), CliAction::Version));
    assert!(matches!(handle_cli(&args(&["-V"])), CliAction::Version));
    assert!(matches!(handle_cli(&args(&["x", "help"])), CliAction::Help));
    assert!(matches!(handle_cli(&args(&["-h", "--version"])), CliAction::Help));
    assert!(matches!(handle_cli(&args(&["--verbose"])), CliAction::Run));
}

#[test]
fn truthy_flags() {
    for v in ["1", "true", "YES", " On ", "\ttrue\n"] {
        assert!(is_truthy(v), "{v:?} is truthy");
    }
    for v in ["", "0", "false", "no", "y", "tru e"] {
        assert!(!is_truthy(v), "{v:?} is not truthy");
    }
}

#[test]
fn spec_file_overrides_preview_flag() {
    match select_spec(Some("/tmp/spec.json".to_string()), Some("1".to_string())) {
        SpecSource::File(p) => assert_eq!(p, "/tmp/spec.json"),
        _ => panic!("expected the spec file"),
    }
    assert!(matches!(select_spec(None, Some("yes".to_string())), SpecSource::Preview));
    assert!(matches!(select_spec(None, Some("off".to_string())), SpecSource::Stable));
    assert!(matches!(select_spec(None, None), SpecSource::Stable));
}

#[test]
fn snowflake_ids() {
    assert!(matches!(parse_id("1234567890123456789"), Ok(1234567890123456789)));
    assert!(matches!(parse_id("  42\n"), Ok(42)));
    assert!(matches!(parse_id("+7"), Ok(7)));
    assert!(matches!(parse_id("0"), Err(IdError::Zero)));
    assert!(matches!(parse_id("abc"), Err(IdError::NotNumeric)));
    assert!(matches!(parse_id(""), Err(IdError::NotNumeric)));
    assert!(matches!(parse_id("-1"), Err(IdError::NotNumeric)));
    assert!(matches!(parse_id("18446744073709551616"), Err(IdError::NotNumeric)));
    assert!(matches!(parse_id("18446744073709551615"), Ok(u64::MAX)));
    assert_eq!(
        IdError::NotNumeric.message("abc"),
        "Invalid ID 'abc': must be a numeric snowflake ID"
    );
    assert_eq!(IdError::Zero.message("0"), "ID must be non-zero");
    assert_eq!(parse_u64_exec("007"), Some(7));
    assert_eq!(parse_u64_exec(" 7"), None);
}

#[test]
fn upload_mime_types() {
    assert_eq!(mime_for_path("/a/b.PNG").as_deref(), Some("image/png"));
    assert_eq!(mime_for_path("x.jpeg").as_deref(), Some("image/jpeg"));
    assert_eq!(mime_for_path("x.tar.jpg").as_deref(), Some("image/jpeg"));
    assert_eq!(mime_for_path("song.mp3").as_deref(), Some("audio/mpeg"));
    assert_eq!(mime_for_path("s.ogg").as_deref(), Some("audio/ogg"));
    assert_eq!(mime_for_path("a.gif").as_deref(), Some("image/gif"));
    assert_eq!(mime_for_path("a.webp").as_deref(), Some("image/webp"));
    assert_eq!(mime_for_path("png"), Some("image/png".to_string()));
    assert_eq!(mime_for_path("a.txt"), None);
    assert_eq!(
        unsupported_format_text(),
        "Unsupported file format. Supported: png, jpg, gif, webp, mp3, ogg."
    );
}

#[test]
fn data_uris_hold_standard_base64() {
    assert_eq!(data_uri("image/png", b"hello"), "data:image/png;base64,aGVsbG8=");
    assert_eq!(data_uri("audio/ogg", b""), "data:audio/ogg;base64,");
    assert_eq!(data_uri("a/b", &[0xfb, 0xff]), "data:a/b;base64,+/8=");
}
