use discord_mcp_rs::dispatch::{
    decimal_string, percent_encode_path, reply_from_text, plan_request, push_query, reply_result, scalar_to_string,
    should_retry, PlanError, RequestBody, RequestPlan, MAX_RATE_LIMIT_RETRIES,
};
use discord_mcp_rs::json::Json;
use discord_mcp_rs::jsontext::to_json_text;
use discord_mcp_rs::openapi::{Operation, Registry};

fn to_json(v: &serde_json::Value) -> Json {
    match v {
        serde_json::Value::Null => Json::Null,
        serde_json::Value::Bool(b) => Json::Bool(*b),
        serde_json::Value::Number(n) => Json::Number(n.to_string()),
        serde_json::Value::String(s) => Json::Str(s.clone()),
        serde_json::Value::Array(a) => Json::Array(a.iter().map(to_json).collect()),
        serde_json::Value::Object(m) => {
            Json::Object(m.iter().map(|(k, v)| (k.clone(), to_json(v))).collect())
        }
    }
}

fn parse(text: &str) -> Json {
    to_json(&serde_json::from_str(text).expect("test JSON is valid"))
}

const SPEC: &str = r##"{
  "paths": {
    "/channels/{channel_id}/messages": {
      "get": {
        "operationId": "list_messages",
        "parameters": [
          {"name": "channel_id", "in": "path", "schema": {"type": "string"}},
          {"name": "limit", "in": "query", "schema": {"type": "integer"}},
          {"name": "ids", "in": "query", "schema": {"type": "array"}}
        ]
      },
      "post": {
        "operationId": "create_message",
        "requestBody": {"content": {
          "application/json": {"schema": {"type": "object"}},
          "multipart/form-data": {"schema": {"type": "object", "properties": {
            "files[0]": {"type": "string", "format": "binary"},
            "files[1]": {"type": "string", "format": "binary"}
          }}}
        }}
      }
    },
    "/applications/{application_id}/attachment": {
      "post": {
        "operationId": "upload_attachment",
        "requestBody": {"content": {"multipart/form-data": {"schema": {"type": "object",
          "properties": {"file": {"type": "string", "format": "binary"}}}}}}
      }
    }
  }
}"##;

fn registry() -> Registry {
    match Registry::from_spec(&parse(SPEC)) {
        Ok(r) => r,
        Err(_) => panic!("spec parses"),
    }
}

fn op<'a>(reg: &'a Registry, name: &str) -> &'a Operation {
    reg.get(name).unwrap()
}

fn plan(reg: &Registry, name: &str, args: &str) -> RequestPlan {
    match plan_request(&reg.base_url, op(reg, name), &parse(args)) {
        Ok(p) => p,
        Err(_) => panic!("request plans"),
    }
}

#[test]
fn path_params_are_percent_encoded_into_the_url() {
    let reg = registry();
    let p = plan(&reg, "list_messages", r#"{"channel_id": "12/3 4"}"#);
    assert_eq!(p.method, "GET");
    assert_eq!(p.url, "https://discord.com/api/v10/channels/12%2F3%204/messages");
    assert!(p.query.is_empty());
    assert!(matches!(p.body, RequestBody::Empty));
}

#[test]
fn numeric_path_args_are_written_as_numbers() {
    let reg = registry();
    let p = plan(&reg, "list_messages", r#"{"channel_id": 123456789012345678}"#);
    assert_eq!(p.url, "https://discord.com/api/v10/channels/123456789012345678/messages");
}

#[test]
fn query_params_skip_null_and_repeat_arrays() {
    let reg = registry();
    let p = plan(
        &reg,
        "list_messages",
        r#"{"channel_id": "1", "limit": 50, "ids": ["a", 2, true], "other": "x"}"#,
    );
    let q: Vec<(&str, &str)> = p.query.iter().map(|(k, v)| (k.as_str(), v.as_str())).collect();
    assert_eq!(q, vec![("limit", "50"), ("ids", "a"), ("ids", "2"), ("ids", "true")]);
    let p = plan(&reg, "list_messages", r#"{"channel_id": "1", "limit": null}"#);
    assert!(p.query.is_empty());
}

#[test]
fn missing_path_param_is_refused() {
    let reg = registry();
    match plan_request(&reg.base_url, op(&reg, "list_messages"), &parse(r#"{"limit": 5}"#)) {
        Err(PlanError::MissingPathParam(n)) => assert_eq!(n, "channel_id"),
        Ok(_) => panic!("expected a missing path parameter"),
    }
}

#[test]
fn json_body_is_sent_as_json() {
    let reg = registry();
    let p = plan(&reg, "create_message", r#"{"channel_id": "9", "body": {"content": "hi"}}"#);
    assert_eq!(p.method, "POST");
    match p.body {
        RequestBody::Json(j) => assert_eq!(to_json_text(&j), "{\"content\":\"hi\"}"),
        _ => panic!("expected a JSON body"),
    }
    let p = plan(&reg, "create_message", r#"{"channel_id": "9", "body": null}"#);
    assert!(matches!(p.body, RequestBody::Empty));
}

#[test]
fn files_make_a_multipart_body() {
    let reg = registry();
    let p = plan(
        &reg,
        "create_message",
        r#"{"channel_id": "9", "body": {"content": "see \"this\""}, "files": ["/tmp/a.png", 5, "/tmp/b.txt"]}"#,
    );
    match p.body {
        RequestBody::Multipart { payload_json, parts } => {
            assert_eq!(payload_json.as_deref(), Some("{\"content\":\"see \\\"this\\\"\"}"));
            let got: Vec<(&str, &str)> =
                parts.iter().map(|u| (u.name.as_str(), u.path.as_str())).collect();
            assert_eq!(got, vec![("files[0]", "/tmp/a.png"), ("files[2]", "/tmp/b.txt")]);
        }
        _ => panic!("expected a multipart body"),
    }
    // An array without any path sends no files.
    let p = plan(&reg, "create_message", r#"{"channel_id": "9", "files": [1, 2]}"#);
    assert!(matches!(p.body, RequestBody::Empty));
}

#[test]
fn a_named_file_field_makes_a_multipart_body() {
    let reg = registry();
    let p = plan(&reg, "upload_attachment", r#"{"application_id": "7", "file": "/tmp/x.bin"}"#);
    assert_eq!(p.url, "https://discord.com/api/v10/applications/7/attachment");
    match p.body {
        RequestBody::Multipart { payload_json, parts } => {
            assert!(payload_json.is_none());
            assert_eq!(parts.len(), 1);
            assert_eq!(parts[0].name, "file");
            assert_eq!(parts[0].path, "/tmp/x.bin");
        }
        _ => panic!("expected a multipart body"),
    }
}

#[test]
fn scalars_render_as_url_text() {
    assert_eq!(scalar_to_string(&Json::Str("a b".to_string())), "a b");
    assert_eq!(scalar_to_string(&Json::Number("-1.5e3".to_string())), "-1.5e3");
    assert_eq!(scalar_to_string(&Json::Bool(false)), "false");
    assert_eq!(scalar_to_string(&Json::Null), "null");
    assert_eq!(scalar_to_string(&parse(r#"{"a": [1, "x"]}"#)), "{\"a\":[1,\"x\"]}");
}

#[test]
fn push_query_expands_arrays() {
    let mut q = vec![("a".to_string(), "1".to_string())];
    push_query(&mut q, "k", &parse(r#"["x", null]"#));
    push_query(&mut q, "z", &Json::Bool(true));
    let got: Vec<(&str, &str)> = q.iter().map(|(k, v)| (k.as_str(), v.as_str())).collect();
    assert_eq!(got, vec![("a", "1"), ("k", "x"), ("k", "null"), ("z", "true")]);
}

#[test]
fn percent_encoding_keeps_only_unreserved_bytes() {
    assert_eq!(percent_encode_path("aZ09-_.~"), "aZ09-_.~");
    assert_eq!(percent_encode_path("a b/ü?"), "a%20b%2F%C3%BC%3F");
    assert_eq!(percent_encode_path("🎉"), "%F0%9F%8E%89");
    assert_eq!(percent_encode_path(""), "");
}

#[test]
fn replies_carry_status_ok_and_body() {
    let (payload, ok) = reply_result(204, String::new(), None);
    assert!(ok);
    assert_eq!(to_json_text(&payload), "{\"status\":204,\"ok\":true,\"body\":null}");
    let text = "{\"message\":\"Unknown Channel\",\"code\":10003}".to_string();
    let parsed = Some(parse(&text));
    let (payload, ok) = reply_result(404, text, parsed);
    assert!(!ok);
    assert_eq!(
        to_json_text(&payload),
        "{\"status\":404,\"ok\":false,\"body\":{\"code\":10003,\"message\":\"Unknown Channel\"}}"
    );
    let (payload, ok) = reply_result(502, "Bad Gateway".to_string(), None);
    assert!(!ok);
    assert_eq!(to_json_text(&payload), "{\"status\":502,\"ok\":false,\"body\":\"Bad Gateway\"}");
    let (_, ok) = reply_result(299, "x".to_string(), None);
    assert!(ok);
    let (_, ok) = reply_result(300, "x".to_string(), None);
    assert!(!ok);
    let (_, ok) = reply_result(199, "x".to_string(), None);
    assert!(!ok);
}

#[test]
fn only_rate_limits_are_retried_and_only_three_times() {
    assert_eq!(MAX_RATE_LIMIT_RETRIES, 3);
    assert!(should_retry(429, 0));
    assert!(should_retry(429, 2));
    assert!(!should_retry(429, 3));
    assert!(!should_retry(500, 0));
    assert!(!should_retry(200, 0));
}

#[test]
fn decimals() {
    assert_eq!(decimal_string(0), "0");
    assert_eq!(decimal_string(429), "429");
    assert_eq!(decimal_string(u64::MAX), "18446744073709551615");
}

#[test]
fn calls_carry_the_bot_token() {
    assert_eq!(discord_mcp_rs::dispatch::authorization("abc.def"), "Bot abc.def");
}

#[test]
fn multipart_exactly_when_a_file_is_given() {
    let reg = registry();
    // Named field given as a non-string: no file part, so no multipart body.
    let p = plan(&reg, "upload_attachment", r#"{"application_id": "7", "file": 3}"#);
    assert!(matches!(p.body, RequestBody::Empty));
    let p = plan(&reg, "upload_attachment", r#"{"application_id": "7", "file": "/x"}"#);
    assert!(matches!(p.body, RequestBody::Multipart { .. }));
}

#[test]
fn replies_are_read_from_their_text() {
    let (payload, ok) = reply_from_text(200, "{\"id\": \"1\"}".to_string());
    assert!(ok);
    assert_eq!(to_json_text(&payload), "{\"status\":200,\"ok\":true,\"body\":{\"id\":\"1\"}}");
    let (payload, ok) = reply_from_text(500, "oops".to_string());
    assert!(!ok);
    assert_eq!(to_json_text(&payload), "{\"status\":500,\"ok\":false,\"body\":\"oops\"}");
    let (payload, _) = reply_from_text(204, String::new());
    assert_eq!(to_json_text(&payload), "{\"status\":204,\"ok\":true,\"body\":null}");
}
