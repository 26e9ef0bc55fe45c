use discord_mcp_rs::json::Json;
use discord_mcp_rs::jsontext::to_json_text;
use discord_mcp_rs::openapi::{path_placeholders, FileMode, Operation, Registry};
use discord_mcp_rs::openapi::SpecError;

fn to_json(v: &serde_json::Value) -> Json {
    match v {
        serde_json::Value::Null => Json::Null,
        serde_json::Value::Bool(b) => Json::Bool(*b),
        serde_json::Value::Number(n) => Json::Number(n.to_string()),
        serde_json::Value::String(s) => Json::Str(s.clone()),
        serde_json::Value::Array(a) => Json::Array(a.iter().map(to_json).collect()),
        serde_json::Value::Object(m) => {
            Json::Object(m.iter().map(|(k, v)| (k.clone(), to_json(v))).collect())
        }
    }
}

fn parse(text: &str) -> Json {
    to_json(&serde_json::from_str(text).expect("test spec is valid JSON"))
}

fn member<'a>(m: &'a [(String, Json)], key: &str) -> Option<&'a Json> {
    m.iter().rev().find(|(k, _)| k == key).map(|(_, v)| v)
}

fn keys(j: &Json) -> Vec<String> {
    match j {
        Json::Object(m) => m.iter().map(|(k, _)| k.clone()).collect(),
        _ => Vec::new(),
    }
}

/// A small spec in the shape of Discord's: a message endpoint with a JSON
/// body and a multipart body with file parts, and an attachment upload.
const SPEC: &str = r##"{
  "openapi": "3.1.0",
  "servers": [{"url": "https://discord.com/api/v10/"}],
  "paths": {
    "/applications/{application_id}/attachment": {
      "post": {
        "operationId": "upload_application_attachment",
        "parameters": [
          {"name": "application_id", "in": "path", "schema": {"$ref": "#/components/schemas/SnowflakeType"}}
        ],
        "requestBody": {
          "content": {
            "multipart/form-data": {
              "schema": {
                "type": "object",
                "properties": {"file": {"type": "string", "contentEncoding": "binary"}},
                "required": ["file"]
              }
            }
          },
          "required": true
        }
      }
    },
    "/channels/{channel_id}/messages": {
      "get": {
        "operationId": "list_messages",
        "summary": "List messages",
        "parameters": [
          {"name": "channel_id", "in": "path", "schema": {"$ref": "#/components/schemas/SnowflakeType"}},
          {"name": "limit", "in": "query", "description": "Max messages", "schema": {"type": "integer"}},
          {"name": "X-Trace", "in": "header", "schema": {"$ref": "#/components/schemas/TraceId"}}
        ]
      },
      "post": {
        "operationId": "create_message",
        "parameters": [
          {"name": "channel_id", "in": "path", "schema": {"$ref": "#/components/schemas/SnowflakeType"}}
        ],
        "requestBody": {
          "content": {
            "application/json": {"schema": {"$ref": "#/components/schemas/MessageCreateRequest"}},
            "multipart/form-data": {
              "schema": {
                "allOf": [
                  {"$ref": "#/components/schemas/MessageCreateRequest"},
                  {"type": "object", "properties": {
                    "files[0]": {"type": "string", "contentEncoding": "binary"},
                    "files[1]": {"type": "string", "format": "binary"}
                  }}
                ]
              }
            }
          },
          "required": true
        }
      }
    },
    "/guilds/{guild_id}/members/{user_id}": {
      "delete": {"operationId": "delete_guild_member", "description": "Kick a member"},
      "options": {"operationId": "not_an_operation"}
    }
  },
  "components": {
    "schemas": {
      "SnowflakeType": {"type": "string", "pattern": "^(0|[1-9][0-9]*)$"},
      "TraceId": {"type": "string"},
      "MessageCreateRequest": {
        "type": "object",
        "properties": {
          "content": {"type": "string"},
          "embeds": {"type": "array", "items": {"$ref": "#/components/schemas/RichEmbed"}}
        }
      },
      "RichEmbed": {
        "type": "object",
        "properties": {
          "title": {"type": "string"},
          "author": {"$ref": "#/components/schemas/EmbedAuthor"},
          "parent": {"$ref": "#/components/schemas/RichEmbed"}
        }
      },
      "EmbedAuthor": {"type": "object", "properties": {"name": {"type": "string"}}},
      "Unused": {"type": "string"}
    }
  }
}"##;

fn registry() -> Registry {
    match Registry::from_spec_str(SPEC) {
        Ok(r) => r,
        Err(_) => panic!("spec parses"),
    }
}

fn op<'a>(reg: &'a Registry, name: &str) -> &'a Operation {
    match reg.get(name) {
        Some(o) => o,
        None => panic!("{name} exists"),
    }
}

/// A spec with as many operations as Discord's, one GET per path.
fn large_spec(n: usize) -> String {
    let mut paths = Vec::new();
    for i in 0..n {
        paths.push(format!(
            "\"/things/{i}/{{thing_id}}\": {{\"get\": {{\"operationId\": \"get_thing_{i}\"}}}}"
        ));
    }
    format!(
        "{{\"servers\": [{{\"url\": \"https://discord.com/api/v10\"}}], \"paths\": {{{}}}}}",
        paths.join(", ")
    )
}

#[test]
fn parses_all_operations() {
    let reg = match Registry::from_spec_str(&large_spec(242)) {
        Ok(r) => r,
        Err(_) => panic!("spec parses"),
    };
    assert!(reg.len() >= 240, "expected ~242 tools, got {}", reg.len());
    assert_eq!(reg.base_url, "https://discord.com/api/v10");
}

#[test]
fn every_tool_schema_is_a_valid_object_with_no_dangling_refs() {
    let reg = registry();
    for op in &reg.operations {
        let schema = &op.tool.input_schema;
        assert_eq!(
            member(schema, "type").and_then(|v| v.as_str()),
            Some("object"),
            "{} schema must be an object",
            op.operation_id
        );
        let text = to_json_text(&Json::Object(discord_mcp_rs::json::clone_members(schema)));
        assert!(
            !text.contains("#/components/schemas/"),
            "{} has unrewritten component refs",
            op.operation_id
        );
    }
}

#[test]
fn create_message_has_body_and_file_uploads() {
    let reg = registry();
    let op = op(&reg, "create_message");
    assert_eq!(op.method, "POST");
    assert!(op.path_params.iter().any(|p| p == "channel_id"));
    assert!(matches!(op.file_mode, FileMode::Array));
    let props = member(&op.tool.input_schema, "properties").unwrap();
    assert!(props.get("body").is_some(), "create_message exposes `body`");
    assert!(member(&op.tool.input_schema, "$defs").is_some());
}

#[test]
fn single_file_upload_is_a_named_path() {
    let reg = registry();
    let op = op(&reg, "upload_application_attachment");
    match &op.file_mode {
        FileMode::Named(fields) => assert_eq!(fields, &vec!["file".to_string()]),
        _ => panic!("expected Named file mode"),
    }
}

#[test]
fn one_tool_per_operation_in_spec_order() {
    let reg = registry();
    let names: Vec<&str> = reg.operations.iter().map(|o| o.operation_id.as_str()).collect();
    assert_eq!(
        names,
        vec!["upload_application_attachment", "list_messages", "create_message", "delete_guild_member"]
    );
    let tools = reg.tools();
    assert_eq!(tools.len(), 4);
    for (t, o) in tools.iter().zip(reg.operations.iter()) {
        assert_eq!(t.name, o.operation_id);
        assert!(reg.get(&t.name).is_some());
    }
    assert!(reg.get("not_an_operation").is_none());
    assert!(!reg.is_empty());
}

#[test]
fn methods_are_upper_case_and_descriptions_name_the_route() {
    let reg = registry();
    let list = op(&reg, "list_messages");
    assert_eq!(list.method, "GET");
    assert_eq!(list.tool.description, "List messages [GET /channels/{channel_id}/messages]");
    let kick = op(&reg, "delete_guild_member");
    assert_eq!(kick.tool.description, "Kick a member [DELETE /guilds/{guild_id}/members/{user_id}]");
    let create = op(&reg, "create_message");
    assert_eq!(create.tool.description, "POST /channels/{channel_id}/messages");
}

#[test]
fn parameters_become_properties() {
    let reg = registry();
    let list = op(&reg, "list_messages");
    assert_eq!(list.path_params, vec!["channel_id".to_string()]);
    assert_eq!(list.query_params, vec!["limit".to_string()]);
    let props = member(&list.tool.input_schema, "properties").unwrap();
    assert_eq!(keys(props), vec!["channel_id".to_string(), "limit".to_string()]);
    let limit = props.get("limit").unwrap();
    assert_eq!(
        limit.get("description").and_then(|d| d.as_str()),
        Some("Max messages (query parameter)")
    );
    let channel = props.get("channel_id").unwrap();
    assert_eq!(channel.get("$ref").and_then(|d| d.as_str()), Some("#/$defs/SnowflakeType"));
    assert_eq!(channel.get("description").and_then(|d| d.as_str()), Some("path parameter"));
    let required = member(&list.tool.input_schema, "required").unwrap();
    assert_eq!(to_json_text(&Json::Array(discord_mcp_rs::json::clone_items(required.as_array().unwrap()))), "[\"channel_id\"]");
    // The header parameter is not a property, but the schema it names is inlined.
    let defs = member(&list.tool.input_schema, "$defs").unwrap();
    assert_eq!(keys(defs).len(), 2);
    assert!(defs.get("TraceId").is_some());
    assert!(defs.get("SnowflakeType").is_some());
}

#[test]
fn undeclared_placeholders_become_required_path_params() {
    let reg = registry();
    let kick = op(&reg, "delete_guild_member");
    assert_eq!(kick.path_params, vec!["guild_id".to_string(), "user_id".to_string()]);
    let props = member(&kick.tool.input_schema, "properties").unwrap();
    assert_eq!(
        to_json_text(props.get("user_id").unwrap()),
        "{\"type\":\"string\",\"description\":\"Path parameter\"}"
    );
    let required = member(&kick.tool.input_schema, "required").unwrap();
    assert_eq!(required.as_array().unwrap().len(), 2);
    assert!(member(&kick.tool.input_schema, "$defs").is_none());
}

#[test]
fn defs_hold_exactly_the_referenced_closure() {
    let reg = registry();
    let create = op(&reg, "create_message");
    let defs = member(&create.tool.input_schema, "$defs").unwrap();
    // The inlined schemas come out in ascending order of name.
    let names = keys(defs);
    assert_eq!(
        names,
        vec!["EmbedAuthor", "MessageCreateRequest", "RichEmbed", "SnowflakeType"]
    );
    let embed = defs.get("RichEmbed").unwrap();
    assert_eq!(
        to_json_text(embed),
        "{\"properties\":{\"author\":{\"$ref\":\"#/$defs/EmbedAuthor\"},\"parent\":{\"$ref\":\"#/$defs/RichEmbed\"},\"title\":{\"type\":\"string\"}},\"type\":\"object\"}"
    );
    let body = member(&create.tool.input_schema, "properties").unwrap().get("body").unwrap();
    assert_eq!(to_json_text(body), "{\"$ref\":\"#/$defs/MessageCreateRequest\"}");
    let files = member(&create.tool.input_schema, "properties").unwrap().get("files").unwrap();
    assert_eq!(files.get("type").and_then(|t| t.as_str()), Some("array"));
}

#[test]
fn multipart_only_body_exposes_non_file_fields() {
    let spec = r##"{"paths": {"/stickers": {"post": {"operationId": "create_sticker",
      "requestBody": {"required": true, "content": {"multipart/form-data": {"schema": {
        "type": "object", "properties": {
          "name": {"type": "string"},
          "file": {"type": "string", "format": "binary"}
        }}}}}}}}}"##;
    let reg = match Registry::from_spec(&parse(spec)) {
        Ok(r) => r,
        Err(_) => panic!("spec parses"),
    };
    assert_eq!(reg.base_url, "https://discord.com/api/v10");
    let op = op(&reg, "create_sticker");
    let props = member(&op.tool.input_schema, "properties").unwrap();
    assert_eq!(
        to_json_text(props.get("body").unwrap()),
        "{\"type\":\"object\",\"properties\":{\"name\":{\"type\":\"string\"}}}"
    );
    assert_eq!(
        to_json_text(props.get("file").unwrap()),
        "{\"type\":\"string\",\"description\":\"Local filesystem path to upload as the `file` file part\"}"
    );
    let required = member(&op.tool.input_schema, "required").unwrap();
    assert_eq!(to_json_text(required), "[\"body\"]");
}

#[test]
fn spec_without_paths_is_refused() {
    assert!(matches!(Registry::from_spec(&parse("{\"openapi\": \"3.1.0\"}")), Err(SpecError::NoPaths)));
    assert!(matches!(Registry::from_spec(&parse("{\"paths\": []}")), Err(SpecError::NoPaths)));
}

#[test]
fn later_operation_wins_a_shared_name() {
    let spec = r#"{"paths": {
      "/a": {"get": {"operationId": "same"}},
      "/b": {"get": {"operationId": "same"}}}}"#;
    let reg = match Registry::from_spec(&parse(spec)) {
        Ok(r) => r,
        Err(_) => panic!("spec parses"),
    };
    assert_eq!(reg.len(), 2);
    assert_eq!(reg.get("same").unwrap().path_template, "/b");
}

#[test]
fn placeholders_are_read_in_order() {
    assert_eq!(
        path_placeholders("/guilds/{guild_id}/members/{user_id}"),
        vec!["guild_id".to_string(), "user_id".to_string()]
    );
    assert_eq!(path_placeholders("/a/{unclosed"), Vec::<String>::new());
    assert_eq!(path_placeholders("/plain"), Vec::<String>::new());
    assert_eq!(path_placeholders("{}"), vec!["".to_string()]);
}

#[test]
fn spec_text_that_is_not_json_is_refused() {
    match Registry::from_spec_str("{\"paths\": ") {
        Err(SpecError::InvalidJson(m)) => assert!(m.contains("EOF"), "{m}"),
        _ => panic!("expected an invalid JSON refusal"),
    }
    assert!(matches!(Registry::from_spec_str("[1, 2]"), Err(SpecError::NoPaths)));
}

#[test]
fn parsed_documents_keep_number_text() {
    match discord_mcp_rs::json::parse_json("{\"b\": 1.50, \"a\": [true, null, \"x\"]}") {
        Ok(j) => assert_eq!(to_json_text(&j), "{\"a\":[true,null,\"x\"],\"b\":1.5}"),
        Err(m) => panic!("{m}"),
    }
    assert!(discord_mcp_rs::json::parse_json("nul").is_err());
}
