use serde_json::Value;
use web_search_mcp::web_search::{
    check_required_variables, invalid_parameters_error, parse_failed_error, prepare_request,
    request_failed_error, request_succeeded, response_text, search_output, send_failed_error,
    AzureSearchResponse, ContentItem, Reference, ResponseItem, SearchEnvironment,
};
use web_search_mcp::tools::ToolName;
use web_search_mcp::{BrowserError, WebSearchParams, WebSearchTool};

fn full_env() -> SearchEnvironment {
    SearchEnvironment {
        base_url: Some("https://my-search.search.windows.net".to_string()),
        kb_name: Some("web-kb".to_string()),
        knowledge_source_name: Some("web-search".to_string()),
        knowledge_source_kind: None,
        api_key: Some("SECRET-REDACTED".to_string()),
    }
}

fn params(query: &str) -> WebSearchParams {
    WebSearchParams { query: query.to_string() }
}

fn object(entries: Vec<(&str, Value)>) -> Value {
    let mut map = serde_json::Map::new();
    for (k, v) in entries {
        map.insert(k.to_string(), v);
    }
    Value::Object(map)
}

fn expected_body(query: &str, name: &str, kind: &str) -> Value {
    object(vec![
        (
            "messages",
            Value::Array(vec![object(vec![
                ("role", Value::from("user")),
                (
                    "content",
                    Value::Array(vec![object(vec![("text", Value::from(query)), ("type", Value::from("text"))])]),
                ),
            ])]),
        ),
        ("includeActivity", Value::Bool(false)),
        (
            "knowledgeSourceParams",
            Value::Array(vec![object(vec![
                ("knowledgeSourceName", Value::from(name)),
                ("kind", Value::from(kind)),
                ("includeReferences", Value::Bool(true)),
                ("includeReferenceSourceData", Value::Bool(true)),
                ("alwaysQuerySource", Value::Bool(false)),
            ])]),
        ),
    ])
}

fn tool_failure_reason(e: &BrowserError) -> String {
    match e {
        BrowserError::ToolExecutionFailed { tool, reason } => {
            assert_eq!(tool, "web_search");
            reason.clone()
        }
        other => panic!("unexpected error {:?}", other),
    }
}

#[test]
fn tool_name_is_web_search() {
    assert_eq!(WebSearchTool.name(), "web_search");
}

#[test]
fn request_has_url_key_and_body() {
    let request = prepare_request(&params("What is the capital of France?"), &full_env()).unwrap();
    assert_eq!(
        request.url,
        "https://my-search.search.windows.net/knowledgebases/web-kb/retrieve?api-version=2025-11-01-preview"
    );
    assert_eq!(request.api_key, "SECRET-REDACTED");
    let expected = expected_body("What is the capital of France?", "web-search", "web");
    assert_eq!(request.body, serde_json::to_string(&expected).unwrap());
    let parsed: Value = serde_json::from_str(&request.body).unwrap();
    assert_eq!(parsed, expected);
}

#[test]
fn request_url_drops_trailing_slashes() {
    let mut env = full_env();
    env.base_url = Some("https://x.example///".to_string());
    let request = prepare_request(&params("q"), &env).unwrap();
    assert_eq!(request.url, "https://x.example/knowledgebases/web-kb/retrieve?api-version=2025-11-01-preview");
    env.base_url = Some("///".to_string());
    let request = prepare_request(&params("q"), &env).unwrap();
    assert_eq!(request.url, "/knowledgebases/web-kb/retrieve?api-version=2025-11-01-preview");
}

#[test]
fn request_uses_the_configured_source_kind() {
    let mut env = full_env();
    env.knowledge_source_kind = Some("bing".to_string());
    let request = prepare_request(&params("q"), &env).unwrap();
    assert_eq!(request.body, serde_json::to_string(&expected_body("q", "web-search", "bing")).unwrap());
}

#[test]
fn request_escapes_special_characters_as_serde_json_does() {
    let query = "say \"hi\" \\ back/slash\n\r\t\u{8}\u{c}\u{1}\u{1f}\u{7f} é 日本 🎉";
    let request = prepare_request(&params(query), &full_env()).unwrap();
    assert_eq!(request.body, serde_json::to_string(&expected_body(query, "web-search", "web")).unwrap());
    let parsed: Value = serde_json::from_str(&request.body).unwrap();
    assert_eq!(parsed["messages"][0]["content"][0]["text"], Value::from(query));
}

#[test]
fn request_with_empty_query() {
    let request = prepare_request(&params(""), &full_env()).unwrap();
    assert_eq!(request.body, serde_json::to_string(&expected_body("", "web-search", "web")).unwrap());
}

#[test]
fn missing_base_url_is_reported_first() {
    let env = SearchEnvironment {
        base_url: None,
        kb_name: None,
        knowledge_source_name: None,
        knowledge_source_kind: None,
        api_key: None,
    };
    let err = prepare_request(&params("q"), &env).unwrap_err();
    assert_eq!(tool_failure_reason(&err), "AZURE_AI_SEARCH_BASE_URL environment variable not set");
    assert_eq!(
        err.message(),
        "Tool 'web_search' execution failed: AZURE_AI_SEARCH_BASE_URL environment variable not set"
    );
}

#[test]
fn missing_variables_are_reported_in_order() {
    let mut env = full_env();
    env.kb_name = None;
    env.api_key = None;
    let err = prepare_request(&params("q"), &env).unwrap_err();
    assert_eq!(tool_failure_reason(&err), "AZURE_AI_SEARCH_KB_NAME environment variable not set");

    let mut env = full_env();
    env.knowledge_source_name = None;
    let err = prepare_request(&params("q"), &env).unwrap_err();
    assert_eq!(tool_failure_reason(&err), "AZURE_AI_SEARCH_KNOWLEDGE_SOURCE_NAME environment variable not set");

    let mut env = full_env();
    env.api_key = None;
    let err = prepare_request(&params("q"), &env).unwrap_err();
    assert_eq!(tool_failure_reason(&err), "AZURE_AI_SEARCH_API_KEY environment variable not set");
}

#[test]
fn startup_check_names_the_first_missing_variable() {
    assert_eq!(check_required_variables(&full_env()), None);
    let mut env = full_env();
    env.knowledge_source_kind = None;
    assert_eq!(check_required_variables(&env), None);
    env.knowledge_source_name = None;
    env.api_key = None;
    assert_eq!(
        check_required_variables(&env),
        Some("Required environment variable AZURE_AI_SEARCH_KNOWLEDGE_SOURCE_NAME is not set".to_string())
    );
    env.base_url = None;
    assert_eq!(
        check_required_variables(&env),
        Some("Required environment variable AZURE_AI_SEARCH_BASE_URL is not set".to_string())
    );
}

#[test]
fn success_statuses() {
    assert!(request_succeeded(200));
    assert!(request_succeeded(204));
    assert!(request_succeeded(299));
    assert!(!request_succeeded(199));
    assert!(!request_succeeded(300));
    assert!(!request_succeeded(404));
    assert!(!request_succeeded(500));
}

#[test]
fn failed_status_message_matches_status_display() {
    for (code, text) in [(404u16, "no such kb"), (500, ""), (100, "x"), (429, "slow down"), (599, "odd")] {
        let err = request_failed_error(code, text);
        let status = reqwest::StatusCode::from_u16(code).unwrap();
        assert_eq!(
            tool_failure_reason(&err),
            format!("Azure AI Search request failed with status {}: {}", status, text)
        );
    }
    let err = request_failed_error(404, "gone");
    assert_eq!(tool_failure_reason(&err), "Azure AI Search request failed with status 404 Not Found: gone");
    let err = request_failed_error(599, "odd");
    assert_eq!(tool_failure_reason(&err), "Azure AI Search request failed with status 599 <unknown status code>: odd");
    let err = request_failed_error(7, "tiny");
    assert_eq!(tool_failure_reason(&err), "Azure AI Search request failed with status 7 <unknown status code>: tiny");
}

#[test]
fn transport_and_decoding_failures() {
    assert_eq!(
        tool_failure_reason(&send_failed_error("connection refused")),
        "Failed to send request to Azure AI Search: connection refused"
    );
    assert_eq!(
        tool_failure_reason(&parse_failed_error("expected value at line 1 column 1")),
        "Failed to parse Azure AI Search response: expected value at line 1 column 1"
    );
    match invalid_parameters_error("missing field `query`") {
        BrowserError::InvalidArgument(m) => assert_eq!(m, "Invalid parameters: missing field `query`"),
        other => panic!("unexpected error {:?}", other),
    }
}

#[test]
fn error_messages() {
    let e = BrowserError::InvalidArgument("bad".to_string());
    assert_eq!(e.message(), "Invalid argument: bad");
    let e = BrowserError::ToolExecutionFailed { tool: "t".to_string(), reason: "r".to_string() };
    assert_eq!(e.message(), "Tool 't' execution failed: r");
    let json_err = serde_json::from_str::<Value>("{").unwrap_err();
    let expected = format!("JSON error: {}", json_err);
    assert_eq!(BrowserError::JsonError(json_err).message(), expected);
    let io_err = std::io::Error::new(std::io::ErrorKind::Other, "disk");
    assert_eq!(BrowserError::IoError(io_err).message(), "IO error: disk");
}

fn content(kind: &str, text: &str) -> ContentItem {
    ContentItem { content_type: kind.to_string(), text: text.to_string() }
}

fn reference(id: &str) -> Reference {
    Reference {
        ref_type: "web".to_string(),
        id: id.to_string(),
        activity_source: 0,
        source_data: None,
        url: format!("https://example.com/{}", id),
        title: format!("Title {}", id),
    }
}

fn answer(response: Vec<ResponseItem>, references: Vec<Reference>) -> AzureSearchResponse {
    AzureSearchResponse { response, activity: Vec::new(), references }
}

#[test]
fn response_text_takes_the_first_text_item() {
    let resp = answer(
        vec![
            ResponseItem { content: vec![content("text", "Paris."), content("text", "ignored")] },
            ResponseItem { content: vec![content("text", "also ignored")] },
        ],
        vec![],
    );
    assert_eq!(response_text(&resp), "Paris.");
}

#[test]
fn response_text_is_empty_otherwise() {
    assert_eq!(response_text(&answer(vec![], vec![])), "");
    assert_eq!(response_text(&answer(vec![ResponseItem { content: vec![] }], vec![])), "");
    let resp = answer(vec![ResponseItem { content: vec![content("image", "x"), content("text", "y")] }], vec![]);
    assert_eq!(response_text(&resp), "");
}

#[test]
fn search_output_keeps_references() {
    let resp = answer(
        vec![ResponseItem { content: vec![content("text", "The answer")] }],
        vec![reference("0"), reference("1")],
    );
    let out = search_output(resp);
    assert_eq!(out.response, "The answer");
    assert_eq!(out.references.len(), 2);
    assert_eq!(out.references[0].id, "0");
    assert_eq!(out.references[1].title, "Title 1");
}

#[test]
fn startup_check_agrees_with_the_search() {
    let vars = [
        "AZURE_AI_SEARCH_BASE_URL",
        "AZURE_AI_SEARCH_KB_NAME",
        "AZURE_AI_SEARCH_KNOWLEDGE_SOURCE_NAME",
        "AZURE_AI_SEARCH_API_KEY",
    ];
    for (i, var) in vars.iter().enumerate() {
        let mut env = full_env();
        match i {
            0 => env.base_url = None,
            1 => env.kb_name = None,
            2 => env.knowledge_source_name = None,
            _ => env.api_key = None,
        }
        let message = check_required_variables(&env).unwrap();
        assert_eq!(message, format!("Required environment variable {} is not set", var));
        let err = prepare_request(&params("q"), &env).unwrap_err();
        assert_eq!(tool_failure_reason(&err), format!("{} environment variable not set", var));
    }
    assert!(check_required_variables(&full_env()).is_none());
    assert!(prepare_request(&params("q"), &full_env()).is_ok());
}

#[test]
fn different_queries_give_different_bodies() {
    let a = prepare_request(&params("a\"b"), &full_env()).unwrap();
    let b = prepare_request(&params("a\\\"b"), &full_env()).unwrap();
    assert_ne!(a.body, b.body);
    let parsed_a: Value = serde_json::from_str(&a.body).unwrap();
    let parsed_b: Value = serde_json::from_str(&b.body).unwrap();
    assert_eq!(parsed_a["messages"][0]["content"][0]["text"], Value::from("a\"b"));
    assert_eq!(parsed_b["messages"][0]["content"][0]["text"], Value::from("a\\\"b"));
}
