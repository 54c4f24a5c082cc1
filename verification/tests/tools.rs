use serde_json::Value;
use web_search_mcp::tools::{ToolContext, ToolName, ToolRegistry, ToolResult};
use web_search_mcp::WebSearchTool;
use web_search_mcp::StringMap;

fn url_object() -> Value {
    let mut map = serde_json::Map::new();
    map.insert("url".to_string(), Value::String("https://example.com".to_string()));
    Value::Object(map)
}

#[test]
fn test_tool_result_success() {
    let result = ToolResult::success(Some(url_object()));
    assert!(result.success);
    assert!(result.data.is_some());
    assert!(result.error.is_none());
}

#[test]
fn test_tool_result_failure() {
    let result = ToolResult::failure("Test error");
    assert!(!result.success);
    assert!(result.data.is_none());
    assert_eq!(result.error, Some("Test error".to_string()));
}

#[test]
fn test_tool_result_with_metadata() {
    let result = ToolResult::success(None).with_metadata("duration_ms", Value::from(100));

    assert!(result.metadata.contains_key("duration_ms"));
}

#[test]
fn success_keeps_data_and_has_no_metadata() {
    let result = ToolResult::success(Some(url_object()));
    assert_eq!(result.data, Some(url_object()));
    assert!(result.metadata.is_empty());
    assert_eq!(result.metadata.len(), 0);
}

#[test]
fn success_with_keeps_the_converted_value() {
    let mut map = serde_json::Map::new();
    map.insert("response".to_string(), Value::String("Paris".to_string()));
    map.insert("references".to_string(), Value::Array(vec![Value::from(1), Value::from(-2), Value::from(2.5)]));
    map.insert("none".to_string(), Value::Null);
    let data = Value::Object(map);
    let result = ToolResult::success_with(serde_json::to_value(data.clone()));
    assert!(result.success);
    assert_eq!(result.data, Some(data));
    assert!(result.error.is_none());
    assert!(result.metadata.is_empty());
}

#[test]
fn success_with_drops_a_failed_conversion() {
    let mut unconvertible = std::collections::HashMap::new();
    unconvertible.insert((1i32, 2i32), 3i32);
    let converted = serde_json::to_value(&unconvertible);
    assert!(converted.is_err());
    let result = ToolResult::success_with(converted);
    assert!(result.success);
    assert!(result.data.is_none());
    assert!(result.error.is_none());
    assert!(result.metadata.is_empty());
}

#[test]
fn failure_has_no_data_and_no_metadata() {
    let result = ToolResult::failure("");
    assert!(!result.success);
    assert_eq!(result.error, Some(String::new()));
    assert!(result.metadata.is_empty());
}

#[test]
fn metadata_last_write_wins_and_keeps_outcome() {
    let result = ToolResult::failure("boom")
        .with_metadata("duration_ms", Value::from(100))
        .with_metadata("attempts", Value::from(1))
        .with_metadata("duration_ms", Value::from(250));
    assert!(!result.success);
    assert_eq!(result.error, Some("boom".to_string()));
    assert_eq!(result.metadata.len(), 2);
    assert_eq!(result.metadata.get("duration_ms"), Some(&Value::from(250)));
    assert_eq!(result.metadata.get("attempts"), Some(&Value::from(1)));
    assert_eq!(result.metadata.get("missing"), None);
    assert!(!result.metadata.contains_key("missing"));
}

#[test]
fn string_map_insert_replace_and_list() {
    let mut map: StringMap<u32> = StringMap::new();
    assert!(map.is_empty());
    assert_eq!(map.insert("a".to_string(), 1), None);
    assert_eq!(map.insert("b".to_string(), 2), None);
    assert_eq!(map.insert("a".to_string(), 3), Some(1));
    assert_eq!(map.len(), 2);
    assert_eq!(map.get("a"), Some(&3));
    assert_eq!(map.get("b"), Some(&2));
    assert_eq!(map.get("c"), None);
    let mut keys = map.keys();
    keys.sort();
    assert_eq!(keys, vec!["a".to_string(), "b".to_string()]);
    let names = map.keys();
    let values = map.values();
    assert_eq!(values.len(), 2);
    for (name, value) in names.iter().zip(values) {
        assert_eq!(map.get(name), Some(value));
    }
}

#[test]
fn tool_context_new_and_default() {
    let _a = ToolContext::new();
    let _b: ToolContext<'_> = Default::default();
}

#[test]
fn registry_starts_empty() {
    let registry: ToolRegistry<u8> = ToolRegistry::new();
    assert_eq!(registry.count(), 0);
    assert!(!registry.has("web_search"));
    assert!(registry.list_names().is_empty());
    assert!(registry.all_tools().is_empty());
}

#[test]
fn registry_with_defaults_holds_web_search() {
    let registry = ToolRegistry::with_defaults("the web search tool");
    assert_eq!(registry.count(), 1);
    assert!(registry.has("web_search"));
    assert_eq!(registry.get("web_search"), Some(&"the web search tool"));
    assert_eq!(registry.list_names(), vec!["web_search".to_string()]);
    assert_eq!(registry.all_tools(), vec![&"the web search tool"]);
}

#[test]
fn default_registry_keeps_web_search_under_its_own_name() {
    let registry: ToolRegistry<WebSearchTool> = Default::default();
    assert_eq!(registry.count(), 1);
    assert!(registry.has("web_search"));
    for tool in registry.all_tools() {
        assert_eq!(registry.get(tool.name()).map(|t| t.name()), Some("web_search"));
    }
    let mut again = ToolRegistry::new();
    again.register_tool(WebSearchTool);
    again.register_tool(WebSearchTool);
    assert_eq!(again.list_names(), vec!["web_search".to_string()]);
}

#[test]
fn registry_register_then_lookup() {
    let mut registry = ToolRegistry::new();
    registry.register("alpha".to_string(), 1u8);
    registry.register("beta".to_string(), 2u8);
    assert_eq!(registry.count(), 2);
    registry.register("alpha".to_string(), 7u8);
    assert_eq!(registry.count(), 2);
    assert_eq!(registry.get("alpha"), Some(&7u8));
    assert_eq!(registry.get("beta"), Some(&2u8));
    assert!(registry.get("gamma").is_none());
    assert!(!registry.has("gamma"));
    let mut names = registry.list_names();
    names.sort();
    assert_eq!(names, vec!["alpha".to_string(), "beta".to_string()]);
    let mut tools: Vec<u8> = registry.all_tools().into_iter().copied().collect();
    tools.sort();
    assert_eq!(tools, vec![2u8, 7u8]);
    for (name, tool) in registry.list_names().iter().zip(registry.all_tools()) {
        assert!(std::ptr::eq(registry.get(name).unwrap(), tool));
    }
}

#[test]
fn registry_count_is_number_of_distinct_names() {
    let mut registry = ToolRegistry::new();
    for (name, payload) in [("a", 1u8), ("b", 2), ("a", 3), ("c", 4), ("b", 5), ("a", 6)] {
        registry.register(name.to_string(), payload);
    }
    assert_eq!(registry.count(), 3);
    assert_eq!(registry.list_names().len(), registry.count());
    assert_eq!(registry.get("a"), Some(&6));
    assert_eq!(registry.get("b"), Some(&5));
    assert_eq!(registry.get("c"), Some(&4));
    for name in registry.list_names() {
        assert!(registry.has(&name));
    }
}

#[test]
fn registry_execute_dispatches_or_reports_missing() {
    let registry = ToolRegistry::with_defaults(42u32);
    match registry.execute("web_search") {
        Ok(tool) => assert_eq!(*tool, 42),
        Err(_) => panic!("the registered tool was not found"),
    }
    match registry.execute("browse") {
        Ok(_) => panic!("an unregistered tool was found"),
        Err(result) => {
            assert!(!result.success);
            assert!(result.data.is_none());
            assert_eq!(result.error, Some("Tool 'browse' not found".to_string()));
        }
    }
}
