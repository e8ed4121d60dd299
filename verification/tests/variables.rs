use yinx::json::JsonValue;
use yinx::strmap::StrMap;
use yinx::variables::{
    extract_headers, extract_jsonpath, extract_regex, interpolate, VariableError, VariableScope, VariableStore,
};

fn s(t: &str) -> JsonValue {
    JsonValue::Str(t.to_string())
}

fn n(v: u64) -> JsonValue {
    JsonValue::from_u64(v)
}

fn obj(members: Vec<(&str, JsonValue)>) -> JsonValue {
    JsonValue::Object(members.into_iter().map(|(k, v)| (k.to_string(), v)).collect())
}

fn arr(items: Vec<JsonValue>) -> JsonValue {
    JsonValue::Array(items)
}

#[test]
fn test_variable_store_new() {
    let store = VariableStore::new();
    assert!(store.is_scope_empty(VariableScope::Global));
    assert!(store.is_scope_empty(VariableScope::Workflow));
    assert!(store.is_scope_empty(VariableScope::Local));
}

#[test]
fn test_variable_store_set_and_get() {
    let mut store = VariableStore::new();
    store.set("base_url", s("https://api.example.com"), VariableScope::Global);
    let val = store.get("base_url").unwrap();
    assert_eq!(val, s("https://api.example.com"));
}

#[test]
fn test_variable_store_scope_isolation() {
    let mut store = VariableStore::new();
    store.set("var", s("global"), VariableScope::Global);
    store.set("var", s("workflow"), VariableScope::Workflow);
    store.set("var", s("local"), VariableScope::Local);
    assert_eq!(store.get_from_scope("var", &VariableScope::Global).unwrap(), s("global"));
    assert_eq!(store.get_from_scope("var", &VariableScope::Workflow).unwrap(), s("workflow"));
    assert_eq!(store.get_from_scope("var", &VariableScope::Local).unwrap(), s("local"));
    assert_eq!(store.get("var").unwrap(), s("local"));
}

#[test]
fn test_variable_store_scope_priority() {
    let mut store = VariableStore::new();
    store.set("var", s("global"), VariableScope::Global);
    store.set("var", s("workflow"), VariableScope::Workflow);
    store.set("var", s("local"), VariableScope::Local);
    assert_eq!(store.get("var").unwrap(), s("local"));
    store.remove("var", VariableScope::Local);
    assert_eq!(store.get("var").unwrap(), s("workflow"));
    store.remove("var", VariableScope::Workflow);
    assert_eq!(store.get("var").unwrap(), s("global"));
}

#[test]
fn test_variable_store_not_found() {
    let store = VariableStore::new();
    assert!(store.get("nonexistent").is_none());
}

#[test]
fn test_variable_store_remove() {
    let mut store = VariableStore::new();
    store.set("var", s("value"), VariableScope::Global);
    assert!(store.get("var").is_some());
    store.remove("var", VariableScope::Global);
    assert!(store.get("var").is_none());
}

#[test]
fn test_variable_store_clear_scope() {
    let mut store = VariableStore::new();
    store.set("var1", s("v1"), VariableScope::Global);
    store.set("var2", s("v2"), VariableScope::Global);
    store.set("var3", s("v3"), VariableScope::Workflow);
    store.clear_scope(VariableScope::Global);
    assert!(store.get("var1").is_none());
    assert!(store.get("var3").is_some());
}

#[test]
fn test_variable_store_merge_into() {
    let mut store1 = VariableStore::new();
    store1.set("a", s("1"), VariableScope::Global);
    let mut store2 = VariableStore::new();
    store2.set("b", s("2"), VariableScope::Global);
    store2.set("c", s("3"), VariableScope::Workflow);
    store1.merge_into(&store2, VariableScope::Workflow);
    assert_eq!(store1.get("a").unwrap(), s("1"));
    assert!(store1.get("b").is_none());
    assert_eq!(store1.get("c").unwrap(), s("3"));
}

#[test]
fn test_interpolate_dollar_syntax() {
    let mut store = VariableStore::new();
    store.set("base_url", s("https://api.example.com"), VariableScope::Global);
    store.set("endpoint", s("/users"), VariableScope::Global);
    let result = interpolate("${base_url}${endpoint}", &store);
    assert_eq!(result, "https://api.example.com/users");
}

#[test]
fn test_interpolate_double_brace_syntax() {
    let mut store = VariableStore::new();
    store.set("name", s("John"), VariableScope::Global);
    let result = interpolate("Hello {{ name }}!", &store);
    assert_eq!(result, "Hello John!");
}

#[test]
fn test_interpolate_mixed_syntax() {
    let mut store = VariableStore::new();
    store.set("a", s("1"), VariableScope::Global);
    store.set("b", s("2"), VariableScope::Global);
    let result = interpolate("${a} and {{ b }}", &store);
    assert_eq!(result, "1 and 2");
}

#[test]
fn test_interpolate_missing_var_unchanged() {
    let store = VariableStore::new();
    let result = interpolate("${missing}", &store);
    assert_eq!(result, "${missing}");
}

#[test]
fn test_interpolate_nested_var() {
    let mut store = VariableStore::new();
    store.set("val", s("world"), VariableScope::Global);
    let result = interpolate("Hello ${val}!", &store);
    assert_eq!(result, "Hello world!");
}

#[test]
fn test_interpolate_json_value() {
    let mut store = VariableStore::new();
    store.set("count", n(42), VariableScope::Global);
    let result = interpolate("Count: ${count}", &store);
    assert_eq!(result, "Count: 42");
}

#[test]
fn test_jsonpath_simple_field() {
    let json = obj(vec![("name", s("John")), ("age", n(30))]);
    let result = extract_jsonpath(&json, "$.name").unwrap();
    assert_eq!(result, s("John"));
}

#[test]
fn test_jsonpath_nested_field() {
    let json = obj(vec![("user", obj(vec![("name", s("John")), ("age", n(30))]))]);
    let result = extract_jsonpath(&json, "$.user.name").unwrap();
    assert_eq!(result, s("John"));
}

#[test]
fn test_jsonpath_array_index() {
    let json = obj(vec![("items", arr(vec![s("a"), s("b"), s("c")]))]);
    let result = extract_jsonpath(&json, "$.items[0]").unwrap();
    assert_eq!(result, s("a"));
}

#[test]
fn test_jsonpath_array_in_nested() {
    let json = obj(vec![("data", obj(vec![("items", arr(vec![obj(vec![("id", n(1))]), obj(vec![("id", n(2))])]))]))]);
    let result = extract_jsonpath(&json, "$.data.items[1].id").unwrap();
    assert_eq!(result, n(2));
}

#[test]
fn test_jsonpath_deeply_nested() {
    let json = obj(vec![("a", obj(vec![("b", obj(vec![("c", obj(vec![("d", s("deep"))]))]))]))]);
    let result = extract_jsonpath(&json, "$.a.b.c.d").unwrap();
    assert_eq!(result, s("deep"));
}

#[test]
fn test_jsonpath_array_multiple_indices() {
    let json = obj(vec![("matrix", arr(vec![arr(vec![n(1), n(2)]), arr(vec![n(3), n(4)])]))]);
    let result = extract_jsonpath(&json, "$.matrix[1][0]").unwrap();
    assert_eq!(result, n(3));
}

#[test]
fn test_jsonpath_field_in_array() {
    let json = obj(vec![("users", arr(vec![obj(vec![("name", s("Alice"))]), obj(vec![("name", s("Bob"))])]))]);
    let result = extract_jsonpath(&json, "$.users[1].name").unwrap();
    assert_eq!(result, s("Bob"));
}

#[test]
fn test_jsonpath_number_value() {
    let json = obj(vec![("count", n(42))]);
    let result = extract_jsonpath(&json, "$.count").unwrap();
    assert_eq!(result, n(42));
}

#[test]
fn test_jsonpath_bool_value() {
    let json = obj(vec![("active", JsonValue::Bool(true))]);
    let result = extract_jsonpath(&json, "$.active").unwrap();
    assert_eq!(result, JsonValue::Bool(true));
}

#[test]
fn test_jsonpath_null_value() {
    let json = obj(vec![("value", JsonValue::Null)]);
    let result = extract_jsonpath(&json, "$.value").unwrap();
    assert_eq!(result, JsonValue::Null);
}

#[test]
fn test_jsonpath_invalid_path() {
    let json = obj(vec![("name", s("John"))]);
    let result = extract_jsonpath(&json, "invalid");
    assert!(matches!(result, Err(VariableError::InvalidJsonPath(_))));
}

#[test]
fn test_jsonpath_field_not_found() {
    let json = obj(vec![("name", s("John"))]);
    let result = extract_jsonpath(&json, "$.age");
    assert!(matches!(result, Err(VariableError::JsonPathExtractionFailed(_))));
}

#[test]
fn test_jsonpath_index_out_of_bounds() {
    let json = obj(vec![("items", arr(vec![n(1), n(2)]))]);
    let result = extract_jsonpath(&json, "$.items[5]");
    assert!(matches!(result, Err(VariableError::JsonPathExtractionFailed(_))));
}

#[test]
fn test_jsonpath_not_object_for_field() {
    let json = arr(vec![n(1), n(2), n(3)]);
    let result = extract_jsonpath(&json, "$.name");
    assert!(matches!(result, Err(VariableError::JsonPathExtractionFailed(_))));
}

#[test]
fn test_jsonpath_not_array_for_index() {
    let json = obj(vec![("items", s("not array"))]);
    let result = extract_jsonpath(&json, "$.items[0]");
    assert!(matches!(result, Err(VariableError::JsonPathExtractionFailed(_))));
}

#[test]
fn test_regex_extract_named_capture() {
    let text = "X-Request-Id: abc-123-def";
    let result = extract_regex(text, r"X-Request-Id: (?P<id>\w+-\w+-\w+)", "id").unwrap();
    assert_eq!(result, "abc-123-def");
}

#[test]
fn test_regex_extract_unnamed_capture() {
    let text = "id=12345";
    let result = extract_regex(text, r"id=(\d+)", "capture").unwrap();
    assert_eq!(result, "12345");
}

#[test]
fn test_regex_extract_header_pattern() {
    let text = "Content-Type: application/json";
    let result = extract_regex(text, r"Content-Type: (.+)", "ct").unwrap();
    assert_eq!(result, "application/json");
}

#[test]
fn test_regex_extract_failed() {
    let text = "no match here";
    let result = extract_regex(text, r"\d+", "num");
    assert!(matches!(result, Err(VariableError::RegexCaptureFailed)));
}

#[test]
fn test_regex_invalid_pattern() {
    let result = extract_regex("text", r"[invalid", "cap");
    assert!(matches!(result, Err(VariableError::InvalidRegex(_))));
}

#[test]
fn test_header_extractor() {
    let mut headers = StrMap::new();
    headers.insert("X-Request-Id".to_string(), "abc-123".to_string());
    headers.insert("Content-Type".to_string(), "application/json".to_string());
    let result = extract_headers(&headers, "X-Request-Id");
    assert_eq!(result, Some("abc-123".to_string()));
}

#[test]
fn test_header_extractor_not_found() {
    let headers: StrMap<String> = StrMap::new();
    let result = extract_headers(&headers, "X-Request-Id");
    assert_eq!(result, None);
}

#[test]
fn test_header_extractor_case_sensitive() {
    let mut headers = StrMap::new();
    headers.insert("x-request-id".to_string(), "lowercase".to_string());
    let result = extract_headers(&headers, "X-Request-Id");
    assert_eq!(result, None);
}

#[test]
fn interpolate_leaves_text_without_placeholders() {
    let mut store = VariableStore::new();
    store.set("a", s("x"), VariableScope::Global);
    assert_eq!(interpolate("plain text with $ and {{", &store), "plain text with $ and {{");
}

#[test]
fn interpolate_writes_objects_as_compact_json() {
    let mut store = VariableStore::new();
    store.set("o", obj(vec![("k", arr(vec![n(1), JsonValue::Bool(false), JsonValue::Null]))]), VariableScope::Local);
    assert_eq!(interpolate("v=${o}", &store), "v={\"k\":[1,false,null]}");
}

#[test]
fn jsonpath_errors_have_messages() {
    let json = obj(vec![("name", s("John"))]);
    match extract_jsonpath(&json, "$.age") {
        Err(e) => assert_eq!(e.message(), "JSONPath extraction failed: Field 'age' not found"),
        Ok(_) => panic!("expected an error"),
    }
}
