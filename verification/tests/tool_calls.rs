use memori_vault::json::Json;
use memori_vault::tool_calls::tool_call_result;

#[test]
fn tool_results_and_failures() {
    let ok = tool_call_result("search", Ok(Json::UInt(3)));
    assert!(!ok.is_error);
    assert!(matches!(ok.content, Json::UInt(3)));

    let failed = tool_call_result("ask", Err("engine not ready".to_string()));
    assert!(failed.is_error);
    assert_eq!(failed.content.get("error").and_then(|v| v.as_str()), Some("engine not ready"));

    let unknown = tool_call_result("nope", Ok(Json::Null));
    assert!(unknown.is_error);
    assert_eq!(unknown.content.get("error").and_then(|v| v.as_str()), Some("unknown tool: nope"));
}
