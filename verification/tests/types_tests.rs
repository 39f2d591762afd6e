//! Tests of the dispatch vocabulary: hook types, priorities, payloads,
//! results, statistics and error rendering.

use hook_engine::errors::HookError;
use hook_engine::json::Json;
use hook_engine::types::{ExecutionResult, HookPayload, HookPriority, HookStats, HookType};

#[test]
fn test_hook_type_display() {
    assert_eq!(HookType::ServerStartup.to_string(), "server_startup");
    assert_eq!(
        HookType::Custom("test".to_string()).to_string(),
        "custom:test"
    );
}

#[test]
fn test_hook_priority_ordering() {
    assert!(HookPriority::highest() < HookPriority::high());
    assert!(HookPriority::high() < HookPriority::normal());
    assert!(HookPriority::normal() < HookPriority::low());
    assert!(HookPriority::low() < HookPriority::lowest());
}

#[test]
fn test_hook_priority_conversion() {
    assert_eq!(HookPriority::from_u16(42).to_u16(), 42);
    assert_eq!(HookPriority::default().to_u16(), 500);
}

#[test]
fn test_hook_payload_creation() {
    let payload = HookPayload::new(
        HookType::ToolPreExecution,
        Json::Obj(vec![("tool".to_string(), Json::Str("test_tool".to_string()))]),
    );
    assert_eq!(payload.hook_type, HookType::ToolPreExecution);
    assert!(!payload.execution_id.is_empty());
    assert!(payload.metadata.is_empty());
}

#[test]
fn test_execution_result_helpers() {
    let cont = ExecutionResult::continue_execution();
    assert!(matches!(cont, ExecutionResult::Continue));

    let stop = ExecutionResult::stop_execution();
    assert!(matches!(stop, ExecutionResult::Stop(None)));

    let error = ExecutionResult::error("test error".to_string());
    if let ExecutionResult::Error { message, .. } = error {
        assert_eq!(message, "test error");
    } else {
        panic!("Expected error result");
    }
}

#[test]
fn test_hook_stats() {
    let mut stats = HookStats::default();

    stats.record_success(100_000_000, 1_000);
    assert_eq!(stats.total_executions, 1);
    assert_eq!(stats.successful_executions, 1);
    assert_eq!(stats.failed_executions, 0);
    assert_eq!(stats.average_duration_ns, Some(100_000_000));

    stats.record_failure(200_000_000, 2_000);
    assert_eq!(stats.total_executions, 2);
    assert_eq!(stats.successful_executions, 1);
    assert_eq!(stats.failed_executions, 1);
    assert_eq!(stats.average_duration_ns, Some(150_000_000));
    assert_eq!(stats.max_duration_ns, Some(200_000_000));
    assert_eq!(stats.last_execution_ms, Some(2_000));
}

#[test]
fn test_error_display() {
    let err = HookError::HandlerNotFound("test_handler".to_string());
    assert_eq!(err.message(), "Hook handler not found: test_handler");

    let err = HookError::timeout("slow_handler".to_string(), 5000);
    assert_eq!(
        err.message(),
        "Hook handler 'slow_handler' timed out after 5s"
    );
    let err = HookError::timeout("slow".to_string(), 50);
    assert_eq!(err.message(), "Hook handler 'slow' timed out after 50ms");
    let err = HookError::timeout("slow".to_string(), 1500);
    assert_eq!(err.message(), "Hook handler 'slow' timed out after 1.5s");
}

#[test]
fn test_hook_type_parsing() {
    assert!(matches!(
        HookType::from_string("server_startup"),
        Ok(HookType::ServerStartup)
    ));
    assert!(matches!(
        HookType::from_string("tool_pre_execution"),
        Ok(HookType::ToolPreExecution)
    ));
    match HookType::from_string("custom:mine") {
        Ok(HookType::Custom(name)) => assert_eq!(name, "mine"),
        _ => panic!("custom hook should parse"),
    }
    assert!(HookType::from_string("not_a_hook").is_err());
}

#[test]
fn test_hook_type_roundtrip() {
    for t in HookType::all_builtin() {
        let text = t.to_string();
        let back = HookType::from_string(&text).expect("builtin name parses");
        assert_eq!(back, t);
    }
}

#[test]
fn test_json_rendering() {
    let value = Json::Obj(vec![
        ("name".to_string(), Json::Str("alice".to_string())),
        ("age".to_string(), Json::Num(30)),
        ("ok".to_string(), Json::Bool(true)),
    ]);
    assert_eq!(
        hook_engine::json::json_to_string(&value),
        "{\"name\":\"alice\",\"age\":30,\"ok\":true}"
    );
}

#[test]
fn test_json_pointer() {
    let doc = Json::Obj(vec![
        (
            "nested".to_string(),
            Json::Obj(vec![("value".to_string(), Json::Num(42))]),
        ),
        (
            "items".to_string(),
            Json::Arr(vec![Json::Str("a".to_string()), Json::Str("b".to_string())]),
        ),
        ("a/b".to_string(), Json::Num(1)),
        ("t~x".to_string(), Json::Num(2)),
    ]);
    let got = hook_engine::json::json_pointer(&doc, "/nested/value").expect("resolves");
    assert!(hook_engine::json::json_eq(got, &Json::Num(42)));
    let got = hook_engine::json::json_pointer(&doc, "/items/1").expect("resolves");
    assert!(hook_engine::json::json_eq(got, &Json::Str("b".to_string())));
    let got = hook_engine::json::json_pointer(&doc, "/a~1b").expect("escaped slash");
    assert!(hook_engine::json::json_eq(got, &Json::Num(1)));
    let got = hook_engine::json::json_pointer(&doc, "/t~0x").expect("escaped tilde");
    assert!(hook_engine::json::json_eq(got, &Json::Num(2)));
    let whole = hook_engine::json::json_pointer(&doc, "").expect("empty pointer");
    assert!(hook_engine::json::json_eq(whole, &doc));
    assert!(hook_engine::json::json_pointer(&doc, "/missing").is_none());
    assert!(hook_engine::json::json_pointer(&doc, "/items/01").is_none());
    assert!(hook_engine::json::json_pointer(&doc, "nested").is_none());
}
