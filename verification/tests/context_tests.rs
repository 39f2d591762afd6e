//! Tests of the per-fire shared context and the platform path helpers.

use hook_engine::context::HookContext;
use hook_engine::json::{json_eq, Json};
use hook_engine::platform::{mcp_index_path, scripts_dir, tools_dir};

#[test]
fn test_context_state() {
    let context = HookContext::new();
    context
        .set_state("key".to_string(), Json::Str("value".to_string()))
        .unwrap();
    match context.get_state("key") {
        Some(v) => assert!(json_eq(&v, &Json::Str("value".to_string()))),
        None => panic!("state should be present"),
    }
    assert!(context.get_state("missing").is_none());
}

#[test]
fn test_typed_storage() {
    let mut context = HookContext::new();
    let data = Json::Str("test".to_string());
    context.set_typed(7, data.clone()).unwrap();
    match context.get_typed(7) {
        Some(v) => assert!(json_eq(&v, &data)),
        None => panic!("slot should be present"),
    }
    assert!(context.get_typed(8).is_none());
}

#[test]
fn test_context_builder() {
    let context = HookContext::builder()
        .with_state("key".to_string(), Json::Str("value".to_string()))
        .with_user_id("user123".to_string())
        .with_request_data(Json::Obj(vec![(
            "method".to_string(),
            Json::Str("test".to_string()),
        )]))
        .build();

    match context.get_state("key") {
        Some(v) => assert!(json_eq(&v, &Json::Str("value".to_string()))),
        None => panic!("state should be present"),
    }
    assert_eq!(context.user_id(), Some("user123"));
    assert!(context.request_data().is_some());
}

#[test]
fn test_cancellation() {
    let context = HookContext::new();
    assert!(!context.is_cancelled());
    context.cancel();
    assert!(context.is_cancelled());
}

#[test]
fn test_child_context() {
    let parent = HookContext::builder()
        .with_state("parent_key".to_string(), Json::Str("parent_value".to_string()))
        .build();

    let child = parent.create_child();
    match child.get_state("parent_key") {
        Some(v) => assert!(json_eq(&v, &Json::Str("parent_value".to_string()))),
        None => panic!("child should see the parent's state"),
    }

    child
        .set_state("child_key".to_string(), Json::Str("child_value".to_string()))
        .unwrap();
    match parent.get_state("child_key") {
        Some(v) => assert!(json_eq(&v, &Json::Str("child_value".to_string()))),
        None => panic!("parent should see the child's writes"),
    }
    assert!(child.parent().is_some());
}

#[test]
fn test_child_cancel_shared() {
    let parent = HookContext::new();
    let child = parent.create_child();
    child.cancel();
    assert!(parent.is_cancelled());
}

#[test]
fn test_subdirectories() {
    let tools = tools_dir().unwrap();
    let scripts = scripts_dir().unwrap();
    let mcp_index = mcp_index_path().unwrap();

    assert!(tools.ends_with("tools"));
    assert!(scripts.ends_with("scripts"));
    assert!(mcp_index.ends_with("mcp-index.json"));
}
