//! Tests of the dispatch engine: registration, ordering, flow control,
//! rate limiting, statistics and history.

use hook_engine::context::CtxInfo;
use hook_engine::errors::HookError;
use hook_engine::json::{json_eq, Json};
use hook_engine::manager::{
    chain_execute, conditional_execute, HandlerKind, HookManager, HostBegin, HostStep,
};
use hook_engine::types::{ExecutionResult, HookPriority, HookType};

fn obj(fields: Vec<(&str, Json)>) -> Json {
    Json::Obj(
        fields
            .into_iter()
            .map(|(k, v)| (k.to_string(), v))
            .collect(),
    )
}

#[test]
fn test_hook_registration() {
    let mut manager = HookManager::new();
    manager
        .register(
            "test".to_string(),
            vec![HookType::ServerStartup],
            HandlerKind::Const(ExecutionResult::Continue),
            HookPriority::normal(),
        )
        .unwrap();

    let handlers = manager.list_handlers();
    assert_eq!(handlers.len(), 1);
    assert_eq!(handlers[0].0, "test");
    assert_eq!(handlers[0].1, vec![HookType::ServerStartup]);
    assert!(handlers[0].3);
}

#[test]
fn test_duplicate_registration() {
    let mut manager = HookManager::new();
    manager
        .register(
            "dup".to_string(),
            vec![HookType::ServerStartup],
            HandlerKind::Const(ExecutionResult::Continue),
            HookPriority::normal(),
        )
        .unwrap();
    let second = manager.register(
        "dup".to_string(),
        vec![HookType::ServerStartup],
        HandlerKind::Const(ExecutionResult::Continue),
        HookPriority::normal(),
    );
    assert!(second.is_err());
}

#[test]
fn test_hook_execution() {
    let mut manager = HookManager::new();
    manager
        .register(
            "test".to_string(),
            vec![HookType::RequestReceived],
            HandlerKind::Const(ExecutionResult::Replace(obj(vec![(
                "modified",
                Json::Bool(true),
            )]))),
            HookPriority::normal(),
        )
        .unwrap();

    let info = CtxInfo::empty();
    let result = manager
        .execute(&HookType::RequestReceived, &info, obj(vec![("original", Json::Bool(true))]), 1_000)
        .unwrap();
    assert!(json_eq(&result, &obj(vec![("modified", Json::Bool(true))])));
}

#[test]
fn test_hook_priority() {
    let mut manager = HookManager::new();
    manager
        .register(
            "low".to_string(),
            vec![HookType::ToolPreExecution],
            HandlerKind::Const(ExecutionResult::stop_with_data(obj(vec![(
                "stopped",
                Json::Str("by_low".to_string()),
            )]))),
            HookPriority::low(),
        )
        .unwrap();
    manager
        .register(
            "high".to_string(),
            vec![HookType::ToolPreExecution],
            HandlerKind::Const(ExecutionResult::Continue),
            HookPriority::high(),
        )
        .unwrap();

    let info = CtxInfo::empty();
    let result = manager
        .execute(&HookType::ToolPreExecution, &info, obj(vec![]), 1_000)
        .unwrap();
    assert!(json_eq(
        &result,
        &obj(vec![("stopped", Json::Str("by_low".to_string()))])
    ));
}

#[test]
fn test_priority_and_stop() {
    // Handlers a (continue), b (stop with data), c (would rewrite): the
    // fire returns b's data, and c never sees a `Pre` event.
    let mut manager = HookManager::new();
    manager
        .register(
            "a".to_string(),
            vec![HookType::SecurityCheck],
            HandlerKind::Const(ExecutionResult::Continue),
            HookPriority::from_u16(100),
        )
        .unwrap();
    manager
        .register(
            "b".to_string(),
            vec![HookType::SecurityCheck],
            HandlerKind::Const(ExecutionResult::stop_with_data(obj(vec![(
                "by",
                Json::Str("B".to_string()),
            )]))),
            HookPriority::from_u16(200),
        )
        .unwrap();
    manager
        .register(
            "c".to_string(),
            vec![HookType::SecurityCheck],
            HandlerKind::Const(ExecutionResult::Replace(obj(vec![(
                "stopped",
                Json::Str("by_C".to_string()),
            )]))),
            HookPriority::from_u16(300),
        )
        .unwrap();

    let info = CtxInfo::empty();
    let result = manager
        .execute(&HookType::SecurityCheck, &info, obj(vec![]), 1_000)
        .unwrap();
    assert!(json_eq(&result, &obj(vec![("by", Json::Str("B".to_string()))])));

    let events = &manager.lifecycle.events;
    assert!(events
        .iter()
        .any(|e| e.handler == "a" && e.phase == hook_engine::lifecycle::HookPhase::PreExecution));
    assert!(events
        .iter()
        .any(|e| e.handler == "b" && e.phase == hook_engine::lifecycle::HookPhase::PostExecution));
    assert!(!events.iter().any(|e| e.handler == "c"));
}

#[test]
fn test_replace_chain() {
    let mut manager = HookManager::new();
    manager
        .register(
            "first".to_string(),
            vec![HookType::TclPreExecution],
            HandlerKind::Const(ExecutionResult::Replace(obj(vec![("step", Json::Num(1))]))),
            HookPriority::from_u16(100),
        )
        .unwrap();
    manager
        .register(
            "second".to_string(),
            vec![HookType::TclPreExecution],
            HandlerKind::Const(ExecutionResult::Replace(obj(vec![("step", Json::Num(2))]))),
            HookPriority::from_u16(200),
        )
        .unwrap();

    let info = CtxInfo::empty();
    let result = manager
        .execute(&HookType::TclPreExecution, &info, obj(vec![("original", Json::Bool(true))]), 1_000)
        .unwrap();
    assert!(json_eq(&result, &obj(vec![("step", Json::Num(2))])));
}

#[test]
fn test_handler_enable_disable() {
    let mut manager = HookManager::new();
    manager
        .register(
            "test".to_string(),
            vec![HookType::RequestProcessed],
            HandlerKind::Const(ExecutionResult::Replace(obj(vec![(
                "executed",
                Json::Bool(true),
            )]))),
            HookPriority::normal(),
        )
        .unwrap();

    let info = CtxInfo::empty();
    let result = manager
        .execute(&HookType::RequestProcessed, &info, obj(vec![]), 1_000)
        .unwrap();
    assert!(json_eq(&result, &obj(vec![("executed", Json::Bool(true))])));

    manager.set_handler_enabled("test", false).unwrap();
    let result = manager
        .execute(&HookType::RequestProcessed, &info, obj(vec![("original", Json::Bool(true))]), 1_001)
        .unwrap();
    assert!(json_eq(&result, &obj(vec![("original", Json::Bool(true))])));

    manager.set_handler_enabled("test", true).unwrap();
    let result = manager
        .execute(&HookType::RequestProcessed, &info, obj(vec![]), 1_002)
        .unwrap();
    assert!(json_eq(&result, &obj(vec![("executed", Json::Bool(true))])));
}

#[test]
fn test_handler_unregister() {
    let mut manager = HookManager::new();
    manager
        .register(
            "test".to_string(),
            vec![HookType::ServerShutdown],
            HandlerKind::Const(ExecutionResult::Continue),
            HookPriority::normal(),
        )
        .unwrap();
    assert_eq!(manager.list_handlers().len(), 1);

    manager.unregister("test").unwrap();
    assert_eq!(manager.list_handlers().len(), 0);
    assert!(manager.unregister("test").is_err());
}

#[test]
fn test_handler_error_propagation() {
    let mut manager = HookManager::new();
    manager
        .register(
            "error".to_string(),
            vec![HookType::TclError],
            HandlerKind::Const(ExecutionResult::error("Test error".to_string())),
            HookPriority::normal(),
        )
        .unwrap();

    let info = CtxInfo::empty();
    let result = manager.execute(&HookType::TclError, &info, obj(vec![]), 1_000);
    assert!(result.is_err());
    assert!(result.unwrap_err().message().contains("Test error"));
}

#[test]
fn test_handler_stats() {
    let mut manager = HookManager::new();
    manager
        .register(
            "stats_test".to_string(),
            vec![HookType::RequestReceived],
            HandlerKind::Const(ExecutionResult::Continue),
            HookPriority::normal(),
        )
        .unwrap();

    let info = CtxInfo::empty();
    for k in 0..3 {
        let _ = manager.execute(&HookType::RequestReceived, &info, obj(vec![]), 1_000 + k);
    }

    let stats = manager.get_stats("stats_test").unwrap();
    assert_eq!(stats.total_executions, 3);
    assert_eq!(stats.successful_executions, 3);
    assert_eq!(stats.failed_executions, 0);
    assert!(stats.average_duration_ns.is_some());
    assert_eq!(stats.total_executions, stats.successful_executions + stats.failed_executions);
}

#[test]
fn test_execution_history() {
    let mut manager = HookManager::new();
    manager
        .register(
            "history_test".to_string(),
            vec![HookType::ServerInitialized],
            HandlerKind::Const(ExecutionResult::Continue),
            HookPriority::normal(),
        )
        .unwrap();

    let info = CtxInfo::empty();
    let _ = manager.execute(&HookType::ServerInitialized, &info, obj(vec![]), 1_000);

    let history = manager.get_history(Some(10));
    assert!(!history.is_empty());
    assert_eq!(history[0].0, "history_test");
    assert_eq!(history[0].2, "success");
}

#[test]
fn test_rate_limit() {
    // Three calls fit in the window, the fourth is refused, and after the
    // window has passed a call is admitted again.
    let mut manager = HookManager::new();
    manager
        .register(
            "h".to_string(),
            vec![HookType::RequestReceived],
            HandlerKind::Const(ExecutionResult::Continue),
            HookPriority::normal(),
        )
        .unwrap();
    manager.set_rate_limit("h", 3, 1_000).unwrap();

    let info = CtxInfo::empty();
    let input = obj(vec![("m", Json::Str("GET".to_string()))]);
    for k in 0..3 {
        let r = manager.execute(&HookType::RequestReceived, &info, input.clone(), 10_000 + k * 10);
        assert!(r.is_ok());
    }
    let fourth = manager.execute(&HookType::RequestReceived, &info, input.clone(), 10_090);
    match fourth {
        Err(HookError::RateLimitExceeded { handler, limit, window_ms }) => {
            assert_eq!(handler, "h");
            assert_eq!(limit, 3);
            assert_eq!(window_ms, 1_000);
        }
        other => panic!("expected a rate-limit error, got {:?}", other),
    }
    let later = manager.execute(&HookType::RequestReceived, &info, input, 11_100);
    assert!(later.is_ok());
}

#[test]
fn test_disabled_engine_passthrough() {
    let mut manager = HookManager::new();
    manager
        .register(
            "any".to_string(),
            vec![HookType::RequestReceived],
            HandlerKind::Const(ExecutionResult::Replace(Json::Null)),
            HookPriority::normal(),
        )
        .unwrap();
    manager.set_enabled(false);
    let info = CtxInfo::empty();
    let input = obj(vec![("kept", Json::Bool(true))]);
    let result = manager
        .execute(&HookType::RequestReceived, &info, input.clone(), 1_000)
        .unwrap();
    assert!(json_eq(&result, &input));
}

#[test]
fn test_host_outcome_timeout() {
    // A host-run handler's timeout records a failure, emits Failed, and
    // leaves a `timeout` history line -- the engine half of the timeout
    // path; the race itself is the host's.
    let mut manager = HookManager::new();
    manager
        .register(
            "slow".to_string(),
            vec![HookType::ToolPreExecution],
            HandlerKind::Const(ExecutionResult::Continue),
            HookPriority::normal(),
        )
        .unwrap();

    match manager.begin_host_handler("slow", true, 1_000) {
        HostBegin::Run => {}
        other => panic!("expected Run, got {:?}", other),
    }
    let timeout = HookError::Timeout {
        handler: "slow".to_string(),
        duration_ms: 50,
    };
    let step = manager.apply_host_outcome(
        &HookType::ToolPreExecution,
        "slow",
        obj(vec![]),
        Err(timeout),
        50_000_000,
        1_050,
    );
    match step {
        HostStep::Abort(HookError::Timeout { handler, duration_ms }) => {
            assert_eq!(handler, "slow");
            assert_eq!(duration_ms, 50);
        }
        other => panic!("expected a timeout abort, got {:?}", other),
    }

    let stats = manager.get_stats("slow").unwrap();
    assert_eq!(stats.total_executions, 1);
    assert_eq!(stats.failed_executions, 1);

    let history = manager.get_history(Some(1));
    assert_eq!(history[0].0, "slow");
    assert_eq!(history[0].2, "timeout");

    let events = &manager.lifecycle.events;
    assert!(events
        .iter()
        .any(|e| e.handler == "slow" && e.phase == hook_engine::lifecycle::HookPhase::Failed));
}

#[test]
fn test_host_outcome_stop() {
    let mut manager = HookManager::new();
    manager
        .register(
            "stopper".to_string(),
            vec![HookType::SecurityCheck],
            HandlerKind::Const(ExecutionResult::Continue),
            HookPriority::normal(),
        )
        .unwrap();
    match manager.begin_host_handler("stopper", true, 1_000) {
        HostBegin::Run => {}
        other => panic!("expected Run, got {:?}", other),
    }
    let step = manager.apply_host_outcome(
        &HookType::SecurityCheck,
        "stopper",
        obj(vec![("in", Json::Bool(true))]),
        Ok(ExecutionResult::stop_with_data(obj(vec![(
            "blocked",
            Json::Bool(true),
        )]))),
        1_000,
        1_001,
    );
    match step {
        HostStep::Stop(d) => assert!(json_eq(&d, &obj(vec![("blocked", Json::Bool(true))]))),
        other => panic!("expected a stop, got {:?}", other),
    }
    let history = manager.get_history(Some(1));
    assert_eq!(history[0].2, "success");
}

#[test]
fn test_chained_handlers() {
    // Chain(h1, h2): h1 continues, so h2 decides and stops.
    let mut first = HandlerKind::Const(ExecutionResult::Continue);
    let mut second = HandlerKind::Const(ExecutionResult::stop_execution());
    let info = CtxInfo::empty();
    let mut effects = Vec::new();
    let r = chain_execute(
        &mut first,
        &mut second,
        &info,
        &HookType::ServerStartup,
        &obj(vec![]),
        1_000,
        &mut effects,
    );
    assert!(matches!(r, ExecutionResult::Stop(None)));

    // A non-continue first handler decides alone.
    let mut first = HandlerKind::Const(ExecutionResult::Replace(Json::Num(7)));
    let mut second = HandlerKind::Const(ExecutionResult::stop_execution());
    let r = chain_execute(
        &mut first,
        &mut second,
        &info,
        &HookType::ServerStartup,
        &obj(vec![]),
        1_000,
        &mut effects,
    );
    assert!(matches!(r, ExecutionResult::Replace(_)));
}

#[test]
fn test_conditional_handler() {
    let info = CtxInfo::empty();
    let mut effects = Vec::new();
    let mut handler = HandlerKind::Const(ExecutionResult::stop_execution());
    let r = conditional_execute(
        &mut handler,
        true,
        &info,
        &HookType::ServerStartup,
        &obj(vec![]),
        1_000,
        &mut effects,
    );
    assert!(matches!(r, ExecutionResult::Stop(None)));
    let r = conditional_execute(
        &mut handler,
        false,
        &info,
        &HookType::ServerShutdown,
        &obj(vec![]),
        1_000,
        &mut effects,
    );
    assert!(matches!(r, ExecutionResult::Continue));
}
