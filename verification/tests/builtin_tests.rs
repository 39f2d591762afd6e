//! Tests of the built-in handler family, driven through the engine.

use hook_engine::builtins::logging::LoggingHandler;
use hook_engine::builtins::metrics::MetricsHandler;
use hook_engine::builtins::transform::TransformHandler;
use hook_engine::builtins::validation::ValidationHandler;
use hook_engine::config::BuiltInConfig;
use hook_engine::context::CtxInfo;
use hook_engine::errors::HookError;
use hook_engine::json::{json_eq, json_to_string, Json};
use hook_engine::manager::{DispatchEffect, HandlerKind, HookManager};
use hook_engine::types::{ExecutionResult, HookPriority, HookType};

fn obj(fields: Vec<(&str, Json)>) -> Json {
    Json::Obj(
        fields
            .into_iter()
            .map(|(k, v)| (k.to_string(), v))
            .collect(),
    )
}

fn builtin_config(handler_name: &str, fields: Vec<(&str, Json)>) -> BuiltInConfig {
    BuiltInConfig {
        handler_name: handler_name.to_string(),
        config: fields
            .into_iter()
            .map(|(k, v)| (k.to_string(), v))
            .collect(),
    }
}

#[test]
fn test_logging_pass_through() {
    // Register a JSON-format logging handler; the fire returns the input
    // untouched and one record naming the handler and the hook type is
    // produced for the host to emit.
    let mut manager = HookManager::new();
    let config = builtin_config(
        "logging",
        vec![
            ("level", Json::Str("info".to_string())),
            ("format", Json::Str("json".to_string())),
        ],
    );
    manager
        .register(
            "test_logger".to_string(),
            vec![HookType::RequestReceived],
            HandlerKind::Logging(LoggingHandler::new("test_logger".to_string(), config)),
            HookPriority::normal(),
        )
        .unwrap();

    let info = CtxInfo::empty();
    let input = obj(vec![("m", Json::Str("GET".to_string()))]);
    let result = manager
        .execute(&HookType::RequestReceived, &info, input.clone(), 1_000)
        .unwrap();
    assert!(json_eq(&result, &input));

    let records: Vec<&DispatchEffect> = manager.effects.iter().collect();
    assert_eq!(records.len(), 1);
    match records[0] {
        DispatchEffect::Log(record) => {
            assert!(record.message.contains("test_logger"));
            assert!(record.message.contains("request_received"));
        }
        other => panic!("expected a log record, got {:?}", other),
    }
}

#[test]
fn test_validation_reject() {
    // A required-field rule rejects data without the field: the fire
    // aborts with a handler-execution failure naming the missing field.
    let mut manager = HookManager::new();
    let config = builtin_config(
        "validation",
        vec![(
            "required_fields",
            Json::Arr(vec![Json::Str("id".to_string())]),
        )],
    );
    manager
        .register(
            "validator".to_string(),
            vec![HookType::ToolPreExecution],
            HandlerKind::Validation(ValidationHandler::new("validator".to_string(), config)),
            HookPriority::normal(),
        )
        .unwrap();

    let info = CtxInfo::empty();
    let result = manager.execute(
        &HookType::ToolPreExecution,
        &info,
        obj(vec![("x", Json::Num(1))]),
        1_000,
    );
    match result {
        Err(HookError::ExecutionFailed { handler, source }) => {
            assert_eq!(handler, "validator");
            assert!(source.contains("Missing required field: id"));
        }
        other => panic!("expected an execution failure, got {:?}", other),
    }
}

#[test]
fn test_validation_details_code() {
    let config = builtin_config(
        "validation",
        vec![(
            "required_fields",
            Json::Arr(vec![Json::Str("id".to_string())]),
        )],
    );
    let handler = ValidationHandler::new("validator".to_string(), config);
    let result = handler.execute(&obj(vec![("x", Json::Num(1))]), 1_000);
    match result {
        ExecutionResult::Error { message, details } => {
            assert!(message.contains("Validation failed"));
            let details = details.expect("details present");
            let code = details.get("code").expect("code present");
            assert!(json_eq(code, &Json::Str("VALIDATION_FAILED".to_string())));
            match details.get("errors").expect("errors present") {
                Json::Arr(errors) => {
                    assert!(errors.iter().any(
                        |e| json_eq(e, &Json::Str("Missing required field: id".to_string()))
                    ));
                }
                other => panic!("expected an array, got {:?}", other),
            }
        }
        other => panic!("expected an error result, got {:?}", other),
    }
}

#[test]
fn test_transform_pipeline() {
    // rename u -> user, uppercase user, add ok, remove tmp.
    let mut manager = HookManager::new();
    let config = builtin_config(
        "transform",
        vec![(
            "transforms",
            Json::Arr(vec![
                obj(vec![
                    ("type", Json::Str("rename_field".to_string())),
                    ("from", Json::Str("u".to_string())),
                    ("to", Json::Str("user".to_string())),
                ]),
                obj(vec![
                    ("type", Json::Str("uppercase".to_string())),
                    ("field", Json::Str("user".to_string())),
                ]),
                obj(vec![
                    ("type", Json::Str("add_field".to_string())),
                    ("field", Json::Str("ok".to_string())),
                    ("value", Json::Bool(true)),
                ]),
                obj(vec![
                    ("type", Json::Str("remove_field".to_string())),
                    ("field", Json::Str("tmp".to_string())),
                ]),
            ]),
        )],
    );
    manager
        .register(
            "pipeline".to_string(),
            vec![HookType::RequestProcessed],
            HandlerKind::Transform(TransformHandler::new("pipeline".to_string(), config)),
            HookPriority::normal(),
        )
        .unwrap();

    let info = CtxInfo::empty();
    let result = manager
        .execute(
            &HookType::RequestProcessed,
            &info,
            obj(vec![
                ("u", Json::Str("alice".to_string())),
                ("tmp", Json::Str("x".to_string())),
            ]),
            1_000,
        )
        .unwrap();
    assert!(json_eq(
        &result,
        &obj(vec![
            ("user", Json::Str("ALICE".to_string())),
            ("ok", Json::Bool(true)),
        ])
    ));
}

#[test]
fn test_base64_encode_decode() {
    let config = builtin_config(
        "transform",
        vec![(
            "transforms",
            Json::Arr(vec![
                obj(vec![
                    ("type", Json::Str("base64_encode".to_string())),
                    ("field", Json::Str("password".to_string())),
                ]),
                obj(vec![
                    ("type", Json::Str("base64_decode".to_string())),
                    ("field", Json::Str("encoded".to_string())),
                ]),
            ]),
        )],
    );
    let handler = TransformHandler::new("base64_test".to_string(), config);
    let out = handler.transform(obj(vec![
        ("password", Json::Str("secret123".to_string())),
        ("encoded", Json::Str("aGVsbG8gd29ybGQ=".to_string())),
    ]));
    assert!(json_eq(
        &out,
        &obj(vec![
            ("password", Json::Str("c2VjcmV0MTIz".to_string())),
            ("encoded", Json::Str("hello world".to_string())),
        ])
    ));
}

#[test]
fn test_redact_and_truncate() {
    let config = builtin_config(
        "transform",
        vec![(
            "transforms",
            Json::Arr(vec![
                obj(vec![
                    ("type", Json::Str("redact".to_string())),
                    ("field", Json::Str("ssn".to_string())),
                ]),
                obj(vec![
                    ("type", Json::Str("truncate".to_string())),
                    ("field", Json::Str("message".to_string())),
                    ("length", Json::Num(10)),
                ]),
            ]),
        )],
    );
    let handler = TransformHandler::new("redact_test".to_string(), config);
    let out = handler.transform(obj(vec![
        ("ssn", Json::Str("123-45-6789".to_string())),
        (
            "message",
            Json::Str("This is a very long message that needs truncation".to_string()),
        ),
    ]));
    assert!(json_eq(
        &out,
        &obj(vec![
            ("ssn", Json::Str("***REDACTED***".to_string())),
            ("message", Json::Str("This is a ".to_string())),
        ])
    ));
}

#[test]
fn test_merge() {
    let config = builtin_config(
        "transform",
        vec![(
            "transforms",
            Json::Arr(vec![obj(vec![
                ("type", Json::Str("merge".to_string())),
                (
                    "data",
                    obj(vec![
                        ("version", Json::Str("1.0".to_string())),
                        ("environment", Json::Str("production".to_string())),
                    ]),
                ),
            ])]),
        )],
    );
    let handler = TransformHandler::new("merge_test".to_string(), config);
    let out = handler.transform(obj(vec![
        ("service", Json::Str("api".to_string())),
        ("environment", Json::Str("staging".to_string())),
    ]));
    assert!(json_eq(
        &out,
        &obj(vec![
            ("service", Json::Str("api".to_string())),
            ("environment", Json::Str("production".to_string())),
            ("version", Json::Str("1.0".to_string())),
        ])
    ));
}

#[test]
fn test_include_in_result() {
    let config = builtin_config(
        "logging",
        vec![
            ("level", Json::Str("info".to_string())),
            ("format", Json::Str("compact".to_string())),
            ("include_in_result", Json::Bool(true)),
        ],
    );
    let handler = LoggingHandler::new("result_logger".to_string(), config);
    let info = CtxInfo::empty();
    let (result, _record) = handler.execute(
        &info,
        &HookType::ResponseSent,
        &obj(vec![("response", Json::Str("data".to_string()))]),
        42,
    );
    match result {
        ExecutionResult::Replace(data) => {
            let log = data.get("_log").expect("log stamp present");
            assert!(json_eq(
                log.get("logged").expect("logged"),
                &Json::Bool(true)
            ));
            assert!(json_eq(
                log.get("level").expect("level"),
                &Json::Str("INFO".to_string())
            ));
            assert!(json_eq(
                log.get("timestamp").expect("timestamp"),
                &Json::Num(42)
            ));
        }
        other => panic!("expected a replace result, got {:?}", other),
    }
}

#[test]
fn test_json_text_of_nested() {
    let v = Json::Arr(vec![
        Json::Null,
        Json::Num(-5),
        Json::Str("a\"b".to_string()),
        Json::Obj(vec![]),
    ]);
    assert_eq!(json_to_string(&v), "[null,-5,\"a\\\"b\",{}]");
}

#[test]
fn test_gauge_with_value_path() {
    // A gauge without a top-level `value` reads the configured JSON
    // pointer: with `/nested/value` and `{"nested":{"value":42}}` the
    // store holds 42.
    let config = builtin_config(
        "metrics",
        vec![
            ("metric_type", Json::Str("gauge".to_string())),
            ("metric_key", Json::Str("nested_gauge".to_string())),
            ("value_path", Json::Str("/nested/value".to_string())),
        ],
    );
    let mut handler = MetricsHandler::new("path_test".to_string(), config);
    let info = CtxInfo::empty();
    let result = handler.execute(
        &info,
        &HookType::RequestReceived,
        &obj(vec![("nested", obj(vec![("value", Json::Num(42))]))]),
        1_000,
    );
    assert!(matches!(result, ExecutionResult::Continue));

    let snapshot = handler.get_metrics();
    let gauges = snapshot.get("gauges").expect("gauges present");
    let value = gauges.get("nested_gauge").expect("gauge present");
    assert!(json_eq(value, &Json::Num(42)));
}

#[test]
fn test_counter_metrics() {
    let config = builtin_config(
        "metrics",
        vec![
            ("metric_type", Json::Str("counter".to_string())),
            ("metric_key", Json::Str("test_counter".to_string())),
        ],
    );
    let mut handler = MetricsHandler::new("counter_test".to_string(), config);
    let info = CtxInfo::empty();
    for k in 0..3 {
        let result = handler.execute(
            &info,
            &HookType::RequestReceived,
            &obj(vec![("count", Json::Num(k))]),
            1_000,
        );
        assert!(matches!(result, ExecutionResult::Continue));
    }
    let snapshot = handler.get_metrics();
    let counters = snapshot.get("counters").expect("counters present");
    let value = counters.get("test_counter").expect("counter present");
    assert!(json_eq(value, &Json::Num(3)));
}

#[test]
fn test_reset_metrics() {
    let config = builtin_config(
        "metrics",
        vec![
            ("metric_type", Json::Str("counter".to_string())),
            ("metric_key", Json::Str("reset_test".to_string())),
        ],
    );
    let mut handler = MetricsHandler::new("reset_test".to_string(), config);
    let info = CtxInfo::empty();
    for _ in 0..5 {
        let _ = handler.execute(&info, &HookType::TclPreExecution, &obj(vec![]), 1_000);
    }
    let before = handler.get_metrics();
    let counters = before.get("counters").expect("counters present");
    assert!(json_eq(
        counters.get("reset_test").expect("counter present"),
        &Json::Num(5)
    ));

    handler.reset();
    let after = handler.get_metrics();
    assert!(json_eq(after.get("counters").expect("counters"), &obj(vec![])));
    assert!(json_eq(after.get("timers").expect("timers"), &obj(vec![])));
    assert!(json_eq(after.get("gauges").expect("gauges"), &obj(vec![])));
}
