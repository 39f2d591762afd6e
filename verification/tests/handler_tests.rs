//! Tests of the script and external-command handler halves: prelude
//! building, argument and environment construction, and reply parsing.

use hook_engine::config::{ExternalCommandConfig, TclScriptConfig};
use hook_engine::context::CtxInfo;
use hook_engine::errors::HookError;
use hook_engine::external::ExternalCommandHandler;
use hook_engine::json::{json_eq, Json};
use hook_engine::script::TclScriptHandler;
use hook_engine::types::{ExecutionResult, HookType};

fn obj(fields: Vec<(&str, Json)>) -> Json {
    Json::Obj(
        fields
            .into_iter()
            .map(|(k, v)| (k.to_string(), v))
            .collect(),
    )
}

#[test]
fn test_build_script() {
    let config = TclScriptConfig {
        script: "puts \"Hook: $hook_type, User: $user\"".to_string(),
        variables: vec![
            ("debug".to_string(), Json::Bool(true)),
            ("version".to_string(), Json::Str("1.0".to_string())),
        ],
    };
    let handler = TclScriptHandler::new("test".to_string(), config);
    let info = CtxInfo {
        request_id: None,
        user: Some("alice".to_string()),
        start_time_ms: None,
    };
    let payload_data = obj(vec![("tool", Json::Str("test_tool".to_string()))]);
    let script = handler.build_script(&info, &HookType::ToolPreExecution, &payload_data);

    assert!(script.contains("set hook_type \"tool_pre_execution\""));
    assert!(script.contains("set user \"alice\""));
    assert!(script.contains("set debug 1"));
    assert!(script.contains("set version \"1.0\""));
    assert!(script.ends_with("puts \"Hook: $hook_type, User: $user\""));
}

fn script_handler() -> TclScriptHandler {
    TclScriptHandler::new(
        "test".to_string(),
        TclScriptConfig { script: String::new(), variables: Vec::new() },
    )
}

#[test]
fn test_parse_result_json() {
    let handler = script_handler();

    let cont = handler
        .parse_result(
            "{\"type\": \"continue\"}",
            Some(obj(vec![("type", Json::Str("continue".to_string()))])),
        )
        .unwrap();
    assert!(matches!(cont, ExecutionResult::Continue));

    let stop = handler
        .parse_result(
            "{\"type\": \"stop\", \"data\": {\"message\": \"stopped\"}}",
            Some(obj(vec![
                ("type", Json::Str("stop".to_string())),
                ("data", obj(vec![("message", Json::Str("stopped".to_string()))])),
            ])),
        )
        .unwrap();
    assert!(matches!(stop, ExecutionResult::Stop(_)));

    let replace = handler
        .parse_result(
            "{\"type\": \"replace\", \"data\": {\"new\": \"value\"}}",
            Some(obj(vec![
                ("type", Json::Str("replace".to_string())),
                ("data", obj(vec![("new", Json::Str("value".to_string()))])),
            ])),
        )
        .unwrap();
    assert!(matches!(replace, ExecutionResult::Replace(_)));

    let error = handler
        .parse_result(
            "{\"type\": \"error\", \"message\": \"test error\"}",
            Some(obj(vec![
                ("type", Json::Str("error".to_string())),
                ("message", Json::Str("test error".to_string())),
            ])),
        )
        .unwrap();
    assert!(matches!(error, ExecutionResult::Error { .. }));

    let missing_data = handler.parse_result(
        "{\"type\": \"replace\"}",
        Some(obj(vec![("type", Json::Str("replace".to_string()))])),
    );
    match missing_data {
        Err(HookError::ExecutionFailed { source, .. }) => {
            assert!(source.contains("Replace result missing 'data' field"));
        }
        other => panic!("expected an execution failure, got {:?}", other),
    }
}

#[test]
fn test_parse_result_string() {
    let handler = script_handler();

    let empty = handler.parse_result("", None).unwrap();
    assert!(matches!(empty, ExecutionResult::Continue));

    let ok = handler.parse_result("ok", None).unwrap();
    assert!(matches!(ok, ExecutionResult::Continue));

    let text = handler.parse_result("hello world", None).unwrap();
    match text {
        ExecutionResult::Replace(data) => {
            assert!(json_eq(&data, &Json::Str("hello world".to_string())));
        }
        other => panic!("expected a replace result, got {:?}", other),
    }
}

fn command_handler(args: Vec<&str>, env: Vec<(&str, &str)>) -> ExternalCommandHandler {
    ExternalCommandHandler::new(
        "test".to_string(),
        ExternalCommandConfig {
            command: "/bin/test".to_string(),
            args: args.into_iter().map(|a| a.to_string()).collect(),
            env: env
                .into_iter()
                .map(|(k, v)| (k.to_string(), v.to_string()))
                .collect(),
            timeout_ms: 2000,
        },
    )
}

#[test]
fn test_build_env() {
    let handler = command_handler(vec![], vec![("CUSTOM_VAR", "custom_value")]);
    let info = CtxInfo {
        request_id: Some("req-123".to_string()),
        user: Some("alice".to_string()),
        start_time_ms: None,
    };
    let payload_data = obj(vec![("tool", Json::Str("test_tool".to_string()))]);
    let env = handler.build_env(&info, &HookType::ToolPreExecution, &payload_data);

    let get = |key: &str| {
        env.iter()
            .rev()
            .find(|(k, _)| k == key)
            .map(|(_, v)| v.clone())
    };
    assert_eq!(get("CUSTOM_VAR"), Some("custom_value".to_string()));
    assert_eq!(get("HOOK_TYPE"), Some("tool_pre_execution".to_string()));
    assert_eq!(get("HOOK_USER"), Some("alice".to_string()));
    assert_eq!(get("HOOK_REQUEST_ID"), Some("req-123".to_string()));
    assert_eq!(get("HOOK_HANDLER"), Some("test".to_string()));
}

#[test]
fn test_build_args() {
    let handler = ExternalCommandHandler::new(
        "test_handler".to_string(),
        ExternalCommandConfig {
            command: "/bin/test".to_string(),
            args: vec![
                "--hook".to_string(),
                "{hook_type}".to_string(),
                "--user".to_string(),
                "{user}".to_string(),
                "--handler".to_string(),
                "{handler_name}".to_string(),
            ],
            env: Vec::new(),
            timeout_ms: 5000,
        },
    );
    let info = CtxInfo {
        request_id: None,
        user: Some("bob".to_string()),
        start_time_ms: None,
    };
    let args = handler.build_args(&info, &HookType::RequestReceived);
    assert_eq!(
        args,
        vec![
            "--hook",
            "request_received",
            "--user",
            "bob",
            "--handler",
            "test_handler",
        ]
    );
}

#[test]
fn test_parse_output() {
    let handler = command_handler(vec![], vec![]);

    let plain = handler.parse_output("continue", "", 0, None).unwrap();
    match plain {
        ExecutionResult::Replace(data) => {
            assert!(json_eq(&data, &Json::Str("continue".to_string())));
        }
        other => panic!("expected a replace result, got {:?}", other),
    }

    let blank = handler.parse_output("  ", "", 0, None).unwrap();
    assert!(matches!(blank, ExecutionResult::Continue));

    let replace = handler
        .parse_output(
            "{\"type\": \"replace\", \"data\": {\"new\": \"value\"}}",
            "",
            0,
            Some(obj(vec![
                ("type", Json::Str("replace".to_string())),
                ("data", obj(vec![("new", Json::Str("value".to_string()))])),
            ])),
        )
        .unwrap();
    assert!(matches!(replace, ExecutionResult::Replace(_)));

    let failed = handler.parse_output("", "error message", 1, None).unwrap();
    match failed {
        ExecutionResult::Error { message, .. } => {
            assert_eq!(message, "Command exited with code 1: error message");
        }
        other => panic!("expected an error result, got {:?}", other),
    }
}
