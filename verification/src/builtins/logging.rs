//! The logging handler: renders one log record per invocation and hands
//! it back as an effect for the host's logging facility to emit.

use crate::config::BuiltInConfig;
use crate::context::{CtxInfo, CtxInfoV};
use crate::json::{
    fields_view, json_text, json_to_string, make_obj, obj_lookup, Json, JsonV,
};
use crate::lifecycle::LogLevel;
use crate::strutil::lower_of;
use crate::types::{ExecutionResult, hook_name, HookType, ResultV};
use vstd::prelude::*;

verus! {

broadcast use vstd::std_specs::vec::group_vec_axioms, vstd::seq::group_seq_axioms;

/// How the record is laid out.
#[derive(Debug, Clone, Copy, PartialEq, Eq, Structural)]
pub enum LogFormat {
    Json,
    Pretty,
    Compact,
}

/// The level a configuration selects: its `level` value, case-folded;
/// unknown or missing values fall back to `info`.
pub open spec fn level_of(config: Seq<(Seq<char>, JsonV)>) -> LogLevel {
    match obj_lookup(config, "level"@) {
        Some(JsonV::Str(s)) => {
            let l = lower_of(s);
            if l == "error"@ {
                LogLevel::Error
            } else if l == "warn"@ || l == "warning"@ {
                LogLevel::Warn
            } else if l == "info"@ {
                LogLevel::Info
            } else if l == "debug"@ {
                LogLevel::Debug
            } else if l == "trace"@ {
                LogLevel::Trace
            } else {
                LogLevel::Info
            }
        },
        _ => LogLevel::Info,
    }
}

/// The format a configuration selects; unknown or missing values fall
/// back to `pretty`.
pub open spec fn format_of(config: Seq<(Seq<char>, JsonV)>) -> LogFormat {
    match obj_lookup(config, "format"@) {
        Some(JsonV::Str(s)) => {
            let l = lower_of(s);
            if l == "json"@ {
                LogFormat::Json
            } else if l == "pretty"@ {
                LogFormat::Pretty
            } else if l == "compact"@ {
                LogFormat::Compact
            } else {
                LogFormat::Pretty
            }
        },
        _ => LogFormat::Pretty,
    }
}

/// The context object a JSON-format record carries: `request_id` and
/// `user` where the snapshot has them.
pub open spec fn log_context_fields(info: CtxInfoV) -> Seq<(Seq<char>, JsonV)> {
    let with_req: Seq<(Seq<char>, JsonV)> = match info.request_id {
        Some(r) => seq![("request_id"@, JsonV::Str(r))],
        None => Seq::empty(),
    };
    match info.user {
        Some(u) => with_req + seq![("user"@, JsonV::Str(u))],
        None => with_req,
    }
}

/// The record text, per format.
pub open spec fn log_message(
    format: LogFormat,
    ht: Seq<char>,
    handler: Seq<char>,
    data: JsonV,
    info: CtxInfoV,
) -> Seq<char> {
    if format == LogFormat::Json {
        json_text(
            JsonV::Obj(
                seq![
                    ("hook_type"@, JsonV::Str(ht)),
                    ("handler"@, JsonV::Str(handler)),
                    ("data"@, data),
                    ("context"@, JsonV::Obj(log_context_fields(info))),
                ],
            ),
        )
    } else if format == LogFormat::Pretty {
        "Hook: "@ + ht + " | Handler: "@ + handler + " | Data: "@ + json_text(data)
    } else {
        "["@ + ht + "] "@ + handler + ": "@ + json_text(data)
    }
}

/// The level's conventional upper-case name.
pub open spec fn level_name(level: LogLevel) -> Seq<char> {
    match level {
        LogLevel::Trace => "TRACE"@,
        LogLevel::Debug => "DEBUG"@,
        LogLevel::Info => "INFO"@,
        LogLevel::Warn => "WARN"@,
        LogLevel::Error => "ERROR"@,
    }
}

/// What one invocation returns: with `include_in_result`, the data with a
/// `_log` stamp (non-objects are wrapped); otherwise `Continue`.
pub open spec fn logging_outcome(
    config: Seq<(Seq<char>, JsonV)>,
    level: LogLevel,
    message: Seq<char>,
    data: JsonV,
    now: int,
) -> ResultV {
    let stamped = match obj_lookup(config, "include_in_result"@) {
        Some(JsonV::Bool(b)) => b,
        _ => false,
    };
    if stamped {
        let entry = JsonV::Obj(
            seq![
                ("logged"@, JsonV::Bool(true)),
                ("level"@, JsonV::Str(level_name(level))),
                ("message"@, JsonV::Str(message)),
                ("timestamp"@, JsonV::Num(now)),
            ],
        );
        match data {
            JsonV::Obj(fields) => ResultV::Replace(
                JsonV::Obj(crate::json::obj_set(fields, "_log"@, entry)),
            ),
            _ => ResultV::Replace(
                JsonV::Obj(seq![("_original"@, data), ("_log"@, entry)]),
            ),
        }
    } else {
        ResultV::Continue
    }
}

/// The built-in logging handler.
#[derive(Debug)]
pub struct LoggingHandler {
    name: String,
    config: BuiltInConfig,
    level: LogLevel,
    format: LogFormat,
}

/// One rendered log record, for the host to emit at `level`.
#[derive(Debug)]
pub struct LogRecord {
    /// The verbosity to emit at.
    pub level: LogLevel,
    /// The record text.
    pub message: String,
}

impl LoggingHandler {
    /// The handler's name.
    pub closed spec fn spec_name(&self) -> Seq<char> {
        self.name@
    }

    /// The handler's configuration map.
    pub closed spec fn config_map(&self) -> Seq<(Seq<char>, JsonV)> {
        fields_view(self.config.config@)
    }

    /// The configured level.
    pub closed spec fn spec_level(&self) -> LogLevel {
        self.level
    }

    /// The configured format.
    pub closed spec fn spec_format(&self) -> LogFormat {
        self.format
    }

    /// A logging handler with the level and format its configuration
    /// selects.
    pub fn new(name: String, config: BuiltInConfig) -> (r: Self)
        ensures
            r.spec_name() == name@,
            r.config_map() == fields_view(config.config@),
            r.spec_level() == level_of(fields_view(config.config@)),
            r.spec_format() == format_of(fields_view(config.config@)),
    {
        let level = match crate::json::fields_get_str(&config.config, "level") {
            Some(s) => {
                let l = crate::strutil::to_lowercase(s.as_str());
                proof {
                    reveal_strlit("error");
                    reveal_strlit("warn");
                    reveal_strlit("warning");
                    reveal_strlit("info");
                    reveal_strlit("debug");
                    reveal_strlit("trace");
                }
                if crate::strutil::str_eq(l.as_str(), "error") {
                    LogLevel::Error
                } else if crate::strutil::str_eq(l.as_str(), "warn") || crate::strutil::str_eq(
                    l.as_str(),
                    "warning",
                ) {
                    LogLevel::Warn
                } else if crate::strutil::str_eq(l.as_str(), "info") {
                    LogLevel::Info
                } else if crate::strutil::str_eq(l.as_str(), "debug") {
                    LogLevel::Debug
                } else if crate::strutil::str_eq(l.as_str(), "trace") {
                    LogLevel::Trace
                } else {
                    LogLevel::Info
                }
            },
            None => LogLevel::Info,
        };
        let format = match crate::json::fields_get_str(&config.config, "format") {
            Some(s) => {
                let l = crate::strutil::to_lowercase(s.as_str());
                if crate::strutil::str_eq(l.as_str(), "json") {
                    LogFormat::Json
                } else if crate::strutil::str_eq(l.as_str(), "pretty") {
                    LogFormat::Pretty
                } else if crate::strutil::str_eq(l.as_str(), "compact") {
                    LogFormat::Compact
                } else {
                    LogFormat::Pretty
                }
            },
            None => LogFormat::Pretty,
        };
        LoggingHandler { name, config, level, format }
    }

    /// The handler's name.
    pub fn name(&self) -> (r: &str)
        ensures
            r@ == self.spec_name(),
    {
        self.name.as_str()
    }

    /// The record text for one payload under this handler's format.
    pub fn format_message(&self, info: &CtxInfo, hook_type: &HookType, data: &Json) -> (r: String)
        ensures
            r@ == log_message(self.spec_format(), hook_name(hook_type@), self.spec_name(), data@, info@),
    {
        let ht = hook_type.to_string();
        match self.format {
            LogFormat::Json => {
                let mut ctx_fields: Vec<(String, Json)> = Vec::new();
                match &info.request_id {
                    Some(r) => {
                        ctx_fields.push((String::from_str("request_id"), Json::Str(r.clone())));
                    },
                    None => {},
                }
                match &info.user {
                    Some(u) => {
                        ctx_fields.push((String::from_str("user"), Json::Str(u.clone())));
                    },
                    None => {},
                }
                let ghost gctx = ctx_fields@;
                let ctx_obj = make_obj(ctx_fields);
                proof {
                    assert(fields_view(gctx) =~= log_context_fields(info@));
                }
                let mut fields: Vec<(String, Json)> = Vec::new();
                fields.push((String::from_str("hook_type"), Json::Str(ht)));
                fields.push((String::from_str("handler"), Json::Str(self.name.clone())));
                fields.push((String::from_str("data"), data.clone()));
                fields.push((String::from_str("context"), ctx_obj));
                let ghost gfields = fields@;
                let obj = make_obj(fields);
                proof {
                    assert(fields_view(gfields) =~= seq![
                        ("hook_type"@, JsonV::Str(hook_name(hook_type@))),
                        ("handler"@, JsonV::Str(self.spec_name())),
                        ("data"@, data@),
                        ("context"@, JsonV::Obj(log_context_fields(info@))),
                    ]);
                }
                json_to_string(&obj)
            },
            LogFormat::Pretty => {
                let mut s = String::from_str("Hook: ");
                s.append(ht.as_str());
                s.append(" | Handler: ");
                s.append(self.name.as_str());
                s.append(" | Data: ");
                s.append(json_to_string(data).as_str());
                s
            },
            LogFormat::Compact => {
                let mut s = String::from_str("[");
                s.append(ht.as_str());
                s.append("] ");
                s.append(self.name.as_str());
                s.append(": ");
                s.append(json_to_string(data).as_str());
                s
            },
        }
    }

    /// One invocation: the rendered record to emit, and the flow verdict.
    pub fn execute(&self, info: &CtxInfo, hook_type: &HookType, data: &Json, now_ms: u64) -> (r: (
        ExecutionResult,
        LogRecord,
    ))
        requires
            now_ms <= 0x7fffffffffffffff,
        ensures
            r.1.level == self.spec_level(),
            r.1.message@ == log_message(
                self.spec_format(),
                hook_name(hook_type@),
                self.spec_name(),
                data@,
                info@,
            ),
            r.0@ == logging_outcome(
                self.config_map(),
                self.spec_level(),
                log_message(
                    self.spec_format(),
                    hook_name(hook_type@),
                    self.spec_name(),
                    data@,
                    info@,
                ),
                data@,
                now_ms as int,
            ),
    {
        let message = self.format_message(info, hook_type, data);
        let in_result = match crate::json::fields_get_bool(&self.config.config, "include_in_result") {
            Some(b) => b,
            None => false,
        };
        let record = LogRecord { level: self.level, message: message.clone() };
        if in_result {
            let level_text = match self.level {
                LogLevel::Trace => String::from_str("TRACE"),
                LogLevel::Debug => String::from_str("DEBUG"),
                LogLevel::Info => String::from_str("INFO"),
                LogLevel::Warn => String::from_str("WARN"),
                LogLevel::Error => String::from_str("ERROR"),
            };
            let mut entry_fields: Vec<(String, Json)> = Vec::new();
            entry_fields.push((String::from_str("logged"), Json::Bool(true)));
            entry_fields.push((String::from_str("level"), Json::Str(level_text)));
            entry_fields.push((String::from_str("message"), Json::Str(message)));
            entry_fields.push((String::from_str("timestamp"), Json::Num(now_ms as i64)));
            let ghost gentry = entry_fields@;
            let entry = make_obj(entry_fields);
            proof {
                assert(fields_view(gentry) =~= seq![
                    ("logged"@, JsonV::Bool(true)),
                    ("level"@, JsonV::Str(level_name(self.spec_level()))),
                    ("message"@, JsonV::Str(record.message@)),
                    ("timestamp"@, JsonV::Num(now_ms as int)),
                ]);
            }
            match data.clone() {
                Json::Obj(fields) => {
                    proof {
                        crate::json::lemma_obj_view(Json::Obj(fields));
                    }
                    let set = crate::json::fields_set(fields, String::from_str("_log"), entry);
                    (ExecutionResult::Replace(make_obj(set)), record)
                },
                other => {
                    proof {
                        crate::json::lemma_view_variant(other);
                    }
                    let mut wrapped: Vec<(String, Json)> = Vec::new();
                    wrapped.push((String::from_str("_original"), other));
                    wrapped.push((String::from_str("_log"), entry));
                    let ghost gwrapped = wrapped@;
                    let w = make_obj(wrapped);
                    proof {
                        assert(fields_view(gwrapped) =~= seq![
                            ("_original"@, data@),
                            (
                                "_log"@,
                                JsonV::Obj(
                                    seq![
                                        ("logged"@, JsonV::Bool(true)),
                                        ("level"@, JsonV::Str(level_name(self.spec_level()))),
                                        ("message"@, JsonV::Str(record.message@)),
                                        ("timestamp"@, JsonV::Num(now_ms as int)),
                                    ],
                                ),
                            ),
                        ]);
                    }
                    (ExecutionResult::Replace(w), record)
                },
            }
        } else {
            (ExecutionResult::Continue, record)
        }
    }
}

} // verus!
