//! The notification handler: renders a message from a template and hands
//! back a delivery effect (log line, file append, or webhook POST) for the
//! host to perform.  Delivery failures never fail the dispatch, so the
//! effect carries everything and the dispatcher is done.

use crate::config::BuiltInConfig;
use crate::context::{CtxInfo, CtxInfoV};
use crate::builtins::logging::log_context_fields;
use crate::json::{
    fields_view, json_text, make_obj, obj_lookup, obj_set, Json, JsonV,
};
use crate::strutil::{replaced, str_replace};
use crate::types::{ExecutionResult, hook_name, HookType, ResultV};
use vstd::prelude::*;

verus! {

broadcast use vstd::std_specs::vec::group_vec_axioms, vstd::seq::group_seq_axioms;

/// The model of a delivery effect.
pub ghost enum EffectV {
    Log(Seq<char>),
    File { path: Seq<char>, message: Seq<char> },
    Webhook { url: Seq<char>, body: JsonV },
}

/// One notification to deliver.
#[derive(Debug)]
pub enum NotificationEffect {
    /// Emit the message through the host's logging facility.
    Log { message: String },
    /// Append `[iso-timestamp] message` to the file at `path`.
    File { path: String, message: String },
    /// POST `body` as JSON to `url`, with a short timeout.
    Webhook { url: String, body: Json },
}

impl View for NotificationEffect {
    type V = EffectV;

    open spec fn view(&self) -> EffectV {
        match self {
            NotificationEffect::Log { message } => EffectV::Log(message@),
            NotificationEffect::File { path, message } => EffectV::File {
                path: path@,
                message: message@,
            },
            NotificationEffect::Webhook { url, body } => EffectV::Webhook {
                url: url@,
                body: body@,
            },
        }
    }
}

/// The template a configuration selects.
pub open spec fn template_of(config: Seq<(Seq<char>, JsonV)>) -> Seq<char> {
    match obj_lookup(config, "message_template"@) {
        Some(JsonV::Str(s)) => s,
        _ => "Hook {hook_type} triggered by handler {handler}"@,
    }
}

/// The delivery method a configuration selects.
pub open spec fn method_of(config: Seq<(Seq<char>, JsonV)>) -> Seq<char> {
    match obj_lookup(config, "method"@) {
        Some(JsonV::Str(s)) => s,
        _ => "log"@,
    }
}

/// A value substituted into a template: strings verbatim, anything else
/// as its JSON text.
pub open spec fn value_text(v: JsonV) -> Seq<char> {
    match v {
        JsonV::Str(s) => s,
        other => json_text(other),
    }
}

/// The message after the hook-type, handler and context placeholders.
pub open spec fn base_message(
    template: Seq<char>,
    ht: Seq<char>,
    handler: Seq<char>,
    info: CtxInfoV,
) -> Seq<char> {
    let m1 = replaced(template, "{hook_type}"@, ht);
    let m2 = replaced(m1, "{handler}"@, handler);
    let m3 = match info.request_id {
        Some(r) => replaced(m2, "{request_id}"@, r),
        None => m2,
    };
    match info.user {
        Some(u) => replaced(m3, "{user}"@, u),
        None => m3,
    }
}

/// The message after each data field's `{data.<key>}` placeholder, in
/// field order.
pub open spec fn data_substituted(fields: Seq<(Seq<char>, JsonV)>, m: Seq<char>) -> Seq<char>
    decreases fields.len(),
{
    if fields.len() == 0 {
        m
    } else {
        data_substituted(
            fields.skip(1),
            replaced(m, "{data."@ + fields[0].0 + "}"@, value_text(fields[0].1)),
        )
    }
}

/// The rendered notification message.
pub open spec fn notify_message(
    config: Seq<(Seq<char>, JsonV)>,
    ht: Seq<char>,
    handler: Seq<char>,
    info: CtxInfoV,
    data: JsonV,
) -> Seq<char> {
    let base = base_message(template_of(config), ht, handler, info);
    match data {
        JsonV::Obj(fields) => data_substituted(fields, base),
        _ => base,
    }
}

/// The webhook body: handler, hook type, timestamp, data and context.
pub open spec fn webhook_body(
    handler: Seq<char>,
    ht: Seq<char>,
    now: int,
    data: JsonV,
    info: CtxInfoV,
) -> JsonV {
    JsonV::Obj(
        seq![
            ("handler"@, JsonV::Str(handler)),
            ("hook_type"@, JsonV::Str(ht)),
            ("timestamp"@, JsonV::Num(now)),
            ("data"@, data),
            ("context"@, JsonV::Obj(log_context_fields(info))),
        ],
    )
}

/// The default notification file.
pub open spec fn default_notify_path() -> Seq<char> {
    "/tmp/hook_notifications.log"@
}

/// The delivery effect of one invocation: none for an unknown method or a
/// webhook without a URL.
pub open spec fn notify_effect(
    config: Seq<(Seq<char>, JsonV)>,
    handler: Seq<char>,
    ht: Seq<char>,
    info: CtxInfoV,
    data: JsonV,
    now: int,
) -> Option<EffectV> {
    let m = method_of(config);
    let msg = notify_message(config, ht, handler, info, data);
    if m == "log"@ {
        Some(EffectV::Log(msg))
    } else if m == "file"@ {
        let path = match obj_lookup(config, "file_path"@) {
            Some(JsonV::Str(p)) => p,
            _ => default_notify_path(),
        };
        Some(EffectV::File { path, message: msg })
    } else if m == "webhook"@ {
        match obj_lookup(config, "webhook_url"@) {
            Some(JsonV::Str(url)) => Some(
                EffectV::Webhook { url, body: webhook_body(handler, ht, now, data, info) },
            ),
            _ => None,
        }
    } else {
        None
    }
}

/// The `_notified` stamp.
pub open spec fn notified_stamp(handler: Seq<char>, now: int, method: JsonV) -> JsonV {
    JsonV::Obj(
        seq![
            ("handler"@, JsonV::Str(handler)),
            ("timestamp"@, JsonV::Num(now)),
            ("method"@, method),
        ],
    )
}

/// What one invocation returns: with `add_status`, object data with a
/// `_notified` stamp (other data unchanged) as a `Replace`, else
/// `Continue`.
pub open spec fn notification_outcome(
    config: Seq<(Seq<char>, JsonV)>,
    handler: Seq<char>,
    data: JsonV,
    now: int,
) -> ResultV {
    let add = match obj_lookup(config, "add_status"@) {
        Some(JsonV::Bool(b)) => b,
        _ => false,
    };
    if add {
        let method = match obj_lookup(config, "method"@) {
            Some(v) => v,
            None => JsonV::Null,
        };
        match data {
            JsonV::Obj(fields) => ResultV::Replace(
                JsonV::Obj(obj_set(fields, "_notified"@, notified_stamp(handler, now, method))),
            ),
            _ => ResultV::Replace(data),
        }
    } else {
        ResultV::Continue
    }
}

/// The built-in notification handler.
#[derive(Debug)]
pub struct NotificationHandler {
    name: String,
    config: BuiltInConfig,
}

impl NotificationHandler {
    /// The handler's name.
    pub closed spec fn spec_name(&self) -> Seq<char> {
        self.name@
    }

    /// The handler's configuration map.
    pub closed spec fn config_map(&self) -> Seq<(Seq<char>, JsonV)> {
        fields_view(self.config.config@)
    }

    /// A notification handler.
    pub fn new(name: String, config: BuiltInConfig) -> (r: Self)
        ensures
            r.spec_name() == name@,
            r.config_map() == fields_view(config.config@),
    {
        NotificationHandler { name, config }
    }

    /// The handler's name.
    pub fn name(&self) -> (r: &str)
        ensures
            r@ == self.spec_name(),
    {
        self.name.as_str()
    }

    /// The rendered message for one payload.
    pub fn format_message(&self, info: &CtxInfo, hook_type: &HookType, data: &Json) -> (r: String)
        ensures
            r@ == notify_message(
                self.config_map(),
                hook_name(hook_type@),
                self.spec_name(),
                info@,
                data@,
            ),
    {
        let template = match crate::json::fields_get_str(&self.config.config, "message_template") {
            Some(s) => s.clone(),
            None => String::from_str("Hook {hook_type} triggered by handler {handler}"),
        };
        let ht = hook_type.to_string();
        let m1 = str_replace(template.as_str(), "{hook_type}", ht.as_str());
        let m2 = str_replace(m1.as_str(), "{handler}", self.name.as_str());
        let m3 = match &info.request_id {
            Some(r) => str_replace(m2.as_str(), "{request_id}", r.as_str()),
            None => m2,
        };
        let m4 = match &info.user {
            Some(u) => str_replace(m3.as_str(), "{user}", u.as_str()),
            None => m3,
        };
        match data {
            Json::Obj(fields) => {
                proof {
                    crate::json::lemma_obj_view(*data);
                }
                let ghost gfields = fields_view(fields@);
                assert(gfields.skip(0) =~= gfields);
                let n = fields.len();
                let mut msg = m4;
                for i in 0..n
                    invariant
                        n == fields@.len(),
                        gfields == fields_view(fields@),
                        data_substituted(gfields, base_message(
                            template_of(self.config_map()),
                            hook_name(hook_type@),
                            self.spec_name(),
                            info@,
                        )) == data_substituted(gfields.skip(i as int), msg@),
                {
                    assert(gfields.skip(i as int)[0] == gfields[i as int]);
                    assert(gfields.skip(i as int).skip(1) =~= gfields.skip(i as int + 1));
                    let pair = &fields[i];
                    let mut placeholder = String::from_str("{data.");
                    placeholder.append(pair.0.as_str());
                    placeholder.append("}");
                    let text = match &pair.1 {
                        Json::Str(s) => s.clone(),
                        other => {
                            proof {
                                crate::json::lemma_view_variant(*other);
                            }
                            crate::json::json_to_string(other)
                        },
                    };
                    msg = str_replace(msg.as_str(), placeholder.as_str(), text.as_str());
                }
                assert(data_substituted(gfields.skip(n as int), msg@) == msg@);
                msg
            },
            other => {
                proof {
                    crate::json::lemma_view_variant(*other);
                }
                m4
            },
        }
    }

    /// The delivery effect of one invocation, where the method produces
    /// one.
    pub fn send_notification(
        &self,
        info: &CtxInfo,
        hook_type: &HookType,
        data: &Json,
        now_ms: u64,
    ) -> (r: Option<NotificationEffect>)
        requires
            now_ms <= 0x7fffffffffffffff,
        ensures
            match r {
                Some(e) => notify_effect(
                    self.config_map(),
                    self.spec_name(),
                    hook_name(hook_type@),
                    info@,
                    data@,
                    now_ms as int,
                ) == Some(e@),
                None => notify_effect(
                    self.config_map(),
                    self.spec_name(),
                    hook_name(hook_type@),
                    info@,
                    data@,
                    now_ms as int,
                ) is None,
            },
    {
        proof {
            reveal_strlit("log");
            reveal_strlit("file");
            reveal_strlit("webhook");
            assert("log"@.len() == 3);
            assert("file"@.len() == 4);
            assert("webhook"@.len() == 7);
        }
        let method = match crate::json::fields_get_str(&self.config.config, "method") {
            Some(s) => s.clone(),
            None => String::from_str("log"),
        };
        let message = self.format_message(info, hook_type, data);
        if crate::strutil::str_eq(method.as_str(), "log") {
            Some(NotificationEffect::Log { message })
        } else if crate::strutil::str_eq(method.as_str(), "file") {
            let path = match crate::json::fields_get_str(&self.config.config, "file_path") {
                Some(p) => p.clone(),
                None => String::from_str("/tmp/hook_notifications.log"),
            };
            Some(NotificationEffect::File { path, message })
        } else if crate::strutil::str_eq(method.as_str(), "webhook") {
            match crate::json::fields_get_str(&self.config.config, "webhook_url") {
                Some(url) => {
                    let ht = hook_type.to_string();
                    let mut ctx_fields: Vec<(String, Json)> = Vec::new();
                    match &info.request_id {
                        Some(r) => {
                            ctx_fields.push(
                                (String::from_str("request_id"), Json::Str(r.clone())),
                            );
                        },
                        None => {},
                    }
                    match &info.user {
                        Some(u) => {
                            ctx_fields.push((String::from_str("user"), Json::Str(u.clone())));
                        },
                        None => {},
                    }
                    let ghost gctx = ctx_fields@;
                    let ctx_obj = make_obj(ctx_fields);
                    proof {
                        assert(fields_view(gctx) =~= log_context_fields(info@));
                    }
                    let mut body_fields: Vec<(String, Json)> = Vec::new();
                    body_fields.push((String::from_str("handler"), Json::Str(self.name.clone())));
                    body_fields.push((String::from_str("hook_type"), Json::Str(ht)));
                    body_fields.push((String::from_str("timestamp"), Json::Num(now_ms as i64)));
                    body_fields.push((String::from_str("data"), data.clone()));
                    body_fields.push((String::from_str("context"), ctx_obj));
                    let ghost gbody = body_fields@;
                    let body = make_obj(body_fields);
                    proof {
                        assert(fields_view(gbody) =~= seq![
                            ("handler"@, JsonV::Str(self.spec_name())),
                            ("hook_type"@, JsonV::Str(hook_name(hook_type@))),
                            ("timestamp"@, JsonV::Num(now_ms as int)),
                            ("data"@, data@),
                            ("context"@, JsonV::Obj(log_context_fields(info@))),
                        ]);
                    }
                    Some(NotificationEffect::Webhook { url: url.clone(), body })
                },
                None => None,
            }
        } else {
            None
        }
    }

    /// One invocation: the delivery effect, and the flow verdict.
    pub fn execute(&self, info: &CtxInfo, hook_type: &HookType, data: &Json, now_ms: u64) -> (r: (
        ExecutionResult,
        Option<NotificationEffect>,
    ))
        requires
            now_ms <= 0x7fffffffffffffff,
        ensures
            r.0@ == notification_outcome(
                self.config_map(),
                self.spec_name(),
                data@,
                now_ms as int,
            ),
            match r.1 {
                Some(e) => notify_effect(
                    self.config_map(),
                    self.spec_name(),
                    hook_name(hook_type@),
                    info@,
                    data@,
                    now_ms as int,
                ) == Some(e@),
                None => notify_effect(
                    self.config_map(),
                    self.spec_name(),
                    hook_name(hook_type@),
                    info@,
                    data@,
                    now_ms as int,
                ) is None,
            },
    {
        let effect = self.send_notification(info, hook_type, data, now_ms);
        let add = match crate::json::fields_get_bool(&self.config.config, "add_status") {
            Some(b) => b,
            None => false,
        };
        if add {
            let method = match crate::json::fields_get(&self.config.config, "method") {
                Some(v) => v.clone(),
                None => Json::Null,
            };
            let ghost gmethod = method@;
            let mut stamp: Vec<(String, Json)> = Vec::new();
            stamp.push((String::from_str("handler"), Json::Str(self.name.clone())));
            stamp.push((String::from_str("timestamp"), Json::Num(now_ms as i64)));
            stamp.push((String::from_str("method"), method));
            let ghost gstamp = stamp@;
            let stamp_obj = make_obj(stamp);
            proof {
                assert(fields_view(gstamp) =~= seq![
                    ("handler"@, JsonV::Str(self.spec_name())),
                    ("timestamp"@, JsonV::Num(now_ms as int)),
                    ("method"@, gmethod),
                ]);
            }
            match data.clone() {
                Json::Obj(fields) => {
                    proof {
                        crate::json::lemma_obj_view(Json::Obj(fields));
                    }
                    let set = crate::json::fields_set(
                        fields,
                        String::from_str("_notified"),
                        stamp_obj,
                    );
                    (ExecutionResult::Replace(make_obj(set)), effect)
                },
                other => {
                    proof {
                        crate::json::lemma_view_variant(other);
                    }
                    (ExecutionResult::Replace(other), effect)
                },
            }
        } else {
            (ExecutionResult::Continue, effect)
        }
    }
}

} // verus!
