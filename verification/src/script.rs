//! The script handler's pure half: building the prelude-plus-body text
//! that goes to the co-resident interpreter, and (elsewhere in this crate)
//! parsing the reply.  The channel send and receive belong to the host.

use crate::config::TclScriptConfig;
use crate::context::{CtxInfo, CtxInfoV};
use crate::json::{fields_view, json_text, json_to_string, Json, JsonV};
use crate::strutil::{dec_digits_signed, i64_to_string};
use crate::errors::{HookError, HookErrorV};
use crate::json::obj_lookup;
use crate::types::{hook_name, ExecutionResult, HookType, ResultV};
use vstd::prelude::*;

verus! {

broadcast use vstd::std_specs::vec::group_vec_axioms, vstd::seq::group_seq_axioms;

/// A configured variable rendered as a script literal: strings quoted,
/// numbers as digits, booleans as `1`/`0`, null as an empty quoted string,
/// anything else as its JSON text.
pub open spec fn script_literal(v: JsonV) -> Seq<char> {
    match v {
        JsonV::Str(s) => seq!['"'] + s + seq!['"'],
        JsonV::Num(n) => dec_digits_signed(n),
        JsonV::Bool(b) => if b {
            "1"@
        } else {
            "0"@
        },
        JsonV::Null => "\"\""@,
        other => json_text(other),
    }
}

/// The `set` lines for the configured variables, in configuration order.
pub open spec fn var_lines(vars: Seq<(Seq<char>, JsonV)>) -> Seq<char>
    decreases vars.len(),
{
    if vars.len() == 0 {
        Seq::empty()
    } else {
        "set "@ + vars[0].0 + " "@ + script_literal(vars[0].1) + "\n"@ + var_lines(vars.skip(1))
    }
}

/// The whole prelude: hook type, hook data, the context values that are
/// present, and the configured variables.
pub open spec fn prelude_text(
    ht: Seq<char>,
    data: JsonV,
    info: CtxInfoV,
    vars: Seq<(Seq<char>, JsonV)>,
) -> Seq<char> {
    let head = "set hook_type \""@ + ht + "\"\n"@ + "set hook_data "@ + json_text(data) + "\n"@;
    let with_req = match info.request_id {
        Some(r) => head + "set request_id \""@ + r + "\"\n"@,
        None => head,
    };
    let with_user = match info.user {
        Some(u) => with_req + "set user \""@ + u + "\"\n"@,
        None => with_req,
    };
    with_user + var_lines(vars)
}

/// The full script sent to the interpreter.
pub open spec fn script_text(
    ht: Seq<char>,
    data: JsonV,
    info: CtxInfoV,
    vars: Seq<(Seq<char>, JsonV)>,
    body: Seq<char>,
) -> Seq<char> {
    prelude_text(ht, data, info, vars) + "\n"@ + body
}

/// A handler that sends a script to the co-resident interpreter per fire.
/// This type holds the pure halves; the host owns the channel.
#[derive(Debug)]
pub struct TclScriptHandler {
    /// The handler's name.
    pub name: String,
    /// The script body and injected variables.
    pub config: TclScriptConfig,
}

impl TclScriptHandler {
    /// The handler's name.
    pub open spec fn spec_name(&self) -> Seq<char> {
        self.name@
    }

    /// A script handler.
    pub fn new(name: String, config: TclScriptConfig) -> (r: Self)
        ensures
            r.spec_name() == name@,
            r.config.script@ == config.script@,
            fields_view(r.config.variables@) == fields_view(config.variables@),
    {
        TclScriptHandler { name, config }
    }

    /// The handler's name.
    pub fn name(&self) -> (r: &str)
        ensures
            r@ == self.spec_name(),
    {
        self.name.as_str()
    }

    /// Whether the handler should run: the shared-state key
    /// `handler.<name>.enabled` can switch it off.  The shared map moves
    /// under concurrent writers, so the answer is a snapshot.
    pub fn should_run(&self, ctx: &crate::context::HookContext) -> bool {
        let mut key = String::from_str("handler.");
        key.append(self.name.as_str());
        key.append(".enabled");
        match ctx.get_state(key.as_str()) {
            Some(Json::Bool(false)) => false,
            _ => true,
        }
    }

    /// The script for one payload: the prelude, a blank line, the body.
    pub fn build_script(&self, info: &CtxInfo, hook_type: &HookType, data: &Json) -> (r: String)
        ensures
            r@ == script_text(
                hook_name(hook_type@),
                data@,
                info@,
                fields_view(self.config.variables@),
                self.config.script@,
            ),
    {
        let mut s = String::from_str("set hook_type \"");
        s.append(hook_type.to_string().as_str());
        s.append("\"\n");
        s.append("set hook_data ");
        s.append(json_to_string(data).as_str());
        s.append("\n");
        match &info.request_id {
            Some(r) => {
                s.append("set request_id \"");
                s.append(r.as_str());
                s.append("\"\n");
            },
            None => {},
        }
        match &info.user {
            Some(u) => {
                s.append("set user \"");
                s.append(u.as_str());
                s.append("\"\n");
            },
            None => {},
        }
        let ghost gvars = fields_view(self.config.variables@);
        assert(gvars.skip(0) =~= gvars);
        let ghost head = s@;
        let n = self.config.variables.len();
        for i in 0..n
            invariant
                n == self.config.variables@.len(),
                gvars == fields_view(self.config.variables@),
                head + var_lines(gvars) == s@ + var_lines(gvars.skip(i as int)),
        {
            assert(gvars.skip(i as int)[0] == gvars[i as int]);
            assert(gvars.skip(i as int).skip(1) =~= gvars.skip(i as int + 1));
            let ghost before = s@;
            let pair = &self.config.variables[i];
            s.append("set ");
            s.append(pair.0.as_str());
            s.append(" ");
            let lit = script_value(&pair.1);
            s.append(lit.as_str());
            s.append("\n");
            assert(s@ =~= before + ("set "@ + gvars[i as int].0 + " "@ + script_literal(
                gvars[i as int].1,
            ) + "\n"@));
            assert(before + ("set "@ + gvars[i as int].0 + " "@ + script_literal(
                gvars[i as int].1,
            ) + "\n"@ + var_lines(gvars.skip(i as int + 1))) =~= s@ + var_lines(
                gvars.skip(i as int + 1),
            ));
        }
        assert(var_lines(gvars.skip(n as int)) =~= Seq::<char>::empty());
        assert(head + var_lines(gvars) =~= s@);
        s.append("\n");
        s.append(self.config.script.as_str());
        s
    }
}


/// What `str::trim` returns: a function of the characters alone.
pub uninterp spec fn trimmed_of(s: Seq<char>) -> Seq<char>;

/// Relies on `str::trim`: the input without leading and trailing
/// whitespace.
#[verifier::external_body]
pub fn str_trim(s: &str) -> (r: String)
    ensures
        r@ == trimmed_of(s@),
{
    s.trim().to_string()
}

/// How an interpreter reply maps to a verdict, given the host's attempt
/// to read it as JSON.  A `type` field selects the verdict directly; JSON
/// without one replaces the data; text that is not JSON continues when
/// blank or `ok` and otherwise replaces the data as a string.
pub open spec fn reply_outcome(
    parsed: Option<JsonV>,
    raw: Seq<char>,
    handler: Seq<char>,
) -> Result<ResultV, HookErrorV> {
    match parsed {
        Some(v) => match v {
            JsonV::Obj(fields) => match obj_lookup(fields, "type"@) {
                Some(JsonV::Str(ty)) => {
                    if ty == "continue"@ {
                        Ok(ResultV::Continue)
                    } else if ty == "stop"@ {
                        Ok(ResultV::Stop(obj_lookup(fields, "data"@)))
                    } else if ty == "replace"@ {
                        match obj_lookup(fields, "data"@) {
                            Some(d) => Ok(ResultV::Replace(d)),
                            None => Err(
                                HookErrorV::ExecutionFailed {
                                    handler,
                                    source: "Replace result missing 'data' field"@,
                                },
                            ),
                        }
                    } else if ty == "error"@ {
                        let message = match obj_lookup(fields, "message"@) {
                            Some(JsonV::Str(m)) => m,
                            _ => "Unknown error"@,
                        };
                        let details = match obj_lookup(fields, "code"@) {
                            Some(code) => Some(JsonV::Obj(seq![("code"@, code)])),
                            None => None,
                        };
                        Ok(ResultV::Error { message, details })
                    } else {
                        Ok(ResultV::Replace(v))
                    }
                },
                _ => Ok(ResultV::Replace(v)),
            },
            other => Ok(ResultV::Replace(other)),
        },
        None => {
            let t = trimmed_of(raw);
            if t.len() == 0 || t == "ok"@ {
                Ok(ResultV::Continue)
            } else {
                Ok(ResultV::Replace(JsonV::Str(raw)))
            }
        },
    }
}

impl TclScriptHandler {
    /// Interpret the interpreter's reply.  The host hands in the raw text
    /// and its attempt to read the text as JSON; the mapping to a verdict
    /// is exact.
    pub fn parse_result(&self, raw: &str, parsed: Option<Json>) -> (r: Result<
        ExecutionResult,
        HookError,
    >)
        ensures
            (match r {
                Ok(v) => Ok(v@),
                Err(e) => Err(e@),
            }) == reply_outcome(
                match parsed {
                    Some(j) => Some(j@),
                    None => None,
                },
                raw@,
                self.spec_name(),
            ),
    {
        interpret_reply(parsed, raw, self.name.as_str())
    }
}

/// The shared reply interpretation of script and external-command
/// handlers.
pub fn interpret_reply(parsed: Option<Json>, raw: &str, handler: &str) -> (r: Result<
    ExecutionResult,
    HookError,
>)
    ensures
        (match r {
            Ok(v) => Ok(v@),
            Err(e) => Err(e@),
        }) == reply_outcome(
            match parsed {
                Some(j) => Some(j@),
                None => None,
            },
            raw@,
            handler@,
        ),
{
    proof {
        reveal_strlit("continue");
        reveal_strlit("stop");
        reveal_strlit("replace");
        reveal_strlit("error");
        assert("continue"@.len() == 8);
        assert("stop"@.len() == 4);
        assert("replace"@.len() == 7);
        assert("error"@.len() == 5);
        assert("stop"@[0] == 's' && "error"@[0] == 'e');
    }
    match parsed {
        Some(v) => {
            let fields = match &v {
                Json::Obj(f) => f,
                other => {
                    proof {
                        crate::json::lemma_view_variant(*other);
                    }
                    return Ok(ExecutionResult::Replace(v));
                },
            };
            proof {
                crate::json::lemma_obj_view(v);
            }
            let ty = match crate::json::fields_get_str(fields, "type") {
                Some(s) => s.clone(),
                None => {
                    return Ok(ExecutionResult::Replace(v));
                },
            };
            if crate::strutil::str_eq(ty.as_str(), "continue") {
                Ok(ExecutionResult::Continue)
            } else if crate::strutil::str_eq(ty.as_str(), "stop") {
                let data = match crate::json::fields_get(fields, "data") {
                    Some(d) => Some(d.clone()),
                    None => None,
                };
                Ok(ExecutionResult::Stop(data))
            } else if crate::strutil::str_eq(ty.as_str(), "replace") {
                match crate::json::fields_get(fields, "data") {
                    Some(d) => Ok(ExecutionResult::Replace(d.clone())),
                    None => Err(
                        HookError::execution_failed(
                            String::from_str(handler),
                            String::from_str("Replace result missing 'data' field"),
                        ),
                    ),
                }
            } else if crate::strutil::str_eq(ty.as_str(), "error") {
                let message = match crate::json::fields_get_str(fields, "message") {
                    Some(m) => m.clone(),
                    None => String::from_str("Unknown error"),
                };
                let details = match crate::json::fields_get(fields, "code") {
                    Some(code) => {
                        let mut d: Vec<(String, Json)> = Vec::new();
                        d.push((String::from_str("code"), code.clone()));
                        let ghost gd = d@;
                        let dobj = crate::json::make_obj(d);
                        proof {
                            assert(crate::json::fields_view(gd) =~= seq![
                                ("code"@, obj_lookup(crate::json::fields_view(fields@), "code"@)->0),
                            ]);
                        }
                        Some(dobj)
                    },
                    None => None,
                };
                Ok(ExecutionResult::Error { message, details })
            } else {
                Ok(ExecutionResult::Replace(v))
            }
        },
        None => {
            let trimmed = str_trim(raw);
            proof {
                reveal_strlit("ok");
            }
            if trimmed.as_str().unicode_len() == 0 || crate::strutil::str_eq(
                trimmed.as_str(),
                "ok",
            ) {
                Ok(ExecutionResult::Continue)
            } else {
                Ok(ExecutionResult::Replace(Json::Str(String::from_str(raw))))
            }
        },
    }
}

/// A value rendered as a script literal.
fn script_value(v: &Json) -> (r: String)
    ensures
        r@ == script_literal(v@),
{
    proof {
        crate::json::lemma_view_variant(*v);
    }
    match v {
        Json::Str(s) => {
            proof {
                reveal_strlit("\"");
                assert("\""@ =~= seq!['"']);
            }
            let mut out = String::from_str("\"");
            out.append(s.as_str());
            out.append("\"");
            assert(out@ =~= seq!['"'] + s@ + seq!['"']);
            out
        },
        Json::Num(n) => i64_to_string(*n),
        Json::Bool(b) => {
            if *b {
                String::from_str("1")
            } else {
                String::from_str("0")
            }
        },
        Json::Null => String::from_str("\"\""),
        other => crate::json::json_to_string(other),
    }
}

} // verus!
