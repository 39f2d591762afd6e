//! The external-command handler's pure half: the argument vector after
//! template substitution, the environment handed to the child, and
//! (elsewhere in this crate) the parsing of its output.  Spawning, piping
//! and waiting belong to the host.

use crate::config::ExternalCommandConfig;
use crate::context::{CtxInfo, CtxInfoV};
use crate::errors::{HookError, HookErrorV};
use crate::json::{json_text, json_to_string, Json, JsonV};
use crate::strutil::dec_digits_signed;
use crate::types::{ExecutionResult, ResultV};
use crate::strutil::{replaced, str_replace};
use crate::types::{hook_name, HookType};
use vstd::prelude::*;

verus! {

broadcast use vstd::std_specs::vec::group_vec_axioms, vstd::seq::group_seq_axioms;

/// One argument after `{hook_type}`, `{handler_name}`, `{request_id}` and
/// `{user}` substitution; the context placeholders apply only where the
/// snapshot carries values.
pub open spec fn arg_substituted(
    arg: Seq<char>,
    ht: Seq<char>,
    handler: Seq<char>,
    info: CtxInfoV,
) -> Seq<char> {
    let a1 = replaced(arg, "{hook_type}"@, ht);
    let a2 = replaced(a1, "{handler_name}"@, handler);
    let a3 = match info.request_id {
        Some(r) => replaced(a2, "{request_id}"@, r),
        None => a2,
    };
    match info.user {
        Some(u) => replaced(a3, "{user}"@, u),
        None => a3,
    }
}

/// The model of a string-pair list.
pub open spec fn pairs_view(v: Seq<(String, String)>) -> Seq<(Seq<char>, Seq<char>)> {
    Seq::new(v.len(), |i: int| (v[i].0@, v[i].1@))
}

/// The model of a string list.
pub open spec fn strings_view(v: Seq<String>) -> Seq<Seq<char>> {
    Seq::new(v.len(), |i: int| v[i]@)
}

/// The variables appended after the configured environment.  Applied in
/// order, a later pair overrides an earlier one of the same name, so these
/// win over the configured environment.
pub open spec fn hook_env_pairs(
    ht: Seq<char>,
    data: JsonV,
    handler: Seq<char>,
    info: CtxInfoV,
) -> Seq<(Seq<char>, Seq<char>)> {
    let base = seq![("HOOK_TYPE"@, ht), ("HOOK_DATA"@, json_text(data))];
    let with_req = match info.request_id {
        Some(r) => base + seq![("HOOK_REQUEST_ID"@, r)],
        None => base,
    };
    let with_user = match info.user {
        Some(u) => with_req + seq![("HOOK_USER"@, u)],
        None => with_req,
    };
    with_user + seq![("HOOK_HANDLER"@, handler)]
}

/// A handler that spawns a configured command per fire.  This type holds
/// the pure halves; the host spawns, pipes and waits.
#[derive(Debug)]
pub struct ExternalCommandHandler {
    /// The handler's name.
    pub name: String,
    /// The command, arguments, environment and timeout.
    pub config: ExternalCommandConfig,
}

impl ExternalCommandHandler {
    /// The handler's name.
    pub open spec fn spec_name(&self) -> Seq<char> {
        self.name@
    }

    /// An external-command handler.
    pub fn new(name: String, config: ExternalCommandConfig) -> (r: Self)
        ensures
            r.spec_name() == name@,
            r.config.command@ == config.command@,
            strings_view(r.config.args@) == strings_view(config.args@),
            pairs_view(r.config.env@) == pairs_view(config.env@),
            r.config.timeout_ms == config.timeout_ms,
    {
        ExternalCommandHandler { name, config }
    }

    /// The handler's name.
    pub fn name(&self) -> (r: &str)
        ensures
            r@ == self.spec_name(),
    {
        self.name.as_str()
    }

    /// Whether the handler should run: the shared-state key
    /// `handler.<name>.enabled` can switch it off.
    pub fn should_run(&self, ctx: &crate::context::HookContext) -> bool {
        let mut key = String::from_str("handler.");
        key.append(self.name.as_str());
        key.append(".enabled");
        match ctx.get_state(key.as_str()) {
            Some(Json::Bool(false)) => false,
            _ => true,
        }
    }

    /// The environment for one spawn: the configured pairs, then the hook
    /// variables (which win when applied in order).
    pub fn build_env(&self, info: &CtxInfo, hook_type: &HookType, data: &Json) -> (r: Vec<
        (String, String),
    >)
        ensures
            pairs_view(r@) == pairs_view(self.config.env@) + hook_env_pairs(
                hook_name(hook_type@),
                data@,
                self.spec_name(),
                info@,
            ),
    {
        let mut env: Vec<(String, String)> = Vec::new();
        let n = self.config.env.len();
        for i in 0..n
            invariant
                n == self.config.env@.len(),
                env@.len() == i,
                forall|k: int|
                    0 <= k < i ==> env@[k].0@ == self.config.env@[k].0@ && env@[k].1@
                        == self.config.env@[k].1@,
        {
            let pair = &self.config.env[i];
            env.push((pair.0.clone(), pair.1.clone()));
        }
        let ghost gbase = pairs_view(env@);
        proof {
            assert(gbase =~= pairs_view(self.config.env@));
        }
        env.push((String::from_str("HOOK_TYPE"), hook_type.to_string()));
        env.push((String::from_str("HOOK_DATA"), json_to_string(data)));
        match &info.request_id {
            Some(r) => {
                env.push((String::from_str("HOOK_REQUEST_ID"), r.clone()));
            },
            None => {},
        }
        match &info.user {
            Some(u) => {
                env.push((String::from_str("HOOK_USER"), u.clone()));
            },
            None => {},
        }
        env.push((String::from_str("HOOK_HANDLER"), self.name.clone()));
        proof {
            assert(pairs_view(env@) =~= pairs_view(self.config.env@) + hook_env_pairs(
                hook_name(hook_type@),
                data@,
                self.spec_name(),
                info@,
            ));
        }
        env
    }

    /// The argument vector for one spawn, after template substitution.
    pub fn build_args(&self, info: &CtxInfo, hook_type: &HookType) -> (r: Vec<String>)
        ensures
            r@.len() == self.config.args@.len(),
            forall|k: int|
                0 <= k < r@.len() ==> (#[trigger] r@[k]@) == arg_substituted(
                    self.config.args@[k]@,
                    hook_name(hook_type@),
                    self.spec_name(),
                    info@,
                ),
    {
        let ht = hook_type.to_string();
        let mut out: Vec<String> = Vec::new();
        let n = self.config.args.len();
        for i in 0..n
            invariant
                n == self.config.args@.len(),
                out@.len() == i,
                ht@ == hook_name(hook_type@),
                forall|k: int|
                    0 <= k < i ==> (#[trigger] out@[k]@) == arg_substituted(
                        self.config.args@[k]@,
                        hook_name(hook_type@),
                        self.spec_name(),
                        info@,
                    ),
        {
            let arg = &self.config.args[i];
            let a1 = str_replace(arg.as_str(), "{hook_type}", ht.as_str());
            let a2 = str_replace(a1.as_str(), "{handler_name}", self.name.as_str());
            let a3 = match &info.request_id {
                Some(r) => str_replace(a2.as_str(), "{request_id}", r.as_str()),
                None => a2,
            };
            let a4 = match &info.user {
                Some(u) => str_replace(a3.as_str(), "{user}", u.as_str()),
                None => a3,
            };
            out.push(a4);
        }
        out
    }
}


/// The verdict of one spawn: a non-zero exit becomes an `Error` carrying
/// the exit code and the stderr text; on a zero exit the stdout follows
/// the interpreter-reply rules.
pub open spec fn output_outcome(
    parsed: Option<JsonV>,
    stdout: Seq<char>,
    stderr: Seq<char>,
    exit_code: int,
    handler: Seq<char>,
) -> Result<ResultV, HookErrorV> {
    if exit_code != 0 {
        Ok(
            ResultV::Error {
                message: "Command exited with code "@ + dec_digits_signed(exit_code) + ": "@
                    + stderr,
                details: Some(
                    JsonV::Obj(
                        seq![
                            ("exit_code"@, JsonV::Num(exit_code)),
                            ("stderr"@, JsonV::Str(stderr)),
                        ],
                    ),
                ),
            },
        )
    } else {
        crate::script::reply_outcome(parsed, stdout, handler)
    }
}

impl ExternalCommandHandler {
    /// Interpret one spawn's output.  The host hands in the captured
    /// streams, the exit code and its attempt to read standard output as
    /// JSON; the mapping to a verdict is exact.
    pub fn parse_output(
        &self,
        stdout: &str,
        stderr: &str,
        exit_code: i64,
        parsed: Option<Json>,
    ) -> (r: Result<ExecutionResult, HookError>)
        ensures
            (match r {
                Ok(v) => Ok(v@),
                Err(e) => Err(e@),
            }) == output_outcome(
                match parsed {
                    Some(j) => Some(j@),
                    None => None,
                },
                stdout@,
                stderr@,
                exit_code as int,
                self.spec_name(),
            ),
    {
        if exit_code != 0 {
            let mut msg = String::from_str("Command exited with code ");
            msg.append(crate::strutil::i64_to_string(exit_code).as_str());
            msg.append(": ");
            msg.append(stderr);
            let mut details: Vec<(String, Json)> = Vec::new();
            details.push((String::from_str("exit_code"), Json::Num(exit_code)));
            details.push((String::from_str("stderr"), Json::Str(String::from_str(stderr))));
            let ghost gd = details@;
            let dobj = crate::json::make_obj(details);
            proof {
                assert(crate::json::fields_view(gd) =~= seq![
                    ("exit_code"@, JsonV::Num(exit_code as int)),
                    ("stderr"@, JsonV::Str(stderr@)),
                ]);
            }
            return Ok(ExecutionResult::Error { message: msg, details: Some(dobj) });
        }
        crate::script::interpret_reply(parsed, stdout, self.name.as_str())
    }
}

} // verus!
