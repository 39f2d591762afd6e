//! The persisted form of the registry: a system section and one entry per
//! handler.  The host parses and writes the file; this module holds the
//! document itself, its validation rules, and the lookups the dispatcher
//! needs.

use crate::json::{fields_view, Json, JsonV};
use crate::strutil::str_eq;
use crate::types::HookType;
use vstd::prelude::*;

verus! {

broadcast use vstd::std_specs::vec::group_vec_axioms;

/// System-wide dispatcher configuration.
#[derive(Debug, Clone)]
pub struct SystemConfig {
    /// Whether hooks are enabled at all.
    pub enabled: bool,
    /// Per-handler timeout in milliseconds.
    pub handler_timeout_ms: u64,
    /// How many hooks may run at once (advisory).
    pub max_concurrent_hooks: usize,
    /// Whether independent fires may run in parallel.
    pub enable_parallel_execution: bool,
    /// Whether handler instances are pooled.
    pub enable_handler_pooling: bool,
    /// Reserved: the engine does not cache results.
    pub enable_result_caching: bool,
    /// Security configuration.
    pub security: SecurityConfig,
}

impl Default for SystemConfig {
    /// Enabled, five-second timeout, ten concurrent hooks, all features
    /// on, default security.
    fn default() -> (r: Self)
        ensures
            r.enabled,
            r.handler_timeout_ms == 5000,
            r.max_concurrent_hooks == 10,
            r.enable_parallel_execution,
            r.enable_handler_pooling,
            r.enable_result_caching,
    {
        SystemConfig {
            enabled: true,
            handler_timeout_ms: 5000,
            max_concurrent_hooks: 10,
            enable_parallel_execution: true,
            enable_handler_pooling: true,
            enable_result_caching: true,
            security: SecurityConfig::default(),
        }
    }
}

/// Security-related configuration.
#[derive(Debug, Clone)]
pub struct SecurityConfig {
    /// Whether handlers must be signed.
    pub require_signed_handlers: bool,
    /// Whether handlers run sandboxed.
    pub sandbox_handlers: bool,
    /// The namespaces handlers may live in.
    pub allowed_namespaces: Vec<String>,
}

impl Default for SecurityConfig {
    /// Unsigned handlers allowed, sandboxing on, the `system`, `user` and
    /// `custom` namespaces allowed.
    fn default() -> (r: Self)
        ensures
            !r.require_signed_handlers,
            r.sandbox_handlers,
            r.allowed_namespaces@.len() == 3,
    {
        let mut namespaces: Vec<String> = Vec::new();
        namespaces.push(String::from_str("system"));
        namespaces.push(String::from_str("user"));
        namespaces.push(String::from_str("custom"));
        SecurityConfig {
            require_signed_handlers: false,
            sandbox_handlers: true,
            allowed_namespaces: namespaces,
        }
    }
}

/// Which implementation a configured handler uses.
#[derive(Debug, Clone, PartialEq, Eq, Structural)]
pub enum HandlerType {
    TclScript,
    ExternalCommand,
    BuiltIn,
}

/// Configuration of a script handler: the script body and the variables
/// injected into its prelude.
#[derive(Debug)]
pub struct TclScriptConfig {
    /// The user-supplied script body.
    pub script: String,
    /// Extra variables set before the body runs.
    pub variables: Vec<(String, Json)>,
}

/// Configuration of an external-command handler.
#[derive(Debug)]
pub struct ExternalCommandConfig {
    /// The command to spawn.
    pub command: String,
    /// Its arguments, before template substitution.
    pub args: Vec<String>,
    /// Extra environment variables.
    pub env: Vec<(String, String)>,
    /// How long to wait for the command, in milliseconds.
    pub timeout_ms: u64,
}

impl ExternalCommandConfig {
    /// The default command timeout, in milliseconds.
    pub fn default_timeout_ms() -> (r: u64)
        ensures
            r == 2000,
    {
        2000
    }
}

/// Configuration of a built-in handler: which built-in, and its free-form
/// settings.
#[derive(Debug)]
pub struct BuiltInConfig {
    /// The built-in's name: `logging`, `metrics`, `validation`,
    /// `transform` or `notification`.
    pub handler_name: String,
    /// The handler-specific settings.
    pub config: Vec<(String, Json)>,
}

impl BuiltInConfig {
    /// The model of the settings map.
    pub open spec fn map(&self) -> Seq<(Seq<char>, JsonV)> {
        fields_view(self.config@)
    }
}

/// The three shapes a handler's configuration can take.
#[derive(Debug)]
pub enum HandlerTypeConfig {
    TclScript(TclScriptConfig),
    ExternalCommand(ExternalCommandConfig),
    BuiltIn(BuiltInConfig),
}

/// One configured handler.
#[derive(Debug)]
pub struct HandlerConfig {
    /// The handler's unique name.
    pub name: String,
    /// Which implementation it uses.
    pub handler_type: HandlerType,
    /// The hook types it responds to.
    pub hook_types: Vec<HookType>,
    /// Its priority; smaller runs earlier.
    pub priority: u16,
    /// Whether it is enabled.
    pub enabled: bool,
    /// Wall-clock milliseconds when it was created.
    pub created_at_ms: u64,
    /// Wall-clock milliseconds when it was last updated.
    pub updated_at_ms: u64,
    /// The handler-specific configuration.
    pub config: HandlerTypeConfig,
}

impl HandlerConfig {
    /// The default priority of a configured handler.
    pub fn default_priority() -> (r: u16)
        ensures
            r == 500,
    {
        500
    }

    /// A handler entry is valid when its name is non-empty and it names at
    /// least one hook type.
    pub open spec fn valid(&self) -> bool {
        self.name@.len() > 0 && self.hook_types@.len() > 0
    }

    /// The message this entry's check fails with, where it is invalid.
    pub open spec fn invalid_text(&self) -> Seq<char> {
        if self.name@.len() == 0 {
            "Handler name cannot be empty"@
        } else {
            "Handler '"@ + self.name@ + "' has no hook types"@
        }
    }

    /// Check this entry; `Err` carries the first failure, exactly when the
    /// entry is invalid.
    pub fn validate(&self) -> (r: Result<(), String>)
        ensures
            r is Ok <==> self.valid(),
            r matches Err(e) ==> e@ == self.invalid_text(),
    {
        if self.name.as_str().unicode_len() == 0 {
            return Err(String::from_str("Handler name cannot be empty"));
        }
        if self.hook_types.len() == 0 {
            let mut msg = String::from_str("Handler '");
            msg.append(self.name.as_str());
            msg.append("' has no hook types");
            return Err(msg);
        }
        Ok(())
    }
}

/// Whether a hook-type list's model names the given hook.
pub open spec fn hooks_have(hs: Seq<HookType>, ht: (int, Seq<char>)) -> bool {
    exists|k: int| 0 <= k < hs.len() && (#[trigger] hs[k]@) == ht
}

/// The enabled entries subscribed to `ht`, in document order.
pub open spec fn enabled_for(handlers: Seq<HandlerConfig>, ht: (int, Seq<char>)) -> Seq<
    HandlerConfig,
>
    decreases handlers.len(),
{
    if handlers.len() == 0 {
        Seq::empty()
    } else {
        let head: Seq<HandlerConfig> = if handlers[0].enabled && hooks_have(
            handlers[0].hook_types@,
            ht,
        ) {
            seq![handlers[0]]
        } else {
            Seq::empty()
        };
        head + enabled_for(handlers.skip(1), ht)
    }
}

/// The entries a borrowed result stands for.
pub open spec fn deref_view(v: Seq<&HandlerConfig>) -> Seq<HandlerConfig> {
    Seq::new(v.len(), |i: int| *v[i])
}

/// The names of a handler list.
pub open spec fn config_names(handlers: Seq<HandlerConfig>) -> Seq<Seq<char>> {
    Seq::new(handlers.len(), |i: int| handlers[i].name@)
}

/// Whether every name in the list is distinct.
pub open spec fn names_unique(names: Seq<Seq<char>>) -> bool {
    forall|i: int, j: int| 0 <= i < j < names.len() ==> names[i] != names[j]
}

/// The whole configuration document.
#[derive(Debug)]
pub struct HooksConfig {
    /// The system-wide section.
    pub system: SystemConfig,
    /// One entry per handler.
    pub handlers: Vec<HandlerConfig>,
}

impl HooksConfig {
    /// Whether the document is valid: unique names, and every entry valid.
    pub open spec fn valid(&self) -> bool {
        names_unique(config_names(self.handlers@)) && forall|i: int|
            0 <= i < self.handlers@.len() ==> (#[trigger] self.handlers@[i]).valid()
    }

    /// An empty document with default system settings.
    pub fn new() -> (r: Self)
        ensures
            r.handlers@.len() == 0,
            r.system.enabled,
            r.valid(),
    {
        HooksConfig { system: SystemConfig::default(), handlers: Vec::new() }
    }

    /// Check the document; `Err` carries the first failure, exactly when
    /// the document is invalid.  The message names the offender: a
    /// duplicated handler name, or an invalid entry's own failure.
    pub fn validate(&self) -> (r: Result<(), String>)
        ensures
            r is Ok <==> self.valid(),
            r matches Err(e) ==> (exists|p: int, q: int|
                0 <= p < q < self.handlers@.len() && (#[trigger] self.handlers@[p].name@) == (
                #[trigger] self.handlers@[q].name@) && e@ == "Duplicate handler name: "@
                    + self.handlers@[q].name@) || (exists|i: int|
                0 <= i < self.handlers@.len() && !(#[trigger] self.handlers@[i]).valid() && e@
                    == self.handlers@[i].invalid_text()),
    {
        let n = self.handlers.len();
        for i in 0..n
            invariant
                n == self.handlers@.len(),
                forall|p: int, q: int|
                    0 <= p < q < i ==> config_names(self.handlers@)[p] != config_names(
                        self.handlers@,
                    )[q],
        {
            for j in 0..i
                invariant
                    i < n,
                    n == self.handlers@.len(),
                    forall|q: int|
                        0 <= q < j ==> config_names(self.handlers@)[q] != config_names(
                            self.handlers@,
                        )[i as int],
            {
                if str_eq(self.handlers[j].name.as_str(), self.handlers[i].name.as_str()) {
                    assert(config_names(self.handlers@)[j as int] == config_names(
                        self.handlers@,
                    )[i as int]);
                    assert(!names_unique(config_names(self.handlers@)));
                    assert(self.handlers@[j as int].name@ == self.handlers@[i as int].name@);
                    let mut msg = String::from_str("Duplicate handler name: ");
                    msg.append(self.handlers[i].name.as_str());
                    return Err(msg);
                }
            }
        }
        let m = self.handlers.len();
        for i in 0..m
            invariant
                m == self.handlers@.len(),
                names_unique(config_names(self.handlers@)),
                forall|p: int| 0 <= p < i ==> (#[trigger] self.handlers@[p]).valid(),
        {
            match self.handlers[i].validate() {
                Ok(_) => {},
                Err(e) => {
                    assert(!self.handlers@[i as int].valid());
                    return Err(e);
                },
            }
        }
        Ok(())
    }

    /// Exactly the enabled handlers that respond to `hook_type`, in
    /// document order.
    pub fn handlers_for_hook(&self, hook_type: &HookType) -> (r: Vec<&HandlerConfig>)
        ensures
            deref_view(r@) == enabled_for(self.handlers@, hook_type@),
    {
        let ghost whole = self.handlers@;
        let mut out: Vec<&HandlerConfig> = Vec::new();
        proof {
            assert(whole.skip(0) =~= whole);
        }
        let n = self.handlers.len();
        for i in 0..n
            invariant
                n == self.handlers@.len(),
                whole == self.handlers@,
                enabled_for(whole, hook_type@) == deref_view(out@) + enabled_for(
                    whole.skip(i as int),
                    hook_type@,
                ),
        {
            assert(whole.skip(i as int)[0] == whole[i as int]);
            assert(whole.skip(i as int).skip(1) =~= whole.skip(i as int + 1));
            let ghost gout = deref_view(out@);
            let entry = &self.handlers[i];
            if entry.enabled && contains_hook(&entry.hook_types, hook_type) {
                out.push(entry);
                assert(deref_view(out@) =~= gout + seq![whole[i as int]]);
                assert(gout + (seq![whole[i as int]] + enabled_for(
                    whole.skip(i as int + 1),
                    hook_type@,
                )) =~= deref_view(out@) + enabled_for(whole.skip(i as int + 1), hook_type@));
            } else {
                assert(gout + (Seq::<HandlerConfig>::empty() + enabled_for(
                    whole.skip(i as int + 1),
                    hook_type@,
                )) =~= deref_view(out@) + enabled_for(whole.skip(i as int + 1), hook_type@));
            }
        }
        proof {
            assert(enabled_for(whole.skip(n as int), hook_type@) =~= Seq::<HandlerConfig>::empty());
            assert(deref_view(out@) + enabled_for(whole.skip(n as int), hook_type@) =~= deref_view(
                out@,
            ));
        }
        out
    }
}

/// Whether a hook-type list names the given hook type.
pub fn contains_hook(list: &Vec<HookType>, hook_type: &HookType) -> (r: bool)
    ensures
        r == exists|i: int| 0 <= i < list@.len() && (#[trigger] list@[i]@) == hook_type@,
{
    let n = list.len();
    for i in 0..n
        invariant
            n == list@.len(),
            forall|k: int| 0 <= k < i ==> (#[trigger] list@[k]@) != hook_type@,
    {
        if crate::types::hook_type_eq(&list[i], hook_type) {
            return true;
        }
    }
    false
}

} // verus!
