//! The dispatch vocabulary: hook types, priorities, payloads, execution
//! results and per-handler statistics.

use crate::json::{obj_set, fields_view, Json, JsonV};
use crate::strutil::{push_char, str_eq};
use vstd::prelude::*;

verus! {

broadcast use vstd::std_specs::vec::group_vec_axioms;

/// A lifecycle point that handlers can register against.  `Custom` carries
/// an open-ended name; identity is structural.
#[derive(Debug)]
pub enum HookType {
    ServerStartup,
    ServerShutdown,
    ServerInitialized,
    RequestReceived,
    RequestProcessed,
    ResponseSent,
    ToolPreExecution,
    ToolPostExecution,
    ToolRegistered,
    ToolRemoved,
    TclPreExecution,
    TclPostExecution,
    TclError,
    McpServerConnected,
    McpServerDisconnected,
    McpServerError,
    SecurityCheck,
    AccessDenied,
    Custom(String),
}

/// The model of a hook type: a tag for the built-in variants and the name
/// carried by a `Custom` hook (empty elsewhere).
pub open spec fn hook_tag(t: HookType) -> (int, Seq<char>) {
    match t {
        HookType::ServerStartup => (0, Seq::empty()),
        HookType::ServerShutdown => (1, Seq::empty()),
        HookType::ServerInitialized => (2, Seq::empty()),
        HookType::RequestReceived => (3, Seq::empty()),
        HookType::RequestProcessed => (4, Seq::empty()),
        HookType::ResponseSent => (5, Seq::empty()),
        HookType::ToolPreExecution => (6, Seq::empty()),
        HookType::ToolPostExecution => (7, Seq::empty()),
        HookType::ToolRegistered => (8, Seq::empty()),
        HookType::ToolRemoved => (9, Seq::empty()),
        HookType::TclPreExecution => (10, Seq::empty()),
        HookType::TclPostExecution => (11, Seq::empty()),
        HookType::TclError => (12, Seq::empty()),
        HookType::McpServerConnected => (13, Seq::empty()),
        HookType::McpServerDisconnected => (14, Seq::empty()),
        HookType::McpServerError => (15, Seq::empty()),
        HookType::SecurityCheck => (16, Seq::empty()),
        HookType::AccessDenied => (17, Seq::empty()),
        HookType::Custom(name) => (18, name@),
    }
}

impl View for HookType {
    type V = (int, Seq<char>);

    open spec fn view(&self) -> (int, Seq<char>) {
        hook_tag(*self)
    }
}

/// The wire name of a hook type, in lower snake case; a custom hook is
/// written `custom:<name>`.
pub open spec fn hook_name(v: (int, Seq<char>)) -> Seq<char> {
    if v.0 == 0 {
        "server_startup"@
    } else if v.0 == 1 {
        "server_shutdown"@
    } else if v.0 == 2 {
        "server_initialized"@
    } else if v.0 == 3 {
        "request_received"@
    } else if v.0 == 4 {
        "request_processed"@
    } else if v.0 == 5 {
        "response_sent"@
    } else if v.0 == 6 {
        "tool_pre_execution"@
    } else if v.0 == 7 {
        "tool_post_execution"@
    } else if v.0 == 8 {
        "tool_registered"@
    } else if v.0 == 9 {
        "tool_removed"@
    } else if v.0 == 10 {
        "tcl_pre_execution"@
    } else if v.0 == 11 {
        "tcl_post_execution"@
    } else if v.0 == 12 {
        "tcl_error"@
    } else if v.0 == 13 {
        "mcp_server_connected"@
    } else if v.0 == 14 {
        "mcp_server_disconnected"@
    } else if v.0 == 15 {
        "mcp_server_error"@
    } else if v.0 == 16 {
        "security_check"@
    } else if v.0 == 17 {
        "access_denied"@
    } else {
        "custom:"@ + v.1
    }
}

impl HookType {
    /// Whether a model value is one this type can take: a built-in tag with
    /// no name, or the custom tag.
    pub open spec fn wf_tag(v: (int, Seq<char>)) -> bool {
        (0 <= v.0 < 18 && v.1 == Seq::<char>::empty()) || v.0 == 18
    }
}

impl Clone for HookType {
    /// A copy that denotes the same hook type.
    fn clone(&self) -> (res: HookType)
        ensures
            res@ == self@,
    {
        match self {
            HookType::ServerStartup => HookType::ServerStartup,
            HookType::ServerShutdown => HookType::ServerShutdown,
            HookType::ServerInitialized => HookType::ServerInitialized,
            HookType::RequestReceived => HookType::RequestReceived,
            HookType::RequestProcessed => HookType::RequestProcessed,
            HookType::ResponseSent => HookType::ResponseSent,
            HookType::ToolPreExecution => HookType::ToolPreExecution,
            HookType::ToolPostExecution => HookType::ToolPostExecution,
            HookType::ToolRegistered => HookType::ToolRegistered,
            HookType::ToolRemoved => HookType::ToolRemoved,
            HookType::TclPreExecution => HookType::TclPreExecution,
            HookType::TclPostExecution => HookType::TclPostExecution,
            HookType::TclError => HookType::TclError,
            HookType::McpServerConnected => HookType::McpServerConnected,
            HookType::McpServerDisconnected => HookType::McpServerDisconnected,
            HookType::McpServerError => HookType::McpServerError,
            HookType::SecurityCheck => HookType::SecurityCheck,
            HookType::AccessDenied => HookType::AccessDenied,
            HookType::Custom(name) => HookType::Custom(name.clone()),
        }
    }
}

impl PartialEq for HookType {
    fn eq(&self, other: &HookType) -> bool {
        hook_type_eq(self, other)
    }
}

impl vstd::std_specs::cmp::PartialEqSpecImpl for HookType {
    open spec fn obeys_eq_spec() -> bool {
        true
    }

    open spec fn eq_spec(&self, other: &HookType) -> bool {
        self@ == other@
    }
}

/// Whether two hook types are the same lifecycle point.
pub fn hook_type_eq(a: &HookType, b: &HookType) -> (r: bool)
    ensures
        r == (a@ == b@),
{
    match (a, b) {
        (HookType::ServerStartup, HookType::ServerStartup) => true,
        (HookType::ServerShutdown, HookType::ServerShutdown) => true,
        (HookType::ServerInitialized, HookType::ServerInitialized) => true,
        (HookType::RequestReceived, HookType::RequestReceived) => true,
        (HookType::RequestProcessed, HookType::RequestProcessed) => true,
        (HookType::ResponseSent, HookType::ResponseSent) => true,
        (HookType::ToolPreExecution, HookType::ToolPreExecution) => true,
        (HookType::ToolPostExecution, HookType::ToolPostExecution) => true,
        (HookType::ToolRegistered, HookType::ToolRegistered) => true,
        (HookType::ToolRemoved, HookType::ToolRemoved) => true,
        (HookType::TclPreExecution, HookType::TclPreExecution) => true,
        (HookType::TclPostExecution, HookType::TclPostExecution) => true,
        (HookType::TclError, HookType::TclError) => true,
        (HookType::McpServerConnected, HookType::McpServerConnected) => true,
        (HookType::McpServerDisconnected, HookType::McpServerDisconnected) => true,
        (HookType::McpServerError, HookType::McpServerError) => true,
        (HookType::SecurityCheck, HookType::SecurityCheck) => true,
        (HookType::AccessDenied, HookType::AccessDenied) => true,
        (HookType::Custom(x), HookType::Custom(y)) => str_eq(x.as_str(), y.as_str()),
        _ => false,
    }
}

/// Smaller values run earlier; ties keep registration order.
#[derive(Debug, Clone, Copy)]
pub struct HookPriority(pub u16);

impl HookPriority {
    /// Wrap a raw priority value.
    pub fn from_u16(value: u16) -> (r: Self)
        ensures
            r.0 == value,
    {
        HookPriority(value)
    }

    /// The raw priority value.
    pub fn to_u16(&self) -> (r: u16)
        ensures
            r == self.0,
    {
        self.0
    }

    /// The earliest priority.
    pub fn highest() -> (r: Self)
        ensures
            r.0 == 0,
    {
        HookPriority(0)
    }

    /// An early priority.
    pub fn high() -> (r: Self)
        ensures
            r.0 == 100,
    {
        HookPriority(100)
    }

    /// The default priority.
    pub fn normal() -> (r: Self)
        ensures
            r.0 == 500,
    {
        HookPriority(500)
    }

    /// A late priority.
    pub fn low() -> (r: Self)
        ensures
            r.0 == 900,
    {
        HookPriority(900)
    }

    /// The latest named priority.
    pub fn lowest() -> (r: Self)
        ensures
            r.0 == 1000,
    {
        HookPriority(1000)
    }
}

impl PartialEq for HookPriority {
    fn eq(&self, other: &HookPriority) -> bool {
        self.0 == other.0
    }
}

impl vstd::std_specs::cmp::PartialEqSpecImpl for HookPriority {
    open spec fn obeys_eq_spec() -> bool {
        true
    }

    open spec fn eq_spec(&self, other: &HookPriority) -> bool {
        self.0 == other.0
    }
}

impl PartialOrd for HookPriority {
    fn partial_cmp(&self, other: &HookPriority) -> Option<core::cmp::Ordering> {
        if self.0 < other.0 {
            Some(core::cmp::Ordering::Less)
        } else if self.0 == other.0 {
            Some(core::cmp::Ordering::Equal)
        } else {
            Some(core::cmp::Ordering::Greater)
        }
    }
}

impl vstd::std_specs::cmp::PartialOrdSpecImpl for HookPriority {
    open spec fn obeys_partial_cmp_spec() -> bool {
        true
    }

    open spec fn partial_cmp_spec(&self, other: &HookPriority) -> Option<core::cmp::Ordering> {
        if self.0 < other.0 {
            Some(core::cmp::Ordering::Less)
        } else if self.0 == other.0 {
            Some(core::cmp::Ordering::Equal)
        } else {
            Some(core::cmp::Ordering::Greater)
        }
    }
}

impl Default for HookPriority {
    /// The default priority is `normal`.
    fn default() -> (r: Self)
        ensures
            r.0 == 500,
    {
        HookPriority(500)
    }
}

/// Relies on `std::time::SystemTime::now` and
/// `duration_since(UNIX_EPOCH)`: the wall clock as milliseconds.  Nothing
/// is promised of the value; callers that need ordering pass times in.
#[verifier::external_body]
pub fn now_millis() -> u64 {
    std::time::SystemTime::now().duration_since(std::time::SystemTime::UNIX_EPOCH).map(
        |d| d.as_millis() as u64,
    ).unwrap_or(0)
}

/// Relies on `uuid::Uuid::new_v4`: a fresh random identifier, rendered in
/// the 36-character hyphenated form.
#[verifier::external_body]
pub fn new_execution_id() -> (r: String)
    ensures
        r@.len() == 36,
{
    uuid::Uuid::new_v4().to_string()
}

/// The immutable record handed to each handler of one fire.
#[derive(Debug)]
pub struct HookPayload {
    /// The hook type being fired.
    pub hook_type: HookType,
    /// Wall-clock milliseconds when the payload was built.
    pub timestamp_ms: u64,
    /// An identifier for this hook execution.
    pub execution_id: String,
    /// The data under dispatch.
    pub data: Json,
    /// Optional metadata fields.
    pub metadata: Vec<(String, Json)>,
}

impl HookPayload {
    /// A payload stamped with the given clock reading and identifier.
    pub fn new_at(hook_type: HookType, data: Json, timestamp_ms: u64, execution_id: String) -> (r:
        HookPayload)
        ensures
            r.hook_type@ == hook_type@,
            r.data@ == data@,
            r.timestamp_ms == timestamp_ms,
            r.execution_id@ == execution_id@,
            r.metadata@.len() == 0,
    {
        HookPayload { hook_type, timestamp_ms, execution_id, data, metadata: Vec::new() }
    }

    /// A payload stamped with the current clock and a fresh identifier.
    pub fn new(hook_type: HookType, data: Json) -> (r: HookPayload)
        ensures
            r.hook_type@ == hook_type@,
            r.data@ == data@,
            r.metadata@.len() == 0,
            r.execution_id@.len() == 36,
    {
        let ts = now_millis();
        let id = new_execution_id();
        HookPayload::new_at(hook_type, data, ts, id)
    }

    /// The payload with one metadata field set.
    pub fn with_metadata(self, key: String, value: Json) -> (r: HookPayload)
        ensures
            r.hook_type@ == self.hook_type@,
            r.data@ == self.data@,
            r.timestamp_ms == self.timestamp_ms,
            r.execution_id@ == self.execution_id@,
            fields_view(r.metadata@) == obj_set(fields_view(self.metadata@), key@, value@),
    {
        let metadata = crate::json::fields_set(self.metadata, key, value);
        HookPayload {
            hook_type: self.hook_type,
            timestamp_ms: self.timestamp_ms,
            execution_id: self.execution_id,
            data: self.data,
            metadata,
        }
    }
}

impl Clone for HookPayload {
    /// A copy that denotes the same payload.
    fn clone(&self) -> (res: HookPayload)
        ensures
            res.hook_type@ == self.hook_type@,
            res.data@ == self.data@,
            res.timestamp_ms == self.timestamp_ms,
            res.execution_id@ == self.execution_id@,
            fields_view(res.metadata@) == fields_view(self.metadata@),
    {
        HookPayload {
            hook_type: self.hook_type.clone(),
            timestamp_ms: self.timestamp_ms,
            execution_id: self.execution_id.clone(),
            data: self.data.clone(),
            metadata: clone_meta(&self.metadata),
        }
    }
}

/// Deep-copy a metadata vector.
fn clone_meta(v: &Vec<(String, Json)>) -> (r: Vec<(String, Json)>)
    ensures
        fields_view(r@) == fields_view(v@),
{
    let mut out: Vec<(String, Json)> = Vec::new();
    let n = v.len();
    for i in 0..n
        invariant
            n == v@.len(),
            out@.len() == i,
            forall|k: int| 0 <= k < i ==> out@[k].0@ == v@[k].0@ && out@[k].1@ == v@[k].1@,
    {
        let pair = &v[i];
        out.push((pair.0.clone(), pair.1.clone()));
    }
    assert(fields_view(out@) =~= fields_view(v@));
    out
}

/// The model of an execution result.
pub ghost enum ResultV {
    Continue,
    Stop(Option<JsonV>),
    Replace(JsonV),
    Retry { delay_ms: Option<int>, max_attempts: Option<int> },
    Error { message: Seq<char>, details: Option<JsonV> },
}

/// The flow-control verdict a handler returns from one invocation.
#[derive(Debug)]
pub enum ExecutionResult {
    /// Proceed to the next handler with the data unchanged.
    Continue,
    /// End the dispatch; the final data is the given value, or the current
    /// data where none is given.
    Stop(Option<Json>),
    /// Substitute the data and proceed to the next handler.
    Replace(Json),
    /// Reserved; the dispatcher treats it as `Continue`.
    Retry { delay_ms: Option<u64>, max_attempts: Option<u32> },
    /// Abort the fire with a handler-execution failure.
    Error { message: String, details: Option<Json> },
}

/// What an execution result denotes.
pub open spec fn result_view(r: ExecutionResult) -> ResultV {
    match r {
        ExecutionResult::Continue => ResultV::Continue,
        ExecutionResult::Stop(d) => ResultV::Stop(
            match d {
                Some(j) => Some(j@),
                None => None,
            },
        ),
        ExecutionResult::Replace(j) => ResultV::Replace(j@),
        ExecutionResult::Retry { delay_ms, max_attempts } => ResultV::Retry {
            delay_ms: match delay_ms {
                Some(d) => Some(d as int),
                None => None,
            },
            max_attempts: match max_attempts {
                Some(m) => Some(m as int),
                None => None,
            },
        },
        ExecutionResult::Error { message, details } => ResultV::Error {
            message: message@,
            details: match details {
                Some(j) => Some(j@),
                None => None,
            },
        },
    }
}

impl View for ExecutionResult {
    type V = ResultV;

    open spec fn view(&self) -> ResultV {
        result_view(*self)
    }
}

impl ExecutionResult {
    /// A `Continue` result.
    pub fn continue_execution() -> (r: Self)
        ensures
            r@ == ResultV::Continue,
    {
        ExecutionResult::Continue
    }

    /// A `Stop` result that keeps the current data.
    pub fn stop_execution() -> (r: Self)
        ensures
            r@ == ResultV::Stop(None),
    {
        ExecutionResult::Stop(None)
    }

    /// A `Stop` result carrying final data.
    pub fn stop_with_data(data: Json) -> (r: Self)
        ensures
            r@ == ResultV::Stop(Some(data@)),
    {
        ExecutionResult::Stop(Some(data))
    }

    /// A `Replace` result.
    pub fn replace_data(data: Json) -> (r: Self)
        ensures
            r@ == ResultV::Replace(data@),
    {
        ExecutionResult::Replace(data)
    }

    /// An `Error` result without details.
    pub fn error(message: String) -> (r: Self)
        ensures
            r@ == (ResultV::Error { message: message@, details: None }),
    {
        ExecutionResult::Error { message, details: None }
    }

    /// An `Error` result with details.
    pub fn error_with_details(message: String, details: Json) -> (r: Self)
        ensures
            r@ == (ResultV::Error { message: message@, details: Some(details@) }),
    {
        ExecutionResult::Error { message, details: Some(details) }
    }
}

impl Clone for ExecutionResult {
    /// A copy that denotes the same verdict.
    fn clone(&self) -> (res: ExecutionResult)
        ensures
            res@ == self@,
    {
        match self {
            ExecutionResult::Continue => ExecutionResult::Continue,
            ExecutionResult::Stop(d) => ExecutionResult::Stop(
                match d {
                    Some(j) => Some(j.clone()),
                    None => None,
                },
            ),
            ExecutionResult::Replace(j) => ExecutionResult::Replace(j.clone()),
            ExecutionResult::Retry { delay_ms, max_attempts } => ExecutionResult::Retry {
                delay_ms: *delay_ms,
                max_attempts: *max_attempts,
            },
            ExecutionResult::Error { message, details } => ExecutionResult::Error {
                message: message.clone(),
                details: match details {
                    Some(j) => Some(j.clone()),
                    None => None,
                },
            },
        }
    }
}

/// A sliding-window rate limit: at most `max_calls` admissions in any
/// window of `window_ms` milliseconds.
#[derive(Debug, Clone)]
pub struct RateLimit {
    /// How many calls the window admits.
    pub max_calls: u32,
    /// The window length in milliseconds.
    pub window_ms: u64,
}

/// Per-handler execution configuration.
#[derive(Debug, Clone)]
pub struct HookConfig {
    /// Longest allowed execution, in milliseconds.
    pub timeout_ms: Option<u64>,
    /// Whether to run this hook asynchronously.
    pub async_execution: bool,
    /// Rate limiting, where configured.
    pub rate_limit: Option<RateLimit>,
    /// An optional conditional-execution expression.
    pub condition: Option<String>,
}

impl Default for HookConfig {
    /// Five-second timeout, synchronous, no rate limit, no condition.
    fn default() -> (r: Self)
        ensures
            r.timeout_ms == Some(5000u64),
            !r.async_execution,
            r.rate_limit is None,
            r.condition is None,
    {
        HookConfig { timeout_ms: Some(5000), async_execution: false, rate_limit: None, condition: None }
    }
}

/// The cumulative mean after folding one more duration in: the running
/// total reconstructed from the old mean, plus the new duration, divided
/// by the new count (integer division, as the engine computes it).
pub open spec fn next_mean(avg: Option<u64>, new_total: int, duration: int) -> int {
    match avg {
        Some(a) => (a * (new_total - 1) + duration) / new_total,
        None => duration,
    }
}

/// The maximum after folding one more duration in.
pub open spec fn next_max(m: Option<u64>, duration: int) -> int {
    let old = match m {
        Some(x) => x as int,
        None => 0,
    };
    if duration > old {
        duration
    } else {
        old
    }
}

/// Rolling execution counters for one handler.
#[derive(Debug)]
pub struct HookStats {
    /// Executions counted, successful and failed together.
    pub total_executions: u64,
    /// Executions that completed and returned a result.
    pub successful_executions: u64,
    /// Executions that failed or timed out.
    pub failed_executions: u64,
    /// Cumulative mean duration in nanoseconds, present once anything ran.
    pub average_duration_ns: Option<u64>,
    /// Largest duration in nanoseconds, present once anything ran.
    pub max_duration_ns: Option<u64>,
    /// Wall-clock milliseconds of the latest execution.
    pub last_execution_ms: Option<u64>,
}

impl HookStats {
    /// The statistics invariant: totals agree, the mean never exceeds the
    /// maximum, and the duration fields appear exactly once something ran.
    pub open spec fn wf(self) -> bool {
        &&& self.total_executions == self.successful_executions + self.failed_executions
        &&& (self.total_executions > 0 <==> self.last_execution_ms is Some)
        &&& (self.total_executions > 0 <==> self.average_duration_ns is Some)
        &&& (self.total_executions > 0 <==> self.max_duration_ns is Some)
        &&& (self.total_executions > 0 ==> self.average_duration_ns->0 <= self.max_duration_ns->0)
    }

    /// Record one successful execution.
    pub fn record_success(&mut self, duration_ns: u64, now_ms: u64)
        requires
            old(self).wf(),
            old(self).total_executions < u64::MAX,
        ensures
            final(self).wf(),
            final(self).total_executions == old(self).total_executions + 1,
            final(self).successful_executions == old(self).successful_executions + 1,
            final(self).failed_executions == old(self).failed_executions,
            final(self).last_execution_ms == Some(now_ms),
            final(self).average_duration_ns matches Some(a) && a as int == next_mean(
                old(self).average_duration_ns,
                old(self).total_executions + 1,
                duration_ns as int,
            ),
            final(self).max_duration_ns matches Some(m) && m as int == next_max(
                old(self).max_duration_ns,
                duration_ns as int,
            ),
    {
        self.total_executions = self.total_executions + 1;
        self.successful_executions = self.successful_executions + 1;
        self.last_execution_ms = Some(now_ms);
        self.update_duration_stats(duration_ns);
    }

    /// Record one failed execution.
    pub fn record_failure(&mut self, duration_ns: u64, now_ms: u64)
        requires
            old(self).wf(),
            old(self).total_executions < u64::MAX,
        ensures
            final(self).wf(),
            final(self).total_executions == old(self).total_executions + 1,
            final(self).successful_executions == old(self).successful_executions,
            final(self).failed_executions == old(self).failed_executions + 1,
            final(self).last_execution_ms == Some(now_ms),
            final(self).average_duration_ns matches Some(a) && a as int == next_mean(
                old(self).average_duration_ns,
                old(self).total_executions + 1,
                duration_ns as int,
            ),
            final(self).max_duration_ns matches Some(m) && m as int == next_max(
                old(self).max_duration_ns,
                duration_ns as int,
            ),
    {
        self.total_executions = self.total_executions + 1;
        self.failed_executions = self.failed_executions + 1;
        self.last_execution_ms = Some(now_ms);
        self.update_duration_stats(duration_ns);
    }

    /// Fold one duration into the cumulative mean and the maximum.
    fn update_duration_stats(&mut self, duration_ns: u64)
        requires
            old(self).total_executions > 0,
            old(self).total_executions == old(self).successful_executions + old(
                self,
            ).failed_executions,
            old(self).average_duration_ns is Some ==> old(self).max_duration_ns is Some,
            old(self).average_duration_ns is Some ==> old(self).average_duration_ns->0 <= old(
                self,
            ).max_duration_ns->0,
        ensures
            final(self).total_executions == old(self).total_executions,
            final(self).successful_executions == old(self).successful_executions,
            final(self).failed_executions == old(self).failed_executions,
            final(self).last_execution_ms == old(self).last_execution_ms,
            final(self).average_duration_ns matches Some(a) && a as int == next_mean(
                old(self).average_duration_ns,
                old(self).total_executions as int,
                duration_ns as int,
            ),
            final(self).max_duration_ns matches Some(m) && m as int == next_max(
                old(self).max_duration_ns,
                duration_ns as int,
            ),
            final(self).average_duration_ns->0 <= final(self).max_duration_ns->0,
    {
        let n = self.total_executions;
        match self.average_duration_ns {
            Some(avg) => {
                let old_max = match self.max_duration_ns {
                    Some(m) => m,
                    None => 0,
                };
                let new_max = if duration_ns > old_max {
                    duration_ns
                } else {
                    old_max
                };
                proof {
                    assert((avg as int) * ((n - 1) as int) + (duration_ns as int) <= (
                    new_max as int) * (n as int)) by (nonlinear_arith)
                        requires
                            avg <= new_max,
                            duration_ns <= new_max,
                            n >= 1,
                    ;
                    assert((new_max as int) * (n as int) < 0x100000000000000000000000000000000)
                        by (nonlinear_arith)
                        requires
                            new_max < 0x10000000000000000,
                            0 < n < 0x10000000000000000,
                    ;
                }
                let total_nanos: u128 = (avg as u128) * ((n - 1) as u128);
                let new_total: u128 = total_nanos + (duration_ns as u128);
                let new_avg_wide: u128 = new_total / (n as u128);
                proof {
                    assert(new_avg_wide <= new_max as u128) by (nonlinear_arith)
                        requires
                            new_avg_wide == new_total / (n as u128),
                            new_total <= (new_max as u128) * (n as u128),
                            n >= 1,
                    ;
                }
                let new_avg: u64 = new_avg_wide as u64;
                self.average_duration_ns = Some(new_avg);
                self.max_duration_ns = Some(new_max);
            },
            None => {
                self.average_duration_ns = Some(duration_ns);
                let old_max = match self.max_duration_ns {
                    Some(m) => m,
                    None => 0,
                };
                self.max_duration_ns = Some(
                    if duration_ns > old_max {
                        duration_ns
                    } else {
                        old_max
                    },
                );
            },
        }
    }
}

impl Clone for HookStats {
    /// A copy with the same counters.
    fn clone(&self) -> (res: HookStats)
        ensures
            res == *self,
    {
        HookStats {
            total_executions: self.total_executions,
            successful_executions: self.successful_executions,
            failed_executions: self.failed_executions,
            average_duration_ns: self.average_duration_ns,
            max_duration_ns: self.max_duration_ns,
            last_execution_ms: self.last_execution_ms,
        }
    }
}

impl Default for HookStats {
    /// All counters zero, no durations, no last execution.
    fn default() -> (r: Self)
        ensures
            r.wf(),
            r.total_executions == 0,
            r.successful_executions == 0,
            r.failed_executions == 0,
            r.average_duration_ns is None,
            r.max_duration_ns is None,
            r.last_execution_ms is None,
    {
        HookStats {
            total_executions: 0,
            successful_executions: 0,
            failed_executions: 0,
            average_duration_ns: None,
            max_duration_ns: None,
            last_execution_ms: None,
        }
    }
}

impl HookType {
    /// Every built-in hook type, in tag order.
    pub fn all_builtin() -> (r: Vec<HookType>)
        ensures
            r@.len() == 18,
            forall|i: int| 0 <= i < 18 ==> (#[trigger] r@[i]@) == (i, Seq::<char>::empty()),
    {
        let mut v: Vec<HookType> = Vec::new();
        v.push(HookType::ServerStartup);
        v.push(HookType::ServerShutdown);
        v.push(HookType::ServerInitialized);
        v.push(HookType::RequestReceived);
        v.push(HookType::RequestProcessed);
        v.push(HookType::ResponseSent);
        v.push(HookType::ToolPreExecution);
        v.push(HookType::ToolPostExecution);
        v.push(HookType::ToolRegistered);
        v.push(HookType::ToolRemoved);
        v.push(HookType::TclPreExecution);
        v.push(HookType::TclPostExecution);
        v.push(HookType::TclError);
        v.push(HookType::McpServerConnected);
        v.push(HookType::McpServerDisconnected);
        v.push(HookType::McpServerError);
        v.push(HookType::SecurityCheck);
        v.push(HookType::AccessDenied);
        v
    }

    /// The wire name of this hook type.
    pub fn to_string(&self) -> (r: String)
        ensures
            r@ == hook_name(self@),
    {
        match self {
            HookType::ServerStartup => String::from_str("server_startup"),
            HookType::ServerShutdown => String::from_str("server_shutdown"),
            HookType::ServerInitialized => String::from_str("server_initialized"),
            HookType::RequestReceived => String::from_str("request_received"),
            HookType::RequestProcessed => String::from_str("request_processed"),
            HookType::ResponseSent => String::from_str("response_sent"),
            HookType::ToolPreExecution => String::from_str("tool_pre_execution"),
            HookType::ToolPostExecution => String::from_str("tool_post_execution"),
            HookType::ToolRegistered => String::from_str("tool_registered"),
            HookType::ToolRemoved => String::from_str("tool_removed"),
            HookType::TclPreExecution => String::from_str("tcl_pre_execution"),
            HookType::TclPostExecution => String::from_str("tcl_post_execution"),
            HookType::TclError => String::from_str("tcl_error"),
            HookType::McpServerConnected => String::from_str("mcp_server_connected"),
            HookType::McpServerDisconnected => String::from_str("mcp_server_disconnected"),
            HookType::McpServerError => String::from_str("mcp_server_error"),
            HookType::SecurityCheck => String::from_str("security_check"),
            HookType::AccessDenied => String::from_str("access_denied"),
            HookType::Custom(name) => {
                let mut s = String::from_str("custom:");
                s.append(name.as_str());
                proof {
                    reveal_strlit("custom:");
                }
                s
            },
        }
    }

    /// A human-readable description of the hook type.
    pub fn description(&self) -> (r: &str)
        ensures
            r@ == description_of(self@),
    {
        match self {
            HookType::ServerStartup => "Server initialization",
            HookType::ServerShutdown => "Server cleanup",
            HookType::ServerInitialized => "After all components loaded",
            HookType::RequestReceived => "Before processing any request",
            HookType::RequestProcessed => "After successful processing",
            HookType::ResponseSent => "After response sent to client",
            HookType::ToolPreExecution => "Before tool execution",
            HookType::ToolPostExecution => "After tool execution",
            HookType::ToolRegistered => "When new tool added",
            HookType::ToolRemoved => "When tool removed",
            HookType::TclPreExecution => "Before TCL script execution",
            HookType::TclPostExecution => "After TCL script execution",
            HookType::TclError => "On TCL execution error",
            HookType::McpServerConnected => "MCP server connection established",
            HookType::McpServerDisconnected => "MCP server disconnected",
            HookType::McpServerError => "MCP server connection error",
            HookType::SecurityCheck => "Security validation request",
            HookType::AccessDenied => "Access denied event",
            HookType::Custom(name) => name.as_str(),
        }
    }

    /// Parse a wire name back into a hook type.  Every built-in name and
    /// every `custom:`-prefixed string parses; anything else is rejected
    /// with a message naming the input.
    pub fn from_string(s: &str) -> (r: Result<HookType, String>)
        ensures
            r is Ok ==> hook_name((r->Ok_0)@) == s@ && HookType::wf_tag((r->Ok_0)@),
            r is Ok <==> valid_hook_name(s@),
            r matches Err(e) ==> e@ == "Invalid hook type: "@ + s@,
    {
        proof {
            reveal_strlit("custom:");
        }
        if str_eq(s, "server_startup") {
            Ok(HookType::ServerStartup)
        } else if str_eq(s, "server_shutdown") {
            Ok(HookType::ServerShutdown)
        } else if str_eq(s, "server_initialized") {
            Ok(HookType::ServerInitialized)
        } else if str_eq(s, "request_received") {
            Ok(HookType::RequestReceived)
        } else if str_eq(s, "request_processed") {
            Ok(HookType::RequestProcessed)
        } else if str_eq(s, "response_sent") {
            Ok(HookType::ResponseSent)
        } else if str_eq(s, "tool_pre_execution") {
            Ok(HookType::ToolPreExecution)
        } else if str_eq(s, "tool_post_execution") {
            Ok(HookType::ToolPostExecution)
        } else if str_eq(s, "tool_registered") {
            Ok(HookType::ToolRegistered)
        } else if str_eq(s, "tool_removed") {
            Ok(HookType::ToolRemoved)
        } else if str_eq(s, "tcl_pre_execution") {
            Ok(HookType::TclPreExecution)
        } else if str_eq(s, "tcl_post_execution") {
            Ok(HookType::TclPostExecution)
        } else if str_eq(s, "tcl_error") {
            Ok(HookType::TclError)
        } else if str_eq(s, "mcp_server_connected") {
            Ok(HookType::McpServerConnected)
        } else if str_eq(s, "mcp_server_disconnected") {
            Ok(HookType::McpServerDisconnected)
        } else if str_eq(s, "mcp_server_error") {
            Ok(HookType::McpServerError)
        } else if str_eq(s, "security_check") {
            Ok(HookType::SecurityCheck)
        } else if str_eq(s, "access_denied") {
            Ok(HookType::AccessDenied)
        } else if s.unicode_len() >= 7 && str_eq(s.substring_char(0, 7), "custom:") {
            let name = s.substring_char(7, s.unicode_len());
            proof {
                assert(s@ =~= "custom:"@ + s@.subrange(7, s@.len() as int));
            }
            Ok(HookType::Custom(String::from_str(name)))
        } else {
            let mut msg = String::from_str("Invalid hook type: ");
            msg.append(s);
            Err(msg)
        }
    }
}

/// The description text of a hook type; a custom hook describes itself
/// by its name.
pub open spec fn description_of(v: (int, Seq<char>)) -> Seq<char> {
    if v.0 == 0 {
        "Server initialization"@
    } else if v.0 == 1 {
        "Server cleanup"@
    } else if v.0 == 2 {
        "After all components loaded"@
    } else if v.0 == 3 {
        "Before processing any request"@
    } else if v.0 == 4 {
        "After successful processing"@
    } else if v.0 == 5 {
        "After response sent to client"@
    } else if v.0 == 6 {
        "Before tool execution"@
    } else if v.0 == 7 {
        "After tool execution"@
    } else if v.0 == 8 {
        "When new tool added"@
    } else if v.0 == 9 {
        "When tool removed"@
    } else if v.0 == 10 {
        "Before TCL script execution"@
    } else if v.0 == 11 {
        "After TCL script execution"@
    } else if v.0 == 12 {
        "On TCL execution error"@
    } else if v.0 == 13 {
        "MCP server connection established"@
    } else if v.0 == 14 {
        "MCP server disconnected"@
    } else if v.0 == 15 {
        "MCP server connection error"@
    } else if v.0 == 16 {
        "Security validation request"@
    } else if v.0 == 17 {
        "Access denied event"@
    } else {
        v.1
    }
}

/// The wire names a hook type can take.
pub open spec fn valid_hook_name(s: Seq<char>) -> bool {
    ||| s == "server_startup"@
    ||| s == "server_shutdown"@
    ||| s == "server_initialized"@
    ||| s == "request_received"@
    ||| s == "request_processed"@
    ||| s == "response_sent"@
    ||| s == "tool_pre_execution"@
    ||| s == "tool_post_execution"@
    ||| s == "tool_registered"@
    ||| s == "tool_removed"@
    ||| s == "tcl_pre_execution"@
    ||| s == "tcl_post_execution"@
    ||| s == "tcl_error"@
    ||| s == "mcp_server_connected"@
    ||| s == "mcp_server_disconnected"@
    ||| s == "mcp_server_error"@
    ||| s == "security_check"@
    ||| s == "access_denied"@
    ||| (s.len() >= 7 && s.subrange(0, 7) == "custom:"@)
}

} // verus!
