//! The dispatch engine: the handler registry, the per-hook ordered name
//! lists, rate limiting, statistics, the execution-history ring, and the
//! fire loop that runs handlers in priority order and interprets their
//! verdicts.

use crate::builtins::logging::{log_message, logging_outcome, LoggingHandler, LogRecord};
use crate::builtins::metrics::{metrics_outcome, metrics_outcome_gauges, MetricsHandler};
use crate::builtins::notification::{
    notification_outcome, notify_effect, NotificationEffect, NotificationHandler,
};
use crate::builtins::transform::{transform_outcome, TransformHandler};
use crate::builtins::validation::{validation_outcome, ValidationHandler};
use crate::context::{CtxInfo, CtxInfoV};
use crate::errors::{HookError, HookErrorV, HookResult};
use crate::external::ExternalCommandHandler;
use crate::json::{Json, JsonV};
use crate::lifecycle::{plain_event, EventV, HookLifecycle, HookPhase};
use crate::script::TclScriptHandler;
use crate::strutil::str_eq;
use crate::types::{
    hook_name, ExecutionResult, HookPriority, HookStats, HookType, ResultV,
};
use vstd::pervasive::VecAdditionalExecFns;
use vstd::prelude::*;

verus! {

broadcast use vstd::std_specs::vec::group_vec_axioms, vstd::seq::group_seq_axioms;

/// The implementation behind a registered handler.  The first six run
/// inside the dispatcher; script and external-command handlers need the
/// host (an interpreter channel, a child process) and are driven through
/// the step interface.
#[derive(Debug)]
pub enum HandlerKind {
    /// A handler that always returns the given verdict.
    Const(ExecutionResult),
    Logging(LoggingHandler),
    Metrics(MetricsHandler),
    Validation(ValidationHandler),
    Transform(TransformHandler),
    Notification(NotificationHandler),
    Script(TclScriptHandler),
    External(ExternalCommandHandler),
}

/// Whether the dispatcher can run this kind without the host.
pub open spec fn pure_kind(k: HandlerKind) -> bool {
    match k {
        HandlerKind::Script(_) => false,
        HandlerKind::External(_) => false,
        _ => true,
    }
}

/// The verdict one invocation of a pure kind returns.
pub open spec fn kind_outcome(
    k: HandlerKind,
    ht: Seq<char>,
    data: JsonV,
    info: CtxInfoV,
    now: int,
) -> ResultV {
    match k {
        HandlerKind::Const(r) => r@,
        HandlerKind::Logging(h) => logging_outcome(
            h.config_map(),
            h.spec_level(),
            log_message(h.spec_format(), ht, h.spec_name(), data, info),
            data,
            now,
        ),
        HandlerKind::Metrics(h) => metrics_outcome(
            h.config_map(),
            h.spec_counters(),
            h.spec_timers(),
            ht,
            data,
            info,
            now,
        ).0,
        HandlerKind::Validation(h) => validation_outcome(
            h.config_map(),
            h.schema(),
            h.spec_name(),
            data,
            now,
        ),
        HandlerKind::Transform(h) => ResultV::Replace(transform_outcome(h.config_map(), data)),
        HandlerKind::Notification(h) => notification_outcome(
            h.config_map(),
            h.spec_name(),
            data,
            now,
        ),
        _ => ResultV::Continue,
    }
}

/// How a handler's own state moves across one invocation: only the
/// metrics stores change.
pub open spec fn kind_evolves(
    o: HandlerKind,
    n: HandlerKind,
    ht: Seq<char>,
    data: JsonV,
    info: CtxInfoV,
    now: int,
) -> bool {
    match (o, n) {
        (HandlerKind::Metrics(a), HandlerKind::Metrics(b)) => {
            &&& b.spec_name() == a.spec_name()
            &&& b.config_map() == a.config_map()
            &&& b.spec_counters() == metrics_outcome(
                a.config_map(),
                a.spec_counters(),
                a.spec_timers(),
                ht,
                data,
                info,
                now,
            ).1
            &&& b.spec_timers() == metrics_outcome(
                a.config_map(),
                a.spec_counters(),
                a.spec_timers(),
                ht,
                data,
                info,
                now,
            ).2
            &&& b.spec_gauges() == metrics_outcome_gauges(
                a.config_map(),
                a.spec_gauges(),
                ht,
                data,
            )
        },
        _ => n == o,
    }
}


/// One step of a fire, as the trace records it.
pub ghost enum RunStepV {
    /// The handler was disabled (or its name no longer resolved) and was
    /// passed over.
    Skipped { name: Seq<char> },
    /// The handler's window was full; the fire aborted.
    RateDenied { name: Seq<char> },
    /// The handler ran against the given data.
    Ran { name: Seq<char>, data: JsonV },
}

/// Everything one fire does, as a function of the registry, the ordered
/// name list, the payload, the context snapshot and the clock.
pub ghost struct FireTrace {
    /// The data out, or the error that aborted the fire.
    pub result: Result<JsonV, HookErrorV>,
    /// The lifecycle events, in order.
    pub events: Seq<EventV>,
    /// The history lines appended: handler name and outcome tag.
    pub hist: Seq<(Seq<char>, OutcomeTag)>,
    /// What happened to each handler reached.
    pub runs: Seq<RunStepV>,
}

/// The events of one completed handler invocation: `Pre`, `Executing`,
/// then `Post` carrying a zero duration (the dispatcher reads one clock
/// per fire).
pub open spec fn run_events(name: Seq<char>, now: int) -> Seq<EventV> {
    seq![
        plain_event(name, HookPhase::PreExecution, now),
        plain_event(name, HookPhase::Executing, now),
        EventV {
            handler: name,
            phase: HookPhase::PostExecution,
            timestamp_ms: now,
            error: None,
            duration_ms: Some(0),
        },
    ]
}

/// The trace of a fire over the names from the front of `names`: the
/// flow-control interpretation of spec 4.H, step by step.
pub open spec fn fire_steps(
    entries: Seq<HandlerEntry>,
    names: Seq<Seq<char>>,
    ht: HookType,
    data: JsonV,
    info: CtxInfoV,
    now: int,
) -> FireTrace
    decreases names.len(),
{
    if names.len() == 0 {
        FireTrace {
            result: Ok(data),
            events: Seq::empty(),
            hist: Seq::empty(),
            runs: Seq::empty(),
        }
    } else {
        let name = names[0];
        match entry_idx(entries, name) {
            None => fire_steps(entries, names.skip(1), ht, data, info, now),
            Some(j) => {
                let e = entries[j];
                if !e.enabled {
                    let rest = fire_steps(entries, names.skip(1), ht, data, info, now);
                    FireTrace {
                        result: rest.result,
                        events: seq![plain_event(name, HookPhase::Skipped, now)] + rest.events,
                        hist: rest.hist,
                        runs: seq![RunStepV::Skipped { name }] + rest.runs,
                    }
                } else {
                    let has_room = match e.rate_limit {
                        Some(rl) => retained(
                            calls_view(rl.calls@),
                            now,
                            rl.window_ms as int,
                        ).len() < rl.max_calls,
                        None => true,
                    };
                    if !has_room {
                        FireTrace {
                            result: Err(
                                HookErrorV::RateLimitExceeded {
                                    handler: name,
                                    limit: e.rate_limit->0.max_calls as int,
                                    window_ms: e.rate_limit->0.window_ms as int,
                                },
                            ),
                            events: Seq::empty(),
                            hist: Seq::empty(),
                            runs: seq![RunStepV::RateDenied { name }],
                        }
                    } else {
                        let outcome = kind_outcome(e.kind, hook_name(ht@), data, info, now);
                        let done = seq![RunStepV::Ran { name, data }];
                        let hist = seq![(name, OutcomeTag::Success)];
                        match outcome {
                            ResultV::Error { message, details } => FireTrace {
                                result: Err(
                                    HookErrorV::ExecutionFailed { handler: name, source: message },
                                ),
                                events: run_events(name, now),
                                hist,
                                runs: done,
                            },
                            ResultV::Stop(d) => FireTrace {
                                result: Ok(
                                    match d {
                                        Some(v) => v,
                                        None => data,
                                    },
                                ),
                                events: run_events(name, now),
                                hist,
                                runs: done,
                            },
                            ResultV::Replace(d) => {
                                let rest = fire_steps(entries, names.skip(1), ht, d, info, now);
                                FireTrace {
                                    result: rest.result,
                                    events: run_events(name, now) + rest.events,
                                    hist: hist + rest.hist,
                                    runs: done + rest.runs,
                                }
                            },
                            _ => {
                                let rest = fire_steps(entries, names.skip(1), ht, data, info, now);
                                FireTrace {
                                    result: rest.result,
                                    events: run_events(name, now) + rest.events,
                                    hist: hist + rest.hist,
                                    runs: done + rest.runs,
                                }
                            },
                        }
                    }
                }
            },
        }
    }
}

/// The data the named handler ran against in this fire, where it ran.
pub open spec fn run_data(runs: Seq<RunStepV>, name: Seq<char>) -> Option<JsonV>
    decreases runs.len(),
{
    if runs.len() == 0 {
        None
    } else {
        match runs[0] {
            RunStepV::Ran { name: n, data } => if n == name {
                Some(data)
            } else {
                run_data(runs.skip(1), name)
            },
            _ => run_data(runs.skip(1), name),
        }
    }
}

/// Whether the named handler's window refused this fire.
pub open spec fn was_rate_denied(runs: Seq<RunStepV>, name: Seq<char>) -> bool {
    exists|k: int| 0 <= k < runs.len() && runs[k] == (RunStepV::RateDenied { name })
}

/// How one fire moves a single entry: a handler that ran has one more
/// successful execution, its window records the admission, and its own
/// state moves by [`kind_evolves`]; a rate-denied handler keeps its
/// statistics but its window is purged; everything else is untouched.
pub open spec fn entry_after_fire(
    e0: HandlerEntry,
    e1: HandlerEntry,
    runs: Seq<RunStepV>,
    ht: Seq<char>,
    info: CtxInfoV,
    now_ms: u64,
) -> bool {
    &&& e1.name@ == e0.name@
    &&& e1.priority.0 == e0.priority.0
    &&& e1.enabled == e0.enabled
    &&& match run_data(runs, e0.name@) {
        Some(d) => {
            &&& e1.stats.total_executions == e0.stats.total_executions + 1
            &&& e1.stats.successful_executions == e0.stats.successful_executions + 1
            &&& e1.stats.failed_executions == e0.stats.failed_executions
            &&& e1.stats.last_execution_ms == Some(now_ms)
            &&& e1.stats.wf()
            &&& kind_evolves(e0.kind, e1.kind, ht, d, info, now_ms as int)
            &&& match e0.rate_limit {
                Some(rl) => e1.rate_limit matches Some(rl2) && rl2.max_calls == rl.max_calls
                    && rl2.window_ms == rl.window_ms && calls_view(rl2.calls@) == retained(
                    calls_view(rl.calls@),
                    now_ms as int,
                    rl.window_ms as int,
                ).push(now_ms as int),
                None => e1.rate_limit is None,
            }
        },
        None => if was_rate_denied(runs, e0.name@) {
            &&& e1.stats == e0.stats
            &&& e1.kind == e0.kind
            &&& e0.rate_limit matches Some(rl) && e1.rate_limit matches Some(rl2)
                && rl2.max_calls == rl.max_calls && rl2.window_ms == rl.window_ms && calls_view(
                rl2.calls@,
            ) == retained(calls_view(rl.calls@), now_ms as int, rl.window_ms as int)
        } else {
            e1 == e0
        },
    }
}

/// Appending a step changes `run_data` only for a `Ran` step's own name.
proof fn lemma_run_data_snoc(runs: Seq<RunStepV>, step: RunStepV, name: Seq<char>)
    ensures
        run_data(runs.push(step), name) == (match run_data(runs, name) {
            Some(d) => Some(d),
            None => match step {
                RunStepV::Ran { name: n, data } => if n == name {
                    Some(data)
                } else {
                    None
                },
                _ => None,
            },
        }),
    decreases runs.len(),
{
    if runs.len() == 0 {
        assert(runs.push(step)[0] == step);
        assert(runs.push(step).skip(1) =~= Seq::<RunStepV>::empty());
        assert(run_data(Seq::<RunStepV>::empty(), name) is None);
    } else {
        assert(runs.push(step)[0] == runs[0]);
        assert(runs.push(step).skip(1) =~= runs.skip(1).push(step));
        lemma_run_data_snoc(runs.skip(1), step, name);
    }
}

/// Whether every name registered for the hook resolves to a handler the
/// dispatcher can run without the host.
pub open spec fn all_pure(entries: Seq<HandlerEntry>, names: Seq<Seq<char>>) -> bool {
    forall|k: int|
        0 <= k < names.len() ==> match entry_idx(entries, #[trigger] names[k]) {
            Some(j) => pure_kind(entries[j].kind),
            None => true,
        }
}

/// The history ring after appending one fire's lines.
pub open spec fn hist_after(
    h: Seq<HistV>,
    items: Seq<(Seq<char>, OutcomeTag)>,
    ht: (int, Seq<char>),
    now: int,
    bound: int,
) -> Seq<HistV>
    decreases items.len(),
{
    if items.len() == 0 {
        h
    } else {
        hist_after(
            ring_push(
                h,
                HistV {
                    timestamp_ms: now,
                    hook: ht,
                    handler: items[0].0,
                    duration_ns: 0,
                    outcome: items[0].1,
                },
                bound,
            ),
            items.skip(1),
            ht,
            now,
            bound,
        )
    }
}

/// A fire's verdict lifted to the model.
pub open spec fn lift_result(r: Result<Json, HookError>) -> Result<JsonV, HookErrorV> {
    match r {
        Ok(d) => Ok(d@),
        Err(e) => Err(e@),
    }
}

/// A rendered log line or a notification for the host to deliver.
#[derive(Debug)]
pub enum DispatchEffect {
    /// Emit through the host's logging facility.
    Log(LogRecord),
    /// Deliver a notification; failures are the host's to log and swallow.
    Notify(NotificationEffect),
}

/// Sliding-window admission state for one handler.
#[derive(Debug)]
pub struct RateLimitState {
    /// How many calls the window admits.
    pub max_calls: u32,
    /// The window length in milliseconds.
    pub window_ms: u64,
    /// Admission timestamps, oldest first.
    pub calls: Vec<u64>,
}

/// The model of the admission timestamps.
pub open spec fn calls_view(v: Seq<u64>) -> Seq<int> {
    Seq::new(v.len(), |i: int| v[i] as int)
}

/// Whether a call made at `t` still counts against the window at `now`.
pub open spec fn in_window(t: int, now: int, window: int) -> bool {
    if now >= t {
        now - t < window
    } else {
        0 < window
    }
}

/// The timestamps still inside the window at `now`, in order.
pub open spec fn retained(calls: Seq<int>, now: int, window: int) -> Seq<int>
    decreases calls.len(),
{
    if calls.len() == 0 {
        Seq::empty()
    } else {
        let head: Seq<int> = if in_window(calls[0], now, window) {
            seq![calls[0]]
        } else {
            Seq::empty()
        };
        head + retained(calls.skip(1), now, window)
    }
}

impl RateLimitState {
    /// A fresh window with no admissions.
    pub fn new(max_calls: u32, window_ms: u64) -> (r: Self)
        ensures
            r.max_calls == max_calls,
            r.window_ms == window_ms,
            calls_view(r.calls@) == Seq::<int>::empty(),
    {
        let r = RateLimitState { max_calls, window_ms, calls: Vec::new() };
        proof {
            assert(calls_view(r.calls@) =~= Seq::<int>::empty());
        }
        r
    }

    /// Purge timestamps outside the window; admit and record the call
    /// exactly when the purged window still has room.  Afterwards the
    /// window never holds more than `max_calls` admissions.
    pub fn check_and_update(&mut self, now_ms: u64) -> (r: bool)
        ensures
            final(self).max_calls == old(self).max_calls,
            final(self).window_ms == old(self).window_ms,
            r == (retained(
                calls_view(old(self).calls@),
                now_ms as int,
                old(self).window_ms as int,
            ).len() < old(self).max_calls),
            r ==> calls_view(final(self).calls@) == retained(
                calls_view(old(self).calls@),
                now_ms as int,
                old(self).window_ms as int,
            ).push(now_ms as int),
            !r ==> calls_view(final(self).calls@) == retained(
                calls_view(old(self).calls@),
                now_ms as int,
                old(self).window_ms as int,
            ),
            r ==> calls_view(final(self).calls@).len() <= old(self).max_calls,
    {
        let ghost gcalls = calls_view(self.calls@);
        let ghost gwindow = self.window_ms as int;
        let mut kept: Vec<u64> = Vec::new();
        let mut rest: Vec<u64> = Vec::new();
        core::mem::swap(&mut rest, &mut self.calls);
        loop
            invariant_except_break
                gwindow == self.window_ms as int,
                retained(gcalls, now_ms as int, gwindow) == calls_view(kept@) + retained(
                    calls_view(rest@),
                    now_ms as int,
                    gwindow,
                ),
            ensures
                retained(gcalls, now_ms as int, gwindow) == calls_view(kept@),
                gwindow == self.window_ms as int,
            decreases rest@.len(),
        {
            if rest.len() == 0 {
                assert(calls_view(rest@) =~= Seq::<int>::empty());
                assert(calls_view(kept@) + retained(calls_view(rest@), now_ms as int, gwindow)
                    =~= calls_view(kept@));
                break;
            }
            let ghost gk = calls_view(kept@);
            let ghost gr = calls_view(rest@);
            assert(gr[0] == rest@[0] as int);
            let t = rest.remove(0);
            assert(calls_view(rest@) =~= gr.skip(1));
            let keep = if now_ms >= t {
                now_ms - t < self.window_ms
            } else {
                0 < self.window_ms
            };
            if keep {
                kept.push(t);
                assert(calls_view(kept@) =~= gk + seq![t as int]);
                assert(gk + (seq![t as int] + retained(gr.skip(1), now_ms as int, gwindow))
                    =~= calls_view(kept@) + retained(gr.skip(1), now_ms as int, gwindow));
            } else {
                assert(gk + (Seq::<int>::empty() + retained(gr.skip(1), now_ms as int, gwindow))
                    =~= calls_view(kept@) + retained(gr.skip(1), now_ms as int, gwindow));
            }
        }
        let admitted = (kept.len() as u64) < (self.max_calls as u64);
        if admitted {
            let ghost gk = calls_view(kept@);
            kept.push(now_ms);
            assert(calls_view(kept@) =~= gk.push(now_ms as int));
        }
        self.calls = kept;
        admitted
    }
}

/// One registered handler.
#[derive(Debug)]
pub struct HandlerEntry {
    /// The handler's unique name.
    pub name: String,
    /// Its implementation.
    pub kind: HandlerKind,
    /// Its priority; smaller runs earlier.
    pub priority: HookPriority,
    /// Its rolling statistics.
    pub stats: HookStats,
    /// Whether it runs on fires.
    pub enabled: bool,
    /// Its sliding window, where one is set.
    pub rate_limit: Option<RateLimitState>,
}

/// The ordered handler names of one hook type.
#[derive(Debug)]
pub struct IndexEntry {
    /// The hook type.
    pub hook: HookType,
    /// The handler names, priority order, ties by registration order.
    pub names: Vec<String>,
}

/// How one completed handler invocation ended.
#[derive(Debug, Clone, Copy, PartialEq, Eq, Structural)]
pub enum OutcomeTag {
    /// The handler returned a verdict.
    Success,
    /// The handler failed.
    Error,
    /// The handler ran past the allowed time.
    Timeout,
}

/// One line of the execution-history ring.
#[derive(Debug)]
pub struct HistoryEntry {
    /// Wall-clock milliseconds of the completion.
    pub timestamp_ms: u64,
    /// The hook type fired.
    pub hook_type: HookType,
    /// The handler that ran.
    pub handler: String,
    /// How long it ran, in nanoseconds.
    pub duration_ns: u64,
    /// How it ended.
    pub outcome: OutcomeTag,
}

/// The model of one history line.
pub ghost struct HistV {
    pub timestamp_ms: int,
    pub hook: (int, Seq<char>),
    pub handler: Seq<char>,
    pub duration_ns: int,
    pub outcome: OutcomeTag,
}

impl View for HistoryEntry {
    type V = HistV;

    open spec fn view(&self) -> HistV {
        HistV {
            timestamp_ms: self.timestamp_ms as int,
            hook: self.hook_type@,
            handler: self.handler@,
            duration_ns: self.duration_ns as int,
            outcome: self.outcome,
        }
    }
}

/// The model of the history ring.
pub open spec fn history_view(v: Seq<HistoryEntry>) -> Seq<HistV> {
    Seq::new(v.len(), |i: int| v[i]@)
}

/// The ring after one append: the oldest line falls out past the bound.
pub open spec fn ring_push(h: Seq<HistV>, e: HistV, bound: int) -> Seq<HistV> {
    let h2 = h.push(e);
    if h2.len() > bound {
        h2.skip(h2.len() - bound)
    } else {
        h2
    }
}

/// The first position holding `name`, if any.
pub open spec fn entry_idx(entries: Seq<HandlerEntry>, name: Seq<char>) -> Option<int>
    decreases entries.len(),
{
    if entries.len() == 0 {
        None
    } else if entries[0].name@ == name {
        Some(0)
    } else {
        match entry_idx(entries.skip(1), name) {
            Some(j) => Some(j + 1),
            None => None,
        }
    }
}

/// The priority registered under `name`; absent names read as the
/// default priority.
pub open spec fn prio_in(entries: Seq<HandlerEntry>, name: Seq<char>) -> int {
    match entry_idx(entries, name) {
        Some(j) => entries[j].priority.0 as int,
        None => 500,
    }
}

/// The model of an index: hook tag and name list per entry.
pub open spec fn index_view(index: Seq<IndexEntry>) -> Seq<((int, Seq<char>), Seq<Seq<char>>)> {
    Seq::new(
        index.len(),
        |i: int| (index[i].hook@, crate::external::strings_view(index[i].names@)),
    )
}

/// The first index position for `hook`, if any.
pub open spec fn iview_idx(
    iv: Seq<((int, Seq<char>), Seq<Seq<char>>)>,
    hook: (int, Seq<char>),
) -> Option<int>
    decreases iv.len(),
{
    if iv.len() == 0 {
        None
    } else if iv[0].0 == hook {
        Some(0)
    } else {
        match iview_idx(iv.skip(1), hook) {
            Some(j) => Some(j + 1),
            None => None,
        }
    }
}

/// The names registered for `hook`: the indexed list, or nothing.
pub open spec fn names_for(
    iv: Seq<((int, Seq<char>), Seq<Seq<char>>)>,
    hook: (int, Seq<char>),
) -> Seq<Seq<char>> {
    match iview_idx(iv, hook) {
        Some(j) => iv[j].1,
        None => Seq::empty(),
    }
}

/// Where a newly registered name lands in a sorted list: after every
/// name of smaller or equal priority, so ties keep registration order.
pub open spec fn insert_pos(list: Seq<Seq<char>>, entries: Seq<HandlerEntry>, prio: int) -> int
    decreases list.len(),
{
    if list.len() == 0 {
        0
    } else if prio_in(entries, list[0]) <= prio {
        1 + insert_pos(list.skip(1), entries, prio)
    } else {
        0
    }
}

/// A sorted list with `name` inserted at its position.
pub open spec fn list_insert(
    list: Seq<Seq<char>>,
    entries: Seq<HandlerEntry>,
    name: Seq<char>,
    prio: int,
) -> Seq<Seq<char>> {
    let pos = insert_pos(list, entries, prio);
    list.take(pos) + seq![name] + list.skip(pos)
}

/// Whether a list holds `name`.
pub open spec fn list_has(list: Seq<Seq<char>>, name: Seq<char>) -> bool {
    exists|k: int| 0 <= k < list.len() && list[k] == name
}

/// The first position of `name` in a list, if any.
pub open spec fn first_idx(list: Seq<Seq<char>>, name: Seq<char>) -> Option<int>
    decreases list.len(),
{
    if list.len() == 0 {
        None
    } else if list[0] == name {
        Some(0)
    } else {
        match first_idx(list.skip(1), name) {
            Some(j) => Some(j + 1),
            None => None,
        }
    }
}

/// A list with the first occurrence of `name` dropped.  Every list the
/// registry keeps holds a name at most once, so this removes the name.
pub open spec fn list_drop(list: Seq<Seq<char>>, name: Seq<char>) -> Seq<Seq<char>> {
    match first_idx(list, name) {
        Some(p) => list.take(p) + list.skip(p + 1),
        None => list,
    }
}

/// The index after unregistering `name`: every list loses it.
pub open spec fn unreg_index(
    iv: Seq<((int, Seq<char>), Seq<Seq<char>>)>,
    name: Seq<char>,
) -> Seq<((int, Seq<char>), Seq<Seq<char>>)> {
    Seq::new(iv.len(), |i: int| (iv[i].0, list_drop(iv[i].1, name)))
}

/// The index after registering `name` for the given hook types, in
/// order: each indexed list takes the name at its sorted position, and a
/// hook type seen for the first time gets a fresh list.
pub open spec fn reg_index(
    iv: Seq<((int, Seq<char>), Seq<Seq<char>>)>,
    hts: Seq<HookType>,
    entries: Seq<HandlerEntry>,
    name: Seq<char>,
    prio: int,
) -> Seq<((int, Seq<char>), Seq<Seq<char>>)>
    decreases hts.len(),
{
    if hts.len() == 0 {
        iv
    } else {
        let h = hts[0]@;
        let iv2 = match iview_idx(iv, h) {
            Some(j) => if list_has(iv[j].1, name) {
                iv
            } else {
                iv.update(j, (iv[j].0, list_insert(iv[j].1, entries, name, prio)))
            },
            None => iv.push((h, seq![name])),
        };
        reg_index(iv2, hts.skip(1), entries, name, prio)
    }
}

/// Whether a name list is sorted by the priorities registered in
/// `entries`.
pub open spec fn list_sorted(list: Seq<Seq<char>>, entries: Seq<HandlerEntry>) -> bool {
    forall|p: int, q: int|
        0 <= p < q < list.len() ==> prio_in(entries, list[p]) <= prio_in(entries, list[q])
}

/// The central dispatcher: the registry, the per-hook index, lifecycle
/// observability, and the execution history.
#[derive(Debug)]
pub struct HookManager {
    /// One entry per registered handler.
    pub entries: Vec<HandlerEntry>,
    /// The per-hook ordered name lists.
    pub index: Vec<IndexEntry>,
    /// Lifecycle events and active-execution tracking.
    pub lifecycle: HookLifecycle,
    /// The per-handler execution timeout, in milliseconds.
    pub global_timeout_ms: u64,
    /// Whether fires run at all.
    pub enabled: bool,
    /// The execution-history ring, oldest first.
    pub history: Vec<HistoryEntry>,
    /// The ring's bound.
    pub max_history: usize,
    /// Log records and notifications produced by fires, for the host to
    /// drain and deliver.
    pub effects: Vec<DispatchEffect>,
}

impl HookManager {
    /// The registry invariant: handler names unique; one index entry per
    /// hook type; every indexed name resolves, exactly once per list, in
    /// priority order; statistics well formed.
    pub open spec fn wf(&self) -> bool {
        let entries = self.entries@;
        let iv = index_view(self.index@);
        &&& (forall|i: int, j: int|
            0 <= i < j < entries.len() ==> (#[trigger] entries[i].name@) != (
            #[trigger] entries[j].name@))
        &&& (forall|i: int, j: int|
            0 <= i < j < iv.len() ==> (#[trigger] iv[i].0) != (#[trigger] iv[j].0))
        &&& (forall|i: int, k: int|
            0 <= i < iv.len() && 0 <= k < (#[trigger] iv[i].1).len() ==> entry_idx(
                entries,
                #[trigger] iv[i].1[k],
            ) is Some)
        &&& (forall|i: int, p: int, q: int|
            0 <= i < iv.len() && 0 <= p < q < (#[trigger] iv[i].1).len() ==> (#[trigger] iv[i].1[p])
                != (#[trigger] iv[i].1[q]))
        &&& (forall|i: int| 0 <= i < iv.len() ==> list_sorted(#[trigger] iv[i].1, entries))
        &&& (forall|j: int| 0 <= j < entries.len() ==> (#[trigger] entries[j].stats).wf())
        &&& self.history@.len() <= self.max_history
        &&& self.max_history >= 1
    }

    /// A fresh dispatcher: nothing registered, enabled, five-second
    /// timeout, room for a thousand history lines.
    pub fn new() -> (r: Self)
        ensures
            r.wf(),
            r.entries@.len() == 0,
            index_view(r.index@).len() == 0,
            r.lifecycle.events_log().len() == 0,
            r.global_timeout_ms == 5000,
            r.enabled,
            history_view(r.history@).len() == 0,
            r.max_history == 1000,
    {
        let r = HookManager {
            entries: Vec::new(),
            index: Vec::new(),
            lifecycle: HookLifecycle::new(),
            global_timeout_ms: 5000,
            enabled: true,
            history: Vec::new(),
            max_history: 1000,
            effects: Vec::new(),
        };
        proof {
            assert(index_view(r.index@) =~= Seq::<((int, Seq<char>), Seq<Seq<char>>)>::empty());
            assert(history_view(r.history@) =~= Seq::<HistV>::empty());
        }
        r
    }

    /// Register a handler under a fresh name for the given hook types.
    /// A duplicate name is refused and nothing changes; otherwise the
    /// entry is appended (enabled, fresh statistics, no rate limit) and
    /// each hook type's list takes the name at its priority position.
    pub fn register(
        &mut self,
        name: String,
        hook_types: Vec<HookType>,
        handler: HandlerKind,
        priority: HookPriority,
    ) -> (r: HookResult<()>)
        requires
            old(self).wf(),
        ensures
            final(self).wf(),
            final(self).lifecycle.events_log() == old(self).lifecycle.events_log(),
            final(self).enabled == old(self).enabled,
            final(self).global_timeout_ms == old(self).global_timeout_ms,
            history_view(final(self).history@) == history_view(old(self).history@),
            match r {
                Ok(_) => {
                    &&& entry_idx(old(self).entries@, name@) is None
                    &&& final(self).entries@.len() == old(self).entries@.len() + 1
                    &&& (forall|j: int|
                        0 <= j < old(self).entries@.len() ==> final(self).entries@[j] == old(
                            self,
                        ).entries@[j])
                    &&& final(self).entries@.last().name@ == name@
                    &&& final(self).entries@.last().kind == handler
                    &&& final(self).entries@.last().priority.0 == priority.0
                    &&& final(self).entries@.last().enabled
                    &&& final(self).entries@.last().stats.total_executions == 0
                    &&& final(self).entries@.last().stats.successful_executions == 0
                    &&& final(self).entries@.last().stats.failed_executions == 0
                    &&& final(self).entries@.last().rate_limit is None
                    &&& index_view(final(self).index@) == reg_index(
                        index_view(old(self).index@),
                        hook_types@,
                        final(self).entries@,
                        name@,
                        priority.0 as int,
                    )
                },
                Err(e) => {
                    &&& entry_idx(old(self).entries@, name@) is Some
                    &&& e@ == HookErrorV::RegistrationFailed(
                        "Handler '"@ + name@ + "' already registered"@,
                    )
                    &&& final(self).entries@ == old(self).entries@
                    &&& index_view(final(self).index@) == index_view(old(self).index@)
                },
            },
    {
        if self.contains_entry(name.as_str()) {
            let mut msg = String::from_str("Handler '");
            msg.append(name.as_str());
            msg.append("' already registered");
            return Err(HookError::RegistrationFailed(msg));
        }
        let ghost old_entries = self.entries@;
        let entry = HandlerEntry {
            name: name.clone(),
            kind: handler,
            priority,
            stats: HookStats::default(),
            enabled: true,
            rate_limit: None,
        };
        self.entries.push(entry);
        let ghost new_entries = self.entries@;
        proof {
            assert(new_entries =~= old_entries.push(new_entries.last()));
            lemma_entry_idx_push(old_entries, new_entries.last(), name@);
            lemma_entry_idx_absent(old_entries, name@);
            assert forall|n: Seq<char>| n != name@ implies entry_idx(new_entries, n) == entry_idx(
                old_entries,
                n,
            ) && prio_in(new_entries, n) == prio_in(old_entries, n) by {
                lemma_entry_idx_push(old_entries, new_entries.last(), n);
            }
            let iv = index_view(self.index@);
            assert forall|i: int, k: int|
                0 <= i < iv.len() && 0 <= k < (#[trigger] iv[i].1).len() implies entry_idx(
                new_entries,
                #[trigger] iv[i].1[k],
            ) is Some by {
                assert(entry_idx(old_entries, iv[i].1[k]) is Some);
                lemma_entry_idx_bounds(old_entries, iv[i].1[k]);
                assert(iv[i].1[k] != name@);
            }
            assert forall|i: int| 0 <= i < iv.len() implies list_sorted(
                #[trigger] iv[i].1,
                new_entries,
            ) by {
                assert(list_sorted(iv[i].1, old_entries));
                assert forall|p: int, q: int|
                    0 <= p < q < iv[i].1.len() implies prio_in(new_entries, iv[i].1[p]) <= prio_in(
                    new_entries,
                    iv[i].1[q],
                ) by {
                    assert(entry_idx(old_entries, iv[i].1[p]) is Some);
                    assert(entry_idx(old_entries, iv[i].1[q]) is Some);
                    assert(iv[i].1[p] != name@ && iv[i].1[q] != name@) by {
                        lemma_entry_idx_bounds(old_entries, iv[i].1[p]);
                        lemma_entry_idx_bounds(old_entries, iv[i].1[q]);
                    }
                }
            }
            assert(self.wf());
        }
        let ghost goal = reg_index(
            index_view(self.index@),
            hook_types@,
            new_entries,
            name@,
            priority.0 as int,
        );
        let ghost ev0 = self.lifecycle.events_log();
        let ghost hist0 = history_view(self.history@);
        let ghost enabled0 = self.enabled;
        let ghost timeout0 = self.global_timeout_ms;
        let mut hts = hook_types;
        loop
            invariant_except_break
                self.wf(),
                self.entries@ == new_entries,
                goal == reg_index(
                    index_view(self.index@),
                    hts@,
                    new_entries,
                    name@,
                    priority.0 as int,
                ),
                entry_idx(new_entries, name@) == Some(new_entries.len() - 1),
                new_entries.len() > 0,
                new_entries.last().name@ == name@,
                new_entries.last().priority.0 == priority.0,
                self.lifecycle.events_log() == ev0,
                history_view(self.history@) == hist0,
                self.enabled == enabled0,
                self.global_timeout_ms == timeout0,
            ensures
                self.wf(),
                self.entries@ == new_entries,
                index_view(self.index@) == goal,
                self.lifecycle.events_log() == ev0,
                history_view(self.history@) == hist0,
                self.enabled == enabled0,
                self.global_timeout_ms == timeout0,
            decreases hts@.len(),
        {
            if hts.len() == 0 {
                break;
            }
            let ghost hts0 = hts@;
            let ht = hts.remove(0);
            assert(hts@ =~= hts0.skip(1));
            proof {
                assert(prio_in(new_entries, name@) == priority.0 as int);
            }
            self.add_to_index(&ht, name.as_str(), priority.to_u16());
        }
        Ok(())
    }

    /// Whether an entry with the given name exists.
    fn contains_entry(&self, name: &str) -> (r: bool)
        ensures
            r == (entry_idx(self.entries@, name@) is Some),
    {
        match self.find_entry(name) {
            Some(_) => true,
            None => false,
        }
    }

    /// The position of the entry with the given name.
    fn find_entry(&self, name: &str) -> (r: Option<usize>)
        ensures
            match r {
                Some(j) => entry_idx(self.entries@, name@) == Some(j as int) && j
                    < self.entries@.len(),
                None => entry_idx(self.entries@, name@) is None,
            },
    {
        let ghost gentries = self.entries@;
        let n = self.entries.len();
        for i in 0..n
            invariant
                n == gentries.len(),
                gentries == self.entries@,
                forall|k: int| 0 <= k < i ==> (#[trigger] gentries[k].name@) != name@,
        {
            if str_eq(self.entries[i].name_str(), name) {
                proof {
                    lemma_entry_idx_at(gentries, name@, i as int);
                }
                return Some(i);
            }
        }
        proof {
            lemma_entry_idx_none(gentries, name@);
        }
        None
    }

    /// The position of the index entry for the given hook type.
    fn find_index(&self, hook: &HookType) -> (r: Option<usize>)
        ensures
            match r {
                Some(j) => iview_idx(index_view(self.index@), hook@) == Some(j as int) && j
                    < self.index@.len(),
                None => iview_idx(index_view(self.index@), hook@) is None,
            },
    {
        let ghost iv = index_view(self.index@);
        let n = self.index.len();
        for i in 0..n
            invariant
                n == self.index@.len(),
                iv == index_view(self.index@),
                forall|k: int| 0 <= k < i ==> (#[trigger] iv[k].0) != hook@,
        {
            if crate::types::hook_type_eq(&self.index[i].hook, hook) {
                proof {
                    lemma_iview_idx_at(iv, hook@, i as int);
                }
                return Some(i);
            }
        }
        proof {
            lemma_iview_idx_none(iv, hook@);
        }
        None
    }

    /// Put `name` into the list for `hook` at its priority position; a
    /// list that already holds the name is left alone.
    fn add_to_index(&mut self, hook: &HookType, name: &str, prio: u16)
        requires
            old(self).wf(),
            entry_idx(old(self).entries@, name@) is Some,
            prio_in(old(self).entries@, name@) == prio as int,
        ensures
            final(self).wf(),
            final(self).entries@ == old(self).entries@,
            final(self).lifecycle.events_log() == old(self).lifecycle.events_log(),
            final(self).enabled == old(self).enabled,
            final(self).global_timeout_ms == old(self).global_timeout_ms,
            final(self).max_history == old(self).max_history,
            history_view(final(self).history@) == history_view(old(self).history@),
            index_view(final(self).index@) == (match iview_idx(
                index_view(old(self).index@),
                hook@,
            ) {
                Some(j) => if list_has(index_view(old(self).index@)[j].1, name@) {
                    index_view(old(self).index@)
                } else {
                    index_view(old(self).index@).update(
                        j,
                        (
                            index_view(old(self).index@)[j].0,
                            list_insert(
                                index_view(old(self).index@)[j].1,
                                old(self).entries@,
                                name@,
                                prio as int,
                            ),
                        ),
                    )
                },
                None => index_view(old(self).index@).push((hook@, seq![name@])),
            }),
    {
        let ghost iv0 = index_view(self.index@);
        match self.find_index(hook) {
            Some(j) => {
                let mut entry = self.index.remove(j);
                if list_contains(&entry.names, name) {
                    self.index.insert(j, entry);
                    proof {
                        assert(index_view(self.index@) =~~= iv0);
                    }
                    return ;
                }
                let ghost old_list = crate::external::strings_view(entry.names@);
                let pos = self.insert_position(&entry.names, prio);
                entry.names.insert(pos, String::from_str(name));
                proof {
                    assert(crate::external::strings_view(entry.names@) =~= old_list.take(
                        pos as int,
                    ) + seq![name@] + old_list.skip(pos as int));
                }
                self.index.insert(j, entry);
                proof {
                    assert(index_view(self.index@) =~~= iv0.update(
                        j as int,
                        (
                            iv0[j as int].0,
                            list_insert(iv0[j as int].1, self.entries@, name@, prio as int),
                        ),
                    ));
                    lemma_insert_sorted(iv0[j as int].1, self.entries@, name@, prio as int);
                    lemma_insert_pos_bounds(iv0[j as int].1, self.entries@, prio as int);
                    let old_list = iv0[j as int].1;
                    let new_list = list_insert(old_list, self.entries@, name@, prio as int);
                    let pos = insert_pos(old_list, self.entries@, prio as int);
                    assert(new_list =~= old_list.take(pos) + seq![name@] + old_list.skip(pos));
                    assert forall|p: int, q: int|
                        0 <= p < q < new_list.len() implies (#[trigger] new_list[p]) != (
                    #[trigger] new_list[q]) by {
                        let op = if p < pos { p } else { p - 1 };
                        let oq = if q < pos { q } else { q - 1 };
                        if p == pos {
                            assert(new_list[p] == name@);
                            assert(new_list[q] == old_list[oq]);
                            assert(!list_has(old_list, name@));
                        } else if q == pos {
                            assert(new_list[q] == name@);
                            assert(new_list[p] == old_list[op]);
                            assert(!list_has(old_list, name@));
                        } else {
                            assert(new_list[p] == old_list[op]);
                            assert(new_list[q] == old_list[oq]);
                        }
                    }
                    assert forall|k: int|
                        0 <= k < new_list.len() implies entry_idx(
                        self.entries@,
                        #[trigger] new_list[k],
                    ) is Some by {
                        if k != pos {
                            let ok = if k < pos { k } else { k - 1 };
                            assert(new_list[k] == old_list[ok]);
                        }
                    }
                    assert forall|i: int|
                        0 <= i < index_view(self.index@).len() implies list_sorted(
                        #[trigger] index_view(self.index@)[i].1,
                        self.entries@,
                    ) by {
                        if i != j as int {
                            assert(index_view(self.index@)[i] == iv0[i]);
                        }
                    }
                }
            },
            None => {
                let mut names: Vec<String> = Vec::new();
                names.push(String::from_str(name));
                let entry = IndexEntry { hook: hook.clone(), names };
                self.index.push(entry);
                proof {
                    assert(index_view(self.index@) =~~= iv0.push((hook@, seq![name@])));
                    lemma_iview_idx_absent(iv0, hook@);
                    let iv = index_view(self.index@);
                    assert forall|i: int, j: int|
                        0 <= i < j < iv.len() implies (#[trigger] iv[i].0) != (
                    #[trigger] iv[j].0) by {
                        if j == iv.len() - 1 {
                            assert(iv[i] == iv0[i]);
                            assert(iv[j].0 == hook@);
                        } else {
                            assert(iv[i] == iv0[i]);
                            assert(iv[j] == iv0[j]);
                        }
                    }
                    assert(iv.last().1 =~= seq![name@]);
                    assert(self.wf());
                }
            },
        }
    }

    /// The sorted position for a new name of priority `prio`: after every
    /// name of smaller or equal priority.
    fn insert_position(&self, list: &Vec<String>, prio: u16) -> (pos: usize)
        ensures
            pos as int == insert_pos(
                crate::external::strings_view(list@),
                self.entries@,
                prio as int,
            ),
            pos <= list@.len(),
    {
        let ghost glist = crate::external::strings_view(list@);
        assert(glist.skip(0) =~= glist);
        let n = list.len();
        for i in 0..n
            invariant
                n == list@.len(),
                glist == crate::external::strings_view(list@),
                insert_pos(glist, self.entries@, prio as int) == i + insert_pos(
                    glist.skip(i as int),
                    self.entries@,
                    prio as int,
                ),
        {
            assert(glist.skip(i as int)[0] == glist[i as int]);
            assert(glist.skip(i as int).skip(1) =~= glist.skip(i as int + 1));
            let p = self.priority_of(list[i].as_str());
            if p > prio {
                assert(insert_pos(glist.skip(i as int), self.entries@, prio as int) == 0);
                return i;
            }
        }
        assert(insert_pos(glist.skip(n as int), self.entries@, prio as int) == 0);
        n
    }

    /// The priority registered under `name`; absent names read as the
    /// default.
    fn priority_of(&self, name: &str) -> (p: u16)
        ensures
            p as int == prio_in(self.entries@, name@),
    {
        match self.find_entry(name) {
            Some(j) => self.entries[j].priority.to_u16(),
            None => 500,
        }
    }

    /// The ordered handler names registered for `hook_type`, as a
    /// snapshot: a fire walks this list even if registrations change
    /// meanwhile.
    pub fn fire_names(&self, hook_type: &HookType) -> (r: Vec<String>)
        ensures
            crate::external::strings_view(r@) == names_for(index_view(self.index@), hook_type@),
    {
        match self.find_index(hook_type) {
            Some(j) => {
                let src = &self.index[j].names;
                let mut out: Vec<String> = Vec::new();
                let n = src.len();
                for i in 0..n
                    invariant
                        n == src@.len(),
                        out@.len() == i,
                        forall|k: int| 0 <= k < i ==> (#[trigger] out@[k]@) == src@[k]@,
                {
                    out.push(src[i].clone());
                }
                proof {
                    assert(crate::external::strings_view(out@) =~= crate::external::strings_view(
                        src@,
                    ));
                }
                out
            },
            None => {
                let out: Vec<String> = Vec::new();
                proof {
                    assert(crate::external::strings_view(out@) =~= Seq::<Seq<char>>::empty());
                }
                out
            },
        }
    }

    /// Whether every handler registered for `hook_type` can run without
    /// the host (no script or external-command handlers).
    pub fn can_execute_inline(&self, hook_type: &HookType) -> (r: bool)
        ensures
            r == all_pure(self.entries@, names_for(index_view(self.index@), hook_type@)),
    {
        let names = self.fire_names(hook_type);
        let ghost gnames = names_for(index_view(self.index@), hook_type@);
        let n = names.len();
        for i in 0..n
            invariant
                n == gnames.len(),
                gnames == names_for(index_view(self.index@), hook_type@),
                crate::external::strings_view(names@) == gnames,
                n == names@.len(),
                forall|k: int|
                    0 <= k < i ==> match entry_idx(self.entries@, #[trigger] gnames[k]) {
                        Some(j) => pure_kind(self.entries@[j].kind),
                        None => true,
                    },
        {
            assert(gnames[i as int] == names@[i as int]@);
            match self.find_entry(names[i].as_str()) {
                Some(j) => {
                    let pure = match &self.entries[j].kind {
                        HandlerKind::Script(_) => false,
                        HandlerKind::External(_) => false,
                        _ => true,
                    };
                    if !pure {
                        proof {
                            assert(entry_idx(self.entries@, gnames[i as int]) == Some(j as int));
                            assert(!pure_kind(self.entries@[j as int].kind));
                            assert(!all_pure(self.entries@, gnames)) by {
                                if all_pure(self.entries@, gnames) {
                                    assert(match entry_idx(self.entries@, gnames[i as int]) {
                                        Some(jj) => pure_kind(self.entries@[jj].kind),
                                        None => true,
                                    });
                                }
                            }
                        }
                        return false;
                    }
                },
                None => {},
            }
        }
        true
    }

    /// Fire `hook_type`: run its handlers in order, each observing or
    /// rewriting the data, and return the final data or the error that
    /// aborted the fire.  A disabled dispatcher returns the data
    /// untouched.  The whole fire — result, lifecycle events and history
    /// lines — follows [`fire_steps`] over the registry as it stood at
    /// the call.
    #[verifier::rlimit(100)]
    #[verifier::spinoff_prover]
    pub fn execute(
        &mut self,
        hook_type: &HookType,
        info: &CtxInfo,
        data: Json,
        now_ms: u64,
    ) -> (r: HookResult<Json>)
        requires
            old(self).wf(),
            now_ms <= 0x7fffffffffffffff,
            all_pure(old(self).entries@, names_for(index_view(old(self).index@), hook_type@)),
            forall|k: int|
                0 <= k < old(self).entries@.len() ==> (#[trigger] old(
                    self,
                ).entries@[k]).stats.total_executions < 0xffffffffffffffff,
        ensures
            final(self).wf(),
            index_view(final(self).index@) == index_view(old(self).index@),
            final(self).enabled == old(self).enabled,
            final(self).global_timeout_ms == old(self).global_timeout_ms,
            final(self).max_history == old(self).max_history,
            final(self).entries@.len() == old(self).entries@.len(),
            forall|k: int|
                0 <= k < old(self).entries@.len() ==> entry_after_fire(
                    #[trigger] old(self).entries@[k],
                    final(self).entries@[k],
                    if old(self).enabled {
                        fire_steps(
                            old(self).entries@,
                            names_for(index_view(old(self).index@), hook_type@),
                            *hook_type,
                            data@,
                            info@,
                            now_ms as int,
                        ).runs
                    } else {
                        Seq::empty()
                    },
                    hook_name(hook_type@),
                    info@,
                    now_ms,
                ),
            !old(self).enabled ==> {
                &&& lift_result(r) == Ok::<JsonV, HookErrorV>(data@)
                &&& final(self).lifecycle.events_log() == old(self).lifecycle.events_log()
                &&& history_view(final(self).history@) == history_view(old(self).history@)
                &&& final(self).entries@ == old(self).entries@
            },
            old(self).enabled ==> {
                let t = fire_steps(
                    old(self).entries@,
                    names_for(index_view(old(self).index@), hook_type@),
                    *hook_type,
                    data@,
                    info@,
                    now_ms as int,
                );
                &&& lift_result(r) == t.result
                &&& final(self).lifecycle.events_log() == old(self).lifecycle.events_log()
                    + t.events
                &&& history_view(final(self).history@) == hist_after(
                    history_view(old(self).history@),
                    t.hist,
                    hook_type@,
                    now_ms as int,
                    old(self).max_history as int,
                )
            },
    {
        if !self.enabled {
            proof {
                assert forall|k: int|
                    0 <= k < self.entries@.len() implies entry_after_fire(
                    #[trigger] self.entries@[k],
                    self.entries@[k],
                    Seq::empty(),
                    hook_name(hook_type@),
                    info@,
                    now_ms,
                ) by {
                    assert(run_data(Seq::empty(), self.entries@[k].name@) is None);
                    assert(!was_rate_denied(Seq::empty(), self.entries@[k].name@));
                }
            }
            return Ok(data);
        }
        let ghost entries0 = self.entries@;
        let ghost names0 = names_for(index_view(self.index@), hook_type@);
        let ghost data0 = data@;
        let ghost t = fire_steps(entries0, names0, *hook_type, data0, info@, now_ms as int);
        let ghost lc0 = self.lifecycle.events_log();
        let ghost h0 = history_view(self.history@);
        let ghost iv0 = index_view(self.index@);
        let names = self.fire_names(hook_type);
        let ghost mut ev_done: Seq<EventV> = Seq::empty();
        let ghost mut hist_done: Seq<(Seq<char>, OutcomeTag)> = Seq::empty();
        let ghost mut runs_done: Seq<RunStepV> = Seq::empty();
        proof {
            assert(names0.skip(0) =~= names0);
            assert(lc0 + ev_done =~= lc0);
            match iview_idx(iv0, hook_type@) {
                Some(ji) => {
                    lemma_iview_idx_bounds(iv0, hook_type@);
                },
                None => {},
            }
        }
        let n = names.len();
        let mut current = data;
        let mut i: usize = 0;
        while i < n
            invariant
                i <= n,
                n == names@.len(),
                n == names0.len(),
                crate::external::strings_view(names@) == names0,
                self.wf(),
                self.enabled,
                old(self).enabled,
                now_ms <= 0x7fffffffffffffff,
                entries0 == old(self).entries@,
                iv0 == index_view(old(self).index@),
                self.entries@.len() == entries0.len(),
                index_view(self.index@) == iv0,
                self.global_timeout_ms == old(self).global_timeout_ms,
                self.max_history == old(self).max_history,
                data0 == data@,
                names0 == names_for(iv0, hook_type@),
                t == fire_steps(entries0, names0, *hook_type, data0, info@, now_ms as int),
                lc0 == old(self).lifecycle.events_log(),
                h0 == history_view(old(self).history@),
                all_pure(entries0, names0),
                forall|k: int|
                    0 <= k < entries0.len() ==> (#[trigger] entries0[k]).stats.total_executions
                        < 0xffffffffffffffff,
                forall|p: int, q: int|
                    0 <= p < q < entries0.len() ==> (#[trigger] entries0[p].name@) != (
                    #[trigger] entries0[q].name@),
                forall|p: int, q: int|
                    0 <= p < q < iv0.len() ==> (#[trigger] iv0[p].0) != (#[trigger] iv0[q].0),
                forall|i2: int, k: int|
                    0 <= i2 < iv0.len() && 0 <= k < (#[trigger] iv0[i2].1).len() ==> entry_idx(
                        entries0,
                        #[trigger] iv0[i2].1[k],
                    ) is Some,
                forall|i2: int, p: int, q: int|
                    0 <= i2 < iv0.len() && 0 <= p < q < iv0[i2].1.len() ==> (#[trigger] iv0[i2].1[p])
                        != (#[trigger] iv0[i2].1[q]),
                forall|i2: int| 0 <= i2 < iv0.len() ==> list_sorted(#[trigger] iv0[i2].1, entries0),
                forall|p: int, q: int|
                    0 <= p < q < names0.len() ==> (#[trigger] names0[p]) != (#[trigger] names0[q]),
                forall|k: int|
                    0 <= k < entries0.len() ==> {
                        let e0 = #[trigger] entries0[k];
                        let e1 = self.entries@[k];
                        e1.name@ == e0.name@ && e1.priority.0 == e0.priority.0 && e1.enabled
                            == e0.enabled && e1.stats.wf()
                    },
                forall|k: int|
                    i <= k < names0.len() ==> match entry_idx(entries0, #[trigger] names0[k]) {
                        Some(j) => self.entries@[j] == entries0[j],
                        None => true,
                    },
                forall|k: int|
                    0 <= k < entries0.len() ==> entry_after_fire(
                        #[trigger] entries0[k],
                        self.entries@[k],
                        runs_done,
                        hook_name(hook_type@),
                        info@,
                        now_ms,
                    ),
                forall|k: int|
                    i <= k < names0.len() ==> run_data(runs_done, #[trigger] names0[k]) is None
                        && !was_rate_denied(runs_done, names0[k]),
                self.lifecycle.events_log() == lc0 + ev_done,
                history_view(self.history@) == hist_after(
                    h0,
                    hist_done,
                    hook_type@,
                    now_ms as int,
                    self.max_history as int,
                ),
                ({
                    let rest = fire_steps(
                        entries0,
                        names0.skip(i as int),
                        *hook_type,
                        current@,
                        info@,
                        now_ms as int,
                    );
                    t.result == rest.result && t.events == ev_done + rest.events && t.hist
                        == hist_done + rest.hist && t.runs == runs_done + rest.runs
                }),
            decreases n - i,
        {
            let ghost rest = fire_steps(
                entries0,
                names0.skip(i as int),
                *hook_type,
                current@,
                info@,
                now_ms as int,
            );
            proof {
                assert(names0.skip(i as int)[0] == names0[i as int]);
                assert(names0.skip(i as int).skip(1) =~= names0.skip(i as int + 1));
            }
            let name = names[i].clone();
            assert(name@ == names0[i as int]);
            let ghost rest2_same = fire_steps(
                entries0,
                names0.skip(i as int + 1),
                *hook_type,
                current@,
                info@,
                now_ms as int,
            );
            let j = match self.find_entry(name.as_str()) {
                Some(j) => j,
                None => {
                    proof {
                        lemma_entry_idx_same_names(entries0, self.entries@, name@);
                        assert(rest == rest2_same);
                    }
                    i = i + 1;
                    continue ;
                },
            };
            proof {
                lemma_entry_idx_same_names(entries0, self.entries@, name@);
                assert(entry_idx(entries0, name@) == Some(j as int));
                assert(self.entries@[j as int] == entries0[j as int]);
            }
            let ghost e_spec = entries0[j as int];
            let ghost entries_iter = self.entries@;
            if !self.entries[j].enabled {
                self.lifecycle.skipped(name.as_str(), now_ms);
                proof {
                    let ghost skip_ev = plain_event(name@, HookPhase::Skipped, now_ms as int);
                    let ghost ev_prev = ev_done;
                    let ghost runs_prev = runs_done;
                    let ghost step = RunStepV::Skipped { name: name@ };
                    ev_done = ev_done.push(skip_ev);
                    runs_done = runs_done.push(step);
                    assert(self.lifecycle.events_log() =~= lc0 + ev_done);
                    assert(rest.events == seq![skip_ev] + rest2_same.events);
                    assert(ev_prev + (seq![skip_ev] + rest2_same.events) =~= ev_done
                        + rest2_same.events);
                    assert(rest.runs == seq![step] + rest2_same.runs);
                    assert(runs_prev + (seq![step] + rest2_same.runs) =~= runs_done
                        + rest2_same.runs);
                    assert forall|n2: Seq<char>|
                        #[trigger] run_data(runs_done, n2) == run_data(runs_prev, n2) && (
                    was_rate_denied(runs_done, n2) == was_rate_denied(runs_prev, n2)) by {
                        lemma_run_data_snoc(runs_prev, step, n2);
                        assert(runs_done[runs_prev.len() as int] == step);
                        assert(forall|p: int|
                            0 <= p < runs_prev.len() ==> runs_done[p] == runs_prev[p]);
                    }
                }
                i = i + 1;
                continue ;
            }
            let mut entry = self.entries.remove(j);
            assert(entry == entries0[j as int]);
            assert(entry.stats.total_executions < 0xffffffffffffffff);
            let ghost entries_mid = self.entries@;
            let mut denied = false;
            let mut denied_limit: u32 = 0;
            let mut denied_window: u64 = 0;
            match &mut entry.rate_limit {
                Some(rl) => {
                    let ok = rl.check_and_update(now_ms);
                    if !ok {
                        denied = true;
                        denied_limit = rl.max_calls;
                        denied_window = rl.window_ms;
                    }
                },
                None => {},
            }
            let ghost admit_spec = match e_spec.rate_limit {
                Some(rl) => retained(
                    calls_view(rl.calls@),
                    now_ms as int,
                    rl.window_ms as int,
                ).len() < rl.max_calls,
                None => true,
            };
            if denied {
                self.entries.insert(j, entry);
                proof {
                    assert(self.entries@ =~= entries_mid.insert(j as int, entry));
                    assert(!admit_spec);
                    assert forall|k: int|
                        0 <= k < entries0.len() implies {
                        let e0 = #[trigger] entries0[k];
                        let e1 = self.entries@[k];
                        e1.name@ == e0.name@ && e1.priority.0 == e0.priority.0 && e1.enabled
                            == e0.enabled && e1.stats.wf()
                    } by {}
                    lemma_same_names_wf_all(entries0, self.entries@, iv0);
                    assert forall|p: int, q: int|
                        0 <= p < q < self.entries@.len() implies (
                    #[trigger] self.entries@[p].name@) != (#[trigger] self.entries@[q].name@) by {
                        assert(self.entries@[p].name@ == entries0[p].name@);
                        assert(self.entries@[q].name@ == entries0[q].name@);
                    }
                    assert(self.wf());
                    assert(rest.result == Err::<JsonV, HookErrorV>(
                        HookErrorV::RateLimitExceeded {
                            handler: name@,
                            limit: e_spec.rate_limit->0.max_calls as int,
                            window_ms: e_spec.rate_limit->0.window_ms as int,
                        },
                    ));
                    assert(rest.events =~= Seq::<EventV>::empty());
                    assert(ev_done + rest.events =~= ev_done);
                    assert(hist_done + rest.hist =~= hist_done);
                    assert(t.events == ev_done);
                    assert(t.hist == hist_done);
                    assert(denied_limit == e_spec.rate_limit->0.max_calls);
                    assert(denied_window == e_spec.rate_limit->0.window_ms);
                }
                let err = HookError::rate_limit_exceeded(
                    String::from_str(name.as_str()),
                    denied_limit,
                    denied_window,
                );
                proof {
                    assert(err@ == rest.result->Err_0);
                    assert(lift_result(Err::<Json, HookError>(err)) == t.result);
                    let step = RunStepV::RateDenied { name: name@ };
                    assert(rest.runs == seq![step]);
                    assert(t.runs =~= runs_done.push(step));
                    let runs_final = runs_done.push(step);
                    assert(runs_final[runs_done.len() as int] == step);
                    assert(forall|p: int|
                        0 <= p < runs_done.len() ==> runs_final[p] == runs_done[p]);
                    assert(was_rate_denied(runs_final, name@));
                    lemma_entry_idx_bounds(entries0, name@);
                    assert(entries0[j as int].name@ == name@);
                    assert(run_data(runs_done, names0[i as int]) is None);
                    assert forall|k: int|
                        0 <= k < entries0.len() implies entry_after_fire(
                        #[trigger] entries0[k],
                        self.entries@[k],
                        runs_final,
                        hook_name(hook_type@),
                        info@,
                        now_ms,
                    ) by {
                        lemma_run_data_snoc(runs_done, step, entries0[k].name@);
                        if k == j as int {
                            assert(run_data(runs_done, name@) is None);
                            assert(run_data(runs_final, name@) is None);
                            assert(self.entries@[k].stats == entries0[k].stats);
                            assert(self.entries@[k].kind == entries0[k].kind);
                        } else {
                            assert(entries0[k].name@ != name@);
                            assert(entry_after_fire(
                                entries0[k],
                                self.entries@[k],
                                runs_done,
                                hook_name(hook_type@),
                                info@,
                                now_ms,
                            ));
                            assert(was_rate_denied(runs_final, entries0[k].name@)
                                == was_rate_denied(runs_done, entries0[k].name@));
                        }
                    }
                }
                return Err(err);
            }
            let ghost am0 = self.lifecycle.active_map();
            self.lifecycle.pre_execution(name.as_str(), now_ms);
            self.lifecycle.executing(name.as_str(), now_ms);
            let outcome = run_pure_kind(
                &mut entry.kind,
                info,
                hook_type,
                &current,
                now_ms,
                &mut self.effects,
            );
            proof {
                assert(outcome@ == kind_outcome(
                    e_spec.kind,
                    hook_name(hook_type@),
                    current@,
                    info@,
                    now_ms as int,
                ));
            }
            entry.stats.record_success(0, now_ms);
            self.lifecycle.post_execution(name.as_str(), now_ms);
            proof {
                crate::lifecycle::lemma_active_set_lookup(am0, name@, now_ms as int);
            }
            self.entries.insert(j, entry);
            self.record_history(hook_type, name.as_str(), 0, OutcomeTag::Success, now_ms);
            let ghost ev_prev = ev_done;
            let ghost hist_prev = hist_done;
            let ghost runs_prev = runs_done;
            let ghost run_step = RunStepV::Ran { name: name@, data: current@ };
            proof {
                ev_done = ev_done + run_events(name@, now_ms as int);
                hist_done = hist_done.push((name@, OutcomeTag::Success));
                runs_done = runs_done.push(run_step);
                assert(self.lifecycle.events_log() =~= lc0 + ev_done);
                lemma_hist_after_snoc(
                    h0,
                    hist_prev,
                    (name@, OutcomeTag::Success),
                    hook_type@,
                    now_ms as int,
                    self.max_history as int,
                );
                assert(history_view(self.history@) == hist_after(
                    h0,
                    hist_done,
                    hook_type@,
                    now_ms as int,
                    self.max_history as int,
                ));
                assert(self.entries@ =~= entries_mid.insert(j as int, entry));
                assert forall|k: int|
                    0 <= k < entries0.len() implies {
                    let e0 = #[trigger] entries0[k];
                    let e1 = self.entries@[k];
                    e1.name@ == e0.name@ && e1.priority.0 == e0.priority.0 && e1.enabled
                        == e0.enabled && e1.stats.wf()
                } by {}
                lemma_same_names_wf_all(entries0, self.entries@, iv0);
                assert forall|p: int, q: int|
                    0 <= p < q < self.entries@.len() implies (#[trigger] self.entries@[p].name@)
                        != (#[trigger] self.entries@[q].name@) by {
                    assert(self.entries@[p].name@ == entries0[p].name@);
                    assert(self.entries@[q].name@ == entries0[q].name@);
                }
                assert(self.wf());
                assert forall|k: int|
                    i + 1 <= k < names0.len() implies match entry_idx(
                    entries0,
                    #[trigger] names0[k],
                ) {
                    Some(jj) => self.entries@[jj] == entries0[jj],
                    None => true,
                } by {
                    match entry_idx(entries0, names0[k]) {
                        Some(jj) => {
                            lemma_entry_idx_bounds(entries0, names0[k]);
                            assert(names0[k] != name@);
                            assert(entries0[jj].name@ == names0[k]);
                            lemma_entry_idx_bounds(entries0, name@);
                            assert(entries0[j as int].name@ == name@);
                            assert(jj != j as int);
                            assert(self.entries@[jj] == entries_iter[jj]);
                        },
                        None => {},
                    }
                }
                assert(runs_done[runs_prev.len() as int] == run_step);
                assert(forall|p: int| 0 <= p < runs_prev.len() ==> runs_done[p] == runs_prev[p]);
                assert forall|k: int|
                    i + 1 <= k < names0.len() implies run_data(
                    runs_done,
                    #[trigger] names0[k],
                ) is None && !was_rate_denied(runs_done, names0[k]) by {
                    lemma_run_data_snoc(runs_prev, run_step, names0[k]);
                    assert(names0[k] != name@);
                }
                assert forall|k: int|
                    0 <= k < entries0.len() implies entry_after_fire(
                    #[trigger] entries0[k],
                    self.entries@[k],
                    runs_done,
                    hook_name(hook_type@),
                    info@,
                    now_ms,
                ) by {
                    lemma_run_data_snoc(runs_prev, run_step, entries0[k].name@);
                    if k == j as int {
                        lemma_entry_idx_bounds(entries0, name@);
                        assert(entries0[k].name@ == name@);
                        assert(run_data(runs_prev, name@) is None);
                        assert(run_data(runs_done, name@) == Some(current@));
                        assert(self.entries@[k] == entry);
                        assert(kind_evolves(
                            e_spec.kind,
                            entry.kind,
                            hook_name(hook_type@),
                            current@,
                            info@,
                            now_ms as int,
                        ));
                    } else {
                        assert(entries0[k].name@ != entries0[j as int].name@);
                        lemma_entry_idx_bounds(entries0, name@);
                        assert(entries0[k].name@ != name@);
                        assert(entry_after_fire(
                            entries0[k],
                            self.entries@[k],
                            runs_prev,
                            hook_name(hook_type@),
                            info@,
                            now_ms,
                        ));
                        assert(was_rate_denied(runs_done, entries0[k].name@) == was_rate_denied(
                            runs_prev,
                            entries0[k].name@,
                        ));
                    }
                }
                assert(rest.hist == seq![(name@, OutcomeTag::Success)] + (match kind_outcome(
                    e_spec.kind,
                    hook_name(hook_type@),
                    current@,
                    info@,
                    now_ms as int,
                ) {
                    ResultV::Error { message, details } => Seq::<(Seq<char>, OutcomeTag)>::empty(),
                    ResultV::Stop(d) => Seq::<(Seq<char>, OutcomeTag)>::empty(),
                    ResultV::Replace(d) => fire_steps(
                        entries0,
                        names0.skip(i as int + 1),
                        *hook_type,
                        d,
                        info@,
                        now_ms as int,
                    ).hist,
                    _ => rest2_same.hist,
                }));
            }
            match outcome {
                ExecutionResult::Continue => {
                    proof {
                        assert(rest.events == run_events(name@, now_ms as int)
                            + rest2_same.events);
                        assert(ev_prev + rest.events =~= ev_done + rest2_same.events);
                        assert(hist_prev + rest.hist =~= hist_done + rest2_same.hist);
                        assert(rest.runs == seq![run_step] + rest2_same.runs);
                        assert(runs_prev + rest.runs =~= runs_done + rest2_same.runs);
                    }
                    i = i + 1;
                },
                ExecutionResult::Retry { delay_ms: _, max_attempts: _ } => {
                    proof {
                        assert(rest.events == run_events(name@, now_ms as int)
                            + rest2_same.events);
                        assert(ev_prev + rest.events =~= ev_done + rest2_same.events);
                        assert(hist_prev + rest.hist =~= hist_done + rest2_same.hist);
                        assert(rest.runs == seq![run_step] + rest2_same.runs);
                        assert(runs_prev + rest.runs =~= runs_done + rest2_same.runs);
                    }
                    i = i + 1;
                },
                ExecutionResult::Replace(new_data) => {
                    proof {
                        let rest2 = fire_steps(
                            entries0,
                            names0.skip(i as int + 1),
                            *hook_type,
                            new_data@,
                            info@,
                            now_ms as int,
                        );
                        assert(rest.events == run_events(name@, now_ms as int) + rest2.events);
                        assert(ev_prev + rest.events =~= ev_done + rest2.events);
                        assert(hist_prev + rest.hist =~= hist_done + rest2.hist);
                        assert(rest.runs == seq![run_step] + rest2.runs);
                        assert(runs_prev + rest.runs =~= runs_done + rest2.runs);
                    }
                    current = new_data;
                    i = i + 1;
                },
                ExecutionResult::Stop(d) => {
                    proof {
                        assert(rest.events == run_events(name@, now_ms as int));
                        assert(ev_prev + rest.events =~= ev_done);
                        assert(t.events == ev_done);
                        assert(hist_prev + rest.hist =~= hist_done);
                        assert(t.hist == hist_done);
                        assert(rest.runs == seq![run_step]);
                        assert(runs_prev + rest.runs =~= runs_done);
                        assert(t.runs == runs_done);
                    }
                    let out = match d {
                        Some(v) => v,
                        None => current,
                    };
                    proof {
                        assert(rest.result == Ok::<JsonV, HookErrorV>(out@));
                    }
                    return Ok(out);
                },
                ExecutionResult::Error { message, details: _ } => {
                    proof {
                        assert(rest.events == run_events(name@, now_ms as int));
                        assert(ev_prev + rest.events =~= ev_done);
                        assert(t.events == ev_done);
                        assert(hist_prev + rest.hist =~= hist_done);
                        assert(t.hist == hist_done);
                        assert(rest.runs == seq![run_step]);
                        assert(runs_prev + rest.runs =~= runs_done);
                        assert(t.runs == runs_done);
                        assert(rest.result == Err::<JsonV, HookErrorV>(
                            HookErrorV::ExecutionFailed { handler: name@, source: message@ },
                        ));
                    }
                    let err = HookError::execution_failed(
                        String::from_str(name.as_str()),
                        message,
                    );
                    return Err(err);
                },
            }
        }
        proof {
            assert(names0.skip(n as int) =~= Seq::<Seq<char>>::empty());
            let rest = fire_steps(
                entries0,
                names0.skip(n as int),
                *hook_type,
                current@,
                info@,
                now_ms as int,
            );
            assert(rest.result == Ok::<JsonV, HookErrorV>(current@));
            assert(rest.events =~= Seq::<EventV>::empty());
            assert(ev_done + rest.events =~= ev_done);
            assert(hist_done + rest.hist =~= hist_done);
            assert(t.events == ev_done);
            assert(t.hist == hist_done);
            assert(runs_done + rest.runs =~= runs_done);
            assert(t.runs == runs_done);
        }
        Ok(current)
    }

    /// Unregister the named handler: its entry goes, and every hook
    /// type's list loses its name.  An unknown name is refused and
    /// nothing changes.
    pub fn unregister(&mut self, name: &str) -> (r: HookResult<()>)
        requires
            old(self).wf(),
        ensures
            final(self).wf(),
            final(self).lifecycle.events_log() == old(self).lifecycle.events_log(),
            final(self).enabled == old(self).enabled,
            final(self).global_timeout_ms == old(self).global_timeout_ms,
            history_view(final(self).history@) == history_view(old(self).history@),
            match r {
                Ok(_) => {
                    &&& entry_idx(old(self).entries@, name@) is Some
                    &&& final(self).entries@ == old(self).entries@.remove(
                        entry_idx(old(self).entries@, name@)->0,
                    )
                    &&& index_view(final(self).index@) == unreg_index(
                        index_view(old(self).index@),
                        name@,
                    )
                },
                Err(e) => {
                    &&& entry_idx(old(self).entries@, name@) is None
                    &&& e@ == HookErrorV::HandlerNotFound(name@)
                    &&& final(self).entries@ == old(self).entries@
                    &&& index_view(final(self).index@) == index_view(old(self).index@)
                },
            },
    {
        let ghost entries0 = self.entries@;
        let j = match self.find_entry(name) {
            Some(j) => j,
            None => {
                return Err(HookError::HandlerNotFound(String::from_str(name)));
            },
        };
        let removed = self.entries.remove(j);
        proof {
            lemma_entry_idx_bounds(entries0, name@);
            assert forall|n: Seq<char>| n != name@ implies prio_in(self.entries@, n) == prio_in(
                entries0,
                n,
            ) && (entry_idx(self.entries@, n) is Some <==> entry_idx(entries0, n) is Some) by {
                lemma_entry_idx_remove(entries0, j as int, n);
            }
            assert forall|i: int, k: int|
                0 <= i < j && 0 <= k < j implies self.entries@[i] == entries0[i]
                    && self.entries@[k] == entries0[k] by {}
        }
        let ghost entries1 = self.entries@;
        let ghost iv0 = index_view(self.index@);
        let ghost goal = unreg_index(iv0, name@);
        let ghost lc0 = self.lifecycle;
        let ghost en0 = self.enabled;
        let ghost gt0 = self.global_timeout_ms;
        let ghost hv0 = history_view(self.history@);
        let ghost mh0 = self.max_history;
        let n_index = self.index.len();
        let mut i: usize = 0;
        while i < n_index
            invariant
                n_index == self.index@.len(),
                i <= n_index,
                self.entries@ == entries1,
                self.lifecycle == lc0,
                self.enabled == en0,
                self.global_timeout_ms == gt0,
                history_view(self.history@) == hv0,
                self.max_history == mh0,
                iv0.len() == n_index,
                goal == unreg_index(iv0, name@),
                index_view(self.index@).len() == iv0.len(),
                forall|k: int|
                    i <= k < iv0.len() ==> (#[trigger] index_view(self.index@)[k]) == iv0[k],
                forall|k: int|
                    0 <= k < i ==> (#[trigger] index_view(self.index@)[k]) == goal[k],
                forall|n: Seq<char>|
                    n != name@ ==> #[trigger] prio_in(entries1, n) == prio_in(entries0, n) && (
                    entry_idx(entries1, n) is Some <==> entry_idx(entries0, n) is Some),
                forall|p: int, q: int|
                    0 <= p < q < entries0.len() ==> (#[trigger] entries0[p].name@) != (
                    #[trigger] entries0[q].name@),
                forall|i2: int, k: int|
                    0 <= i2 < iv0.len() && 0 <= k < (#[trigger] iv0[i2].1).len() ==> entry_idx(
                        entries0,
                        #[trigger] iv0[i2].1[k],
                    ) is Some,
                forall|i2: int, p: int, q: int|
                    0 <= i2 < iv0.len() && 0 <= p < q < (#[trigger] iv0[i2].1).len() ==> (
                    #[trigger] iv0[i2].1[p]) != (#[trigger] iv0[i2].1[q]),
                forall|i2: int| 0 <= i2 < iv0.len() ==> list_sorted(#[trigger] iv0[i2].1, entries0),
                forall|i2: int, k: int|
                    0 <= i2 < i && 0 <= k < index_view(self.index@)[i2].1.len() ==> entry_idx(
                        entries1,
                        #[trigger] index_view(self.index@)[i2].1[k],
                    ) is Some,
                forall|i2: int| 0 <= i2 < i ==> list_sorted(
                    #[trigger] index_view(self.index@)[i2].1,
                    entries1,
                ),
                forall|i2: int, p: int, q: int|
                    0 <= i2 < i && 0 <= p < q < index_view(self.index@)[i2].1.len() ==> (
                    #[trigger] index_view(self.index@)[i2].1[p]) != (#[trigger] index_view(
                        self.index@,
                    )[i2].1[q]),
                forall|p: int, q: int|
                    0 <= p < q < iv0.len() ==> (#[trigger] iv0[p].0) != (#[trigger] iv0[q].0),
            decreases n_index - i,
        {
            let ghost iv_before = index_view(self.index@);
            assert(iv_before[i as int] == iv0[i as int]);
            let mut entry = self.index.remove(i);
            let ghost list0 = crate::external::strings_view(entry.names@);
            assert(list0 == iv_before[i as int].1);
            assert(list0 == iv0[i as int].1);
            match find_in_list(&entry.names, name) {
                Some(p) => {
                    entry.names.remove(p);
                    proof {
                        assert(crate::external::strings_view(entry.names@) =~= list0.take(
                            p as int,
                        ) + list0.skip(p as int + 1));
                    }
                },
                None => {
                    proof {
                        assert(crate::external::strings_view(entry.names@) == list0);
                    }
                },
            }
            let ghost new_list = crate::external::strings_view(entry.names@);
            proof {
                assert(new_list == list_drop(list0, name@));
                lemma_list_drop_wf(list0, name@, entries0, entries1, j as int);
            }
            self.index.insert(i, entry);
            proof {
                assert(index_view(self.index@) =~~= iv_before.update(
                    i as int,
                    (iv0[i as int].0, new_list),
                ));
                assert(goal[i as int] == (iv0[i as int].0, list_drop(iv0[i as int].1, name@)));
            }
            i = i + 1;
        }
        proof {
            assert(index_view(self.index@) =~= goal);
            assert forall|a: int, b: int|
                0 <= a < b < index_view(self.index@).len() implies (#[trigger] index_view(
                self.index@,
            )[a].0) != (#[trigger] index_view(self.index@)[b].0) by {
                assert(index_view(self.index@)[a].0 == iv0[a].0);
                assert(index_view(self.index@)[b].0 == iv0[b].0);
            }
            assert forall|p: int, q: int|
                0 <= p < q < self.entries@.len() implies (#[trigger] self.entries@[p].name@) != (
            #[trigger] self.entries@[q].name@) by {
                lemma_remove_unique(entries0, j as int, p, q);
            }
            assert(self.wf());
        }
        Ok(())
    }

    /// Enable or disable the named handler; unknown names are refused.
    pub fn set_handler_enabled(&mut self, name: &str, enabled: bool) -> (r: HookResult<()>)
        requires
            old(self).wf(),
        ensures
            final(self).wf(),
            index_view(final(self).index@) == index_view(old(self).index@),
            final(self).lifecycle.events_log() == old(self).lifecycle.events_log(),
            final(self).enabled == old(self).enabled,
            final(self).global_timeout_ms == old(self).global_timeout_ms,
            history_view(final(self).history@) == history_view(old(self).history@),
            match r {
                Ok(_) => {
                    &&& entry_idx(old(self).entries@, name@) is Some
                    &&& final(self).entries@.len() == old(self).entries@.len()
                    &&& (forall|k: int|
                        0 <= k < old(self).entries@.len() && k != entry_idx(
                            old(self).entries@,
                            name@,
                        )->0 ==> final(self).entries@[k] == old(self).entries@[k])
                    &&& {
                        let j = entry_idx(old(self).entries@, name@)->0;
                        let e0 = old(self).entries@[j];
                        let e1 = final(self).entries@[j];
                        e1.name@ == e0.name@ && e1.kind == e0.kind && e1.priority.0 == e0.priority.0
                            && e1.stats == e0.stats && e1.enabled == enabled && (
                        e1.rate_limit is Some <==> e0.rate_limit is Some)
                    }
                },
                Err(e) => {
                    &&& entry_idx(old(self).entries@, name@) is None
                    &&& e@ == HookErrorV::HandlerNotFound(name@)
                    &&& final(self).entries@ == old(self).entries@
                },
            },
    {
        let ghost entries0 = self.entries@;
        let j = match self.find_entry(name) {
            Some(j) => j,
            None => {
                return Err(HookError::HandlerNotFound(String::from_str(name)));
            },
        };
        let mut e = self.entries.remove(j);
        e.enabled = enabled;
        self.entries.insert(j, e);
        proof {
            lemma_update_entry_wf(entries0, self.entries@, j as int);
            lemma_same_names_wf(entries0, self.entries@, index_view(self.index@));
        }
        Ok(())
    }

    /// Set a sliding-window rate limit on the named handler, replacing
    /// any earlier window; unknown names are refused.
    pub fn set_rate_limit(&mut self, name: &str, max_calls: u32, window_ms: u64) -> (r: HookResult<
        (),
    >)
        requires
            old(self).wf(),
        ensures
            final(self).wf(),
            index_view(final(self).index@) == index_view(old(self).index@),
            final(self).lifecycle.events_log() == old(self).lifecycle.events_log(),
            final(self).enabled == old(self).enabled,
            final(self).global_timeout_ms == old(self).global_timeout_ms,
            history_view(final(self).history@) == history_view(old(self).history@),
            match r {
                Ok(_) => {
                    &&& entry_idx(old(self).entries@, name@) is Some
                    &&& final(self).entries@.len() == old(self).entries@.len()
                    &&& (forall|k: int|
                        0 <= k < old(self).entries@.len() && k != entry_idx(
                            old(self).entries@,
                            name@,
                        )->0 ==> final(self).entries@[k] == old(self).entries@[k])
                    &&& {
                        let j = entry_idx(old(self).entries@, name@)->0;
                        let e0 = old(self).entries@[j];
                        let e1 = final(self).entries@[j];
                        e1.name@ == e0.name@ && e1.kind == e0.kind && e1.priority.0 == e0.priority.0
                            && e1.stats == e0.stats && e1.enabled == e0.enabled
                            && e1.rate_limit is Some && e1.rate_limit->0.max_calls == max_calls
                            && e1.rate_limit->0.window_ms == window_ms && calls_view(
                            e1.rate_limit->0.calls@,
                        ) == Seq::<int>::empty()
                    }
                },
                Err(e) => {
                    &&& entry_idx(old(self).entries@, name@) is None
                    &&& e@ == HookErrorV::HandlerNotFound(name@)
                    &&& final(self).entries@ == old(self).entries@
                },
            },
    {
        let ghost entries0 = self.entries@;
        let j = match self.find_entry(name) {
            Some(j) => j,
            None => {
                return Err(HookError::HandlerNotFound(String::from_str(name)));
            },
        };
        let mut e = self.entries.remove(j);
        e.rate_limit = Some(RateLimitState::new(max_calls, window_ms));
        self.entries.insert(j, e);
        proof {
            lemma_update_entry_wf(entries0, self.entries@, j as int);
            lemma_same_names_wf(entries0, self.entries@, index_view(self.index@));
        }
        Ok(())
    }

    /// The statistics of the named handler, where it exists.
    pub fn get_stats(&self, name: &str) -> (r: Option<HookStats>)
        ensures
            match r {
                Some(s) => entry_idx(self.entries@, name@) is Some && s == self.entries@[entry_idx(
                    self.entries@,
                    name@,
                )->0].stats,
                None => entry_idx(self.entries@, name@) is None,
            },
    {
        match self.find_entry(name) {
            Some(j) => Some(self.entries[j].stats.clone()),
            None => None,
        }
    }

    /// Every registered handler: its name, exactly the hook types whose
    /// lists carry it (in index order), its priority and whether it is
    /// enabled.
    pub fn list_handlers(&self) -> (r: Vec<(String, Vec<HookType>, HookPriority, bool)>)
        ensures
            r@.len() == self.entries@.len(),
            forall|k: int|
                0 <= k < r@.len() ==> {
                    let e = #[trigger] self.entries@[k];
                    let t = #[trigger] r@[k];
                    t.0@ == e.name@ && t.2.0 == e.priority.0 && t.3 == e.enabled && hook_tags(
                        t.1@,
                    ) == hooks_subscribed(index_view(self.index@), e.name@)
                },
    {
        let mut out: Vec<(String, Vec<HookType>, HookPriority, bool)> = Vec::new();
        let n = self.entries.len();
        for k in 0..n
            invariant
                n == self.entries@.len(),
                out@.len() == k,
                forall|p: int|
                    0 <= p < k ==> {
                        let e = #[trigger] self.entries@[p];
                        let t = #[trigger] out@[p];
                        t.0@ == e.name@ && t.2.0 == e.priority.0 && t.3 == e.enabled && hook_tags(
                            t.1@,
                        ) == hooks_subscribed(index_view(self.index@), e.name@)
                    },
        {
            let e = &self.entries[k];
            let ghost iv = index_view(self.index@);
            let mut hooks: Vec<HookType> = Vec::new();
            proof {
                assert(iv.skip(0) =~= iv);
            }
            let m = self.index.len();
            for i in 0..m
                invariant
                    m == self.index@.len(),
                    iv == index_view(self.index@),
                    hooks_subscribed(iv, self.entries@[k as int].name@) == hook_tags(hooks@)
                        + hooks_subscribed(iv.skip(i as int), self.entries@[k as int].name@),
                    k < n,
                    n == self.entries@.len(),
                    e == &self.entries@[k as int],
            {
                assert(iv.skip(i as int)[0] == iv[i as int]);
                assert(iv.skip(i as int).skip(1) =~= iv.skip(i as int + 1));
                let ghost ghooks = hook_tags(hooks@);
                if list_contains(&self.index[i].names, e.name.as_str()) {
                    hooks.push(self.index[i].hook.clone());
                    assert(hook_tags(hooks@) =~= ghooks + seq![iv[i as int].0]);
                    assert(ghooks + (seq![iv[i as int].0] + hooks_subscribed(
                        iv.skip(i as int + 1),
                        self.entries@[k as int].name@,
                    )) =~= hook_tags(hooks@) + hooks_subscribed(
                        iv.skip(i as int + 1),
                        self.entries@[k as int].name@,
                    ));
                } else {
                    assert(ghooks + (Seq::<(int, Seq<char>)>::empty() + hooks_subscribed(
                        iv.skip(i as int + 1),
                        self.entries@[k as int].name@,
                    )) =~= hook_tags(hooks@) + hooks_subscribed(
                        iv.skip(i as int + 1),
                        self.entries@[k as int].name@,
                    ));
                }
            }
            proof {
                assert(hooks_subscribed(iv.skip(m as int), self.entries@[k as int].name@)
                    =~= Seq::<(int, Seq<char>)>::empty());
                assert(hook_tags(hooks@) + hooks_subscribed(
                    iv.skip(m as int),
                    self.entries@[k as int].name@,
                ) =~= hook_tags(hooks@));
            }
            out.push((e.name.clone(), hooks, e.priority, e.enabled));
        }
        out
    }

    /// Set the per-handler execution timeout.
    pub fn set_global_timeout(&mut self, timeout_ms: u64)
        ensures
            *final(self) == (HookManager { global_timeout_ms: timeout_ms, ..*old(self) }),
    {
        self.global_timeout_ms = timeout_ms;
    }

    /// Switch all dispatching on or off.
    pub fn set_enabled(&mut self, enabled: bool)
        ensures
            *final(self) == (HookManager { enabled, ..*old(self) }),
    {
        self.enabled = enabled;
    }

    /// The lifecycle log and active-execution tracking.
    pub fn lifecycle(&self) -> (r: &HookLifecycle)
        ensures
            r == &self.lifecycle,
    {
        &self.lifecycle
    }

    /// Append one line to the history ring, evicting the oldest past the
    /// bound.
    fn record_history(
        &mut self,
        hook_type: &HookType,
        handler: &str,
        duration_ns: u64,
        outcome: OutcomeTag,
        now_ms: u64,
    )
        requires
            old(self).max_history >= 1,
            old(self).history@.len() <= old(self).max_history,
        ensures
            final(self).history@.len() <= final(self).max_history,
            final(self).entries@ == old(self).entries@,
            final(self).index@ == old(self).index@,
            final(self).lifecycle == old(self).lifecycle,
            final(self).enabled == old(self).enabled,
            final(self).global_timeout_ms == old(self).global_timeout_ms,
            final(self).max_history == old(self).max_history,
            history_view(final(self).history@) == ring_push(
                history_view(old(self).history@),
                HistV {
                    timestamp_ms: now_ms as int,
                    hook: hook_type@,
                    handler: handler@,
                    duration_ns: duration_ns as int,
                    outcome,
                },
                old(self).max_history as int,
            ),
    {
        let ghost h0 = history_view(self.history@);
        let entry = HistoryEntry {
            timestamp_ms: now_ms,
            hook_type: hook_type.clone(),
            handler: String::from_str(handler),
            duration_ns,
            outcome,
        };
        let ghost gv = entry@;
        self.history.push(entry);
        proof {
            assert(history_view(self.history@) =~= h0.push(gv));
        }
        if self.history.len() > self.max_history {
            let ghost h1 = history_view(self.history@);
            self.history.remove(0);
            proof {
                assert(history_view(self.history@) =~= h1.skip(1));
                assert(h1.skip(1) =~= ring_push(h0, gv, self.max_history as int));
            }
        }
    }

    /// The newest history lines, newest first, at most `limit` of them
    /// (everything, without a limit): handler name, duration in
    /// nanoseconds, and the outcome tag's text.
    pub fn get_history(&self, limit: Option<usize>) -> (r: Vec<(String, u64, String)>)
        ensures
            r@.len() <= history_view(self.history@).len(),
            (match limit {
                Some(l) => r@.len() <= l,
                None => true,
            }),
            forall|k: int|
                0 <= k < r@.len() ==> {
                    let h = history_view(self.history@)[history_view(self.history@).len() - 1 - k];
                    let t = #[trigger] r@[k];
                    t.0@ == h.handler && t.1 as int == h.duration_ns && t.2@ == outcome_text(
                        h.outcome,
                    )
                },
    {
        let total = self.history.len();
        let count = match limit {
            Some(l) => {
                if l < total {
                    l
                } else {
                    total
                }
            },
            None => total,
        };
        let mut out: Vec<(String, u64, String)> = Vec::new();
        for k in 0..count
            invariant
                count <= total,
                total == self.history@.len(),
                out@.len() == k,
                forall|p: int|
                    0 <= p < k ==> {
                        let h = history_view(self.history@)[history_view(self.history@).len() - 1
                            - p];
                        let t = #[trigger] out@[p];
                        t.0@ == h.handler && t.1 as int == h.duration_ns && t.2@ == outcome_text(
                            h.outcome,
                        )
                    },
        {
            let e = &self.history[total - 1 - k];
            let tag = match e.outcome {
                OutcomeTag::Success => String::from_str("success"),
                OutcomeTag::Error => String::from_str("error"),
                OutcomeTag::Timeout => String::from_str("timeout"),
            };
            out.push((e.handler.clone(), e.duration_ns, tag));
        }
        out
    }
}

/// The text of an outcome tag.
pub open spec fn outcome_text(t: OutcomeTag) -> Seq<char> {
    match t {
        OutcomeTag::Success => "success"@,
        OutcomeTag::Error => "error"@,
        OutcomeTag::Timeout => "timeout"@,
    }
}

/// The first position of `name` in a name vector.
fn find_in_list(list: &Vec<String>, name: &str) -> (r: Option<usize>)
    ensures
        match r {
            Some(p) => first_idx(crate::external::strings_view(list@), name@) == Some(p as int) && p
                < list@.len(),
            None => first_idx(crate::external::strings_view(list@), name@) is None,
        },
{
    let ghost glist = crate::external::strings_view(list@);
    let n = list.len();
    for i in 0..n
        invariant
            n == list@.len(),
            glist == crate::external::strings_view(list@),
            forall|k: int| 0 <= k < i ==> (#[trigger] glist[k]) != name@,
    {
        if str_eq(list[i].as_str(), name) {
            proof {
                lemma_first_idx_at(glist, name@, i as int);
            }
            return Some(i);
        }
    }
    proof {
        lemma_first_idx_none(glist, name@);
    }
    None
}

/// A name found at the first position among distinct prefixes resolves
/// there.
proof fn lemma_first_idx_at(list: Seq<Seq<char>>, n: Seq<char>, i: int)
    requires
        0 <= i < list.len(),
        list[i] == n,
        forall|k: int| 0 <= k < i ==> (#[trigger] list[k]) != n,
    ensures
        first_idx(list, n) == Some(i),
    decreases i,
{
    if i == 0 {
    } else {
        assert(list.skip(1)[i - 1] == list[i]);
        assert forall|k: int| 0 <= k < i - 1 implies (#[trigger] list.skip(1)[k]) != n by {
            assert(list.skip(1)[k] == list[k + 1]);
        }
        lemma_first_idx_at(list.skip(1), n, i - 1);
    }
}

/// A name absent everywhere does not resolve.
proof fn lemma_first_idx_none(list: Seq<Seq<char>>, n: Seq<char>)
    requires
        forall|k: int| 0 <= k < list.len() ==> (#[trigger] list[k]) != n,
    ensures
        first_idx(list, n) is None,
    decreases list.len(),
{
    if list.len() > 0 {
        assert forall|k: int|
            0 <= k < list.skip(1).len() implies (#[trigger] list.skip(1)[k]) != n by {
            assert(list.skip(1)[k] == list[k + 1]);
        }
        lemma_first_idx_none(list.skip(1), n);
    }
}

/// A resolved first position is in range and holds the name, with nothing
/// equal before it.
proof fn lemma_first_idx_bounds(list: Seq<Seq<char>>, n: Seq<char>)
    requires
        first_idx(list, n) is Some,
    ensures
        0 <= first_idx(list, n)->0 < list.len(),
        list[first_idx(list, n)->0] == n,
        forall|k: int| 0 <= k < first_idx(list, n)->0 ==> (#[trigger] list[k]) != n,
    decreases list.len(),
{
    if list.len() > 0 && list[0] != n {
        lemma_first_idx_bounds(list.skip(1), n);
        let j = first_idx(list.skip(1), n)->0;
        assert(list.skip(1)[j] == list[j + 1]);
        assert forall|k: int|
            0 <= k < first_idx(list, n)->0 implies (#[trigger] list[k]) != n by {
            if k > 0 {
                assert(list[k] == list.skip(1)[k - 1]);
            }
        }
    }
}

/// Dropping a name from a sorted unique list of resolvable names keeps it
/// sorted, unique, free of that name, and resolvable in the registry
/// without the dropped entry.
proof fn lemma_list_drop_wf(
    list: Seq<Seq<char>>,
    name: Seq<char>,
    entries0: Seq<HandlerEntry>,
    entries1: Seq<HandlerEntry>,
    j: int,
)
    requires
        list_sorted(list, entries0),
        forall|p: int, q: int| 0 <= p < q < list.len() ==> (#[trigger] list[p]) != (
        #[trigger] list[q]),
        forall|k: int| 0 <= k < list.len() ==> entry_idx(entries0, #[trigger] list[k]) is Some,
        forall|n: Seq<char>|
            n != name ==> #[trigger] prio_in(entries1, n) == prio_in(entries0, n) && (entry_idx(
                entries1,
                n,
            ) is Some <==> entry_idx(entries0, n) is Some),
    ensures
        forall|k: int|
            0 <= k < list_drop(list, name).len() ==> (#[trigger] list_drop(list, name)[k]) != name,
        forall|k: int|
            0 <= k < list_drop(list, name).len() ==> entry_idx(
                entries1,
                #[trigger] list_drop(list, name)[k],
            ) is Some,
        list_sorted(list_drop(list, name), entries1),
        forall|p: int, q: int|
            0 <= p < q < list_drop(list, name).len() ==> (#[trigger] list_drop(list, name)[p]) != (
            #[trigger] list_drop(list, name)[q]),
{
    let out = list_drop(list, name);
    match first_idx(list, name) {
        Some(pos) => {
            lemma_first_idx_bounds(list, name);
            assert(out =~= list.take(pos) + list.skip(pos + 1));
            assert forall|k: int| 0 <= k < out.len() implies (#[trigger] out[k]) != name by {
                if k < pos {
                    assert(out[k] == list[k]);
                } else {
                    assert(out[k] == list[k + 1]);
                    assert(list[pos] == name);
                }
            }
            assert forall|k: int|
                0 <= k < out.len() implies entry_idx(entries1, #[trigger] out[k]) is Some by {
                let ok = if k < pos {
                    k
                } else {
                    k + 1
                };
                assert(out[k] == list[ok]);
                assert(out[k] != name);
                assert(prio_in(entries1, out[k]) == prio_in(entries0, out[k]));
            }
            assert forall|p: int, q: int|
                0 <= p < q < out.len() implies prio_in(entries1, out[p]) <= prio_in(
                entries1,
                out[q],
            ) by {
                let op = if p < pos {
                    p
                } else {
                    p + 1
                };
                let oq = if q < pos {
                    q
                } else {
                    q + 1
                };
                assert(out[p] == list[op]);
                assert(out[q] == list[oq]);
                assert(out[p] != name && out[q] != name);
                assert(prio_in(entries1, out[p]) == prio_in(entries0, out[p]));
                assert(prio_in(entries1, out[q]) == prio_in(entries0, out[q]));
                assert(prio_in(entries0, list[op]) <= prio_in(entries0, list[oq]));
            }
            assert forall|p: int, q: int|
                0 <= p < q < out.len() implies (#[trigger] out[p]) != (#[trigger] out[q]) by {
                let op = if p < pos {
                    p
                } else {
                    p + 1
                };
                let oq = if q < pos {
                    q
                } else {
                    q + 1
                };
                assert(out[p] == list[op]);
                assert(out[q] == list[oq]);
            }
        },
        None => {
            lemma_first_idx_none_has(list, name);
            assert forall|k: int|
                0 <= k < out.len() implies entry_idx(entries1, #[trigger] out[k]) is Some by {
                assert(out[k] != name);
                assert(prio_in(entries1, out[k]) == prio_in(entries0, out[k]));
            }
            assert forall|p: int, q: int|
                0 <= p < q < out.len() implies prio_in(entries1, out[p]) <= prio_in(
                entries1,
                out[q],
            ) by {
                assert(out[p] != name && out[q] != name);
                assert(prio_in(entries1, out[p]) == prio_in(entries0, out[p]));
                assert(prio_in(entries1, out[q]) == prio_in(entries0, out[q]));
                assert(prio_in(entries0, list[p]) <= prio_in(entries0, list[q]));
            }
        },
    }
}

/// An unresolved first position means the name is nowhere in the list.
proof fn lemma_first_idx_none_has(list: Seq<Seq<char>>, n: Seq<char>)
    requires
        first_idx(list, n) is None,
    ensures
        forall|k: int| 0 <= k < list.len() ==> (#[trigger] list[k]) != n,
    decreases list.len(),
{
    if list.len() > 0 {
        lemma_first_idx_none_has(list.skip(1), n);
        assert forall|k: int| 0 <= k < list.len() implies (#[trigger] list[k]) != n by {
            if k > 0 {
                assert(list[k] == list.skip(1)[k - 1]);
            }
        }
    }
}

/// Removing the entry at `j`: other names keep their resolution and
/// priority.
proof fn lemma_entry_idx_remove(entries: Seq<HandlerEntry>, j: int, n: Seq<char>)
    requires
        0 <= j < entries.len(),
        n != entries[j].name@,
    ensures
        prio_in(entries.remove(j), n) == prio_in(entries, n),
        entry_idx(entries.remove(j), n) is Some <==> entry_idx(entries, n) is Some,
    decreases j,
{
    let r = entries.remove(j);
    if j == 0 {
        assert(r =~= entries.skip(1));
        assert(entries[0].name@ != n);
        match entry_idx(entries.skip(1), n) {
            Some(k) => {
                lemma_entry_idx_bounds(entries.skip(1), n);
                assert(entries.skip(1)[k] == entries[k + 1]);
            },
            None => {},
        }
    } else {
        assert(r[0] == entries[0]);
        assert(r.skip(1) =~= entries.skip(1).remove(j - 1));
        assert(entries.skip(1)[j - 1] == entries[j]);
        lemma_entry_idx_remove(entries.skip(1), j - 1, n);
        if entries[0].name@ != n {
            match entry_idx(entries.skip(1), n) {
                Some(k) => {
                    lemma_entry_idx_bounds(entries.skip(1), n);
                    lemma_entry_idx_bounds(entries.skip(1).remove(j - 1), n);
                },
                None => {},
            }
        }
    }
}

/// Names distinct before a removal stay distinct after it.
proof fn lemma_remove_unique(entries: Seq<HandlerEntry>, j: int, p: int, q: int)
    requires
        0 <= j < entries.len(),
        forall|a: int, b: int|
            0 <= a < b < entries.len() ==> (#[trigger] entries[a].name@) != (
            #[trigger] entries[b].name@),
        0 <= p < q < entries.remove(j).len(),
    ensures
        entries.remove(j)[p].name@ != entries.remove(j)[q].name@,
{
    let op = if p < j {
        p
    } else {
        p + 1
    };
    let oq = if q < j {
        q
    } else {
        q + 1
    };
    assert(entries.remove(j)[p] == entries[op]);
    assert(entries.remove(j)[q] == entries[oq]);
}

/// Replacing the entry at `j` with one of the same name and priority
/// keeps every lookup and priority reading.
proof fn lemma_update_entry_wf(entries0: Seq<HandlerEntry>, entries1: Seq<HandlerEntry>, j: int)
    requires
        0 <= j < entries0.len(),
        entries1.len() == entries0.len(),
        forall|k: int| 0 <= k < entries0.len() && k != j ==> (#[trigger] entries1[k]) == entries0[k],
        entries1[j].name@ == entries0[j].name@,
        entries1[j].priority.0 == entries0[j].priority.0,
    ensures
        forall|n: Seq<char>|
            #[trigger] entry_idx(entries1, n) == entry_idx(entries0, n) && prio_in(entries1, n)
                == prio_in(entries0, n),
    decreases entries0.len(),
{
    assert forall|n: Seq<char>|
        #[trigger] entry_idx(entries1, n) == entry_idx(entries0, n) && prio_in(entries1, n)
            == prio_in(entries0, n) by {
        lemma_entry_idx_same_names(entries0, entries1, n);
        match entry_idx(entries0, n) {
            Some(k) => {
                lemma_entry_idx_bounds(entries0, n);
                if k != j {
                    assert(entries1[k] == entries0[k]);
                }
            },
            None => {},
        }
    }
}

/// Lookups agree on lists whose names agree position by position.
proof fn lemma_entry_idx_same_names(
    entries0: Seq<HandlerEntry>,
    entries1: Seq<HandlerEntry>,
    n: Seq<char>,
)
    requires
        entries1.len() == entries0.len(),
        forall|k: int|
            0 <= k < entries0.len() ==> (#[trigger] entries1[k].name@) == entries0[k].name@,
    ensures
        entry_idx(entries1, n) == entry_idx(entries0, n),
    decreases entries0.len(),
{
    if entries0.len() > 0 {
        assert(entries1[0].name@ == entries0[0].name@);
        assert forall|k: int|
            0 <= k < entries0.skip(1).len() implies (#[trigger] entries1.skip(1)[k].name@)
                == entries0.skip(1)[k].name@ by {
            assert(entries1.skip(1)[k] == entries1[k + 1]);
            assert(entries0.skip(1)[k] == entries0[k + 1]);
        }
        lemma_entry_idx_same_names(entries0.skip(1), entries1.skip(1), n);
    }
}

/// A registry whose names and priorities are unchanged keeps the index
/// well formed.
proof fn lemma_same_names_wf(
    entries0: Seq<HandlerEntry>,
    entries1: Seq<HandlerEntry>,
    iv: Seq<((int, Seq<char>), Seq<Seq<char>>)>,
)
    requires
        forall|n: Seq<char>|
            #[trigger] entry_idx(entries1, n) == entry_idx(entries0, n) && prio_in(entries1, n)
                == prio_in(entries0, n),
        forall|i: int, k: int|
            0 <= i < iv.len() && 0 <= k < (#[trigger] iv[i].1).len() ==> entry_idx(
                entries0,
                #[trigger] iv[i].1[k],
            ) is Some,
        forall|i: int| 0 <= i < iv.len() ==> list_sorted(#[trigger] iv[i].1, entries0),
    ensures
        forall|i: int, k: int|
            0 <= i < iv.len() && 0 <= k < (#[trigger] iv[i].1).len() ==> entry_idx(
                entries1,
                #[trigger] iv[i].1[k],
            ) is Some,
        forall|i: int| 0 <= i < iv.len() ==> list_sorted(#[trigger] iv[i].1, entries1),
{
    assert forall|i: int| 0 <= i < iv.len() implies list_sorted(#[trigger] iv[i].1, entries1) by {
        assert forall|p: int, q: int|
            0 <= p < q < iv[i].1.len() implies prio_in(entries1, iv[i].1[p]) <= prio_in(
            entries1,
            iv[i].1[q],
        ) by {
            assert(prio_in(entries0, iv[i].1[p]) <= prio_in(entries0, iv[i].1[q]));
        }
    }
}


/// What the host must do next for one handler of a fire it drives.
#[derive(Debug)]
pub enum HostBegin {
    /// The handler is gone, disabled or declined to run: move on.
    Skip,
    /// The handler's window is full: abort the fire with this error.
    RateDenied(HookError),
    /// Run the handler and report through [`HookManager::apply_host_outcome`].
    Run,
}

/// How a host-driven fire proceeds after one handler.
#[derive(Debug)]
pub enum HostStep {
    /// Run the next handler with this data.
    Continue(Json),
    /// The fire is over; this is its final data.
    Stop(Json),
    /// The fire aborted with this error.
    Abort(HookError),
}

impl HookManager {
    /// The named handler's implementation, for the host to build scripts,
    /// argument vectors and environments from.
    pub fn get_kind(&self, name: &str) -> (r: Option<&HandlerKind>)
        ensures
            match r {
                Some(k) => entry_idx(self.entries@, name@) is Some && *k == self.entries@[
                    entry_idx(self.entries@, name@)->0
                ].kind,
                None => entry_idx(self.entries@, name@) is None,
            },
    {
        match self.find_entry(name) {
            Some(j) => Some(&self.entries[j].kind),
            None => None,
        }
    }

    /// Start one handler of a host-driven fire, as the dispatcher's own
    /// loop would: a missing or disabled entry (or a false `should_run`,
    /// which the host evaluates) is skipped; a full window aborts; and a
    /// handler that is to run gets its `Pre` and `Executing` events, its
    /// window admission recorded, and its `Pre` timestamp tracked.
    pub fn begin_host_handler(&mut self, name: &str, should_run: bool, now_ms: u64) -> (r:
        HostBegin)
        requires
            old(self).wf(),
        ensures
            final(self).wf(),
            index_view(final(self).index@) == index_view(old(self).index@),
            final(self).enabled == old(self).enabled,
            final(self).global_timeout_ms == old(self).global_timeout_ms,
            final(self).max_history == old(self).max_history,
            history_view(final(self).history@) == history_view(old(self).history@),
            final(self).entries@.len() == old(self).entries@.len(),
            forall|k: int|
                0 <= k < old(self).entries@.len() && (entry_idx(old(self).entries@, name@)
                    is Some ==> k != entry_idx(old(self).entries@, name@)->0) ==> (
                #[trigger] final(self).entries@[k]) == old(self).entries@[k],
            entry_idx(old(self).entries@, name@) is None ==> r is Skip && final(self).entries@
                == old(self).entries@ && final(self).lifecycle.events_log() == old(
                self,
            ).lifecycle.events_log(),
            entry_idx(old(self).entries@, name@) matches Some(j) ==> {
                let e0 = old(self).entries@[j];
                let e1 = final(self).entries@[j];
                &&& e1.name@ == e0.name@
                &&& e1.priority.0 == e0.priority.0
                &&& e1.enabled == e0.enabled
                &&& e1.stats == e0.stats
                &&& e1.kind == e0.kind
                &&& if !e0.enabled {
                    &&& r is Skip
                    &&& e1 == e0
                    &&& final(self).lifecycle.events_log() == old(self).lifecycle.events_log().push(
                        plain_event(name@, HookPhase::Skipped, now_ms as int),
                    )
                } else {
                    let admit_ok = match e0.rate_limit {
                        Some(rl) => retained(
                            calls_view(rl.calls@),
                            now_ms as int,
                            rl.window_ms as int,
                        ).len() < rl.max_calls,
                        None => true,
                    };
                    &&& (match e0.rate_limit {
                        Some(rl) => e1.rate_limit matches Some(rl2) && rl2.max_calls
                            == rl.max_calls && rl2.window_ms == rl.window_ms && calls_view(
                            rl2.calls@,
                        ) == (if admit_ok {
                            retained(
                                calls_view(rl.calls@),
                                now_ms as int,
                                rl.window_ms as int,
                            ).push(now_ms as int)
                        } else {
                            retained(calls_view(rl.calls@), now_ms as int, rl.window_ms as int)
                        }),
                        None => e1.rate_limit is None,
                    })
                    &&& if !admit_ok {
                        &&& r matches HostBegin::RateDenied(e) && e@ == (
                        HookErrorV::RateLimitExceeded {
                            handler: name@,
                            limit: e0.rate_limit->0.max_calls as int,
                            window_ms: e0.rate_limit->0.window_ms as int,
                        })
                        &&& final(self).lifecycle.events_log() == old(self).lifecycle.events_log()
                    } else if !should_run {
                        &&& r is Skip
                        &&& final(self).lifecycle.events_log() == old(self).lifecycle.events_log().push(
                            plain_event(name@, HookPhase::Skipped, now_ms as int),
                        )
                    } else {
                        &&& r is Run
                        &&& final(self).lifecycle.events_log() == old(self).lifecycle.events_log().push(
                            plain_event(name@, HookPhase::PreExecution, now_ms as int),
                        ).push(plain_event(name@, HookPhase::Executing, now_ms as int))
                        &&& final(self).lifecycle.active_map() == crate::lifecycle::active_set(
                            old(self).lifecycle.active_map(),
                            name@,
                            now_ms as int,
                        )
                    }
                }
            },
    {
        let ghost entries0 = self.entries@;
        let j = match self.find_entry(name) {
            Some(j) => j,
            None => {
                return HostBegin::Skip;
            },
        };
        if !self.entries[j].enabled {
            self.lifecycle.skipped(name, now_ms);
            return HostBegin::Skip;
        }
        let mut entry = self.entries.remove(j);
        let ghost entries_mid = self.entries@;
        let mut denied = false;
        let mut denied_limit: u32 = 0;
        let mut denied_window: u64 = 0;
        match &mut entry.rate_limit {
            Some(rl) => {
                let ok = rl.check_and_update(now_ms);
                if !ok {
                    denied = true;
                    denied_limit = rl.max_calls;
                    denied_window = rl.window_ms;
                }
            },
            None => {},
        }
        self.entries.insert(j, entry);
        proof {
            assert(self.entries@ =~= entries_mid.insert(j as int, self.entries@[j as int]));
            assert forall|k: int|
                0 <= k < entries0.len() && k != j as int implies self.entries@[k] == entries0[k] by {}
            assert forall|k: int|
                0 <= k < entries0.len() implies (#[trigger] self.entries@[k].name@)
                    == entries0[k].name@ && self.entries@[k].priority.0 == entries0[k].priority.0
                    && self.entries@[k].stats.wf() by {}
            lemma_same_names_wf_all(entries0, self.entries@, index_view(self.index@));
            assert forall|p: int, q: int|
                0 <= p < q < self.entries@.len() implies (#[trigger] self.entries@[p].name@) != (
            #[trigger] self.entries@[q].name@) by {
                assert(self.entries@[p].name@ == entries0[p].name@);
                assert(self.entries@[q].name@ == entries0[q].name@);
            }
            assert(self.wf());
        }
        if denied {
            let err = HookError::rate_limit_exceeded(
                String::from_str(name),
                denied_limit,
                denied_window,
            );
            return HostBegin::RateDenied(err);
        }
        if !should_run {
            self.lifecycle.skipped(name, now_ms);
            return HostBegin::Skip;
        }
        self.lifecycle.pre_execution(name, now_ms);
        self.lifecycle.executing(name, now_ms);
        HostBegin::Run
    }

    /// Run the named handler inline where its kind needs no host, and
    /// hand back its verdict.  Statistics, events and history are not
    /// touched here: a host-driven fire brackets this call with
    /// [`HookManager::begin_host_handler`] and
    /// [`HookManager::apply_host_outcome`].
    pub fn run_registered(
        &mut self,
        name: &str,
        info: &CtxInfo,
        hook_type: &HookType,
        data: &Json,
        now_ms: u64,
    ) -> (r: Option<ExecutionResult>)
        requires
            old(self).wf(),
            now_ms <= 0x7fffffffffffffff,
        ensures
            final(self).wf(),
            index_view(final(self).index@) == index_view(old(self).index@),
            final(self).enabled == old(self).enabled,
            final(self).global_timeout_ms == old(self).global_timeout_ms,
            final(self).max_history == old(self).max_history,
            history_view(final(self).history@) == history_view(old(self).history@),
            final(self).lifecycle.events_log() == old(self).lifecycle.events_log(),
            final(self).entries@.len() == old(self).entries@.len(),
            forall|k: int|
                0 <= k < old(self).entries@.len() && (entry_idx(old(self).entries@, name@)
                    is Some ==> k != entry_idx(old(self).entries@, name@)->0) ==> (
                #[trigger] final(self).entries@[k]) == old(self).entries@[k],
            match r {
                Some(res) => {
                    let j = entry_idx(old(self).entries@, name@)->0;
                    let e0 = old(self).entries@[j];
                    let e1 = final(self).entries@[j];
                    &&& entry_idx(old(self).entries@, name@) is Some
                    &&& pure_kind(e0.kind)
                    &&& res@ == kind_outcome(
                        e0.kind,
                        hook_name(hook_type@),
                        data@,
                        info@,
                        now_ms as int,
                    )
                    &&& kind_evolves(
                        e0.kind,
                        e1.kind,
                        hook_name(hook_type@),
                        data@,
                        info@,
                        now_ms as int,
                    )
                    &&& e1.name@ == e0.name@
                    &&& e1.priority.0 == e0.priority.0
                    &&& e1.enabled == e0.enabled
                    &&& e1.stats == e0.stats
                    &&& e1.rate_limit == e0.rate_limit
                },
                None => final(self).entries@ == old(self).entries@ && (entry_idx(
                    old(self).entries@,
                    name@,
                ) matches Some(j) ==> !pure_kind(old(self).entries@[j].kind)),
            },
    {
        let ghost entries0 = self.entries@;
        let j = match self.find_entry(name) {
            Some(j) => j,
            None => {
                return None;
            },
        };
        let pure = match &self.entries[j].kind {
            HandlerKind::Script(_) => false,
            HandlerKind::External(_) => false,
            _ => true,
        };
        if !pure {
            return None;
        }
        let mut entry = self.entries.remove(j);
        let ghost entries_mid = self.entries@;
        let res = run_pure_kind(&mut entry.kind, info, hook_type, data, now_ms, &mut self.effects);
        self.entries.insert(j, entry);
        proof {
            assert(self.entries@ =~= entries_mid.insert(j as int, self.entries@[j as int]));
            assert forall|k: int|
                0 <= k < entries0.len() && k != j as int implies (#[trigger] self.entries@[k])
                    == entries0[k] by {}
            assert forall|k: int|
                0 <= k < entries0.len() implies (#[trigger] self.entries@[k].name@)
                    == entries0[k].name@ && self.entries@[k].priority.0 == entries0[k].priority.0
                    && self.entries@[k].stats.wf() by {}
            lemma_same_names_wf_all(entries0, self.entries@, index_view(self.index@));
            assert forall|p: int, q: int|
                0 <= p < q < self.entries@.len() implies (#[trigger] self.entries@[p].name@) != (
            #[trigger] self.entries@[q].name@) by {
                assert(self.entries@[p].name@ == entries0[p].name@);
                assert(self.entries@[q].name@ == entries0[q].name@);
            }
            assert(self.wf());
        }
        Some(res)
    }

    /// Fold the outcome the host obtained for one handler back into the
    /// dispatcher, as spec 4.H does: a returned verdict records a
    /// success, emits `PostExecution` and a `success` history line, and
    /// steers the fire by the verdict; a timeout or failure records a
    /// failure, emits `Failed` with the error's rendering, appends the
    /// matching history line, and aborts the fire with the error.
    pub fn apply_host_outcome(
        &mut self,
        hook_type: &HookType,
        name: &str,
        data: Json,
        outcome: Result<ExecutionResult, HookError>,
        duration_ns: u64,
        now_ms: u64,
    ) -> (r: HostStep)
        requires
            old(self).wf(),
            entry_idx(old(self).entries@, name@) is Some,
            old(self).entries@[entry_idx(old(self).entries@, name@)->0].stats.total_executions
                < 0xffffffffffffffff,
        ensures
            final(self).wf(),
            index_view(final(self).index@) == index_view(old(self).index@),
            final(self).enabled == old(self).enabled,
            final(self).global_timeout_ms == old(self).global_timeout_ms,
            final(self).max_history == old(self).max_history,
            final(self).entries@.len() == old(self).entries@.len(),
            forall|k: int|
                0 <= k < old(self).entries@.len() && k != entry_idx(old(self).entries@, name@)->0
                    ==> final(self).entries@[k] == old(self).entries@[k],
            ({
                let j = entry_idx(old(self).entries@, name@)->0;
                let e0 = old(self).entries@[j];
                let e1 = final(self).entries@[j];
                &&& e1.name@ == e0.name@
                &&& e1.priority.0 == e0.priority.0
                &&& e1.enabled == e0.enabled
                &&& e1.kind == e0.kind
                &&& (e1.rate_limit is Some <==> e0.rate_limit is Some)
                &&& e1.stats.total_executions == e0.stats.total_executions + 1
                &&& e1.stats.last_execution_ms == Some(now_ms)
                &&& e1.stats.wf()
                &&& (outcome is Ok ==> e1.stats.successful_executions
                    == e0.stats.successful_executions + 1 && e1.stats.failed_executions
                    == e0.stats.failed_executions)
                &&& (outcome is Err ==> e1.stats.successful_executions
                    == e0.stats.successful_executions && e1.stats.failed_executions
                    == e0.stats.failed_executions + 1)
            }),
            match outcome {
                Ok(res) => {
                    &&& final(self).lifecycle.events_log() == old(self).lifecycle.events_log().push(
                        EventV {
                            handler: name@,
                            phase: HookPhase::PostExecution,
                            timestamp_ms: now_ms as int,
                            error: None,
                            duration_ms: crate::lifecycle::span_since_pre(
                                old(self).lifecycle.active_map(),
                                name@,
                                now_ms as int,
                            ),
                        },
                    )
                    &&& history_view(final(self).history@) == ring_push(
                        history_view(old(self).history@),
                        HistV {
                            timestamp_ms: now_ms as int,
                            hook: hook_type@,
                            handler: name@,
                            duration_ns: duration_ns as int,
                            outcome: OutcomeTag::Success,
                        },
                        old(self).max_history as int,
                    )
                    &&& (match res@ {
                        ResultV::Continue => r matches HostStep::Continue(d) && d@ == data@,
                        ResultV::Retry { delay_ms, max_attempts } => r matches HostStep::Continue(
                            d,
                        ) && d@ == data@,
                        ResultV::Replace(nd) => r matches HostStep::Continue(d) && d@ == nd,
                        ResultV::Stop(sd) => r matches HostStep::Stop(d) && d@ == (match sd {
                            Some(v) => v,
                            None => data@,
                        }),
                        ResultV::Error { message, details } => r matches HostStep::Abort(e) && e@
                            == (HookErrorV::ExecutionFailed { handler: name@, source: message }),
                    })
                },
                Err(e) => {
                    &&& final(self).lifecycle.events_log() == old(self).lifecycle.events_log().push(
                        EventV {
                            handler: name@,
                            phase: HookPhase::Failed,
                            timestamp_ms: now_ms as int,
                            error: Some(crate::errors::error_message(e@)),
                            duration_ms: crate::lifecycle::span_since_pre(
                                old(self).lifecycle.active_map(),
                                name@,
                                now_ms as int,
                            ),
                        },
                    )
                    &&& history_view(final(self).history@) == ring_push(
                        history_view(old(self).history@),
                        HistV {
                            timestamp_ms: now_ms as int,
                            hook: hook_type@,
                            handler: name@,
                            duration_ns: duration_ns as int,
                            outcome: if e@ is Timeout {
                                OutcomeTag::Timeout
                            } else {
                                OutcomeTag::Error
                            },
                        },
                        old(self).max_history as int,
                    )
                    &&& r matches HostStep::Abort(e2) && e2@ == e@
                },
            },
    {
        let ghost entries0 = self.entries@;
        let j = match self.find_entry(name) {
            Some(j) => j,
            None => {
                proof {
                    assert(false);
                }
                return HostStep::Abort(HookError::HandlerNotFound(String::from_str(name)));
            },
        };
        let mut entry = self.entries.remove(j);
        let ghost entries_mid = self.entries@;
        let step: HostStep;
        match outcome {
            Ok(res) => {
                entry.stats.record_success(duration_ns, now_ms);
                self.lifecycle.post_execution(name, now_ms);
                self.entries.insert(j, entry);
                self.record_history(hook_type, name, duration_ns, OutcomeTag::Success, now_ms);
                step = match res {
                    ExecutionResult::Continue => HostStep::Continue(data),
                    ExecutionResult::Retry { delay_ms: _, max_attempts: _ } => HostStep::Continue(
                        data,
                    ),
                    ExecutionResult::Replace(nd) => HostStep::Continue(nd),
                    ExecutionResult::Stop(sd) => HostStep::Stop(
                        match sd {
                            Some(v) => v,
                            None => data,
                        },
                    ),
                    ExecutionResult::Error { message, details: _ } => HostStep::Abort(
                        HookError::execution_failed(String::from_str(name), message),
                    ),
                };
            },
            Err(e) => {
                entry.stats.record_failure(duration_ns, now_ms);
                let text = e.message();
                self.lifecycle.failed(name, text, now_ms);
                self.entries.insert(j, entry);
                let tag = match &e {
                    HookError::Timeout { handler: _, duration_ms: _ } => OutcomeTag::Timeout,
                    _ => OutcomeTag::Error,
                };
                self.record_history(hook_type, name, duration_ns, tag, now_ms);
                step = HostStep::Abort(e);
            },
        }
        proof {
            assert(self.entries@ =~= entries_mid.insert(j as int, self.entries@[j as int]));
            assert forall|k: int|
                0 <= k < entries0.len() && k != j as int implies self.entries@[k]
                    == entries0[k] by {}
            assert forall|k: int|
                0 <= k < entries0.len() implies (#[trigger] self.entries@[k].name@)
                    == entries0[k].name@ && self.entries@[k].priority.0 == entries0[k].priority.0
                    && self.entries@[k].stats.wf() by {}
            lemma_same_names_wf_all(entries0, self.entries@, index_view(self.index@));
            assert forall|p: int, q: int|
                0 <= p < q < self.entries@.len() implies (#[trigger] self.entries@[p].name@) != (
            #[trigger] self.entries@[q].name@) by {
                assert(self.entries@[p].name@ == entries0[p].name@);
                assert(self.entries@[q].name@ == entries0[q].name@);
            }
            assert(self.wf());
        }
        step
    }
}

/// The hook tags whose lists hold `name`, in index order.
pub open spec fn hooks_subscribed(
    iv: Seq<((int, Seq<char>), Seq<Seq<char>>)>,
    name: Seq<char>,
) -> Seq<(int, Seq<char>)>
    decreases iv.len(),
{
    if iv.len() == 0 {
        Seq::empty()
    } else {
        let head: Seq<(int, Seq<char>)> = if list_has(iv[0].1, name) {
            seq![iv[0].0]
        } else {
            Seq::empty()
        };
        head + hooks_subscribed(iv.skip(1), name)
    }
}

/// The tags of a hook-type vector.
pub open spec fn hook_tags(v: Seq<HookType>) -> Seq<(int, Seq<char>)> {
    Seq::new(v.len(), |i: int| v[i]@)
}

/// Whether a name list holds `name`.
fn list_contains(list: &Vec<String>, name: &str) -> (r: bool)
    ensures
        r == list_has(crate::external::strings_view(list@), name@),
{
    let ghost glist = crate::external::strings_view(list@);
    let n = list.len();
    for i in 0..n
        invariant
            n == list@.len(),
            glist == crate::external::strings_view(list@),
            forall|k: int| 0 <= k < i ==> (#[trigger] glist[k]) != name@,
    {
        if str_eq(list[i].as_str(), name) {
            assert(glist[i as int] == name@);
            return true;
        }
    }
    false
}

impl HandlerEntry {
    /// The entry's name as a slice (helper for searches).
    fn name_str(&self) -> (r: &str)
        ensures
            r@ == self.name@,
    {
        self.name.as_str()
    }
}

/// A resolved position is in range and holds the name.
proof fn lemma_entry_idx_bounds(entries: Seq<HandlerEntry>, n: Seq<char>)
    requires
        entry_idx(entries, n) is Some,
    ensures
        0 <= entry_idx(entries, n)->0 < entries.len(),
        entries[entry_idx(entries, n)->0].name@ == n,
    decreases entries.len(),
{
    if entries.len() > 0 && entries[0].name@ != n {
        lemma_entry_idx_bounds(entries.skip(1), n);
        let j = entry_idx(entries.skip(1), n)->0;
        assert(entries.skip(1)[j] == entries[j + 1]);
    }
}

/// A name that does not resolve is nowhere in the list.
proof fn lemma_entry_idx_absent(entries: Seq<HandlerEntry>, n: Seq<char>)
    requires
        entry_idx(entries, n) is None,
    ensures
        forall|k: int| 0 <= k < entries.len() ==> (#[trigger] entries[k].name@) != n,
    decreases entries.len(),
{
    if entries.len() > 0 {
        lemma_entry_idx_absent(entries.skip(1), n);
        assert forall|k: int|
            0 <= k < entries.len() implies (#[trigger] entries[k].name@) != n by {
            if k > 0 {
                assert(entries[k] == entries.skip(1)[k - 1]);
            }
        }
    }
}

/// Pushing an entry: lookups of other names are unchanged, and the new
/// name resolves to the last position where it was absent.
proof fn lemma_entry_idx_push(entries: Seq<HandlerEntry>, e: HandlerEntry, n: Seq<char>)
    ensures
        n != e.name@ ==> entry_idx(entries.push(e), n) == entry_idx(entries, n),
        n != e.name@ ==> prio_in(entries.push(e), n) == prio_in(entries, n),
        n == e.name@ && entry_idx(entries, n) is None ==> entry_idx(entries.push(e), n) == Some(
            entries.len() as int,
        ),
    decreases entries.len(),
{
    let p = entries.push(e);
    assert(p.len() == entries.len() + 1);
    if entries.len() == 0 {
        assert(p[0] == e);
        assert(p.skip(1) =~= Seq::<HandlerEntry>::empty());
        if n != e.name@ {
            assert(entry_idx(p, n) is None);
            assert(entry_idx(entries, n) is None);
            assert(prio_in(p, n) == 500 && prio_in(entries, n) == 500);
        }
    } else {
        assert(p[0] == entries[0]);
        assert(p.skip(1) =~= entries.skip(1).push(e));
        lemma_entry_idx_push(entries.skip(1), e, n);
        if n != e.name@ {
            if entries[0].name@ == n {
                assert(entry_idx(p, n) == Some(0int));
                assert(entry_idx(entries, n) == Some(0int));
                assert(prio_in(p, n) == prio_in(entries, n));
            } else {
                assert(entry_idx(p.skip(1), n) == entry_idx(entries.skip(1), n));
                assert(entry_idx(p, n) == entry_idx(entries, n));
                match entry_idx(entries, n) {
                    Some(j) => {
                        lemma_entry_idx_bounds(entries, n);
                        assert(p[j] == entries[j]);
                        assert(prio_in(p, n) == prio_in(entries, n));
                    },
                    None => {
                        assert(prio_in(p, n) == 500 && prio_in(entries, n) == 500);
                    },
                }
            }
        } else if entry_idx(entries, n) is None {
            assert(entries[0].name@ != n);
            assert(entry_idx(entries.skip(1), n) is None);
            assert(entry_idx(p.skip(1), n) == Some(entries.skip(1).len() as int));
            assert(entry_idx(p, n) == Some(entries.len() as int));
        }
    }
}

/// A hook that does not resolve is nowhere in the index.
proof fn lemma_iview_idx_absent(iv: Seq<((int, Seq<char>), Seq<Seq<char>>)>, hook: (int, Seq<char>))
    requires
        iview_idx(iv, hook) is None,
    ensures
        forall|k: int| 0 <= k < iv.len() ==> (#[trigger] iv[k].0) != hook,
    decreases iv.len(),
{
    if iv.len() > 0 {
        lemma_iview_idx_absent(iv.skip(1), hook);
        assert forall|k: int| 0 <= k < iv.len() implies (#[trigger] iv[k].0) != hook by {
            if k > 0 {
                assert(iv[k] == iv.skip(1)[k - 1]);
            }
        }
    }
}

/// A name found at the first position among distinct prefixes resolves
/// there.
proof fn lemma_entry_idx_at(entries: Seq<HandlerEntry>, n: Seq<char>, i: int)
    requires
        0 <= i < entries.len(),
        entries[i].name@ == n,
        forall|k: int| 0 <= k < i ==> (#[trigger] entries[k].name@) != n,
    ensures
        entry_idx(entries, n) == Some(i),
    decreases i,
{
    if i == 0 {
    } else {
        assert(entries.skip(1)[i - 1] == entries[i]);
        assert forall|k: int| 0 <= k < i - 1 implies (#[trigger] entries.skip(1)[k].name@) != n by {
            assert(entries.skip(1)[k] == entries[k + 1]);
        }
        lemma_entry_idx_at(entries.skip(1), n, i - 1);
    }
}

/// A name absent everywhere does not resolve.
proof fn lemma_entry_idx_none(entries: Seq<HandlerEntry>, n: Seq<char>)
    requires
        forall|k: int| 0 <= k < entries.len() ==> (#[trigger] entries[k].name@) != n,
    ensures
        entry_idx(entries, n) is None,
    decreases entries.len(),
{
    if entries.len() > 0 {
        assert forall|k: int|
            0 <= k < entries.skip(1).len() implies (#[trigger] entries.skip(1)[k].name@) != n by {
            assert(entries.skip(1)[k] == entries[k + 1]);
        }
        lemma_entry_idx_none(entries.skip(1), n);
    }
}

/// A hook found at the first position among distinct prefixes resolves
/// there.
proof fn lemma_iview_idx_at(
    iv: Seq<((int, Seq<char>), Seq<Seq<char>>)>,
    hook: (int, Seq<char>),
    i: int,
)
    requires
        0 <= i < iv.len(),
        iv[i].0 == hook,
        forall|k: int| 0 <= k < i ==> (#[trigger] iv[k].0) != hook,
    ensures
        iview_idx(iv, hook) == Some(i),
    decreases i,
{
    if i == 0 {
    } else {
        assert(iv.skip(1)[i - 1] == iv[i]);
        assert forall|k: int| 0 <= k < i - 1 implies (#[trigger] iv.skip(1)[k].0) != hook by {
            assert(iv.skip(1)[k] == iv[k + 1]);
        }
        lemma_iview_idx_at(iv.skip(1), hook, i - 1);
    }
}

/// A hook absent everywhere does not resolve.
proof fn lemma_iview_idx_none(iv: Seq<((int, Seq<char>), Seq<Seq<char>>)>, hook: (int, Seq<char>))
    requires
        forall|k: int| 0 <= k < iv.len() ==> (#[trigger] iv[k].0) != hook,
    ensures
        iview_idx(iv, hook) is None,
    decreases iv.len(),
{
    if iv.len() > 0 {
        assert forall|k: int|
            0 <= k < iv.skip(1).len() implies (#[trigger] iv.skip(1)[k].0) != hook by {
            assert(iv.skip(1)[k] == iv[k + 1]);
        }
        lemma_iview_idx_none(iv.skip(1), hook);
    }
}

/// Inserting a name at its position keeps a sorted list sorted.
proof fn lemma_insert_sorted(
    list: Seq<Seq<char>>,
    entries: Seq<HandlerEntry>,
    name: Seq<char>,
    prio: int,
)
    requires
        list_sorted(list, entries),
        prio_in(entries, name) == prio,
    ensures
        list_sorted(list_insert(list, entries, name, prio), entries),
        list_insert(list, entries, name, prio).len() == list.len() + 1,
    decreases list.len(),
{
    let pos = insert_pos(list, entries, prio);
    lemma_insert_pos_bounds(list, entries, prio);
    assert(list_insert(list, entries, name, prio) =~= list.take(pos) + seq![name] + list.skip(pos));
    let out = list_insert(list, entries, name, prio);
    assert(out.len() == list.len() + 1);
    assert forall|p: int, q: int|
        0 <= p < q < out.len() implies prio_in(entries, out[p]) <= prio_in(entries, out[q]) by {
        if p < pos {
            assert(out[p] == list[p]);
        } else if p == pos {
            assert(out[p] == name);
        } else {
            assert(out[p] == list[p - 1]);
        }
        if q < pos {
            assert(out[q] == list[q]);
        } else if q == pos {
            assert(out[q] == name);
        } else {
            assert(out[q] == list[q - 1]);
        }
    }
}

/// The insertion point is inside the list, everything before it has
/// priority at most `prio`, everything from it on has strictly more.
proof fn lemma_insert_pos_bounds(list: Seq<Seq<char>>, entries: Seq<HandlerEntry>, prio: int)
    requires
        list_sorted(list, entries),
    ensures
        0 <= insert_pos(list, entries, prio) <= list.len(),
        forall|k: int|
            0 <= k < insert_pos(list, entries, prio) ==> prio_in(entries, #[trigger] list[k])
                <= prio,
        forall|k: int|
            insert_pos(list, entries, prio) <= k < list.len() ==> prio_in(
                entries,
                #[trigger] list[k],
            ) > prio,
    decreases list.len(),
{
    if list.len() == 0 {
    } else {
        assert forall|p: int, q: int|
            0 <= p < q < list.skip(1).len() implies prio_in(entries, list.skip(1)[p]) <= prio_in(
            entries,
            list.skip(1)[q],
        ) by {
            assert(list.skip(1)[p] == list[p + 1]);
            assert(list.skip(1)[q] == list[q + 1]);
        }
        lemma_insert_pos_bounds(list.skip(1), entries, prio);
        assert forall|k: int| 0 <= k < list.skip(1).len() implies list.skip(1)[k] == list[k + 1] by {}
        if prio_in(entries, list[0]) <= prio {
            let pos = 1 + insert_pos(list.skip(1), entries, prio);
            assert forall|k: int| 0 <= k < pos implies prio_in(entries, #[trigger] list[k])
                <= prio by {
                if k > 0 {
                    assert(list[k] == list.skip(1)[k - 1]);
                }
            }
            assert forall|k: int| pos <= k < list.len() implies prio_in(
                entries,
                #[trigger] list[k],
            ) > prio by {
                assert(list[k] == list.skip(1)[k - 1]);
            }
        } else {
            assert forall|k: int| 0 <= k < list.len() implies prio_in(entries, #[trigger] list[k])
                > prio by {
                if k == 0 {
                } else {
                    assert(list[k] == list.skip(1)[k - 1]);
                    assert(list_sorted(list, entries));
                    assert(prio_in(entries, list[0]) <= prio_in(entries, list[k]));
                }
            }
        }
    }
}



/// What chaining two handlers returns: the first one's verdict, unless
/// it continues, in which case the second runs and decides.
pub open spec fn chain_outcome(
    first: HandlerKind,
    second: HandlerKind,
    ht: Seq<char>,
    data: JsonV,
    info: CtxInfoV,
    now: int,
) -> ResultV {
    match kind_outcome(first, ht, data, info, now) {
        ResultV::Continue => kind_outcome(second, ht, data, info, now),
        r => r,
    }
}

/// Chain two handlers: run the first; where it continues, run the second
/// and return its verdict, else return the first's.
pub fn chain_execute(
    first: &mut HandlerKind,
    second: &mut HandlerKind,
    info: &CtxInfo,
    hook_type: &HookType,
    data: &Json,
    now_ms: u64,
    effects: &mut Vec<DispatchEffect>,
) -> (r: ExecutionResult)
    requires
        pure_kind(*old(first)),
        pure_kind(*old(second)),
        now_ms <= 0x7fffffffffffffff,
    ensures
        r@ == chain_outcome(
            *old(first),
            *old(second),
            hook_name(hook_type@),
            data@,
            info@,
            now_ms as int,
        ),
        kind_evolves(
            *old(first),
            *final(first),
            hook_name(hook_type@),
            data@,
            info@,
            now_ms as int,
        ),
        match kind_outcome(*old(first), hook_name(hook_type@), data@, info@, now_ms as int) {
            ResultV::Continue => kind_evolves(
                *old(second),
                *final(second),
                hook_name(hook_type@),
                data@,
                info@,
                now_ms as int,
            ),
            _ => *final(second) == *old(second),
        },
{
    let r1 = run_pure_kind(first, info, hook_type, data, now_ms, effects);
    match r1 {
        ExecutionResult::Continue => run_pure_kind(second, info, hook_type, data, now_ms, effects),
        other => other,
    }
}

/// What a guarded handler returns: its own verdict where the predicate
/// held, else `Continue`.
pub open spec fn conditional_outcome(
    handler: HandlerKind,
    pred: bool,
    ht: Seq<char>,
    data: JsonV,
    info: CtxInfoV,
    now: int,
) -> ResultV {
    if pred {
        kind_outcome(handler, ht, data, info, now)
    } else {
        ResultV::Continue
    }
}

/// Run a handler only where the caller's predicate held; otherwise the
/// dispatch continues untouched.
pub fn conditional_execute(
    handler: &mut HandlerKind,
    pred: bool,
    info: &CtxInfo,
    hook_type: &HookType,
    data: &Json,
    now_ms: u64,
    effects: &mut Vec<DispatchEffect>,
) -> (r: ExecutionResult)
    requires
        pure_kind(*old(handler)),
        now_ms <= 0x7fffffffffffffff,
    ensures
        r@ == conditional_outcome(
            *old(handler),
            pred,
            hook_name(hook_type@),
            data@,
            info@,
            now_ms as int,
        ),
        pred ==> kind_evolves(
            *old(handler),
            *final(handler),
            hook_name(hook_type@),
            data@,
            info@,
            now_ms as int,
        ),
        !pred ==> *final(handler) == *old(handler),
{
    if pred {
        run_pure_kind(handler, info, hook_type, data, now_ms, effects)
    } else {
        ExecutionResult::Continue
    }
}

/// Run one inline-capable handler against the data, collecting its
/// effects; the verdict follows the handler's own contract.
fn run_pure_kind(
    kind: &mut HandlerKind,
    info: &CtxInfo,
    hook_type: &HookType,
    data: &Json,
    now_ms: u64,
    effects: &mut Vec<DispatchEffect>,
) -> (r: ExecutionResult)
    requires
        pure_kind(*old(kind)),
        now_ms <= 0x7fffffffffffffff,
    ensures
        r@ == kind_outcome(*old(kind), hook_name(hook_type@), data@, info@, now_ms as int),
        kind_evolves(
            *old(kind),
            *final(kind),
            hook_name(hook_type@),
            data@,
            info@,
            now_ms as int,
        ),
{
    match kind {
        HandlerKind::Const(result) => result.clone(),
        HandlerKind::Logging(h) => {
            let (r, record) = h.execute(info, hook_type, data, now_ms);
            effects.push(DispatchEffect::Log(record));
            r
        },
        HandlerKind::Metrics(h) => h.execute(info, hook_type, data, now_ms),
        HandlerKind::Validation(h) => h.execute(data, now_ms),
        HandlerKind::Transform(h) => h.execute(data),
        HandlerKind::Notification(h) => {
            let (r, effect) = h.execute(info, hook_type, data, now_ms);
            match effect {
                Some(e) => {
                    effects.push(DispatchEffect::Notify(e));
                },
                None => {},
            }
            r
        },
        HandlerKind::Script(_) => {
            assert(false);
            ExecutionResult::Continue
        },
        HandlerKind::External(_) => {
            assert(false);
            ExecutionResult::Continue
        },
    }
}

/// A resolved index position is in range and holds the hook.
proof fn lemma_iview_idx_bounds(iv: Seq<((int, Seq<char>), Seq<Seq<char>>)>, hook: (int, Seq<char>))
    requires
        iview_idx(iv, hook) is Some,
    ensures
        0 <= iview_idx(iv, hook)->0 < iv.len(),
        iv[iview_idx(iv, hook)->0].0 == hook,
    decreases iv.len(),
{
    if iv.len() > 0 && iv[0].0 != hook {
        lemma_iview_idx_bounds(iv.skip(1), hook);
        let j = iview_idx(iv.skip(1), hook)->0;
        assert(iv.skip(1)[j] == iv[j + 1]);
    }
}

/// A registry with the same names and priorities position by position
/// keeps the whole index well formed.
proof fn lemma_same_names_wf_all(
    entries0: Seq<HandlerEntry>,
    entries1: Seq<HandlerEntry>,
    iv: Seq<((int, Seq<char>), Seq<Seq<char>>)>,
)
    requires
        entries1.len() == entries0.len(),
        forall|k: int|
            0 <= k < entries0.len() ==> (#[trigger] entries1[k].name@) == entries0[k].name@
                && entries1[k].priority.0 == entries0[k].priority.0,
        forall|i: int, k: int|
            0 <= i < iv.len() && 0 <= k < (#[trigger] iv[i].1).len() ==> entry_idx(
                entries0,
                #[trigger] iv[i].1[k],
            ) is Some,
        forall|i: int| 0 <= i < iv.len() ==> list_sorted(#[trigger] iv[i].1, entries0),
    ensures
        forall|i: int, k: int|
            0 <= i < iv.len() && 0 <= k < (#[trigger] iv[i].1).len() ==> entry_idx(
                entries1,
                #[trigger] iv[i].1[k],
            ) is Some,
        forall|i: int| 0 <= i < iv.len() ==> list_sorted(#[trigger] iv[i].1, entries1),
{
    assert forall|n: Seq<char>|
        #[trigger] entry_idx(entries1, n) == entry_idx(entries0, n) && prio_in(entries1, n)
            == prio_in(entries0, n) by {
        lemma_entry_idx_same_names(entries0, entries1, n);
        match entry_idx(entries0, n) {
            Some(k) => {
                lemma_entry_idx_bounds(entries0, n);
                assert(entries1[k].name@ == entries0[k].name@);
                assert(entries1[k].priority.0 == entries0[k].priority.0);
            },
            None => {},
        }
    }
    assert forall|i: int| 0 <= i < iv.len() implies list_sorted(#[trigger] iv[i].1, entries1) by {
        assert forall|p: int, q: int|
            0 <= p < q < iv[i].1.len() implies prio_in(entries1, iv[i].1[p]) <= prio_in(
            entries1,
            iv[i].1[q],
        ) by {
            assert(prio_in(entries0, iv[i].1[p]) <= prio_in(entries0, iv[i].1[q]));
        }
    }
}

/// Appending one line to the fold of earlier lines is one more ring push.
proof fn lemma_hist_after_snoc(
    h: Seq<HistV>,
    items: Seq<(Seq<char>, OutcomeTag)>,
    item: (Seq<char>, OutcomeTag),
    ht: (int, Seq<char>),
    now: int,
    bound: int,
)
    ensures
        hist_after(h, items.push(item), ht, now, bound) == ring_push(
            hist_after(h, items, ht, now, bound),
            HistV {
                timestamp_ms: now,
                hook: ht,
                handler: item.0,
                duration_ns: 0,
                outcome: item.1,
            },
            bound,
        ),
    decreases items.len(),
{
    let pushed = items.push(item);
    if items.len() == 0 {
        assert(pushed[0] == item);
        assert(pushed.skip(1) =~= Seq::<(Seq<char>, OutcomeTag)>::empty());
        assert(hist_after(h, pushed, ht, now, bound) == hist_after(
            ring_push(
                h,
                HistV {
                    timestamp_ms: now,
                    hook: ht,
                    handler: item.0,
                    duration_ns: 0,
                    outcome: item.1,
                },
                bound,
            ),
            pushed.skip(1),
            ht,
            now,
            bound,
        ));
        assert(hist_after(h, items, ht, now, bound) == h);
    } else {
        assert(pushed[0] == items[0]);
        assert(pushed.skip(1) =~= items.skip(1).push(item));
        let line0 = HistV {
            timestamp_ms: now,
            hook: ht,
            handler: items[0].0,
            duration_ns: 0,
            outcome: items[0].1,
        };
        let h2 = ring_push(h, line0, bound);
        assert(hist_after(h, pushed, ht, now, bound) == hist_after(
            h2,
            pushed.skip(1),
            ht,
            now,
            bound,
        ));
        lemma_hist_after_snoc(h2, items.skip(1), item, ht, now, bound);
        assert(hist_after(h, items, ht, now, bound) == hist_after(
            h2,
            items.skip(1),
            ht,
            now,
            bound,
        ));
    }
}


/// The `Pre` handlers of one run's events: just the one name.
proof fn lemma_pre_names_run(name: Seq<char>, now: int)
    ensures
        pre_names(run_events(name, now)) == seq![name],
{
    let re = run_events(name, now);
    assert(re.skip(1)[0] == re[1]);
    assert(re.skip(1).skip(1) =~= re.skip(2));
    assert(re.skip(2)[0] == re[2]);
    assert(re.skip(2).skip(1) =~= re.skip(3));
    assert(re.skip(3) =~= Seq::<EventV>::empty());
    assert(pre_names(re.skip(3)) =~= Seq::<Seq<char>>::empty());
    assert(pre_names(re.skip(2)) =~= Seq::<Seq<char>>::empty());
    assert(pre_names(re.skip(1)) =~= Seq::<Seq<char>>::empty());
    assert(pre_names(re) =~= seq![name]);
}

/// The handlers that saw `PreExecution`, in event order.
pub open spec fn pre_names(events: Seq<EventV>) -> Seq<Seq<char>>
    decreases events.len(),
{
    if events.len() == 0 {
        Seq::empty()
    } else {
        let head: Seq<Seq<char>> = if events[0].phase == HookPhase::PreExecution {
            seq![events[0].handler]
        } else {
            Seq::empty()
        };
        head + pre_names(events.skip(1))
    }
}

/// Registration round-trip, observed at the fire: a single registered
/// handler that returns `Continue` is reached exactly once — the fire
/// returns the data untouched and the events are exactly one
/// `Pre`–`Executing`–`Post` run of that handler.
pub proof fn lemma_single_continue_fire(
    entries: Seq<HandlerEntry>,
    name: Seq<char>,
    ht: HookType,
    data: JsonV,
    info: CtxInfoV,
    now: int,
)
    requires
        entry_idx(entries, name) is Some,
        entries[entry_idx(entries, name)->0].enabled,
        entries[entry_idx(entries, name)->0].rate_limit is None,
        kind_outcome(
            entries[entry_idx(entries, name)->0].kind,
            hook_name(ht@),
            data,
            info,
            now,
        ) is Continue,
    ensures
        fire_steps(entries, seq![name], ht, data, info, now).result == Ok::<JsonV, HookErrorV>(
            data,
        ),
        fire_steps(entries, seq![name], ht, data, info, now).events == run_events(name, now),
        pre_names(fire_steps(entries, seq![name], ht, data, info, now).events) == seq![name],
{
    let names = seq![name];
    assert(names[0] == name);
    assert(names.skip(1) =~= Seq::<Seq<char>>::empty());
    let t = fire_steps(entries, names, ht, data, info, now);
    assert(t.events =~= run_events(name, now) + fire_steps(
        entries,
        names.skip(1),
        ht,
        data,
        info,
        now,
    ).events);
    assert(t.events =~= run_events(name, now));
    lemma_pre_names_run(name, now);
}

/// Priority order and stop shortcircuit, observed at the events: when
/// every listed name resolves to an enabled handler without a rate
/// limit, the `PreExecution` events are exactly a prefix of the list —
/// handlers run in list order (the registry keeps each list sorted by
/// priority, ties in registration order), and once a `Stop` or a
/// failure ends the fire no later handler sees `Pre`.
pub proof fn lemma_fire_pre_prefix(
    entries: Seq<HandlerEntry>,
    names: Seq<Seq<char>>,
    ht: HookType,
    data: JsonV,
    info: CtxInfoV,
    now: int,
)
    requires
        forall|k: int|
            0 <= k < names.len() ==> entry_idx(entries, #[trigger] names[k]) is Some && (entries[
                entry_idx(entries, names[k])->0
            ]).enabled && (entries[entry_idx(entries, names[k])->0]).rate_limit is None,
    ensures
        exists|k: int|
            0 <= k <= names.len() && pre_names(
                fire_steps(entries, names, ht, data, info, now).events,
            ) == names.take(k),
    decreases names.len(),
{
    let t = fire_steps(entries, names, ht, data, info, now);
    if names.len() == 0 {
        assert(pre_names(t.events) =~= names.take(0));
    } else {
        let name = names[0];
        let j = entry_idx(entries, name)->0;
        let e = entries[j];
        let outcome = kind_outcome(e.kind, hook_name(ht@), data, info, now);
        assert forall|k: int|
            0 <= k < names.skip(1).len() implies entry_idx(
            entries,
            #[trigger] names.skip(1)[k],
        ) is Some && entries[entry_idx(entries, names.skip(1)[k])->0].enabled && entries[entry_idx(
            entries,
            names.skip(1)[k],
        )->0].rate_limit is None by {
            assert(names.skip(1)[k] == names[k + 1]);
        }
        match outcome {
            ResultV::Error { message, details } => {
                assert(t.events == run_events(name, now));
                lemma_pre_names_run(name, now);
                assert(pre_names(t.events) =~= names.take(1));
            },
            ResultV::Stop(d) => {
                assert(t.events == run_events(name, now));
                lemma_pre_names_run(name, now);
                assert(pre_names(t.events) =~= names.take(1));
            },
            ResultV::Replace(d) => {
                lemma_fire_pre_prefix(entries, names.skip(1), ht, d, info, now);
                let rest = fire_steps(entries, names.skip(1), ht, d, info, now);
                let k2 = choose|k2: int|
                    0 <= k2 <= names.skip(1).len() && pre_names(rest.events) == names.skip(1).take(
                        k2,
                    );
                lemma_pre_names_concat(run_events(name, now), rest.events);
                lemma_pre_names_run(name, now);
                assert(pre_names(t.events) =~= seq![name] + names.skip(1).take(k2));
                assert(names.take(k2 + 1) =~= seq![name] + names.skip(1).take(k2));
            },
            _ => {
                lemma_fire_pre_prefix(entries, names.skip(1), ht, data, info, now);
                let rest = fire_steps(entries, names.skip(1), ht, data, info, now);
                let k2 = choose|k2: int|
                    0 <= k2 <= names.skip(1).len() && pre_names(rest.events) == names.skip(1).take(
                        k2,
                    );
                lemma_pre_names_concat(run_events(name, now), rest.events);
                lemma_pre_names_run(name, now);
                assert(pre_names(t.events) =~= seq![name] + names.skip(1).take(k2));
                assert(names.take(k2 + 1) =~= seq![name] + names.skip(1).take(k2));
            },
        }
    }
}

/// `pre_names` distributes over concatenation.
proof fn lemma_pre_names_concat(a: Seq<EventV>, b: Seq<EventV>)
    ensures
        pre_names(a + b) == pre_names(a) + pre_names(b),
    decreases a.len(),
{
    if a.len() == 0 {
        assert(a + b =~= b);
        assert(pre_names(a) =~= Seq::<Seq<char>>::empty());
        assert(pre_names(a) + pre_names(b) =~= pre_names(b));
    } else {
        assert((a + b)[0] == a[0]);
        assert((a + b).skip(1) =~= a.skip(1) + b);
        lemma_pre_names_concat(a.skip(1), b);
        assert(pre_names(a + b) =~= pre_names(a) + pre_names(b));
    }
}

/// The data a fire carries forward when every handler continues or
/// rewrites: each `Replace` substitutes, everything else leaves the data
/// alone.
pub open spec fn replace_fold(
    entries: Seq<HandlerEntry>,
    names: Seq<Seq<char>>,
    ht: Seq<char>,
    data: JsonV,
    info: CtxInfoV,
    now: int,
) -> JsonV
    decreases names.len(),
{
    if names.len() == 0 {
        data
    } else {
        match entry_idx(entries, names[0]) {
            None => replace_fold(entries, names.skip(1), ht, data, info, now),
            Some(j) => {
                if !entries[j].enabled {
                    replace_fold(entries, names.skip(1), ht, data, info, now)
                } else {
                    match kind_outcome(entries[j].kind, ht, data, info, now) {
                        ResultV::Replace(d) => replace_fold(
                            entries,
                            names.skip(1),
                            ht,
                            d,
                            info,
                            now,
                        ),
                        _ => replace_fold(entries, names.skip(1), ht, data, info, now),
                    }
                }
            },
        }
    }
}

/// Replace chain: when no handler stops, fails or hits a rate limit, the
/// fire succeeds and returns the fold of the `Replace` values over the
/// input — the last rewrite wins, and the input comes back when nothing
/// rewrote it.
pub proof fn lemma_replace_chain(
    entries: Seq<HandlerEntry>,
    names: Seq<Seq<char>>,
    ht: HookType,
    data: JsonV,
    info: CtxInfoV,
    now: int,
)
    requires
        forall|k: int|
            0 <= k < names.len() ==> match entry_idx(entries, #[trigger] names[k]) {
                Some(j) => entries[j].rate_limit is None && (entries[j].enabled ==> match
                    kind_outcome(
                    entries[j].kind,
                    hook_name(ht@),
                    replace_fold(entries, names.take(k), hook_name(ht@), data, info, now),
                    info,
                    now,
                ) {
                    ResultV::Continue => true,
                    ResultV::Retry { delay_ms, max_attempts } => true,
                    ResultV::Replace(d) => true,
                    _ => false,
                }),
                None => true,
            },
    ensures
        fire_steps(entries, names, ht, data, info, now).result == Ok::<JsonV, HookErrorV>(
            replace_fold(entries, names, hook_name(ht@), data, info, now),
        ),
    decreases names.len(),
{
    if names.len() == 0 {
    } else {
        let name = names[0];
        assert(names.take(0) =~= Seq::<Seq<char>>::empty());
        assert forall|k: int|
            0 <= k < names.skip(1).len() implies match entry_idx(
            entries,
            #[trigger] names.skip(1)[k],
        ) {
            Some(j) => entries[j].rate_limit is None && (entries[j].enabled ==> match kind_outcome(
                entries[j].kind,
                hook_name(ht@),
                replace_fold(
                    entries,
                    names.skip(1).take(k),
                    hook_name(ht@),
                    (match entry_idx(entries, names[0]) {
                        None => data,
                        Some(j0) => {
                            if !entries[j0].enabled {
                                data
                            } else {
                                match kind_outcome(entries[j0].kind, hook_name(ht@), data, info, now) {
                                    ResultV::Replace(d) => d,
                                    _ => data,
                                }
                            }
                        },
                    }),
                    info,
                    now,
                ),
                info,
                now,
            ) {
                ResultV::Continue => true,
                ResultV::Retry { delay_ms, max_attempts } => true,
                ResultV::Replace(d) => true,
                _ => false,
            }),
            None => true,
        } by {
            assert(names.skip(1)[k] == names[k + 1]);
            assert(names.take(k + 1) =~= seq![names[0]] + names.skip(1).take(k));
            lemma_replace_fold_cons(entries, names, k + 1, hook_name(ht@), data, info, now);
        }
        match entry_idx(entries, name) {
            None => {
                lemma_replace_chain(entries, names.skip(1), ht, data, info, now);
            },
            Some(j) => {
                if !entries[j].enabled {
                    lemma_replace_chain(entries, names.skip(1), ht, data, info, now);
                } else {
                    match kind_outcome(entries[j].kind, hook_name(ht@), data, info, now) {
                        ResultV::Replace(d) => {
                            lemma_replace_chain(entries, names.skip(1), ht, d, info, now);
                        },
                        _ => {
                            lemma_replace_chain(entries, names.skip(1), ht, data, info, now);
                        },
                    }
                }
            },
        }
    }
}

/// Unrolling `replace_fold` one step from the front.
proof fn lemma_replace_fold_cons(
    entries: Seq<HandlerEntry>,
    names: Seq<Seq<char>>,
    k: int,
    ht: Seq<char>,
    data: JsonV,
    info: CtxInfoV,
    now: int,
)
    requires
        1 <= k <= names.len(),
    ensures
        replace_fold(entries, names.take(k), ht, data, info, now) == replace_fold(
            entries,
            names.skip(1).take(k - 1),
            ht,
            (match entry_idx(entries, names[0]) {
                None => data,
                Some(j0) => {
                    if !entries[j0].enabled {
                        data
                    } else {
                        match kind_outcome(entries[j0].kind, ht, data, info, now) {
                            ResultV::Replace(d) => d,
                            _ => data,
                        }
                    }
                },
            }),
            info,
            now,
        ),
{
    assert(names.take(k)[0] == names[0]);
    assert(names.take(k).skip(1) =~= names.skip(1).take(k - 1));
}

/// Stats consistency: well-formed statistics always balance — the total
/// is the successes plus the failures, the mean never exceeds the
/// maximum, and the last-execution stamp is present exactly once
/// anything has run.
pub proof fn lemma_stats_consistent(s: HookStats)
    requires
        s.wf(),
    ensures
        s.total_executions == s.successful_executions + s.failed_executions,
        s.total_executions > 0 ==> s.average_duration_ns is Some && s.max_duration_ns is Some
            && s.average_duration_ns->0 <= s.max_duration_ns->0,
        s.total_executions > 0 <==> s.last_execution_ms is Some,
{
}

/// Rate limit: everything the purge keeps is still inside the window, so
/// after an admission the window holds at most `max_calls` admissions,
/// all within the window ending at `now`.
pub proof fn lemma_retained_in_window(calls: Seq<int>, now: int, window: int)
    ensures
        forall|k: int|
            0 <= k < retained(calls, now, window).len() ==> in_window(
                #[trigger] retained(calls, now, window)[k],
                now,
                window,
            ),
    decreases calls.len(),
{
    if calls.len() > 0 {
        lemma_retained_in_window(calls.skip(1), now, window);
        let out = retained(calls, now, window);
        let head: Seq<int> = if in_window(calls[0], now, window) {
            seq![calls[0]]
        } else {
            Seq::empty()
        };
        assert forall|k: int|
            0 <= k < out.len() implies in_window(#[trigger] out[k], now, window) by {
            if k >= head.len() {
                assert(out[k] == retained(calls.skip(1), now, window)[k - head.len()]);
            }
        }
    }
}

} // verus!
