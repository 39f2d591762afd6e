//! Lifecycle observability: every handler of a fire moves through
//! `Pre -> Executing -> (Post | Failed)` or is `Skipped`, and the
//! dispatcher records each transition as an event.
//!
//! Instead of invoking observer callbacks inside the dispatcher, the
//! transitions are appended to this log in order; a host replays the log
//! to its observers, which preserves the order the dispatcher produced
//! and keeps arbitrary observer code out of the verified engine.
//!
//! Events accumulate in an in-memory log that the host drains to its
//! observers; the active-execution map holds the handlers currently
//! between their `Pre` and their terminal event.

use crate::strutil::{dec_digits, str_eq, u64_to_string};
use vstd::prelude::*;

verus! {

broadcast use vstd::std_specs::vec::group_vec_axioms;

/// Where a handler stands in one invocation.
#[derive(Debug, Clone, Copy, PartialEq, Eq, Structural)]
pub enum HookPhase {
    /// Before handler execution.
    PreExecution,
    /// During handler execution.
    Executing,
    /// After successful execution.
    PostExecution,
    /// After failed execution.
    Failed,
    /// Execution was skipped.
    Skipped,
}

/// The model of a lifecycle event.
pub ghost struct EventV {
    pub handler: Seq<char>,
    pub phase: HookPhase,
    pub timestamp_ms: int,
    pub error: Option<Seq<char>>,
    pub duration_ms: Option<int>,
}

/// One observer-visible transition of a handler.
#[derive(Debug, Clone)]
pub struct HookLifecycleEvent {
    /// The handler's name.
    pub handler: String,
    /// The phase entered.
    pub phase: HookPhase,
    /// Wall-clock milliseconds of the transition.
    pub timestamp_ms: u64,
    /// The failure text, on `Failed` events.
    pub error: Option<String>,
    /// Wall-clock duration since `Pre`, on terminal events where known.
    pub duration_ms: Option<u64>,
}

impl View for HookLifecycleEvent {
    type V = EventV;

    open spec fn view(&self) -> EventV {
        EventV {
            handler: self.handler@,
            phase: self.phase,
            timestamp_ms: self.timestamp_ms as int,
            error: match self.error {
                Some(e) => Some(e@),
                None => None,
            },
            duration_ms: match self.duration_ms {
                Some(d) => Some(d as int),
                None => None,
            },
        }
    }
}

/// The model of an event log.
pub open spec fn events_view(v: Seq<HookLifecycleEvent>) -> Seq<EventV> {
    Seq::new(v.len(), |i: int| v[i]@)
}

/// The model of the active-execution map.
pub open spec fn active_view(v: Seq<(String, u64)>) -> Seq<(Seq<char>, int)> {
    Seq::new(v.len(), |i: int| (v[i].0@, v[i].1 as int))
}

/// The `Pre` timestamp recorded under `name`, if any.
pub open spec fn active_lookup(entries: Seq<(Seq<char>, int)>, name: Seq<char>) -> Option<int>
    decreases entries.len(),
{
    if entries.len() == 0 {
        None
    } else if entries[0].0 == name {
        Some(entries[0].1)
    } else {
        active_lookup(entries.skip(1), name)
    }
}

/// The active map after recording `name` at `t`: an existing entry is
/// updated, a new one appended.
pub open spec fn active_set(entries: Seq<(Seq<char>, int)>, name: Seq<char>, t: int) -> Seq<
    (Seq<char>, int),
>
    decreases entries.len(),
{
    if entries.len() == 0 {
        seq![(name, t)]
    } else if entries[0].0 == name {
        seq![(name, t)] + entries.skip(1)
    } else {
        seq![entries[0]] + active_set(entries.skip(1), name, t)
    }
}

/// The active map with every entry for `name` removed.
pub open spec fn active_remove(entries: Seq<(Seq<char>, int)>, name: Seq<char>) -> Seq<
    (Seq<char>, int),
>
    decreases entries.len(),
{
    if entries.len() == 0 {
        Seq::empty()
    } else if entries[0].0 == name {
        active_remove(entries.skip(1), name)
    } else {
        seq![entries[0]] + active_remove(entries.skip(1), name)
    }
}

/// After recording `name` at `t`, the map reads `t` back for it.
pub proof fn lemma_active_set_lookup(entries: Seq<(Seq<char>, int)>, name: Seq<char>, t: int)
    ensures
        active_lookup(active_set(entries, name, t), name) == Some(t),
    decreases entries.len(),
{
    if entries.len() == 0 {
        assert(active_set(entries, name, t)[0] == (name, t));
    } else if entries[0].0 == name {
        assert(active_set(entries, name, t)[0] == (name, t));
    } else {
        lemma_active_set_lookup(entries.skip(1), name, t);
        assert(active_set(entries, name, t)[0] == entries[0]);
        assert(active_set(entries, name, t).skip(1) =~= active_set(entries.skip(1), name, t));
    }
}

/// An event without error or duration.
pub open spec fn plain_event(handler: Seq<char>, phase: HookPhase, now: int) -> EventV {
    EventV { handler, phase, timestamp_ms: now, error: None, duration_ms: None }
}

/// The duration a terminal event reports: the wall-clock span since the
/// recorded `Pre`, absent where no `Pre` was recorded.
pub open spec fn span_since_pre(active: Seq<(Seq<char>, int)>, name: Seq<char>, now: int) -> Option<
    int,
> {
    match active_lookup(active, name) {
        Some(t) => if now >= t {
            Some(now - t)
        } else {
            Some(0)
        },
        None => None,
    }
}

/// The event log and active-execution tracking of one dispatcher.
#[derive(Debug)]
pub struct HookLifecycle {
    /// Every event recorded, oldest first.
    pub events: Vec<HookLifecycleEvent>,
    /// The handlers between `Pre` and their terminal event, with their
    /// `Pre` timestamps.
    pub active: Vec<(String, u64)>,
}

impl HookLifecycle {
    /// The log as the rest of the crate reasons about it.
    pub open spec fn events_log(&self) -> Seq<EventV> {
        events_view(self.events@)
    }

    /// The active map as the rest of the crate reasons about it.
    pub open spec fn active_map(&self) -> Seq<(Seq<char>, int)> {
        active_view(self.active@)
    }

    /// An empty lifecycle: no events, nothing active.
    pub fn new() -> (r: Self)
        ensures
            r.events_log() == Seq::<EventV>::empty(),
            r.active_map() == Seq::<(Seq<char>, int)>::empty(),
    {
        let r = HookLifecycle { events: Vec::new(), active: Vec::new() };
        proof {
            assert(r.events_log() =~= Seq::<EventV>::empty());
            assert(r.active_map() =~= Seq::<(Seq<char>, int)>::empty());
        }
        r
    }

    /// Record that `handler` is about to run: a `PreExecution` event, and
    /// an active entry holding its timestamp.
    pub fn pre_execution(&mut self, handler: &str, now_ms: u64)
        ensures
            final(self).events_log() == old(self).events_log().push(
                plain_event(handler@, HookPhase::PreExecution, now_ms as int),
            ),
            final(self).active_map() == active_set(old(self).active_map(), handler@, now_ms as int),
    {
        let ev = HookLifecycleEvent {
            handler: String::from_str(handler),
            phase: HookPhase::PreExecution,
            timestamp_ms: now_ms,
            error: None,
            duration_ms: None,
        };
        let ghost before = self.events_log();
        self.events.push(ev);
        proof {
            assert(self.events_log() =~= before.push(
                plain_event(handler@, HookPhase::PreExecution, now_ms as int),
            ));
        }
        let mut active: Vec<(String, u64)> = Vec::new();
        core::mem::swap(&mut active, &mut self.active);
        self.active = set_active(active, handler, now_ms);
    }

    /// Record that `handler` has started executing.
    pub fn executing(&mut self, handler: &str, now_ms: u64)
        ensures
            final(self).events_log() == old(self).events_log().push(
                plain_event(handler@, HookPhase::Executing, now_ms as int),
            ),
            final(self).active_map() == old(self).active_map(),
    {
        let ev = HookLifecycleEvent {
            handler: String::from_str(handler),
            phase: HookPhase::Executing,
            timestamp_ms: now_ms,
            error: None,
            duration_ms: None,
        };
        let ghost before = self.events_log();
        self.events.push(ev);
        proof {
            assert(self.events_log() =~= before.push(
                plain_event(handler@, HookPhase::Executing, now_ms as int),
            ));
        }
    }

    /// Record that `handler` completed: a `PostExecution` event carrying
    /// the wall-clock duration since its `Pre`, and the active entry gone.
    pub fn post_execution(&mut self, handler: &str, now_ms: u64)
        ensures
            final(self).events_log() == old(self).events_log().push(
                EventV {
                    handler: handler@,
                    phase: HookPhase::PostExecution,
                    timestamp_ms: now_ms as int,
                    error: None,
                    duration_ms: span_since_pre(old(self).active_map(), handler@, now_ms as int),
                },
            ),
            final(self).active_map() == active_remove(old(self).active_map(), handler@),
    {
        let duration = self.calculate_duration(handler, now_ms);
        let ev = HookLifecycleEvent {
            handler: String::from_str(handler),
            phase: HookPhase::PostExecution,
            timestamp_ms: now_ms,
            error: None,
            duration_ms: duration,
        };
        let ghost before = self.events_log();
        self.events.push(ev);
        proof {
            assert(self.events_log() =~= before.push(
                EventV {
                    handler: handler@,
                    phase: HookPhase::PostExecution,
                    timestamp_ms: now_ms as int,
                    error: None,
                    duration_ms: span_since_pre(old(self).active_map(), handler@, now_ms as int),
                },
            ));
        }
        let mut active: Vec<(String, u64)> = Vec::new();
        core::mem::swap(&mut active, &mut self.active);
        self.active = remove_active(active, handler);
    }

    /// Record that `handler` failed: a `Failed` event carrying the error
    /// text and the duration since its `Pre` where one was recorded.
    pub fn failed(&mut self, handler: &str, error: String, now_ms: u64)
        ensures
            final(self).events_log() == old(self).events_log().push(
                EventV {
                    handler: handler@,
                    phase: HookPhase::Failed,
                    timestamp_ms: now_ms as int,
                    error: Some(error@),
                    duration_ms: span_since_pre(old(self).active_map(), handler@, now_ms as int),
                },
            ),
            final(self).active_map() == active_remove(old(self).active_map(), handler@),
    {
        let duration = self.calculate_duration(handler, now_ms);
        let ev = HookLifecycleEvent {
            handler: String::from_str(handler),
            phase: HookPhase::Failed,
            timestamp_ms: now_ms,
            error: Some(error),
            duration_ms: duration,
        };
        let ghost before = self.events_log();
        let ghost gev = ev@;
        self.events.push(ev);
        proof {
            assert(self.events_log() =~= before.push(gev));
        }
        let mut active: Vec<(String, u64)> = Vec::new();
        core::mem::swap(&mut active, &mut self.active);
        self.active = remove_active(active, handler);
    }

    /// Record that `handler` was not run on this fire.
    pub fn skipped(&mut self, handler: &str, now_ms: u64)
        ensures
            final(self).events_log() == old(self).events_log().push(
                plain_event(handler@, HookPhase::Skipped, now_ms as int),
            ),
            final(self).active_map() == old(self).active_map(),
    {
        let ev = HookLifecycleEvent {
            handler: String::from_str(handler),
            phase: HookPhase::Skipped,
            timestamp_ms: now_ms,
            error: None,
            duration_ms: None,
        };
        let ghost before = self.events_log();
        self.events.push(ev);
        proof {
            assert(self.events_log() =~= before.push(
                plain_event(handler@, HookPhase::Skipped, now_ms as int),
            ));
        }
    }

    /// The handlers currently between `Pre` and their terminal event.
    pub fn active_executions(&self) -> (r: Vec<(String, u64)>)
        ensures
            active_view(r@) == self.active_map(),
    {
        let mut out: Vec<(String, u64)> = Vec::new();
        let n = self.active.len();
        for i in 0..n
            invariant
                n == self.active@.len(),
                out@.len() == i,
                forall|k: int|
                    0 <= k < i ==> out@[k].0@ == self.active@[k].0@ && out@[k].1
                        == self.active@[k].1,
        {
            let pair = &self.active[i];
            out.push((pair.0.clone(), pair.1));
        }
        proof {
            assert(active_view(out@) =~= self.active_map());
        }
        out
    }

    /// The duration since the recorded `Pre` of `handler`, where one is.
    fn calculate_duration(&self, handler: &str, now_ms: u64) -> (r: Option<u64>)
        ensures
            match r {
                Some(d) => span_since_pre(self.active_map(), handler@, now_ms as int) == Some(
                    d as int,
                ),
                None => span_since_pre(self.active_map(), handler@, now_ms as int) is None,
            },
    {
        let ghost entries = self.active_map();
        assert(entries.skip(0) =~= entries);
        let n = self.active.len();
        for i in 0..n
            invariant
                n == self.active@.len(),
                entries == self.active_map(),
                active_lookup(entries, handler@) == active_lookup(
                    entries.skip(i as int),
                    handler@,
                ),
        {
            assert(entries.skip(i as int)[0] == entries[i as int]);
            assert(entries.skip(i as int).skip(1) =~= entries.skip(i as int + 1));
            if str_eq(self.active[i].0.as_str(), handler) {
                let t = self.active[i].1;
                if now_ms >= t {
                    return Some(now_ms - t);
                } else {
                    return Some(0);
                }
            }
        }
        assert(entries.skip(n as int) =~= Seq::<(Seq<char>, int)>::empty());
        None
    }
}

/// The active vector after recording `name` at `now`.
fn set_active(entries: Vec<(String, u64)>, name: &str, now: u64) -> (r: Vec<(String, u64)>)
    ensures
        active_view(r@) == active_set(active_view(entries@), name@, now as int),
{
    let ghost whole = active_view(entries@);
    let mut out: Vec<(String, u64)> = Vec::new();
    let mut rest = entries;
    let mut placed = false;
    loop
        invariant_except_break
            !placed ==> active_set(whole, name@, now as int) == active_view(out@) + active_set(
                active_view(rest@),
                name@,
                now as int,
            ),
            placed ==> active_set(whole, name@, now as int) == active_view(out@) + active_view(
                rest@,
            ),
        ensures
            placed ==> active_set(whole, name@, now as int) == active_view(out@) + active_view(
                rest@,
            ) && rest@.len() == 0,
            !placed ==> rest@.len() == 0 && active_set(whole, name@, now as int) == active_view(
                out@,
            ) + active_set(Seq::empty(), name@, now as int),
        decreases rest@.len(),
    {
        if rest.len() == 0 {
            assert(active_view(rest@) =~= Seq::<(Seq<char>, int)>::empty());
            break;
        }
        let ghost grest = active_view(rest@);
        assert(grest[0] == (rest@[0].0@, rest@[0].1 as int));
        let head = rest.remove(0);
        assert(active_view(rest@) =~= grest.skip(1));
        let ghost gout = active_view(out@);
        if !placed && str_eq(head.0.as_str(), name) {
            out.push((String::from_str(name), now));
            assert(active_view(out@) =~= gout + seq![(name@, now as int)]);
            assert(active_set(grest, name@, now as int) == seq![(name@, now as int)] + grest.skip(
                1,
            ));
            assert(gout + active_set(grest, name@, now as int) =~= active_view(out@) + grest.skip(
                1,
            ));
            placed = true;
        } else {
            let ghost ghead = (head.0@, head.1 as int);
            out.push(head);
            assert(active_view(out@) =~= gout + seq![ghead]);
            if !placed {
                assert(active_set(grest, name@, now as int) == seq![ghead] + active_set(
                    grest.skip(1),
                    name@,
                    now as int,
                ));
                assert(gout + active_set(grest, name@, now as int) =~= active_view(out@)
                    + active_set(grest.skip(1), name@, now as int));
            } else {
                assert(grest =~= seq![ghead] + grest.skip(1));
                assert(gout + grest =~= active_view(out@) + grest.skip(1));
            }
        }
    }
    if !placed {
        let ghost gout = active_view(out@);
        out.push((String::from_str(name), now));
        assert(active_view(out@) =~= gout + seq![(name@, now as int)]);
        assert(active_set(Seq::empty(), name@, now as int) == seq![(name@, now as int)]);
    } else {
        assert(active_view(rest@) =~= Seq::<(Seq<char>, int)>::empty());
        assert(active_set(whole, name@, now as int) =~= active_view(out@));
    }
    out
}

/// The active vector with every entry for `name` removed.
fn remove_active(entries: Vec<(String, u64)>, name: &str) -> (r: Vec<(String, u64)>)
    ensures
        active_view(r@) == active_remove(active_view(entries@), name@),
{
    let ghost whole = active_view(entries@);
    let mut out: Vec<(String, u64)> = Vec::new();
    let mut rest = entries;
    loop
        invariant_except_break
            active_remove(whole, name@) == active_view(out@) + active_remove(
                active_view(rest@),
                name@,
            ),
        ensures
            active_remove(whole, name@) == active_view(out@),
        decreases rest@.len(),
    {
        if rest.len() == 0 {
            assert(active_view(rest@) =~= Seq::<(Seq<char>, int)>::empty());
            assert(active_view(out@) + active_remove(active_view(rest@), name@) =~= active_view(
                out@,
            ));
            break;
        }
        let ghost gout = active_view(out@);
        let ghost grest = active_view(rest@);
        assert(grest[0] == (rest@[0].0@, rest@[0].1 as int));
        let head = rest.remove(0);
        assert(active_view(rest@) =~= grest.skip(1));
        if str_eq(head.0.as_str(), name) {
            assert(active_remove(grest, name@) == active_remove(grest.skip(1), name@));
        } else {
            let ghost ghead = (head.0@, head.1 as int);
            out.push(head);
            assert(active_view(out@) =~= gout + seq![ghead]);
            assert(active_remove(grest, name@) == seq![ghead] + active_remove(
                grest.skip(1),
                name@,
            ));
            assert(gout + active_remove(grest, name@) =~= active_view(out@) + active_remove(
                grest.skip(1),
                name@,
            ));
        }
    }
    out
}

/// A sink for lifecycle events; hosts implement it and replay the log.
pub trait LifecycleObserver {
    /// Take note of one event.
    fn on_event(&mut self, event: &HookLifecycleEvent);
}

/// How verbose an observer or a logging handler is.
#[derive(Debug, Clone, Copy, PartialEq, Eq, Structural)]
pub enum LogLevel {
    Trace,
    Debug,
    Info,
    Warn,
    Error,
}

/// The line an event is logged as.
pub open spec fn event_line(e: EventV) -> Seq<char> {
    if e.phase == HookPhase::PreExecution {
        "Hook handler '"@ + e.handler + "' starting"@
    } else if e.phase == HookPhase::Executing {
        "Hook handler '"@ + e.handler + "' executing"@
    } else if e.phase == HookPhase::PostExecution {
        match e.duration_ms {
            Some(d) => "Hook handler '"@ + e.handler + "' completed in "@ + dec_digits(d as nat)
                + "ms"@,
            None => "Hook handler '"@ + e.handler + "' completed"@,
        }
    } else if e.phase == HookPhase::Failed {
        match e.error {
            Some(err) => "Hook handler '"@ + e.handler + "' failed: "@ + err,
            None => "Hook handler '"@ + e.handler + "' failed"@,
        }
    } else {
        "Hook handler '"@ + e.handler + "' skipped"@
    }
}

/// An observer that renders each event as a log line and keeps the lines
/// for the host's logging facility to emit.
#[derive(Debug)]
pub struct LoggingObserver {
    /// The verbosity the host should emit the lines at.
    pub log_level: LogLevel,
    /// The rendered lines, oldest first.
    pub lines: Vec<String>,
}

impl LoggingObserver {
    /// An observer that renders at the given level, with no lines yet.
    pub fn new(log_level: LogLevel) -> (r: Self)
        ensures
            r.log_level == log_level,
            r.lines@.len() == 0,
    {
        LoggingObserver { log_level, lines: Vec::new() }
    }

    /// The log line for one event.
    pub fn format_event(event: &HookLifecycleEvent) -> (r: String)
        ensures
            r@ == event_line(event@),
    {
        let mut s = String::from_str("Hook handler '");
        s.append(event.handler.as_str());
        match event.phase {
            HookPhase::PreExecution => {
                s.append("' starting");
            },
            HookPhase::Executing => {
                s.append("' executing");
            },
            HookPhase::PostExecution => {
                match &event.duration_ms {
                    Some(d) => {
                        s.append("' completed in ");
                        s.append(u64_to_string(*d).as_str());
                        s.append("ms");
                    },
                    None => {
                        s.append("' completed");
                    },
                }
            },
            HookPhase::Failed => {
                match &event.error {
                    Some(err) => {
                        s.append("' failed: ");
                        s.append(err.as_str());
                    },
                    None => {
                        s.append("' failed");
                    },
                }
            },
            HookPhase::Skipped => {
                s.append("' skipped");
            },
        }
        s
    }
}

impl LoggingObserver {
    /// Take note of one event: the rendered line is appended.
    pub fn record(&mut self, event: &HookLifecycleEvent)
        ensures
            final(self).lines@.len() == old(self).lines@.len() + 1,
            final(self).lines@.last()@ == event_line(event@),
            forall|k: int|
                0 <= k < old(self).lines@.len() ==> final(self).lines@[k] == old(self).lines@[k],
            final(self).log_level == old(self).log_level,
    {
        let line = LoggingObserver::format_event(event);
        self.lines.push(line);
    }
}

impl LifecycleObserver for LoggingObserver {
    /// Render the event and keep the line (the trait carries no contract
    /// so that hosts can implement it; [`LoggingObserver::record`] states
    /// what this impl does).
    fn on_event(&mut self, event: &HookLifecycleEvent) {
        self.record(event);
    }
}

} // verus!
