//! The metrics handler: counters, timers and gauges keyed by a metric
//! name, kept inside the handler and exposed through a snapshot.

use crate::config::BuiltInConfig;
use crate::context::{CtxInfo, CtxInfoV};
use crate::json::{
    fields_view, make_obj, obj_lookup, obj_set, Json, JsonV,
};
use crate::types::{ExecutionResult, hook_name, HookType, ResultV};
use vstd::prelude::*;

verus! {

broadcast use vstd::std_specs::vec::group_vec_axioms, vstd::seq::group_seq_axioms;

/// The model of the counter store.
pub open spec fn counters_view(v: Seq<(String, u64)>) -> Seq<(Seq<char>, int)> {
    Seq::new(v.len(), |i: int| (v[i].0@, v[i].1 as int))
}

/// The model of the gauge store.
pub open spec fn gauges_view(v: Seq<(String, i64)>) -> Seq<(Seq<char>, int)> {
    Seq::new(v.len(), |i: int| (v[i].0@, v[i].1 as int))
}

/// The model of the timer store.
pub open spec fn timers_view(v: Seq<(String, Vec<u64>)>) -> Seq<(Seq<char>, Seq<int>)> {
    Seq::new(v.len(), |i: int| (v[i].0@, Seq::new(v[i].1@.len(), |j: int| v[i].1@[j] as int)))
}

/// The value stored under `key` in an integer store.
pub open spec fn store_lookup(entries: Seq<(Seq<char>, int)>, key: Seq<char>) -> Option<int>
    decreases entries.len(),
{
    if entries.len() == 0 {
        None
    } else if entries[0].0 == key {
        Some(entries[0].1)
    } else {
        store_lookup(entries.skip(1), key)
    }
}

/// The store after setting `key` to `value` in place, appending where new.
pub open spec fn store_set(entries: Seq<(Seq<char>, int)>, key: Seq<char>, value: int) -> Seq<
    (Seq<char>, int),
>
    decreases entries.len(),
{
    if entries.len() == 0 {
        seq![(key, value)]
    } else if entries[0].0 == key {
        seq![(key, value)] + entries.skip(1)
    } else {
        seq![entries[0]] + store_set(entries.skip(1), key, value)
    }
}

/// The list stored under `key` in the timer store.
pub open spec fn timers_lookup(entries: Seq<(Seq<char>, Seq<int>)>, key: Seq<char>) -> Option<
    Seq<int>,
>
    decreases entries.len(),
{
    if entries.len() == 0 {
        None
    } else if entries[0].0 == key {
        Some(entries[0].1)
    } else {
        timers_lookup(entries.skip(1), key)
    }
}

/// The timer store after appending `value` under `key`.
pub open spec fn timers_push(entries: Seq<(Seq<char>, Seq<int>)>, key: Seq<char>, value: int) -> Seq<
    (Seq<char>, Seq<int>),
>
    decreases entries.len(),
{
    if entries.len() == 0 {
        seq![(key, seq![value])]
    } else if entries[0].0 == key {
        seq![(entries[0].0, entries[0].1.push(value))] + entries.skip(1)
    } else {
        seq![entries[0]] + timers_push(entries.skip(1), key, value)
    }
}

/// The sum of a duration list.
pub open spec fn sum_of(list: Seq<int>) -> int
    decreases list.len(),
{
    if list.len() == 0 {
        0
    } else {
        list[0] + sum_of(list.skip(1))
    }
}

/// The mean of a duration list, zero where empty.
pub open spec fn mean_of(list: Seq<int>) -> int {
    if list.len() == 0 {
        0
    } else {
        sum_of(list) / (list.len() as int)
    }
}

/// The metric key the configuration selects: its `metric_key` value, or
/// `hook.<hook name>`.
pub open spec fn metric_key_of(config: Seq<(Seq<char>, JsonV)>, ht: Seq<char>) -> Seq<char> {
    match obj_lookup(config, "metric_key"@) {
        Some(JsonV::Str(s)) => s,
        _ => "hook."@ + ht,
    }
}

/// Whether the configuration asks for the metric to be exported into the
/// data stream.
pub open spec fn export_of(config: Seq<(Seq<char>, JsonV)>) -> bool {
    match obj_lookup(config, "export"@) {
        Some(JsonV::Bool(b)) => b,
        _ => false,
    }
}

/// The built-in metrics handler.
#[derive(Debug)]
pub struct MetricsHandler {
    name: String,
    config: BuiltInConfig,
    counters: Vec<(String, u64)>,
    timers: Vec<(String, Vec<u64>)>,
    gauges: Vec<(String, i64)>,
}

impl MetricsHandler {
    /// The handler's name.
    pub closed spec fn spec_name(&self) -> Seq<char> {
        self.name@
    }

    /// The handler's configuration map.
    pub closed spec fn config_map(&self) -> Seq<(Seq<char>, JsonV)> {
        fields_view(self.config.config@)
    }

    /// The model of the counter store.
    pub closed spec fn spec_counters(&self) -> Seq<(Seq<char>, int)> {
        counters_view(self.counters@)
    }

    /// The model of the timer store.
    pub closed spec fn spec_timers(&self) -> Seq<(Seq<char>, Seq<int>)> {
        timers_view(self.timers@)
    }

    /// The model of the gauge store.
    pub closed spec fn spec_gauges(&self) -> Seq<(Seq<char>, int)> {
        gauges_view(self.gauges@)
    }

    /// A metrics handler with empty stores.
    pub fn new(name: String, config: BuiltInConfig) -> (r: Self)
        ensures
            r.spec_name() == name@,
            r.config_map() == fields_view(config.config@),
            r.spec_counters() == Seq::<(Seq<char>, int)>::empty(),
            r.spec_timers() == Seq::<(Seq<char>, Seq<int>)>::empty(),
            r.spec_gauges() == Seq::<(Seq<char>, int)>::empty(),
    {
        let r = MetricsHandler {
            name,
            config,
            counters: Vec::new(),
            timers: Vec::new(),
            gauges: Vec::new(),
        };
        proof {
            assert(r.spec_counters() =~= Seq::<(Seq<char>, int)>::empty());
            assert(r.spec_timers() =~= Seq::<(Seq<char>, Seq<int>)>::empty());
            assert(r.spec_gauges() =~= Seq::<(Seq<char>, int)>::empty());
        }
        r
    }

    /// The handler's name.
    pub fn name(&self) -> (r: &str)
        ensures
            r@ == self.spec_name(),
    {
        self.name.as_str()
    }

    /// The metric key for one payload.
    fn metric_key(&self, hook_type: &HookType) -> (r: String)
        ensures
            r@ == metric_key_of(self.config_map(), hook_name(hook_type@)),
    {
        match crate::json::fields_get_str(&self.config.config, "metric_key") {
            Some(s) => s.clone(),
            None => {
                let mut s = String::from_str("hook.");
                s.append(hook_type.to_string().as_str());
                s
            },
        }
    }

    /// One invocation.  Counters increment by one (saturating at the
    /// limit of the type); timers record `now - start_time_ms` where the
    /// snapshot carries a start; gauges take `data.value`, else zero.
    /// With `export`, the metric is folded into the data as a `Replace`.
    pub fn execute(
        &mut self,
        info: &CtxInfo,
        hook_type: &HookType,
        data: &Json,
        now_ms: u64,
    ) -> (r: ExecutionResult)
        requires
            now_ms <= 0x7fffffffffffffff,
        ensures
            final(self).spec_name() == old(self).spec_name(),
            final(self).config_map() == old(self).config_map(),
            r@ == metrics_outcome(
                old(self).config_map(),
                old(self).spec_counters(),
                old(self).spec_timers(),
                hook_name(hook_type@),
                data@,
                info@,
                now_ms as int,
            ).0,
            final(self).spec_counters() == metrics_outcome(
                old(self).config_map(),
                old(self).spec_counters(),
                old(self).spec_timers(),
                hook_name(hook_type@),
                data@,
                info@,
                now_ms as int,
            ).1,
            final(self).spec_timers() == metrics_outcome(
                old(self).config_map(),
                old(self).spec_counters(),
                old(self).spec_timers(),
                hook_name(hook_type@),
                data@,
                info@,
                now_ms as int,
            ).2,
            final(self).spec_gauges() == metrics_outcome_gauges(
                old(self).config_map(),
                old(self).spec_gauges(),
                hook_name(hook_type@),
                data@,
            ),
    {
        proof {
            reveal_strlit("counter");
            reveal_strlit("timer");
            reveal_strlit("gauge");
            assert("counter"@.len() == 7);
            assert("gauge"@.len() == 5);
            assert("timer"@.len() == 5);
            assert("timer"@[0] == 't' && "gauge"@[0] == 'g');
        }
        let key = self.metric_key(hook_type);
        let mtype = match crate::json::fields_get_str(&self.config.config, "metric_type") {
            Some(s) => s.clone(),
            None => String::from_str("counter"),
        };
        let export = match crate::json::fields_get_bool(&self.config.config, "export") {
            Some(b) => b,
            None => false,
        };
        if crate::strutil::str_eq(mtype.as_str(), "counter") {
            let current = match lookup_counter(&self.counters, key.as_str()) {
                Some(c) => c,
                None => 0,
            };
            let bumped: u64 = if current < 0xffffffffffffffff {
                current + 1
            } else {
                current
            };
            let mut counters: Vec<(String, u64)> = Vec::new();
            core::mem::swap(&mut counters, &mut self.counters);
            self.counters = set_counter(counters, key.as_str(), bumped);
            if export {
                let mut metric_fields: Vec<(String, Json)> = Vec::new();
                metric_fields.push((String::from_str("type"), Json::Str(String::from_str("counter"))));
                metric_fields.push((String::from_str("key"), Json::Str(key)));
                metric_fields.push((String::from_str("value"), Json::Num(clamp_u64(bumped))));
                let ghost gm = metric_fields@;
                let metric = make_obj(metric_fields);
                let mut out_fields: Vec<(String, Json)> = Vec::new();
                out_fields.push((String::from_str("data"), data.clone()));
                out_fields.push((String::from_str("metrics"), metric));
                let ghost go = out_fields@;
                let out = make_obj(out_fields);
                proof {
                    assert(fields_view(gm) =~= counter_metric_fields(
                        metric_key_of(old(self).config_map(), hook_name(hook_type@)),
                        bumped as int,
                    ));
                    assert(fields_view(go) =~= seq![
                        ("data"@, data@),
                        (
                            "metrics"@,
                            JsonV::Obj(
                                counter_metric_fields(
                                    metric_key_of(old(self).config_map(), hook_name(hook_type@)),
                                    bumped as int,
                                ),
                            ),
                        ),
                    ]);
                }
                ExecutionResult::Replace(out)
            } else {
                ExecutionResult::Continue
            }
        } else if crate::strutil::str_eq(mtype.as_str(), "timer") {
            match &info.start_time_ms {
                Some(start) => {
                    let start = *start;
                    let duration: u64 = if now_ms >= start {
                        now_ms - start
                    } else {
                        0
                    };
                    let mut timers: Vec<(String, Vec<u64>)> = Vec::new();
                    core::mem::swap(&mut timers, &mut self.timers);
                    self.timers = push_timer(timers, key.as_str(), duration);
                    if export {
                        let ghost gtimers = timers_view(old(self).timers@);
                        let (count, avg) = match lookup_timers(&self.timers, key.as_str()) {
                            Some(l) => (l.len(), mean_u64(l)),
                            None => {
                                proof {
                                    lemma_timers_push_found(gtimers, key@, duration as int);
                                }
                                (0, 0)
                            },
                        };
                        let mut metric_fields: Vec<(String, Json)> = Vec::new();
                        metric_fields.push((String::from_str("type"), Json::Str(String::from_str("timer"))));
                        metric_fields.push((String::from_str("key"), Json::Str(key)));
                        metric_fields.push((String::from_str("current_ms"), Json::Num(clamp_u64(duration))));
                        metric_fields.push((String::from_str("average_ms"), Json::Num(avg)));
                        metric_fields.push((String::from_str("count"), Json::Num(clamp_u64(count as u64))));
                        let ghost gm = metric_fields@;
                        let metric = make_obj(metric_fields);
                        let mut out_fields: Vec<(String, Json)> = Vec::new();
                        out_fields.push((String::from_str("data"), data.clone()));
                        out_fields.push((String::from_str("metrics"), metric));
                        let ghost go = out_fields@;
                        let out = make_obj(out_fields);
                        proof {
                            let gkey = metric_key_of(old(self).config_map(), hook_name(hook_type@));
                            let glist = timers_lookup(
                                timers_push(gtimers, gkey, duration as int),
                                gkey,
                            )->0;
                            assert(fields_view(gm) =~= timer_metric_fields(
                                gkey,
                                duration as int,
                                glist,
                            ));
                            assert(fields_view(go) =~= seq![
                                ("data"@, data@),
                                (
                                    "metrics"@,
                                    JsonV::Obj(
                                        timer_metric_fields(gkey, duration as int, glist),
                                    ),
                                ),
                            ]);
                        }
                        ExecutionResult::Replace(out)
                    } else {
                        ExecutionResult::Continue
                    }
                },
                None => ExecutionResult::Continue,
            }
        } else if crate::strutil::str_eq(mtype.as_str(), "gauge") {
            let top: Option<i64> = match data.get("value") {
                Some(v) => match v {
                    Json::Num(n) => Some(*n),
                    other => {
                        proof {
                            crate::json::lemma_view_variant(*other);
                        }
                        None
                    },
                },
                None => None,
            };
            proof {
                crate::json::lemma_view_variant(*data);
            }
            let value: i64 = match top {
                Some(n) => n,
                None => {
                    match crate::json::fields_get_str(&self.config.config, "value_path") {
                        Some(p) => match crate::json::json_pointer(data, p.as_str()) {
                            Some(found) => match found {
                                Json::Num(n) => *n,
                                other => {
                                    proof {
                                        crate::json::lemma_view_variant(*other);
                                    }
                                    0
                                },
                            },
                            None => 0,
                        },
                        None => 0,
                    }
                },
            };
            let mut gauges: Vec<(String, i64)> = Vec::new();
            core::mem::swap(&mut gauges, &mut self.gauges);
            self.gauges = set_gauge(gauges, key.as_str(), value);
            if export {
                let mut metric_fields: Vec<(String, Json)> = Vec::new();
                metric_fields.push((String::from_str("type"), Json::Str(String::from_str("gauge"))));
                metric_fields.push((String::from_str("key"), Json::Str(key)));
                metric_fields.push((String::from_str("value"), Json::Num(value)));
                let ghost gm = metric_fields@;
                let metric = make_obj(metric_fields);
                let mut out_fields: Vec<(String, Json)> = Vec::new();
                out_fields.push((String::from_str("data"), data.clone()));
                out_fields.push((String::from_str("metrics"), metric));
                let ghost go = out_fields@;
                let out = make_obj(out_fields);
                proof {
                    assert(fields_view(gm) =~= gauge_metric_fields(
                        metric_key_of(old(self).config_map(), hook_name(hook_type@)),
                        value as int,
                    ));
                    assert(fields_view(go) =~= seq![
                        ("data"@, data@),
                        (
                            "metrics"@,
                            JsonV::Obj(
                                gauge_metric_fields(
                                    metric_key_of(old(self).config_map(), hook_name(hook_type@)),
                                    value as int,
                                ),
                            ),
                        ),
                    ]);
                }
                ExecutionResult::Replace(out)
            } else {
                ExecutionResult::Continue
            }
        } else {
            ExecutionResult::Continue
        }
    }

    /// A snapshot of every store: counters and gauges verbatim, timers as
    /// count and mean milliseconds.
    pub fn get_metrics(&self) -> (r: Json)
        ensures
            r@ == metrics_snapshot(self.spec_counters(), self.spec_timers(), self.spec_gauges()),
    {
        let mut counter_fields: Vec<(String, Json)> = Vec::new();
        let n = self.counters.len();
        for i in 0..n
            invariant
                n == self.counters@.len(),
                counter_fields@.len() == i,
                forall|k: int|
                    0 <= k < i ==> counter_fields@[k].0@ == self.counters@[k].0@
                        && counter_fields@[k].1@ == JsonV::Num(
                        clamp_to_i64(self.counters@[k].1 as int),
                    ),
        {
            let pair = &self.counters[i];
            counter_fields.push((pair.0.clone(), Json::Num(clamp_u64(pair.1))));
            assert(counter_fields@[i as int].0@ == self.counters@[i as int].0@);
            assert(counter_fields@[i as int].1@ == JsonV::Num(
                clamp_to_i64(self.counters@[i as int].1 as int),
            ));
        }
        let ghost gcounters = counter_fields@;
        let mut timer_fields: Vec<(String, Json)> = Vec::new();
        let m = self.timers.len();
        for i in 0..m
            invariant
                m == self.timers@.len(),
                timer_fields@.len() == i,
                forall|k: int|
                    0 <= k < i ==> timer_fields@[k].0@ == self.timers@[k].0@
                        && timer_fields@[k].1@ == timer_entry_json(
                        Seq::new(self.timers@[k].1@.len(), |j: int| self.timers@[k].1@[j] as int),
                    ),
        {
            let pair = &self.timers[i];
            let mut one: Vec<(String, Json)> = Vec::new();
            one.push((String::from_str("count"), Json::Num(clamp_u64(pair.1.len() as u64))));
            one.push((String::from_str("average_ms"), Json::Num(mean_u64(&pair.1))));
            let ghost gone = one@;
            let entry = make_obj(one);
            proof {
                let glist = Seq::new(pair.1@.len(), |j: int| pair.1@[j] as int);
                assert(fields_view(gone) =~= seq![
                    ("count"@, JsonV::Num(clamp_to_i64(glist.len() as int))),
                    ("average_ms"@, JsonV::Num(clamp_to_i64(mean_of(glist)))),
                ]);
            }
            timer_fields.push((pair.0.clone(), entry));
            assert(timer_fields@[i as int].0@ == self.timers@[i as int].0@);
            assert(timer_fields@[i as int].1@ == timer_entry_json(
                Seq::new(self.timers@[i as int].1@.len(), |j: int| self.timers@[i as int].1@[j] as int),
            ));
        }
        let ghost gtimers = timer_fields@;
        let mut gauge_fields: Vec<(String, Json)> = Vec::new();
        let g = self.gauges.len();
        for i in 0..g
            invariant
                g == self.gauges@.len(),
                gauge_fields@.len() == i,
                forall|k: int|
                    0 <= k < i ==> gauge_fields@[k].0@ == self.gauges@[k].0@
                        && gauge_fields@[k].1@ == JsonV::Num(self.gauges@[k].1 as int),
        {
            let pair = &self.gauges[i];
            gauge_fields.push((pair.0.clone(), Json::Num(pair.1)));
            assert(gauge_fields@[i as int].0@ == self.gauges@[i as int].0@);
            assert(gauge_fields@[i as int].1@ == JsonV::Num(self.gauges@[i as int].1 as int));
        }
        let ghost ggauges = gauge_fields@;
        let counters_obj = make_obj(counter_fields);
        let timers_obj = make_obj(timer_fields);
        let gauges_obj = make_obj(gauge_fields);
        proof {
            assert(fields_view(gcounters) =~= counters_json(counters_view(self.counters@)));
            assert(fields_view(gtimers) =~= timers_json(timers_view(self.timers@)));
            assert(fields_view(ggauges) =~= gauges_json(gauges_view(self.gauges@)));
        }
        let mut out: Vec<(String, Json)> = Vec::new();
        out.push((String::from_str("counters"), counters_obj));
        out.push((String::from_str("timers"), timers_obj));
        out.push((String::from_str("gauges"), gauges_obj));
        let ghost gout = out@;
        let r = make_obj(out);
        proof {
            assert(fields_view(gout) =~= seq![
                ("counters"@, JsonV::Obj(counters_json(self.spec_counters()))),
                ("timers"@, JsonV::Obj(timers_json(self.spec_timers()))),
                ("gauges"@, JsonV::Obj(gauges_json(self.spec_gauges()))),
            ]);
        }
        r
    }

    /// Clear every store.
    pub fn reset(&mut self)
        ensures
            final(self).spec_counters() == Seq::<(Seq<char>, int)>::empty(),
            final(self).spec_timers() == Seq::<(Seq<char>, Seq<int>)>::empty(),
            final(self).spec_gauges() == Seq::<(Seq<char>, int)>::empty(),
            final(self).spec_name() == old(self).spec_name(),
            final(self).config_map() == old(self).config_map(),
    {
        self.counters = Vec::new();
        self.timers = Vec::new();
        self.gauges = Vec::new();
        proof {
            assert(self.spec_counters() =~= Seq::<(Seq<char>, int)>::empty());
            assert(self.spec_timers() =~= Seq::<(Seq<char>, Seq<int>)>::empty());
            assert(self.spec_gauges() =~= Seq::<(Seq<char>, int)>::empty());
        }
    }
}

/// The counters as a JSON object's fields, clamped into the number range.
pub open spec fn counters_json(s: Seq<(Seq<char>, int)>) -> Seq<(Seq<char>, JsonV)> {
    Seq::new(s.len(), |i: int| (s[i].0, JsonV::Num(clamp_to_i64(s[i].1))))
}

/// Each timer as a JSON object with its count and mean milliseconds.
pub open spec fn timer_entry_json(list: Seq<int>) -> JsonV {
    JsonV::Obj(
        seq![
            ("count"@, JsonV::Num(clamp_to_i64(list.len() as int))),
            ("average_ms"@, JsonV::Num(clamp_to_i64(mean_of(list)))),
        ],
    )
}

/// The timers as a JSON object's fields.
pub open spec fn timers_json(s: Seq<(Seq<char>, Seq<int>)>) -> Seq<(Seq<char>, JsonV)> {
    Seq::new(s.len(), |i: int| (s[i].0, timer_entry_json(s[i].1)))
}

/// The gauges as a JSON object's fields.
pub open spec fn gauges_json(s: Seq<(Seq<char>, int)>) -> Seq<(Seq<char>, JsonV)> {
    Seq::new(s.len(), |i: int| (s[i].0, JsonV::Num(s[i].1)))
}

/// The whole snapshot: the three stores under `counters`, `timers` and
/// `gauges`.
pub open spec fn metrics_snapshot(
    c: Seq<(Seq<char>, int)>,
    t: Seq<(Seq<char>, Seq<int>)>,
    g: Seq<(Seq<char>, int)>,
) -> JsonV {
    JsonV::Obj(
        seq![
            ("counters"@, JsonV::Obj(counters_json(c))),
            ("timers"@, JsonV::Obj(timers_json(t))),
            ("gauges"@, JsonV::Obj(gauges_json(g))),
        ],
    )
}

/// The `{type, key, value}` fields of an exported counter.
pub open spec fn counter_metric_fields(key: Seq<char>, value: int) -> Seq<(Seq<char>, JsonV)> {
    seq![
        ("type"@, JsonV::Str("counter"@)),
        ("key"@, JsonV::Str(key)),
        ("value"@, JsonV::Num(clamp_to_i64(value))),
    ]
}

/// The `{type, key, current_ms, average_ms, count}` fields of an exported
/// timer.
pub open spec fn timer_metric_fields(key: Seq<char>, current: int, list: Seq<int>) -> Seq<
    (Seq<char>, JsonV),
> {
    seq![
        ("type"@, JsonV::Str("timer"@)),
        ("key"@, JsonV::Str(key)),
        ("current_ms"@, JsonV::Num(clamp_to_i64(current))),
        ("average_ms"@, JsonV::Num(clamp_to_i64(mean_of(list)))),
        ("count"@, JsonV::Num(clamp_to_i64(list.len() as int))),
    ]
}

/// The `{type, key, value}` fields of an exported gauge.
pub open spec fn gauge_metric_fields(key: Seq<char>, value: int) -> Seq<(Seq<char>, JsonV)> {
    seq![
        ("type"@, JsonV::Str("gauge"@)),
        ("key"@, JsonV::Str(key)),
        ("value"@, JsonV::Num(value)),
    ]
}

/// A non-negative count clamped into the JSON number range.
pub open spec fn clamp_to_i64(x: int) -> int {
    if x > 0x7fffffffffffffff {
        0x7fffffffffffffff
    } else {
        x
    }
}

/// What one invocation does to the counters and timers, and returns:
/// `(result, counters', timers')`.  Gauges are covered separately.
pub open spec fn metrics_outcome(
    config: Seq<(Seq<char>, JsonV)>,
    counters: Seq<(Seq<char>, int)>,
    timers: Seq<(Seq<char>, Seq<int>)>,
    ht: Seq<char>,
    data: JsonV,
    info: CtxInfoV,
    now: int,
) -> (ResultV, Seq<(Seq<char>, int)>, Seq<(Seq<char>, Seq<int>)>) {
    let key = metric_key_of(config, ht);
    let mtype = match obj_lookup(config, "metric_type"@) {
        Some(JsonV::Str(s)) => s,
        _ => "counter"@,
    };
    let export = export_of(config);
    if mtype == "counter"@ {
        let current = match store_lookup(counters, key) {
            Some(c) => c,
            None => 0,
        };
        let bumped = if current < 0xffffffffffffffff {
            current + 1
        } else {
            current
        };
        let counters2 = store_set(counters, key, bumped);
        if export {
            (
                ResultV::Replace(
                    JsonV::Obj(
                        seq![
                            ("data"@, data),
                            ("metrics"@, JsonV::Obj(counter_metric_fields(key, bumped))),
                        ],
                    ),
                ),
                counters2,
                timers,
            )
        } else {
            (ResultV::Continue, counters2, timers)
        }
    } else if mtype == "timer"@ {
        match info.start_time_ms {
            Some(start) => {
                let duration = if now >= start {
                    now - start
                } else {
                    0
                };
                let timers2 = timers_push(timers, key, duration);
                if export {
                    let list = timers_lookup(timers2, key)->0;
                    (
                        ResultV::Replace(
                            JsonV::Obj(
                                seq![
                                    ("data"@, data),
                                    (
                                        "metrics"@,
                                        JsonV::Obj(timer_metric_fields(key, duration, list)),
                                    ),
                                ],
                            ),
                        ),
                        counters,
                        timers2,
                    )
                } else {
                    (ResultV::Continue, counters, timers2)
                }
            },
            None => (ResultV::Continue, counters, timers),
        }
    } else {
        let export_result = if mtype == "gauge"@ && export {
            let value = gauge_value_of(config, data);
            ResultV::Replace(
                JsonV::Obj(
                    seq![
                        ("data"@, data),
                        ("metrics"@, JsonV::Obj(gauge_metric_fields(key, value))),
                    ],
                ),
            )
        } else {
            ResultV::Continue
        };
        (export_result, counters, timers)
    }
}

/// The value a gauge records: `data.value` where numeric, else the
/// value the configured `value_path` JSON pointer addresses where that
/// is numeric, else zero.
pub open spec fn gauge_value_of(config: Seq<(Seq<char>, JsonV)>, data: JsonV) -> int {
    let top = match data {
        JsonV::Obj(fields) => obj_lookup(fields, "value"@),
        _ => None,
    };
    match top {
        Some(JsonV::Num(n)) => n,
        _ => match obj_lookup(config, "value_path"@) {
            Some(JsonV::Str(p)) => match crate::json::pointer_lookup(data, p) {
                Some(JsonV::Num(n)) => n,
                _ => 0,
            },
            _ => 0,
        },
    }
}

/// What one invocation does to the gauges.
pub open spec fn metrics_outcome_gauges(
    config: Seq<(Seq<char>, JsonV)>,
    gauges: Seq<(Seq<char>, int)>,
    ht: Seq<char>,
    data: JsonV,
) -> Seq<(Seq<char>, int)> {
    let key = metric_key_of(config, ht);
    let mtype = match obj_lookup(config, "metric_type"@) {
        Some(JsonV::Str(s)) => s,
        _ => "counter"@,
    };
    if mtype == "gauge"@ {
        store_set(gauges, key, gauge_value_of(config, data))
    } else {
        gauges
    }
}

/// After a push, the key is present.
proof fn lemma_timers_push_found(entries: Seq<(Seq<char>, Seq<int>)>, key: Seq<char>, value: int)
    ensures
        timers_lookup(timers_push(entries, key, value), key) is Some,
    decreases entries.len(),
{
    if entries.len() == 0 {
    } else if entries[0].0 == key {
        assert(timers_push(entries, key, value)[0] == (entries[0].0, entries[0].1.push(value)));
    } else {
        lemma_timers_push_found(entries.skip(1), key, value);
        assert(timers_push(entries, key, value).skip(1) =~= timers_push(
            entries.skip(1),
            key,
            value,
        ));
    }
}

/// The mean of a duration list, clamped into the JSON number range.
fn mean_u64(list: &Vec<u64>) -> (r: i64)
    ensures
        r as int == clamp_to_i64(mean_of(Seq::new(list@.len(), |j: int| list@[j] as int))),
{
    let ghost glist = Seq::new(list@.len(), |j: int| list@[j] as int);
    if list.len() == 0 {
        assert(mean_of(glist) == 0);
        return 0;
    }
    let mut total: u128 = 0;
    let n = list.len();
    assert(glist.skip(0) =~= glist);
    for i in 0..n
        invariant
            n == list@.len(),
            glist == Seq::new(list@.len(), |j: int| list@[j] as int),
            sum_of(glist) == total + sum_of(glist.skip(i as int)),
            total <= (i as int) * 0xffffffffffffffff,
    {
        assert(glist.skip(i as int)[0] == glist[i as int]);
        assert(glist.skip(i as int).skip(1) =~= glist.skip(i as int + 1));
        proof {
            assert((i as int) * 0xffffffffffffffff + 0xffffffffffffffff == ((i + 1) as int)
                * 0xffffffffffffffff) by (nonlinear_arith);
            assert(((i + 1) as int) * 0xffffffffffffffff <= (n as int) * 0xffffffffffffffff)
                by (nonlinear_arith)
                requires
                    i + 1 <= n,
            ;
            assert((n as int) * 0xffffffffffffffff < 0x100000000000000000000000000000000)
                by (nonlinear_arith)
                requires
                    n < 0x10000000000000000,
            ;
        }
        total = total + (list[i] as u128);
    }
    assert(sum_of(glist.skip(n as int)) == 0);
    let avg: u128 = total / (n as u128);
    proof {
        assert(total == sum_of(glist));
        assert(avg == mean_of(glist));
    }
    if avg > 0x7fffffffffffffff {
        0x7fffffffffffffff
    } else {
        avg as i64
    }
}

/// A counter value as a JSON number, clamped.
fn clamp_u64(x: u64) -> (r: i64)
    ensures
        r as int == clamp_to_i64(x as int),
{
    if x > 0x7fffffffffffffff {
        0x7fffffffffffffff
    } else {
        x as i64
    }
}

/// The counter stored under `key`.
fn lookup_counter(entries: &Vec<(String, u64)>, key: &str) -> (r: Option<u64>)
    ensures
        match r {
            Some(c) => store_lookup(counters_view(entries@), key@) == Some(c as int),
            None => store_lookup(counters_view(entries@), key@) is None,
        },
{
    let ghost gentries = counters_view(entries@);
    assert(gentries.skip(0) =~= gentries);
    let n = entries.len();
    for i in 0..n
        invariant
            n == entries@.len(),
            gentries == counters_view(entries@),
            store_lookup(gentries, key@) == store_lookup(gentries.skip(i as int), key@),
    {
        assert(gentries.skip(i as int)[0] == gentries[i as int]);
        assert(gentries.skip(i as int).skip(1) =~= gentries.skip(i as int + 1));
        if crate::strutil::str_eq(entries[i].0.as_str(), key) {
            return Some(entries[i].1);
        }
    }
    assert(gentries.skip(n as int) =~= Seq::<(Seq<char>, int)>::empty());
    None
}

/// The timer list stored under `key`.
fn lookup_timers<'a>(entries: &'a Vec<(String, Vec<u64>)>, key: &str) -> (r: Option<&'a Vec<u64>>)
    ensures
        match r {
            Some(l) => timers_lookup(timers_view(entries@), key@) == Some(
                Seq::new(l@.len(), |j: int| l@[j] as int),
            ),
            None => timers_lookup(timers_view(entries@), key@) is None,
        },
{
    let ghost gentries = timers_view(entries@);
    assert(gentries.skip(0) =~= gentries);
    let n = entries.len();
    for i in 0..n
        invariant
            n == entries@.len(),
            gentries == timers_view(entries@),
            timers_lookup(gentries, key@) == timers_lookup(gentries.skip(i as int), key@),
    {
        assert(gentries.skip(i as int)[0] == gentries[i as int]);
        assert(gentries.skip(i as int).skip(1) =~= gentries.skip(i as int + 1));
        if crate::strutil::str_eq(entries[i].0.as_str(), key) {
            return Some(&entries[i].1);
        }
    }
    assert(gentries.skip(n as int) =~= Seq::<(Seq<char>, Seq<int>)>::empty());
    None
}

/// The counter store after setting `key` to `value`.
fn set_counter(entries: Vec<(String, u64)>, key: &str, value: u64) -> (r: Vec<(String, u64)>)
    ensures
        counters_view(r@) == store_set(counters_view(entries@), key@, value as int),
{
    let ghost whole = counters_view(entries@);
    let mut out: Vec<(String, u64)> = Vec::new();
    let mut rest = entries;
    let mut placed = false;
    loop
        invariant_except_break
            !placed ==> store_set(whole, key@, value as int) == counters_view(out@) + store_set(
                counters_view(rest@),
                key@,
                value as int,
            ),
            placed ==> store_set(whole, key@, value as int) == counters_view(out@)
                + counters_view(rest@),
        ensures
            placed ==> store_set(whole, key@, value as int) == counters_view(out@)
                + counters_view(rest@) && rest@.len() == 0,
            !placed ==> rest@.len() == 0 && store_set(whole, key@, value as int) == counters_view(
                out@,
            ) + store_set(Seq::empty(), key@, value as int),
        decreases rest@.len(),
    {
        if rest.len() == 0 {
            assert(counters_view(rest@) =~= Seq::<(Seq<char>, int)>::empty());
            break;
        }
        let ghost grest = counters_view(rest@);
        assert(grest[0] == (rest@[0].0@, rest@[0].1 as int));
        let head = rest.remove(0);
        assert(counters_view(rest@) =~= grest.skip(1));
        let ghost gout = counters_view(out@);
        if !placed && crate::strutil::str_eq(head.0.as_str(), key) {
            out.push((String::from_str(key), value));
            assert(counters_view(out@) =~= gout + seq![(key@, value as int)]);
            assert(store_set(grest, key@, value as int) == seq![(key@, value as int)] + grest.skip(
                1,
            ));
            assert(gout + store_set(grest, key@, value as int) =~= counters_view(out@)
                + grest.skip(1));
            placed = true;
        } else {
            let ghost ghead = (head.0@, head.1 as int);
            out.push(head);
            assert(counters_view(out@) =~= gout + seq![ghead]);
            if !placed {
                assert(store_set(grest, key@, value as int) == seq![ghead] + store_set(
                    grest.skip(1),
                    key@,
                    value as int,
                ));
                assert(gout + store_set(grest, key@, value as int) =~= counters_view(out@)
                    + store_set(grest.skip(1), key@, value as int));
            } else {
                assert(grest =~= seq![ghead] + grest.skip(1));
                assert(gout + grest =~= counters_view(out@) + grest.skip(1));
            }
        }
    }
    if !placed {
        let ghost gout = counters_view(out@);
        out.push((String::from_str(key), value));
        assert(counters_view(out@) =~= gout + seq![(key@, value as int)]);
        assert(store_set(Seq::empty(), key@, value as int) == seq![(key@, value as int)]);
    } else {
        assert(counters_view(rest@) =~= Seq::<(Seq<char>, int)>::empty());
        assert(store_set(whole, key@, value as int) =~= counters_view(out@));
    }
    out
}

/// The gauge store after setting `key` to `value`.
fn set_gauge(entries: Vec<(String, i64)>, key: &str, value: i64) -> (r: Vec<(String, i64)>)
    ensures
        gauges_view(r@) == store_set(gauges_view(entries@), key@, value as int),
{
    let ghost whole = gauges_view(entries@);
    let mut out: Vec<(String, i64)> = Vec::new();
    let mut rest = entries;
    let mut placed = false;
    loop
        invariant_except_break
            !placed ==> store_set(whole, key@, value as int) == gauges_view(out@) + store_set(
                gauges_view(rest@),
                key@,
                value as int,
            ),
            placed ==> store_set(whole, key@, value as int) == gauges_view(out@) + gauges_view(
                rest@,
            ),
        ensures
            placed ==> store_set(whole, key@, value as int) == gauges_view(out@) + gauges_view(
                rest@,
            ) && rest@.len() == 0,
            !placed ==> rest@.len() == 0 && store_set(whole, key@, value as int) == gauges_view(
                out@,
            ) + store_set(Seq::empty(), key@, value as int),
        decreases rest@.len(),
    {
        if rest.len() == 0 {
            assert(gauges_view(rest@) =~= Seq::<(Seq<char>, int)>::empty());
            break;
        }
        let ghost grest = gauges_view(rest@);
        assert(grest[0] == (rest@[0].0@, rest@[0].1 as int));
        let head = rest.remove(0);
        assert(gauges_view(rest@) =~= grest.skip(1));
        let ghost gout = gauges_view(out@);
        if !placed && crate::strutil::str_eq(head.0.as_str(), key) {
            out.push((String::from_str(key), value));
            assert(gauges_view(out@) =~= gout + seq![(key@, value as int)]);
            assert(store_set(grest, key@, value as int) == seq![(key@, value as int)] + grest.skip(
                1,
            ));
            assert(gout + store_set(grest, key@, value as int) =~= gauges_view(out@) + grest.skip(
                1,
            ));
            placed = true;
        } else {
            let ghost ghead = (head.0@, head.1 as int);
            out.push(head);
            assert(gauges_view(out@) =~= gout + seq![ghead]);
            if !placed {
                assert(store_set(grest, key@, value as int) == seq![ghead] + store_set(
                    grest.skip(1),
                    key@,
                    value as int,
                ));
                assert(gout + store_set(grest, key@, value as int) =~= gauges_view(out@)
                    + store_set(grest.skip(1), key@, value as int));
            } else {
                assert(grest =~= seq![ghead] + grest.skip(1));
                assert(gout + grest =~= gauges_view(out@) + grest.skip(1));
            }
        }
    }
    if !placed {
        let ghost gout = gauges_view(out@);
        out.push((String::from_str(key), value));
        assert(gauges_view(out@) =~= gout + seq![(key@, value as int)]);
        assert(store_set(Seq::empty(), key@, value as int) == seq![(key@, value as int)]);
    } else {
        assert(gauges_view(rest@) =~= Seq::<(Seq<char>, int)>::empty());
        assert(store_set(whole, key@, value as int) =~= gauges_view(out@));
    }
    out
}

/// The timer store after appending `value` under `key`.
fn push_timer(entries: Vec<(String, Vec<u64>)>, key: &str, value: u64) -> (r: Vec<
    (String, Vec<u64>),
>)
    ensures
        timers_view(r@) == timers_push(timers_view(entries@), key@, value as int),
{
    let ghost whole = timers_view(entries@);
    let mut out: Vec<(String, Vec<u64>)> = Vec::new();
    let mut rest = entries;
    let mut placed = false;
    loop
        invariant_except_break
            !placed ==> timers_push(whole, key@, value as int) == timers_view(out@) + timers_push(
                timers_view(rest@),
                key@,
                value as int,
            ),
            placed ==> timers_push(whole, key@, value as int) == timers_view(out@) + timers_view(
                rest@,
            ),
        ensures
            placed ==> timers_push(whole, key@, value as int) == timers_view(out@) + timers_view(
                rest@,
            ) && rest@.len() == 0,
            !placed ==> rest@.len() == 0 && timers_push(whole, key@, value as int) == timers_view(
                out@,
            ) + timers_push(Seq::empty(), key@, value as int),
        decreases rest@.len(),
    {
        if rest.len() == 0 {
            assert(timers_view(rest@) =~= Seq::<(Seq<char>, Seq<int>)>::empty());
            break;
        }
        let ghost grest = timers_view(rest@);
        assert(grest[0] == (rest@[0].0@, Seq::new(rest@[0].1@.len(), |j: int| rest@[0].1@[j] as int)));
        let head = rest.remove(0);
        assert(timers_view(rest@) =~= grest.skip(1));
        let ghost gout = timers_view(out@);
        if !placed && crate::strutil::str_eq(head.0.as_str(), key) {
            let ghost ghead_list = Seq::new(head.1@.len(), |j: int| head.1@[j] as int);
            let mut list = head.1;
            list.push(value);
            out.push((head.0, list));
            assert(timers_view(out@) =~~= gout + seq![(key@, ghead_list.push(value as int))]);
            assert(timers_push(grest, key@, value as int) == seq![(grest[0].0, grest[0].1.push(value as int))]
                + grest.skip(1));
            assert(gout + timers_push(grest, key@, value as int) =~= timers_view(out@)
                + grest.skip(1));
            placed = true;
        } else {
            let ghost ghead = (head.0@, Seq::new(head.1@.len(), |j: int| head.1@[j] as int));
            out.push(head);
            assert(timers_view(out@) =~= gout + seq![ghead]);
            if !placed {
                assert(timers_push(grest, key@, value as int) == seq![ghead] + timers_push(
                    grest.skip(1),
                    key@,
                    value as int,
                ));
                assert(gout + timers_push(grest, key@, value as int) =~= timers_view(out@)
                    + timers_push(grest.skip(1), key@, value as int));
            } else {
                assert(grest =~= seq![ghead] + grest.skip(1));
                assert(gout + grest =~= timers_view(out@) + grest.skip(1));
            }
        }
    }
    if !placed {
        let ghost gout = timers_view(out@);
        let mut list: Vec<u64> = Vec::new();
        list.push(value);
        out.push((String::from_str(key), list));
        assert(timers_view(out@) =~~= gout + seq![(key@, seq![value as int])]);
        assert(timers_push(Seq::empty(), key@, value as int) == seq![(key@, seq![value as int])]);
    } else {
        assert(timers_view(rest@) =~= Seq::<(Seq<char>, Seq<int>)>::empty());
        assert(timers_push(whole, key@, value as int) =~= timers_view(out@));
    }
    out
}

} // verus!
