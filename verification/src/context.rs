//! The shared, mutable state that one fire's handlers (and the handlers of
//! descendant fires) see.
//!
//! The string-keyed map and the cancellation flag live in a shared cell, so
//! a child context created with [`HookContext::create_child`] reads and
//! writes the same store as its parent.  Because that cell is mutated
//! through shared references from many handlers at once, nothing is proved
//! about its contents; everything else about a context is.

use crate::json::{Json, JsonV};
use crate::types::now_millis;
use vstd::prelude::*;

verus! {

broadcast use vstd::std_specs::vec::group_vec_axioms;

/// The store a context shares with its children: a string-keyed JSON map
/// and a one-way cancellation flag, behind a reader–writer lock.
///
/// Relies on `std::sync::Arc`, `std::sync::RwLock` and
/// `std::collections::HashMap`.  A poisoned lock reads as an absent key,
/// a no-op write, or an uncancelled flag, as the original store did.
#[verifier::external_body]
#[derive(Debug)]
pub struct SharedState {
    cell: std::sync::Arc<std::sync::RwLock<SharedInner>>,
}

#[derive(Debug)]
struct SharedInner {
    map: std::collections::HashMap<String, Json>,
    cancelled: bool,
}

impl SharedState {
    /// Relies on `RwLock::new`: a fresh store, empty and not cancelled.
    #[verifier::external_body]
    pub fn new() -> SharedState {
        SharedState {
            cell: std::sync::Arc::new(
                std::sync::RwLock::new(
                    SharedInner { map: std::collections::HashMap::new(), cancelled: false },
                ),
            ),
        }
    }

    /// Relies on `Arc::clone`: a handle onto the same store.
    #[verifier::external_body]
    pub fn clone_handle(&self) -> SharedState {
        SharedState { cell: std::sync::Arc::clone(&self.cell) }
    }

    /// Relies on `RwLock::read` and `HashMap::get`: the value the store
    /// currently holds under `key`.  Concurrent writers may change it at
    /// any time, so nothing is promised of the value.
    #[verifier::external_body]
    pub fn get(&self, key: &str) -> Option<Json> {
        match self.cell.read() {
            Ok(guard) => guard.map.get(key).cloned(),
            Err(_) => None,
        }
    }

    /// Relies on `RwLock::write` and `HashMap::insert`: stores `value`
    /// under `key`, replacing any earlier value.
    #[verifier::external_body]
    pub fn set(&self, key: String, value: Json) {
        if let Ok(mut guard) = self.cell.write() {
            guard.map.insert(key, value);
        }
    }

    /// Relies on `RwLock::read`: whether the flag has been set.
    #[verifier::external_body]
    pub fn is_cancelled(&self) -> bool {
        match self.cell.read() {
            Ok(guard) => guard.cancelled,
            Err(_) => false,
        }
    }

    /// Relies on `RwLock::write`: sets the flag; nothing ever clears it.
    #[verifier::external_body]
    pub fn cancel(&self) {
        if let Ok(mut guard) = self.cell.write() {
            guard.cancelled = true;
        }
    }
}

/// The model of the type-indexed slots: tag–value pairs.
pub open spec fn slots_view(v: Seq<(u64, Json)>) -> Seq<(int, JsonV)> {
    Seq::new(v.len(), |i: int| (v[i].0 as int, v[i].1@))
}

/// The value stored under `tag`, if any.
pub open spec fn slot_lookup(slots: Seq<(int, JsonV)>, tag: int) -> Option<JsonV>
    decreases slots.len(),
{
    if slots.len() == 0 {
        None
    } else if slots[0].0 == tag {
        Some(slots[0].1)
    } else {
        slot_lookup(slots.skip(1), tag)
    }
}

/// The slots with every entry for `tag` removed.
pub open spec fn slot_remove(slots: Seq<(int, JsonV)>, tag: int) -> Seq<(int, JsonV)>
    decreases slots.len(),
{
    if slots.len() == 0 {
        Seq::empty()
    } else if slots[0].0 == tag {
        slot_remove(slots.skip(1), tag)
    } else {
        seq![slots[0]] + slot_remove(slots.skip(1), tag)
    }
}

/// The slots after storing `value` under `tag`: any earlier entry for the
/// tag is dropped and the new pair appended.
pub open spec fn slot_set(slots: Seq<(int, JsonV)>, tag: int, value: JsonV) -> Seq<(int, JsonV)> {
    slot_remove(slots, tag) + seq![(tag, value)]
}

/// Per-fire shared state handed to every handler: a shared string-keyed
/// map, type-indexed slots keyed by a numeric tag the caller picks, the
/// request payload and principal, a start time, a one-way cancellation
/// flag shared with children, and an optional parent link.
#[derive(Debug)]
pub struct HookContext {
    shared: SharedState,
    typed: Vec<(u64, Json)>,
    request_data: Option<Json>,
    user_id: Option<String>,
    start_time_ms: u64,
    parent: Option<Box<HookContext>>,
}

impl HookContext {
    /// The model of the type-indexed slots.
    pub closed spec fn slots(&self) -> Seq<(int, JsonV)> {
        slots_view(self.typed@)
    }

    /// The model of the request payload.
    pub closed spec fn request(&self) -> Option<JsonV> {
        match self.request_data {
            Some(ref j) => Some(j@),
            None => None,
        }
    }

    /// The model of the principal identifier.
    pub closed spec fn principal(&self) -> Option<Seq<char>> {
        match self.user_id {
            Some(ref u) => Some(u@),
            None => None,
        }
    }

    /// Wall-clock milliseconds when this context was created.
    pub closed spec fn started_ms(&self) -> int {
        self.start_time_ms as int
    }

    /// Whether this context carries a parent link.
    pub closed spec fn has_parent(&self) -> bool {
        self.parent is Some
    }

    /// A fresh root context: no request data, no principal, empty slots,
    /// no parent, started at the current wall clock.
    pub fn new() -> (r: Self)
        ensures
            r.slots() == Seq::<(int, JsonV)>::empty(),
            r.request() is None,
            r.principal() is None,
            !r.has_parent(),
    {
        let r = HookContext {
            shared: SharedState::new(),
            typed: Vec::new(),
            request_data: None,
            user_id: None,
            start_time_ms: now_millis(),
            parent: None,
        };
        proof {
            assert(r.slots() =~= Seq::<(int, JsonV)>::empty());
        }
        r
    }

    /// A builder for a context with initial state.
    pub fn builder() -> (r: HookContextBuilder)
        ensures
            r.initial_state()@.len() == 0,
            r.request() is None,
            r.principal() is None,
    {
        HookContextBuilder { state: Vec::new(), request_data: None, user_id: None, parent: None }
    }

    /// The value the shared map currently holds under `key`.  The map is
    /// shared with concurrent handlers, so the value is whatever was
    /// stored most recently.
    pub fn get_state(&self, key: &str) -> Option<Json> {
        self.shared.get(key)
    }

    /// Store `value` under `key` in the shared map, visible to every
    /// handler and context sharing the store.
    pub fn set_state(&self, key: String, value: Json) -> (r: Result<(), String>)
        ensures
            r is Ok,
    {
        self.shared.set(key, value);
        Ok(())
    }

    /// The value stored in this context's slots under `tag`.
    pub fn get_typed(&self, tag: u64) -> (r: Option<Json>)
        ensures
            match r {
                Some(v) => slot_lookup(self.slots(), tag as int) == Some(v@),
                None => slot_lookup(self.slots(), tag as int) is None,
            },
    {
        let ghost slots = self.slots();
        assert(slots.skip(0) =~= slots);
        let n = self.typed.len();
        for i in 0..n
            invariant
                n == self.typed@.len(),
                slots == self.slots(),
                slot_lookup(slots, tag as int) == slot_lookup(slots.skip(i as int), tag as int),
        {
            assert(slots.skip(i as int)[0] == slots[i as int]);
            assert(slots.skip(i as int).skip(1) =~= slots.skip(i as int + 1));
            if self.typed[i].0 == tag {
                return Some(self.typed[i].1.clone());
            }
        }
        assert(slots.skip(n as int) =~= Seq::<(int, JsonV)>::empty());
        None
    }

    /// Store `value` in this context's slots under `tag`, replacing any
    /// earlier value for the tag.
    pub fn set_typed(&mut self, tag: u64, value: Json) -> (r: Result<(), String>)
        ensures
            r is Ok,
            final(self).slots() == slot_set(old(self).slots(), tag as int, value@),
            final(self).request() == old(self).request(),
            final(self).principal() == old(self).principal(),
            final(self).has_parent() == old(self).has_parent(),
    {
        let ghost whole = self.slots();
        let mut rest: Vec<(u64, Json)> = Vec::new();
        core::mem::swap(&mut rest, &mut self.typed);
        let mut out: Vec<(u64, Json)> = Vec::new();
        loop
            invariant_except_break
                slot_remove(whole, tag as int) == slots_view(out@) + slot_remove(
                    slots_view(rest@),
                    tag as int,
                ),
            ensures
                slot_remove(whole, tag as int) == slots_view(out@),
            decreases rest@.len(),
        {
            if rest.len() == 0 {
                assert(slots_view(rest@) =~= Seq::<(int, JsonV)>::empty());
                assert(slots_view(out@) + slot_remove(slots_view(rest@), tag as int)
                    =~= slots_view(out@));
                break;
            }
            let ghost gout = slots_view(out@);
            let ghost grest = slots_view(rest@);
            assert(grest[0] == (rest@[0].0 as int, rest@[0].1@));
            let head = rest.remove(0);
            assert(slots_view(rest@) =~= grest.skip(1));
            if head.0 == tag {
                assert(slot_remove(grest, tag as int) == slot_remove(grest.skip(1), tag as int));
            } else {
                let ghost ghead = (head.0 as int, head.1@);
                out.push(head);
                assert(slots_view(out@) =~= gout + seq![ghead]);
                assert(slot_remove(grest, tag as int) == seq![ghead] + slot_remove(
                    grest.skip(1),
                    tag as int,
                ));
                assert(gout + slot_remove(grest, tag as int) =~= slots_view(out@) + slot_remove(
                    grest.skip(1),
                    tag as int,
                ));
            }
        }
        let ghost gout = slots_view(out@);
        let ghost gval = value@;
        out.push((tag, value));
        assert(slots_view(out@) =~= gout + seq![(tag as int, gval)]);
        self.typed = out;
        Ok(())
    }

    /// The request payload, where one was attached.
    pub fn request_data(&self) -> (r: Option<&Json>)
        ensures
            match r {
                Some(j) => self.request() == Some(j@),
                None => self.request() is None,
            },
    {
        self.request_data.as_ref()
    }

    /// The principal identifier, where one was attached.
    pub fn user_id(&self) -> (r: Option<&str>)
        ensures
            match r {
                Some(u) => self.principal() == Some(u@),
                None => self.principal() is None,
            },
    {
        match &self.user_id {
            Some(u) => Some(u.as_str()),
            None => None,
        }
    }

    /// Wall-clock milliseconds when this context was created.
    pub fn start_time(&self) -> (r: u64)
        ensures
            r as int == self.started_ms(),
    {
        self.start_time_ms
    }

    /// Whether the shared cancellation flag has been set, by this context,
    /// a parent or a child.
    pub fn is_cancelled(&self) -> bool {
        self.shared.is_cancelled()
    }

    /// Set the shared cancellation flag; it is never cleared.
    pub fn cancel(&self) {
        self.shared.cancel()
    }

    /// A child context: it shares this context's map and cancellation
    /// flag, copies the request data and principal, starts fresh slots and
    /// a fresh start time, and links back to this context.
    pub fn create_child(&self) -> (r: HookContext)
        ensures
            r.slots() == Seq::<(int, JsonV)>::empty(),
            r.request() == self.request(),
            r.principal() == self.principal(),
            r.has_parent(),
    {
        let r = HookContext {
            shared: self.shared.clone_handle(),
            typed: Vec::new(),
            request_data: match &self.request_data {
                Some(j) => Some(j.clone()),
                None => None,
            },
            user_id: match &self.user_id {
                Some(u) => Some(u.clone()),
                None => None,
            },
            start_time_ms: now_millis(),
            parent: Some(Box::new(self.clone())),
        };
        proof {
            assert(r.slots() =~= Seq::<(int, JsonV)>::empty());
        }
        r
    }

    /// The parent context, where this one was created as a child.
    pub fn parent(&self) -> (r: Option<&HookContext>)
        ensures
            r is Some <==> self.has_parent(),
    {
        match &self.parent {
            Some(p) => Some(&**p),
            None => None,
        }
    }
}

impl Clone for HookContext {
    /// A copy that shares the same map and cancellation flag and denotes
    /// the same request, principal and slots.
    fn clone(&self) -> (res: HookContext)
        ensures
            res.slots() == self.slots(),
            res.request() == self.request(),
            res.principal() == self.principal(),
            res.has_parent() == self.has_parent(),
        decreases self,
    {
        let mut typed: Vec<(u64, Json)> = Vec::new();
        let n = self.typed.len();
        for i in 0..n
            invariant
                n == self.typed@.len(),
                typed@.len() == i,
                forall|k: int|
                    0 <= k < i ==> typed@[k].0 == self.typed@[k].0 && typed@[k].1@
                        == self.typed@[k].1@,
        {
            let pair = &self.typed[i];
            typed.push((pair.0, pair.1.clone()));
        }
        let r = HookContext {
            shared: self.shared.clone_handle(),
            typed,
            request_data: match &self.request_data {
                Some(j) => Some(j.clone()),
                None => None,
            },
            user_id: match &self.user_id {
                Some(u) => Some(u.clone()),
                None => None,
            },
            start_time_ms: self.start_time_ms,
            parent: match &self.parent {
                Some(p) => Some(Box::new((**p).clone())),
                None => None,
            },
        };
        proof {
            assert(r.slots() =~= self.slots());
        }
        r
    }
}

/// Builds a [`HookContext`] with initial shared state, request data,
/// principal and parent.
#[derive(Debug)]
pub struct HookContextBuilder {
    state: Vec<(String, Json)>,
    request_data: Option<Json>,
    user_id: Option<String>,
    parent: Option<Box<HookContext>>,
}

impl HookContextBuilder {
    /// The shared-state pairs queued for the new context.
    pub closed spec fn initial_state(&self) -> Vec<(String, Json)> {
        self.state
    }

    /// The model of the request payload.
    pub closed spec fn request(&self) -> Option<JsonV> {
        match self.request_data {
            Some(ref j) => Some(j@),
            None => None,
        }
    }

    /// The model of the principal identifier.
    pub closed spec fn principal(&self) -> Option<Seq<char>> {
        match self.user_id {
            Some(ref u) => Some(u@),
            None => None,
        }
    }

    /// Queue one shared-state pair.
    pub fn with_state(self, key: String, value: Json) -> (r: Self)
        ensures
            r.initial_state()@ == self.initial_state()@.push((key, value)),
            r.request() == self.request(),
            r.principal() == self.principal(),
    {
        let mut state = self.state;
        state.push((key, value));
        HookContextBuilder {
            state,
            request_data: self.request_data,
            user_id: self.user_id,
            parent: self.parent,
        }
    }

    /// Attach request data.
    pub fn with_request_data(self, data: Json) -> (r: Self)
        ensures
            r.request() == Some(data@),
            r.initial_state()@ == self.initial_state()@,
            r.principal() == self.principal(),
    {
        HookContextBuilder {
            state: self.state,
            request_data: Some(data),
            user_id: self.user_id,
            parent: self.parent,
        }
    }

    /// Attach a principal identifier.
    pub fn with_user_id(self, user_id: String) -> (r: Self)
        ensures
            r.principal() == Some(user_id@),
            r.initial_state()@ == self.initial_state()@,
            r.request() == self.request(),
    {
        HookContextBuilder {
            state: self.state,
            request_data: self.request_data,
            user_id: Some(user_id),
            parent: self.parent,
        }
    }

    /// Attach a parent context.
    pub fn with_parent(self, parent: HookContext) -> (r: Self)
        ensures
            r.initial_state()@ == self.initial_state()@,
            r.request() == self.request(),
            r.principal() == self.principal(),
    {
        HookContextBuilder {
            state: self.state,
            request_data: self.request_data,
            user_id: self.user_id,
            parent: Some(Box::new(parent)),
        }
    }

    /// The context: a fresh store seeded with the queued pairs, and the
    /// request data, principal and parent attached.
    pub fn build(self) -> (r: HookContext)
        ensures
            r.slots() == Seq::<(int, JsonV)>::empty(),
            r.request() == self.request(),
            r.principal() == self.principal(),
    {
        let ctx = HookContext {
            shared: SharedState::new(),
            typed: Vec::new(),
            request_data: self.request_data,
            user_id: self.user_id,
            start_time_ms: now_millis(),
            parent: self.parent,
        };
        let mut pairs = self.state;
        loop
            invariant_except_break true,
            ensures
                true,
            decreases pairs@.len(),
        {
            if pairs.len() == 0 {
                break;
            }
            let pair = pairs.remove(0);
            ctx.shared.set(pair.0, pair.1);
        }
        proof {
            assert(ctx.slots() =~= Seq::<(int, JsonV)>::empty());
        }
        ctx
    }
}

/// The model of a context snapshot.
pub ghost struct CtxInfoV {
    pub request_id: Option<Seq<char>>,
    pub user: Option<Seq<char>>,
    pub start_time_ms: Option<int>,
}

/// The few shared-state keys the built-in handlers read, captured as plain
/// values at the start of a fire so that everything downstream is a pure
/// function of them.
#[derive(Debug)]
pub struct CtxInfo {
    /// The `request_id` shared-state value, where it is a string.
    pub request_id: Option<String>,
    /// The `user` shared-state value, where it is a string.
    pub user: Option<String>,
    /// The `start_time_ms` shared-state value, where it is a number.
    pub start_time_ms: Option<u64>,
}

impl View for CtxInfo {
    type V = CtxInfoV;

    open spec fn view(&self) -> CtxInfoV {
        CtxInfoV {
            request_id: match self.request_id {
                Some(ref s) => Some(s@),
                None => None,
            },
            user: match self.user {
                Some(ref s) => Some(s@),
                None => None,
            },
            start_time_ms: match self.start_time_ms {
                Some(t) => Some(t as int),
                None => None,
            },
        }
    }
}

impl CtxInfo {
    /// A snapshot with nothing set.
    pub fn empty() -> (r: CtxInfo)
        ensures
            r@.request_id is None,
            r@.user is None,
            r@.start_time_ms is None,
    {
        CtxInfo { request_id: None, user: None, start_time_ms: None }
    }

    /// Capture the keys from a context's shared map.  The map is shared
    /// with concurrent handlers, so the snapshot pins whatever was stored
    /// at this moment.
    pub fn snapshot(ctx: &HookContext) -> CtxInfo {
        let request_id = match ctx.get_state("request_id") {
            Some(Json::Str(s)) => Some(s),
            _ => None,
        };
        let user = match ctx.get_state("user") {
            Some(Json::Str(s)) => Some(s),
            _ => None,
        };
        let start_time_ms = match ctx.get_state("start_time_ms") {
            Some(Json::Num(n)) => if n >= 0 {
                Some(n as u64)
            } else {
                None
            },
            _ => None,
        };
        CtxInfo { request_id, user, start_time_ms }
    }
}

} // verus!
