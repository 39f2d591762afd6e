//! The management surface's request vocabulary and its pure logic: parsing
//! hook-type lists and reshaping the configuration document.  Reading and
//! writing the file belongs to the host.

use crate::config::{HandlerConfig, HooksConfig};
use crate::json::Json;
use crate::strutil::str_eq;
use crate::types::{valid_hook_name, HookType};
use vstd::prelude::*;

verus! {

broadcast use vstd::std_specs::vec::group_vec_axioms;

/// Register a handler.
#[derive(Debug)]
pub struct HookAddRequest {
    pub name: String,
    pub handler_type: String,
    pub hook_types: Vec<String>,
    pub priority: u16,
    pub enabled: bool,
    pub config: Json,
}

/// Remove a handler.
#[derive(Debug)]
pub struct HookRemoveRequest {
    pub name: String,
}

/// List handlers, optionally filtered.
#[derive(Debug)]
pub struct HookListRequest {
    pub hook_type: Option<String>,
    pub enabled_only: Option<bool>,
}

/// Enable a handler.
#[derive(Debug)]
pub struct HookEnableRequest {
    pub name: String,
}

/// Disable a handler.
#[derive(Debug)]
pub struct HookDisableRequest {
    pub name: String,
}

/// Change a handler's priority, enablement or configuration.
#[derive(Debug)]
pub struct HookUpdateRequest {
    pub name: String,
    pub priority: Option<u16>,
    pub enabled: Option<bool>,
    pub config: Option<Json>,
}

/// Describe a handler.
#[derive(Debug)]
pub struct HookInfoRequest {
    pub name: String,
}

/// Fire a handler once with test data.
#[derive(Debug)]
pub struct HookTestRequest {
    pub name: String,
    pub hook_type: String,
    pub test_data: Json,
}

/// Report the system's state.
#[derive(Debug)]
pub struct HookSystemStatusRequest {
    pub include_stats: bool,
}

/// Switch the system on.
#[derive(Debug)]
pub struct HookSystemEnableRequest {}

/// Switch the system off.
#[derive(Debug)]
pub struct HookSystemDisableRequest {}

/// Reload and validate the configuration file.
#[derive(Debug)]
pub struct HookConfigReloadRequest {}

/// Write a default configuration file where none exists.
#[derive(Debug)]
pub struct HookConfigSaveRequest {}

/// Parse a request's hook-type names; the first bad name fails the whole
/// list.
pub fn parse_hook_types(names: &Vec<String>) -> (r: Result<Vec<HookType>, String>)
    ensures
        r matches Ok(ts) ==> ts@.len() == names@.len() && (forall|k: int|
            0 <= k < names@.len() ==> valid_hook_name(#[trigger] names@[k]@)),
        r is Err ==> exists|k: int| 0 <= k < names@.len() && !valid_hook_name(
            #[trigger] names@[k]@,
        ),
{
    let mut out: Vec<HookType> = Vec::new();
    let n = names.len();
    for i in 0..n
        invariant
            n == names@.len(),
            out@.len() == i,
            forall|k: int| 0 <= k < i ==> valid_hook_name(#[trigger] names@[k]@),
    {
        match HookType::from_string(names[i].as_str()) {
            Ok(t) => {
                out.push(t);
            },
            Err(e) => {
                return Err(e);
            },
        }
    }
    Ok(out)
}

/// Add a handler entry to the document; a duplicate name is refused and
/// the document is unchanged.
pub fn config_add_handler(config: &mut HooksConfig, handler: HandlerConfig) -> (r: Result<
    (),
    String,
>)
    ensures
        r is Ok ==> final(config).handlers@ == old(config).handlers@.push(handler),
        r is Err ==> final(config).handlers@ == old(config).handlers@,
{
    let n = config.handlers.len();
    for i in 0..n
        invariant
            n == config.handlers@.len(),
            *config == *old(config),
    {
        if str_eq(config.handlers[i].name.as_str(), handler.name.as_str()) {
            let mut msg = String::from_str("Handler '");
            msg.append(handler.name.as_str());
            msg.append("' already exists");
            return Err(msg);
        }
    }
    config.handlers.push(handler);
    Ok(())
}

/// Drop every handler entry with the given name from the document;
/// reports whether any entry went.
pub fn config_remove_handler(config: &mut HooksConfig, name: &str) -> (r: bool)
    ensures
        final(config).handlers@.len() <= old(config).handlers@.len(),
        forall|k: int|
            0 <= k < final(config).handlers@.len() ==> (#[trigger] final(config).handlers@[k].name@)
                != name@,
        r == (final(config).handlers@.len() < old(config).handlers@.len()),
    decreases old(config).handlers@.len(),
{
    let mut kept: Vec<HandlerConfig> = Vec::new();
    let mut removed = false;
    loop
        invariant_except_break
            forall|k: int| 0 <= k < kept@.len() ==> (#[trigger] kept@[k]).name@ != name@,
            kept@.len() + config.handlers@.len() <= old(config).handlers@.len(),
            removed == (kept@.len() + config.handlers@.len() < old(config).handlers@.len()),
        ensures
            forall|k: int| 0 <= k < kept@.len() ==> (#[trigger] kept@[k]).name@ != name@,
            kept@.len() <= old(config).handlers@.len(),
            removed == (kept@.len() < old(config).handlers@.len()),
            config.handlers@.len() == 0,
        decreases config.handlers@.len(),
    {
        if config.handlers.len() == 0 {
            break;
        }
        let entry = config.handlers.remove(0);
        if str_eq(entry.name.as_str(), name) {
            removed = true;
        } else {
            kept.push(entry);
        }
    }
    config.handlers = kept;
    removed
}

/// Set a handler's enabled flag in the document; reports whether the
/// name was found.
pub fn config_set_enabled(config: &mut HooksConfig, name: &str, enabled: bool, now_ms: u64) -> (r:
    bool)
    ensures
        final(config).handlers@.len() == old(config).handlers@.len(),
{
    let n = config.handlers.len();
    let mut i: usize = 0;
    while i < n
        invariant
            i <= n,
            n == config.handlers@.len(),
            n == old(config).handlers@.len(),
        decreases n - i,
    {
        if str_eq(config.handlers[i].name.as_str(), name) {
            let mut entry = config.handlers.remove(i);
            entry.enabled = enabled;
            entry.updated_at_ms = now_ms;
            config.handlers.insert(i, entry);
            assert(config.handlers@.len() == old(config).handlers@.len());
            return true;
        }
        i = i + 1;
    }
    false
}

} // verus!
