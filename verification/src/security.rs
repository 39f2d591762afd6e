//! Security policy vocabulary: principals, permissions, resource limits
//! and the sandbox boundary.  Enforcement belongs to the host; this module
//! holds the data and the checks that are pure.

use crate::json::Json;
use crate::strutil::str_eq;
use vstd::prelude::*;

verus! {

/// Who is asking for an operation.
#[derive(Debug, Clone)]
pub enum Principal {
    /// The system itself.
    System,
    /// A user with roles.
    User { id: String, name: String, roles: Vec<String> },
    /// A co-operating service.
    Service { id: String, name: String },
}

/// Per-execution security context: a principal and its granted
/// permissions, with an optional expiry.
#[derive(Debug)]
pub struct HookSecurityContext {
    /// The principal.
    pub principal: Principal,
    /// The granted permissions.
    pub permissions: Vec<String>,
    /// Free-form metadata.
    pub metadata: Vec<(String, Json)>,
    /// Wall-clock milliseconds when the context was created.
    pub created_at_ms: u64,
    /// Wall-clock milliseconds when it expires, where it does.
    pub expires_at_ms: Option<u64>,
}

impl HookSecurityContext {
    /// A context for the principal created at the given time, with no
    /// permissions and no expiry.
    pub fn new(principal: Principal, created_at_ms: u64) -> (r: Self)
        ensures
            r.permissions@.len() == 0,
            r.created_at_ms == created_at_ms,
            r.expires_at_ms is None,
    {
        HookSecurityContext {
            principal,
            permissions: Vec::new(),
            metadata: Vec::new(),
            created_at_ms,
            expires_at_ms: None,
        }
    }

    /// Grant one permission.
    pub fn add_permission(&mut self, permission: String)
        ensures
            final(self).permissions@ == old(self).permissions@.push(permission),
            final(self).expires_at_ms == old(self).expires_at_ms,
            final(self).created_at_ms == old(self).created_at_ms,
    {
        self.permissions.push(permission);
    }

    /// Whether the permission has been granted.
    pub fn has_permission(&self, permission: &str) -> (r: bool)
        ensures
            r == exists|k: int|
                0 <= k < self.permissions@.len() && (#[trigger] self.permissions@[k]@)
                    == permission@,
    {
        let n = self.permissions.len();
        for i in 0..n
            invariant
                n == self.permissions@.len(),
                forall|k: int| 0 <= k < i ==> (#[trigger] self.permissions@[k]@) != permission@,
        {
            if str_eq(self.permissions[i].as_str(), permission) {
                return true;
            }
        }
        false
    }

    /// Whether the context has expired at the given time; one without an
    /// expiry never expires.
    pub fn is_expired(&self, now_ms: u64) -> (r: bool)
        ensures
            r == match self.expires_at_ms {
                Some(t) => now_ms > t,
                None => false,
            },
    {
        match self.expires_at_ms {
            Some(t) => now_ms > t,
            None => false,
        }
    }
}

/// Bounds on what one handler execution may consume.  `None` means
/// unbounded.  Durations are milliseconds, sizes bytes.
#[derive(Debug, Clone)]
pub struct ResourceLimits {
    pub max_memory: Option<u64>,
    pub max_cpu_time_ms: Option<u64>,
    pub max_file_size: Option<u64>,
    pub max_file_operations: Option<u32>,
    pub max_network_calls: Option<u32>,
    pub max_execution_time_ms: Option<u64>,
}

impl Default for ResourceLimits {
    /// Moderate defaults: a hundred megabytes, five CPU seconds, ten
    /// megabytes of file, a hundred file operations, ten network calls,
    /// thirty seconds of wall clock.
    fn default() -> (r: Self)
        ensures
            r.max_memory == Some(104857600u64),
            r.max_cpu_time_ms == Some(5000u64),
            r.max_file_size == Some(10485760u64),
            r.max_file_operations == Some(100u32),
            r.max_network_calls == Some(10u32),
            r.max_execution_time_ms == Some(30000u64),
    {
        ResourceLimits {
            max_memory: Some(104857600),
            max_cpu_time_ms: Some(5000),
            max_file_size: Some(10485760),
            max_file_operations: Some(100),
            max_network_calls: Some(10),
            max_execution_time_ms: Some(30000),
        }
    }
}

impl ResourceLimits {
    /// Tight limits: ten megabytes, one CPU second, one megabyte of file,
    /// ten file operations, no network, five seconds of wall clock.
    pub fn minimal() -> (r: Self)
        ensures
            r.max_memory == Some(10485760u64),
            r.max_cpu_time_ms == Some(1000u64),
            r.max_file_size == Some(1048576u64),
            r.max_file_operations == Some(10u32),
            r.max_network_calls == Some(0u32),
            r.max_execution_time_ms == Some(5000u64),
    {
        ResourceLimits {
            max_memory: Some(10485760),
            max_cpu_time_ms: Some(1000),
            max_file_size: Some(1048576),
            max_file_operations: Some(10),
            max_network_calls: Some(0),
            max_execution_time_ms: Some(5000),
        }
    }

    /// Loose limits: a gigabyte, a CPU minute, a hundred megabytes of
    /// file, a thousand file operations, a hundred network calls, five
    /// minutes of wall clock.
    pub fn relaxed() -> (r: Self)
        ensures
            r.max_memory == Some(1073741824u64),
            r.max_cpu_time_ms == Some(60000u64),
            r.max_file_size == Some(104857600u64),
            r.max_file_operations == Some(1000u32),
            r.max_network_calls == Some(100u32),
            r.max_execution_time_ms == Some(300000u64),
    {
        ResourceLimits {
            max_memory: Some(1073741824),
            max_cpu_time_ms: Some(60000),
            max_file_size: Some(104857600),
            max_file_operations: Some(1000),
            max_network_calls: Some(100),
            max_execution_time_ms: Some(300000),
        }
    }
}

/// How operations are authorised.
#[derive(Debug, Clone)]
pub enum PermissionModel {
    /// Allow everything.
    AllowAll,
    /// Deny everything.
    DenyAll,
    /// Allow the listed operations only.
    AllowList(Vec<String>),
    /// Deny the listed operations only.
    DenyList(Vec<String>),
    /// Role-based access: operations per role.
    RoleBased(Vec<(String, Vec<String>)>),
}

/// The security policy of a dispatcher.
#[derive(Debug, Clone)]
pub struct SecurityPolicy {
    /// Whether handlers must be signed.
    pub require_signed_handlers: bool,
    /// Whether handlers run sandboxed.
    pub sandbox_handlers: bool,
    /// The namespaces handlers may live in.
    pub allowed_namespaces: Vec<String>,
    /// How operations are authorised.
    pub permission_model: PermissionModel,
    /// What one execution may consume.
    pub resource_limits: ResourceLimits,
}

impl Default for SecurityPolicy {
    /// Unsigned handlers allowed, sandboxing on, `system` and `user`
    /// namespaces, everything authorised, default limits.
    fn default() -> (r: Self)
        ensures
            !r.require_signed_handlers,
            r.sandbox_handlers,
            r.allowed_namespaces@.len() == 2,
            r.permission_model is AllowAll,
    {
        let mut namespaces: Vec<String> = Vec::new();
        namespaces.push(String::from_str("system"));
        namespaces.push(String::from_str("user"));
        SecurityPolicy {
            require_signed_handlers: false,
            sandbox_handlers: true,
            allowed_namespaces: namespaces,
            permission_model: PermissionModel::AllowAll,
            resource_limits: ResourceLimits::default(),
        }
    }
}

/// What a sandbox is told to enforce.
#[derive(Debug, Clone)]
pub struct SandboxConfig {
    /// What one execution may consume.
    pub resource_limits: ResourceLimits,
    /// The file paths handlers may touch.
    pub allowed_paths: Vec<String>,
    /// The network hosts handlers may reach.
    pub allowed_hosts: Vec<String>,
    /// The system calls handlers may make, where the platform can filter.
    pub allowed_syscalls: Option<Vec<String>>,
}

impl Default for SandboxConfig {
    /// Default limits, nothing allowed.
    fn default() -> (r: Self)
        ensures
            r.allowed_paths@.len() == 0,
            r.allowed_hosts@.len() == 0,
            r.allowed_syscalls is None,
    {
        SandboxConfig {
            resource_limits: ResourceLimits::default(),
            allowed_paths: Vec::new(),
            allowed_hosts: Vec::new(),
            allowed_syscalls: None,
        }
    }
}

/// The boundary a host's sandbox implements.
pub trait Sandbox {
    /// Enter the sandbox.
    fn enter(&self) -> Result<(), String>;

    /// Leave the sandbox.
    fn exit(&self) -> Result<(), String>;

    /// Whether handlers may touch the path.
    fn is_path_allowed(&self, path: &str) -> bool;

    /// Whether handlers may reach the host.
    fn is_host_allowed(&self, host: &str) -> bool;
}

/// A sandbox that enforces nothing.
#[derive(Debug, Clone)]
pub struct NoOpSandbox;

impl Sandbox for NoOpSandbox {
    fn enter(&self) -> Result<(), String> {
        Ok(())
    }

    fn exit(&self) -> Result<(), String> {
        Ok(())
    }

    fn is_path_allowed(&self, _path: &str) -> bool {
        true
    }

    fn is_host_allowed(&self, _host: &str) -> bool {
        true
    }
}

} // verus!
