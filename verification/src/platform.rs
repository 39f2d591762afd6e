//! Where the dispatcher's files live.  Path strings are computed here and
//! verified; looking up the platform's base directory relies on the host's
//! conventions, and creating directories belongs to the host.

use crate::errors::HookError;
use vstd::prelude::*;

verus! {

/// Relies on `dirs::data_local_dir`: the platform's local data directory
/// as a string, where the platform defines one and it is valid Unicode.
#[verifier::external_body]
fn data_local_dir_string() -> Option<String> {
    dirs::data_local_dir().and_then(|p| p.into_os_string().into_string().ok())
}

/// Relies on `dirs::config_dir`: the platform's configuration directory.
#[verifier::external_body]
fn config_dir_string() -> Option<String> {
    dirs::config_dir().and_then(|p| p.into_os_string().into_string().ok())
}

/// Relies on `dirs::cache_dir`: the platform's cache directory.
#[verifier::external_body]
fn cache_dir_string() -> Option<String> {
    dirs::cache_dir().and_then(|p| p.into_os_string().into_string().ok())
}

/// Resolves the dispatcher's directories under the platform's local data
/// directory.
#[derive(Debug)]
pub struct PlatformDirs;

impl PlatformDirs {
    /// The hooks configuration directory:
    /// `<local data>/tcl-mcp-server/hooks`.
    pub fn config_dir() -> (r: Result<String, HookError>)
        ensures
            r matches Ok(p) ==> exists|base: Seq<char>| p@ == base + "/tcl-mcp-server/hooks"@,
    {
        match data_local_dir_string() {
            Some(base) => {
                let ghost gbase = base@;
                let mut p = base;
                p.append("/tcl-mcp-server/hooks");
                assert(p@ == gbase + "/tcl-mcp-server/hooks"@);
                Ok(p)
            },
            None => Err(
                HookError::IoError(String::from_str("Could not find local data directory")),
            ),
        }
    }

    /// The hooks configuration file: `hooks.toml` in the configuration
    /// directory.
    pub fn config_file() -> (r: Result<String, HookError>)
        ensures
            r matches Ok(p) ==> exists|base: Seq<char>| p@ == base + "/tcl-mcp-server/hooks/hooks.toml"@,
    {
        match Self::config_dir() {
            Ok(mut dir) => {
                let ghost gdir = dir@;
                dir.append("/hooks.toml");
                proof {
                    reveal_strlit("/tcl-mcp-server/hooks");
                    reveal_strlit("/hooks.toml");
                    reveal_strlit("/tcl-mcp-server/hooks/hooks.toml");
                    let base = choose|b: Seq<char>| gdir == b + "/tcl-mcp-server/hooks"@;
                    assert(dir@ =~= base + "/tcl-mcp-server/hooks/hooks.toml"@);
                }
                Ok(dir)
            },
            Err(e) => Err(e),
        }
    }

    /// The scripts directory under the configuration directory.
    pub fn scripts_dir() -> (r: Result<String, HookError>)
        ensures
            r matches Ok(p) ==> exists|base: Seq<char>| p@ == base + "/tcl-mcp-server/hooks/scripts"@,
    {
        match Self::config_dir() {
            Ok(mut dir) => {
                let ghost gdir = dir@;
                dir.append("/scripts");
                proof {
                    reveal_strlit("/tcl-mcp-server/hooks");
                    reveal_strlit("/scripts");
                    reveal_strlit("/tcl-mcp-server/hooks/scripts");
                    let base = choose|b: Seq<char>| gdir == b + "/tcl-mcp-server/hooks"@;
                    assert(dir@ =~= base + "/tcl-mcp-server/hooks/scripts"@);
                }
                Ok(dir)
            },
            Err(e) => Err(e),
        }
    }

    /// The logs directory under the configuration directory.
    pub fn logs_dir() -> (r: Result<String, HookError>)
        ensures
            r matches Ok(p) ==> exists|base: Seq<char>| p@ == base + "/tcl-mcp-server/hooks/logs"@,
    {
        match Self::config_dir() {
            Ok(mut dir) => {
                let ghost gdir = dir@;
                dir.append("/logs");
                proof {
                    reveal_strlit("/tcl-mcp-server/hooks");
                    reveal_strlit("/logs");
                    reveal_strlit("/tcl-mcp-server/hooks/logs");
                    let base = choose|b: Seq<char>| gdir == b + "/tcl-mcp-server/hooks"@;
                    assert(dir@ =~= base + "/tcl-mcp-server/hooks/logs"@);
                }
                Ok(dir)
            },
            Err(e) => Err(e),
        }
    }

    /// The cache directory under the configuration directory.
    pub fn cache_dir() -> (r: Result<String, HookError>)
        ensures
            r matches Ok(p) ==> exists|base: Seq<char>| p@ == base + "/tcl-mcp-server/hooks/cache"@,
    {
        match Self::config_dir() {
            Ok(mut dir) => {
                let ghost gdir = dir@;
                dir.append("/cache");
                proof {
                    reveal_strlit("/tcl-mcp-server/hooks");
                    reveal_strlit("/cache");
                    reveal_strlit("/tcl-mcp-server/hooks/cache");
                    let base = choose|b: Seq<char>| gdir == b + "/tcl-mcp-server/hooks"@;
                    assert(dir@ =~= base + "/tcl-mcp-server/hooks/cache"@);
                }
                Ok(dir)
            },
            Err(e) => Err(e),
        }
    }

    /// The standing backup of the configuration file.
    pub fn config_backup_file() -> (r: Result<String, HookError>)
        ensures
            r matches Ok(p) ==> exists|base: Seq<char>| p@ == base + "/tcl-mcp-server/hooks/hooks.toml.backup"@,
    {
        match Self::config_dir() {
            Ok(mut dir) => {
                let ghost gdir = dir@;
                dir.append("/hooks.toml.backup");
                proof {
                    reveal_strlit("/tcl-mcp-server/hooks");
                    reveal_strlit("/hooks.toml.backup");
                    reveal_strlit("/tcl-mcp-server/hooks/hooks.toml.backup");
                    let base = choose|b: Seq<char>| gdir == b + "/tcl-mcp-server/hooks"@;
                    assert(dir@ =~= base + "/tcl-mcp-server/hooks/hooks.toml.backup"@);
                }
                Ok(dir)
            },
            Err(e) => Err(e),
        }
    }
}

/// The server's data directory: `<local data>/tcl-mcp-server`.
pub fn data_dir() -> (r: Result<String, HookError>)
    ensures
        r matches Ok(p) ==> exists|base: Seq<char>| p@ == base + "/tcl-mcp-server"@,
{
    match data_local_dir_string() {
        Some(base) => {
            let ghost gbase = base@;
            let mut p = base;
            p.append("/tcl-mcp-server");
            assert(p@ == gbase + "/tcl-mcp-server"@);
            Ok(p)
        },
        None => Err(HookError::IoError(String::from_str("Unable to determine data directory"))),
    }
}

/// The server's configuration directory under the platform's
/// configuration base.
pub fn config_dir() -> (r: Result<String, HookError>)
    ensures
        r matches Ok(p) ==> exists|base: Seq<char>| p@ == base + "/tcl-mcp-server"@,
{
    match config_dir_string() {
        Some(base) => {
            let ghost gbase = base@;
            let mut p = base;
            p.append("/tcl-mcp-server");
            assert(p@ == gbase + "/tcl-mcp-server"@);
            Ok(p)
        },
        None => Err(HookError::IoError(String::from_str("Unable to determine config directory"))),
    }
}

/// The server's cache directory under the platform's cache base.
pub fn cache_dir() -> (r: Result<String, HookError>)
    ensures
        r matches Ok(p) ==> exists|base: Seq<char>| p@ == base + "/tcl-mcp-server"@,
{
    match cache_dir_string() {
        Some(base) => {
            let ghost gbase = base@;
            let mut p = base;
            p.append("/tcl-mcp-server");
            assert(p@ == gbase + "/tcl-mcp-server"@);
            Ok(p)
        },
        None => Err(HookError::IoError(String::from_str("Unable to determine cache directory"))),
    }
}

/// The directory tools are stored in.
pub fn tools_dir() -> (r: Result<String, HookError>)
    ensures
        r matches Ok(p) ==> exists|base: Seq<char>| p@ == base + "/tcl-mcp-server/tools"@,
{
    match data_dir() {
        Ok(mut dir) => {
            let ghost gdir = dir@;
            dir.append("/tools");
            proof {
                reveal_strlit("/tcl-mcp-server");
                reveal_strlit("/tools");
                reveal_strlit("/tcl-mcp-server/tools");
                let base = choose|b: Seq<char>| gdir == b + "/tcl-mcp-server"@;
                assert(dir@ =~= base + "/tcl-mcp-server/tools"@);
            }
            Ok(dir)
        },
        Err(e) => Err(e),
    }
}

/// The server index file.
pub fn mcp_index_path() -> (r: Result<String, HookError>)
    ensures
        r matches Ok(p) ==> exists|base: Seq<char>| p@ == base + "/tcl-mcp-server/mcp-index.json"@,
{
    match data_dir() {
        Ok(mut dir) => {
            let ghost gdir = dir@;
            dir.append("/mcp-index.json");
            proof {
                reveal_strlit("/tcl-mcp-server");
                reveal_strlit("/mcp-index.json");
                reveal_strlit("/tcl-mcp-server/mcp-index.json");
                let base = choose|b: Seq<char>| gdir == b + "/tcl-mcp-server"@;
                assert(dir@ =~= base + "/tcl-mcp-server/mcp-index.json"@);
            }
            Ok(dir)
        },
        Err(e) => Err(e),
    }
}

/// The directory scripts are stored in.
pub fn scripts_dir() -> (r: Result<String, HookError>)
    ensures
        r matches Ok(p) ==> exists|base: Seq<char>| p@ == base + "/tcl-mcp-server/scripts"@,
{
    match data_dir() {
        Ok(mut dir) => {
            let ghost gdir = dir@;
            dir.append("/scripts");
            proof {
                reveal_strlit("/tcl-mcp-server");
                reveal_strlit("/scripts");
                reveal_strlit("/tcl-mcp-server/scripts");
                let base = choose|b: Seq<char>| gdir == b + "/tcl-mcp-server"@;
                assert(dir@ =~= base + "/tcl-mcp-server/scripts"@);
            }
            Ok(dir)
        },
        Err(e) => Err(e),
    }
}

} // verus!
