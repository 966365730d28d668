//! The agent manifest: identity, descriptive role, and the capabilities and
//! limits that the policy is compiled from.

use vstd::prelude::*;
use crate::json::{Json, JsonValue};

verus! {

/// The texts of a vector of strings.
pub open spec fn texts(v: Seq<String>) -> Seq<Seq<char>> {
    v.map_values(|s: String| s@)
}

/// An agent manifest. The role is informational; capabilities and limits are
/// what the policy is compiled from.
pub struct AgentManifest {
    pub name: String,
    pub description: String,
    pub role: Role,
    pub capabilities: Capabilities,
    pub limits: Limits,
    pub output: OutputSpec,
}

/// Mission and non-goals: descriptive text that grants nothing.
pub struct Role {
    pub mission: String,
    pub non_goals: Vec<String>,
}

/// What the agent may do.
pub struct Capabilities {
    pub tools: Vec<String>,
    pub filesystem: FilesystemCaps,
    pub commands: CommandsCaps,
    pub network: bool,
    pub git: bool,
}

/// Path prefixes for reading and writing.
pub struct FilesystemCaps {
    pub read: Vec<String>,
    pub write: Vec<String>,
}

/// Executables that may be run.
pub struct CommandsCaps {
    pub allow: Vec<String>,
}

/// Runtime limits.
pub struct Limits {
    pub max_runtime_seconds: u64,
    pub max_memory_mb: u64,
    pub max_tool_calls: u32,
}

/// Declarative output hints.
pub struct OutputSpec {
    pub format: String,
    pub schema: JsonValue,
}

/// The runtime limit used when a `limits` section leaves it out.
pub fn default_max_runtime() -> (r: u64)
    ensures
        r == 30,
{
    30
}

/// The memory limit used when a `limits` section leaves it out.
pub fn default_max_memory_mb() -> (r: u64)
    ensures
        r == 256,
{
    256
}

/// The tool-call limit used when a `limits` section leaves it out.
pub fn default_max_tool_calls() -> (r: u32)
    ensures
        r == 50,
{
    50
}

impl Default for Role {
    fn default() -> (r: Self)
        ensures
            r.mission@.len() == 0,
            r.non_goals@.len() == 0,
    {
        Role { mission: String::new(), non_goals: Vec::new() }
    }
}

impl Default for FilesystemCaps {
    fn default() -> (r: Self)
        ensures
            r.read@.len() == 0,
            r.write@.len() == 0,
    {
        FilesystemCaps { read: Vec::new(), write: Vec::new() }
    }
}

impl Default for CommandsCaps {
    fn default() -> (r: Self)
        ensures
            r.allow@.len() == 0,
    {
        CommandsCaps { allow: Vec::new() }
    }
}

impl Default for Capabilities {
    /// No tools, no paths, no commands, no network, no git.
    fn default() -> (r: Self)
        ensures
            r.tools@.len() == 0,
            r.filesystem.read@.len() == 0,
            r.filesystem.write@.len() == 0,
            r.commands.allow@.len() == 0,
            !r.network,
            !r.git,
    {
        Capabilities {
            tools: Vec::new(),
            filesystem: FilesystemCaps::default(),
            commands: CommandsCaps::default(),
            network: false,
            git: false,
        }
    }
}

impl Default for Limits {
    /// All zero: the value of a manifest without a `limits` section. The
    /// per-field defaults of [`default_max_runtime`] and its siblings apply only
    /// to a `limits` section that omits a field.
    fn default() -> (r: Self)
        ensures
            r.max_runtime_seconds == 0,
            r.max_memory_mb == 0,
            r.max_tool_calls == 0,
    {
        Limits { max_runtime_seconds: 0, max_memory_mb: 0, max_tool_calls: 0 }
    }
}

impl Default for OutputSpec {
    fn default() -> (r: Self)
        ensures
            r.format@.len() == 0,
            r.schema@ == Json::Null,
    {
        OutputSpec { format: String::new(), schema: JsonValue::Null }
    }
}

} // verus!
