//! The state behind a desktop front end: the manifest, task and runs folder
//! it was given, the policy preview it shows, and the status of a run that a
//! worker carries out.

use vstd::prelude::*;
use crate::manifest::{texts, AgentManifest};
use crate::policy::{compiled_from, CompiledPolicy};
use crate::text::{decimal, decimal_chars, owned, push_all, push_str, string_of};

verus! {

/// The text that `format!("{:?}", items)` writes for a list of strings.
pub uninterp spec fn debug_list_text(items: Seq<Seq<char>>) -> Seq<char>;

/// The `Debug` text of a list of strings, from std's `format!("{:?}", ..)`.
/// Claimed: the text is a function of the strings alone
/// ([`debug_list_text`]); which text it is, is left to std.
#[verifier::external_body]
fn debug_list(items: &Vec<String>) -> (r: String)
    ensures
        r@ == debug_list_text(texts(items@)),
{
    format!("{:?}", items)
}

/// `true` or `false`.
pub open spec fn bool_text(b: bool) -> Seq<char> {
    if b {
        "true"@
    } else {
        "false"@
    }
}

/// The policy preview shown for manifest `m` compiled into `p`.
pub open spec fn preview_text(m: AgentManifest, p: CompiledPolicy) -> Seq<char> {
    "Agent: "@ + p.agent_name@
        + "\nRole (informational only): "@ + m.role.mission@
        + "\nAllowed tools: "@ + debug_list_text(texts(p.allowed_tools@))
        + "\nRead paths: "@ + debug_list_text(texts(p.read_paths@))
        + "\nWrite paths: "@ + debug_list_text(texts(p.write_paths@))
        + "\nAllowed commands: "@ + debug_list_text(texts(p.allowed_commands@))
        + "\nnetwork: "@ + bool_text(p.network_allowed) + "  |  git: "@ + bool_text(p.git_allowed)
        + "\nLimits: "@ + decimal(p.max_runtime_seconds as nat) + "s runtime, "@
        + decimal(p.max_memory_mb as nat) + " MB, "@
        + decimal(p.max_tool_calls as nat) + " tool calls max"@
}

fn push_bool(s: &mut Vec<char>, b: bool)
    ensures
        final(s)@ == old(s)@ + bool_text(b),
{
    if b {
        push_str(s, "true");
    } else {
        push_str(s, "false");
    }
}

fn push_list(s: &mut Vec<char>, items: &Vec<String>)
    ensures
        final(s)@ == old(s)@ + debug_list_text(texts(items@)),
{
    let t = debug_list(items);
    push_str(s, t.as_str());
}

/// The policy preview for manifest `m` compiled into `p` (see [`preview_text`]).
pub fn policy_preview_text(m: &AgentManifest, p: &CompiledPolicy) -> (r: String)
    ensures
        r@ == preview_text(*m, *p),
{
    let mut s: Vec<char> = Vec::new();
    push_str(&mut s, "Agent: ");
    push_str(&mut s, p.agent_name.as_str());
    push_str(&mut s, "\nRole (informational only): ");
    push_str(&mut s, m.role.mission.as_str());
    push_str(&mut s, "\nAllowed tools: ");
    push_list(&mut s, &p.allowed_tools);
    push_str(&mut s, "\nRead paths: ");
    push_list(&mut s, &p.read_paths);
    push_str(&mut s, "\nWrite paths: ");
    push_list(&mut s, &p.write_paths);
    push_str(&mut s, "\nAllowed commands: ");
    push_list(&mut s, &p.allowed_commands);
    push_str(&mut s, "\nnetwork: ");
    push_bool(&mut s, p.network_allowed);
    push_str(&mut s, "  |  git: ");
    push_bool(&mut s, p.git_allowed);
    push_str(&mut s, "\nLimits: ");
    let d = decimal_chars(p.max_runtime_seconds);
    push_all(&mut s, &d);
    push_str(&mut s, "s runtime, ");
    let d = decimal_chars(p.max_memory_mb);
    push_all(&mut s, &d);
    push_str(&mut s, " MB, ");
    let d = decimal_chars(p.max_tool_calls as u64);
    push_all(&mut s, &d);
    push_str(&mut s, " tool calls max");
    assert(s@ =~= preview_text(*m, *p));
    string_of(s.as_slice())
}

pub open spec fn idle_status() -> Seq<char> {
    "Pick a manifest and task, then click Run workflow."@
}

/// What a poll of the worker's channel found.
pub enum WorkerPoll {
    /// Nothing yet.
    Empty,
    /// The run ended: the report, or the error text.
    Finished(Result<String, String>),
    /// The worker went away without an answer.
    Disconnected,
}

/// The front end's state; `waiting` is whether a worker's answer is awaited.
pub struct RuntimeApp {
    pub manifest_path: String,
    pub task_path: String,
    pub runs_dir: String,
    pub policy_preview: String,
    pub run_log: String,
    pub status: String,
    pub running: bool,
    pub waiting: bool,
}

impl RuntimeApp {
    /// The state before any run: the given paths, nothing shown yet.
    pub fn new(manifest_path: &str, task_path: &str, runs_dir: &str) -> (r: RuntimeApp)
        ensures
            r.manifest_path@ == manifest_path@,
            r.task_path@ == task_path@,
            r.runs_dir@ == runs_dir@,
            r.policy_preview@.len() == 0,
            r.run_log@.len() == 0,
            r.status@ == idle_status(),
            !r.running,
            !r.waiting,
    {
        RuntimeApp {
            manifest_path: owned(manifest_path),
            task_path: owned(task_path),
            runs_dir: owned(runs_dir),
            policy_preview: String::new(),
            run_log: String::new(),
            status: owned("Pick a manifest and task, then click Run workflow."),
            running: false,
            waiting: false,
        }
    }

    /// Shows the policy compiled from the loaded manifest, or why loading failed.
    pub fn refresh_policy_preview(&mut self, loaded: Result<&AgentManifest, &str>)
        ensures
            match loaded {
                Ok(m) => exists|p: CompiledPolicy|
                    compiled_from(p, *m) && final(self).policy_preview@ == #[trigger] preview_text(*m, p),
                Err(e) => final(self).policy_preview@ == "Could not load manifest:\n"@ + e@,
            },
            final(self).manifest_path == old(self).manifest_path,
            final(self).task_path == old(self).task_path,
            final(self).runs_dir == old(self).runs_dir,
            final(self).run_log == old(self).run_log,
            final(self).status == old(self).status,
            final(self).running == old(self).running,
            final(self).waiting == old(self).waiting,
    {
        match loaded {
            Ok(m) => {
                let p = CompiledPolicy::compile(m);
                self.policy_preview = policy_preview_text(m, &p);
            },
            Err(e) => {
                self.policy_preview = crate::text::concat2("Could not load manifest:\n", e);
            },
        }
    }

    /// A run starts: the log is cleared and the worker's answer awaited.
    pub fn start_run(&mut self)
        ensures
            final(self).status@ == "Running…"@,
            final(self).run_log@.len() == 0,
            final(self).running,
            final(self).waiting,
            final(self).manifest_path == old(self).manifest_path,
            final(self).task_path == old(self).task_path,
            final(self).runs_dir == old(self).runs_dir,
            final(self).policy_preview == old(self).policy_preview,
    {
        self.waiting = true;
        self.running = true;
        self.status = owned("Running…");
        self.run_log = String::new();
    }

    /// Takes in what a poll of the worker found. Without an awaited answer, or
    /// with nothing yet, nothing changes; an answer shows the report or the
    /// error; a vanished worker ends the wait with a notice.
    pub fn poll_worker(&mut self, found: WorkerPoll)
        ensures
            final(self).manifest_path == old(self).manifest_path,
            final(self).task_path == old(self).task_path,
            final(self).runs_dir == old(self).runs_dir,
            final(self).policy_preview == old(self).policy_preview,
            !old(self).waiting || found is Empty ==> *final(self) == *old(self),
            old(self).waiting ==> match found {
                WorkerPoll::Empty => true,
                WorkerPoll::Finished(Ok(report)) => {
                    &&& !final(self).running
                    &&& !final(self).waiting
                    &&& final(self).status@ == "Finished."@
                    &&& final(self).run_log@ == report@
                },
                WorkerPoll::Finished(Err(e)) => {
                    &&& !final(self).running
                    &&& !final(self).waiting
                    &&& final(self).status@ == "Run failed."@
                    &&& final(self).run_log@ == e@
                },
                WorkerPoll::Disconnected => {
                    &&& !final(self).running
                    &&& !final(self).waiting
                    &&& final(self).status@ == "Worker stopped unexpectedly."@
                    &&& final(self).run_log == old(self).run_log
                },
            },
    {
        if !self.waiting {
            return;
        }
        match found {
            WorkerPoll::Empty => {},
            WorkerPoll::Finished(res) => {
                self.running = false;
                self.waiting = false;
                match res {
                    Ok(s) => {
                        self.status = owned("Finished.");
                        self.run_log = s;
                    },
                    Err(e) => {
                        self.status = owned("Run failed.");
                        self.run_log = e;
                    },
                }
            },
            WorkerPoll::Disconnected => {
                self.running = false;
                self.waiting = false;
                self.status = owned("Worker stopped unexpectedly.");
            },
        }
    }
}

} // verus!
