//! Scripted runs: a task's tool steps go through the gateway one by one until
//! the steps are done, the deadline passes, or the tool-call limit is hit.
//! The decisions are made here; the caller performs each tool action.

use vstd::prelude::*;
use crate::audit::AuditEvent;
use crate::json::{Json, JsonValue, ObjectBuilder, array_of};
use crate::manifest::AgentManifest;
use crate::policy::{compiled_from, CompiledPolicy};
use crate::sandbox::Sandbox;
use crate::paths::join;
use crate::text::owned;
use crate::tools::{fault_text, GatewayError, GatewayFault, ToolGateway};

verus! {

/// One step of a task: a tool and its arguments.
pub struct TaskStep {
    pub tool: String,
    pub args: JsonValue,
}

/// A scripted task.
pub struct TaskFile {
    pub description: String,
    pub steps: Vec<TaskStep>,
}

/// How one step went.
pub struct StepResult {
    pub tool: String,
    pub ok: bool,
    pub output: Option<JsonValue>,
    pub error: Option<String>,
}

/// The end of a run.
pub struct RunOutcome {
    pub run_id: String,
    pub run_dir: String,
    pub exit_reason: String,
    pub tool_calls_used: u32,
    pub results: Vec<StepResult>,
}

/// What a run id looks like: a random (version 4) UUID in lower-case hyphenated form.
pub open spec fn run_id_shape(id: Seq<char>) -> bool {
    &&& id.len() == 36
    &&& forall|i: int| 0 <= i < 36 ==> (#[trigger] id[i] == '-' <==> (i == 8 || i == 13 || i == 18 || i == 23))
    &&& forall|i: int|
        0 <= i < 36 && i != 8 && i != 13 && i != 18 && i != 23 ==> (('0' <= #[trigger] id[i] && id[i] <= '9') || ('a' <= id[i] && id[i] <= 'f'))
    &&& id[14] == '4'
}

/// A fresh run id from `uuid::Uuid::new_v4`, rendered by its `Display`.
/// Claimed: the id has the hyphenated lower-case shape of a version 4 UUID
/// ([`run_id_shape`]); which id comes out is left to chance.
#[verifier::external_body]
pub(crate) fn new_run_id() -> (r: String)
    ensures
        run_id_shape(r@),
{
    uuid::Uuid::new_v4().to_string()
}

pub open spec fn deadline_reason() -> Seq<char> {
    "deadline exceeded (max_runtime_seconds)"@
}

pub open spec fn limit_reason() -> Seq<char> {
    "max_tool_calls exceeded"@
}

pub open spec fn completed_reason() -> Seq<char> {
    "completed all steps"@
}

/// A step's result records its tool, and the tool's output or error text.
pub open spec fn step_result_of(r: StepResult, tool: Seq<char>, outcome: Result<Json, GatewayFault>) -> bool {
    &&& r.tool@ == tool
    &&& r.ok == outcome is Ok
    &&& match (r.output, r.error, outcome) {
        (Some(o), None, Ok(v)) => o@ == v,
        (None, Some(m), Err(e)) => m@ == fault_text(e),
        _ => false,
    }
}

/// The value of a tool outcome.
pub open spec fn tool_outcome_view(o: Result<JsonValue, GatewayError>) -> Result<Json, GatewayFault> {
    match o {
        Ok(v) => Ok(v@),
        Err(e) => Err(e@),
    }
}

/// The state of a run between steps.
pub struct RunSession {
    pub run_id: String,
    pub run_dir: String,
    pub gateway: ToolGateway,
    pub tool_calls_used: u32,
    pub results: Vec<StepResult>,
    /// Set once the run has stopped.
    pub exit_reason: Option<String>,
}

impl RunSession {
    pub open spec fn limit(self) -> u32 {
        self.gateway.current_policy().max_tool_calls
    }

    /// Every step taken so far has one result, in step order, and the
    /// tool-call count equals the number of results, within the limit.
    pub open spec fn wf(self, task: TaskFile) -> bool {
        &&& self.tool_calls_used as nat == self.results@.len()
        &&& self.results@.len() <= task.steps@.len()
        &&& self.tool_calls_used <= self.limit()
        &&& forall|i: int| 0 <= i < self.results@.len() ==> (#[trigger] self.results@[i]).tool@ == task.steps@[i].tool@
    }

    /// Starts a run: draws the run id, compiles the policy, lays out the run
    /// folders, and gives the `RunStart` event to record.
    pub fn start(manifest: &AgentManifest, manifest_path: &str, task_path: &str, runs_dir: &str) -> (r: (RunSession, Sandbox, AuditEvent))
        ensures
            run_id_shape(r.0.run_id@),
            compiled_from(r.0.gateway.current_policy(), *manifest),
            r.0.tool_calls_used == 0,
            r.0.results@.len() == 0,
            r.0.exit_reason is None,
            r.1.run_root@ == join(runs_dir@, r.0.run_id@),
            r.1.work_dir@ == join(r.1.run_root@, "workspace"@),
            r.1.temp_dir@ == join(r.1.run_root@, "tmp"@),
            r.0.run_dir@ == r.1.run_root@,
            r.2 == (AuditEvent::RunStart {
                run_id: r.0.run_id,
                manifest_path: r.2->RunStart_manifest_path,
                task_path: r.2->RunStart_task_path,
                agent_name: r.2->RunStart_agent_name,
            }),
            r.2->RunStart_manifest_path@ == manifest_path@,
            r.2->RunStart_task_path@ == task_path@,
            r.2->RunStart_agent_name@ == manifest.name@,
    {
        let run_id = new_run_id();
        let policy = CompiledPolicy::compile(manifest);
        let gateway = ToolGateway::new(policy);
        let sandbox = Sandbox::create(runs_dir, run_id.as_str());
        let event = AuditEvent::RunStart {
            run_id: run_id.clone(),
            manifest_path: owned(manifest_path),
            task_path: owned(task_path),
            agent_name: manifest.name.clone(),
        };
        let session = RunSession {
            run_id,
            run_dir: sandbox.run_root.clone(),
            gateway,
            tool_calls_used: 0,
            results: Vec::new(),
            exit_reason: None,
        };
        (session, sandbox, event)
    }

    /// Decides what comes next: the index of the step to run, or `None` when
    /// the run stops (all steps done, deadline passed, or the tool-call limit
    /// reached, checked in that order), with the reason recorded.
    pub fn next_step(&mut self, task: &TaskFile, past_deadline: bool) -> (r: Option<usize>)
        requires
            old(self).wf(*task),
            old(self).exit_reason is None,
        ensures
            final(self).wf(*task),
            final(self).run_id == old(self).run_id,
            final(self).run_dir == old(self).run_dir,
            final(self).gateway == old(self).gateway,
            final(self).tool_calls_used == old(self).tool_calls_used,
            final(self).results@ == old(self).results@,
            ({
                let i = old(self).results@.len();
                if i == task.steps@.len() {
                    r is None && final(self).exit_reason is Some && final(self).exit_reason->0@ == completed_reason()
                } else if past_deadline {
                    r is None && final(self).exit_reason is Some && final(self).exit_reason->0@ == deadline_reason()
                } else if old(self).tool_calls_used >= old(self).limit() {
                    r is None && final(self).exit_reason is Some && final(self).exit_reason->0@ == limit_reason()
                } else {
                    r == Some(i as usize) && final(self).exit_reason is None
                }
            }),
    {
        let i = self.results.len();
        if i == task.steps.len() {
            self.exit_reason = Some(owned("completed all steps"));
            return None;
        }
        if past_deadline {
            self.exit_reason = Some(owned("deadline exceeded (max_runtime_seconds)"));
            return None;
        }
        if self.tool_calls_used >= self.gateway.policy().max_tool_calls {
            self.exit_reason = Some(owned("max_tool_calls exceeded"));
            return None;
        }
        Some(i)
    }

    /// Records how step `index` went and gives the `ToolCall` and `ToolResult`
    /// events to write: the call is marked allowed exactly when the tool
    /// succeeded, with the error text as the reason otherwise.
    pub fn record_result(&mut self, task: &TaskFile, index: usize, outcome: Result<JsonValue, GatewayError>) -> (r: (AuditEvent, AuditEvent))
        requires
            old(self).wf(*task),
            old(self).exit_reason is None,
            index == old(self).results@.len(),
            index < task.steps@.len(),
            old(self).tool_calls_used < old(self).limit(),
        ensures
            final(self).wf(*task),
            final(self).run_id == old(self).run_id,
            final(self).run_dir == old(self).run_dir,
            final(self).gateway == old(self).gateway,
            final(self).exit_reason is None,
            final(self).tool_calls_used == old(self).tool_calls_used + 1,
            final(self).results@.len() == old(self).results@.len() + 1,
            final(self).results@.take(index as int) == old(self).results@,
            step_result_of(final(self).results@[index as int], task.steps@[index as int].tool@, tool_outcome_view(outcome)),
            match r.0 {
                AuditEvent::ToolCall { run_id, tool, args, allowed, reason } => {
                    &&& run_id@ == old(self).run_id@
                    &&& tool@ == task.steps@[index as int].tool@
                    &&& args@ == task.steps@[index as int].args@
                    &&& allowed == outcome is Ok
                    &&& match (reason, tool_outcome_view(outcome)) {
                        (None, Ok(_)) => true,
                        (Some(m), Err(e)) => m@ == fault_text(e),
                        _ => false,
                    }
                },
                _ => false,
            },
            match r.1 {
                AuditEvent::ToolResult { run_id, tool, output, error } => {
                    &&& run_id@ == old(self).run_id@
                    &&& tool@ == task.steps@[index as int].tool@
                    &&& match (output, error, tool_outcome_view(outcome)) {
                        (Some(o), None, Ok(v)) => o@ == v,
                        (None, Some(m), Err(e)) => m@ == fault_text(e),
                        _ => false,
                    }
                },
                _ => false,
            },
    {
        let step = &task.steps[index];
        self.tool_calls_used = self.tool_calls_used + 1;
        let allowed = outcome.is_ok();
        let (call, result, step_result) = match outcome {
            Ok(out) => {
                let call = AuditEvent::ToolCall {
                    run_id: self.run_id.clone(),
                    tool: step.tool.clone(),
                    args: step.args.duplicate(),
                    allowed,
                    reason: None,
                };
                let result = AuditEvent::ToolResult {
                    run_id: self.run_id.clone(),
                    tool: step.tool.clone(),
                    output: Some(out.duplicate()),
                    error: None,
                };
                let sr = StepResult { tool: step.tool.clone(), ok: true, output: Some(out), error: None };
                (call, result, sr)
            },
            Err(e) => {
                let msg = e.message();
                let call = AuditEvent::ToolCall {
                    run_id: self.run_id.clone(),
                    tool: step.tool.clone(),
                    args: step.args.duplicate(),
                    allowed,
                    reason: Some(msg.clone()),
                };
                let result = AuditEvent::ToolResult {
                    run_id: self.run_id.clone(),
                    tool: step.tool.clone(),
                    output: None,
                    error: Some(msg.clone()),
                };
                let sr = StepResult { tool: step.tool.clone(), ok: false, output: None, error: Some(msg) };
                (call, result, sr)
            },
        };
        let ghost before = self.results@;
        self.results.push(step_result);
        assert(self.results@.take(index as int) =~= before);
        (call, result)
    }

    /// Ends a stopped run: the outcome, the `RunEnd` event and the run summary.
    pub fn finish(self) -> (r: (RunOutcome, AuditEvent, JsonValue))
        requires
            self.exit_reason is Some,
        ensures
            r.0.run_id@ == self.run_id@,
            r.0.run_dir@ == self.run_dir@,
            r.0.exit_reason@ == self.exit_reason->0@,
            r.0.tool_calls_used == self.tool_calls_used,
            r.0.results@ == self.results@,
            r.1 matches AuditEvent::RunEnd { run_id, exit_reason, tool_calls_used }
                && run_id@ == self.run_id@ && exit_reason@ == self.exit_reason->0@
                && tool_calls_used == self.tool_calls_used,
            r.2@ == summary_json(self.run_id@, self.exit_reason->0@, self.tool_calls_used, self.results@),
    {
        let exit_reason = match self.exit_reason {
            Some(e) => e,
            None => String::new(),
        };
        let end = AuditEvent::RunEnd {
            run_id: self.run_id.clone(),
            exit_reason: exit_reason.clone(),
            tool_calls_used: self.tool_calls_used,
        };
        let summary = run_summary(self.run_id.as_str(), exit_reason.as_str(), self.tool_calls_used, &self.results);
        let outcome = RunOutcome {
            run_id: self.run_id,
            run_dir: self.run_dir,
            exit_reason,
            tool_calls_used: self.tool_calls_used,
            results: self.results,
        };
        (outcome, end, summary)
    }
}

/// A step in the run summary: tool, success, and error text (or `null`).
pub open spec fn summary_step_json(r: StepResult) -> Json {
    Json::Object(
        seq![
            ("error"@, crate::audit::opt_json(r.error)),
            ("ok"@, Json::Bool(r.ok)),
            ("tool"@, Json::Str(r.tool@)),
        ],
    )
}

/// The run summary written when a run ends.
pub open spec fn summary_json(run_id: Seq<char>, exit_reason: Seq<char>, tool_calls_used: u32, results: Seq<StepResult>) -> Json {
    Json::Object(
        seq![
            ("exit_reason"@, Json::Str(exit_reason)),
            ("run_id"@, Json::Str(run_id)),
            ("steps"@, Json::Array(results.map_values(|r: StepResult| summary_step_json(r)))),
            ("tool_calls_used"@, Json::UInt(tool_calls_used as u64)),
        ],
    )
}

/// The run summary (see [`summary_json`]).
pub fn run_summary(run_id: &str, exit_reason: &str, tool_calls_used: u32, results: &Vec<StepResult>) -> (r: JsonValue)
    ensures
        r@ == summary_json(run_id@, exit_reason@, tool_calls_used, results@),
{
    let mut steps: Vec<JsonValue> = Vec::new();
    let mut i: usize = 0;
    while i < results.len()
        invariant
            i <= results.len(),
            steps@.len() == i,
            forall|j: int| 0 <= j < i ==> #[trigger] steps@[j]@ == summary_step_json(results@[j]),
        decreases results.len() - i,
    {
        let mut b = ObjectBuilder::new();
        b.add("error", JsonValue::opt_string(&results[i].error));
        b.add("ok", JsonValue::Bool(results[i].ok));
        b.add("tool", JsonValue::Str(results[i].tool.clone()));
        assert(b.members() =~= summary_step_json(results@[i as int])->Object_0);
        steps.push(b.build());
        i = i + 1;
    }
    let arr = array_of(steps);
    assert(arr@->Array_0 =~= results@.map_values(|r: StepResult| summary_step_json(r)));
    let mut b = ObjectBuilder::new();
    b.add("exit_reason", JsonValue::string(exit_reason));
    b.add("run_id", JsonValue::string(run_id));
    b.add("steps", arr);
    b.add("tool_calls_used", JsonValue::UInt(tool_calls_used as u64));
    assert(b.members() =~= summary_json(run_id@, exit_reason@, tool_calls_used, results@)->Object_0);
    b.build()
}

} // verus!
