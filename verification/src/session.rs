//! The agent loop: a model picks tools turn by turn until it answers, the
//! turn budget is spent, or the deadline passes. Decisions are made here; the
//! caller asks the model and performs the tool actions.

use vstd::prelude::*;
use crate::audit::AuditEvent;
use crate::json::{array_of, Json, JsonValue, ObjectBuilder};
use crate::manifest::{texts, AgentManifest};
use crate::model::{called_tool, conversation_json, schema_json, ConversationEvent, Decision, AgentDecision, ModelRequest, ToolSchema};
use crate::paths::join;
use crate::policy::{compiled_from, CompiledPolicy};
use crate::runner::{new_run_id, run_id_shape, tool_outcome_view};
use crate::sandbox::Sandbox;
use crate::text::{concat2, owned};
use crate::tools::{fault_text, GatewayError, ToolGateway};

verus! {

/// How an agent run ended.
pub struct AgentRunOutcome {
    pub run_id: String,
    pub run_dir: String,
    pub exit_reason: String,
    pub tool_calls_used: u32,
    pub final_answer: Option<String>,
}

// ---------------------------------------------------------------- tool schemas

pub open spec fn type_only(t: Seq<char>) -> Json {
    Json::Object(seq![("type"@, Json::Str(t))])
}

pub open spec fn object_schema(props: Seq<(Seq<char>, Json)>, required: Seq<Seq<char>>) -> Json {
    Json::Object(
        seq![
            ("properties"@, Json::Object(props)),
            ("required"@, Json::Array(required.map_values(|s: Seq<char>| Json::Str(s)))),
            ("type"@, Json::Str("object"@)),
        ],
    )
}

/// Description and input schema of each built-in tool.
pub open spec fn schema_parts(name: Seq<char>) -> Option<(Seq<char>, Json)> {
    if name == "list_logs"@ {
        Some(("List files/dirs under an allowed directory"@, object_schema(seq![("directory"@, type_only("string"@))], seq!["directory"@])))
    } else if name == "read_log"@ {
        Some(("Read a small allowed file as text"@, object_schema(seq![("path"@, type_only("string"@))], seq!["path"@])))
    } else if name == "tail_log"@ {
        Some((
            "Read the last N lines from an allowed file"@,
            object_schema(
                seq![
                    ("lines"@, Json::Object(seq![("maximum"@, Json::UInt(10000)), ("minimum"@, Json::UInt(1)), ("type"@, Json::Str("integer"@))])),
                    ("path"@, type_only("string"@)),
                ],
                seq!["path"@],
            ),
        ))
    } else if name == "grep_log"@ {
        Some((
            "Find plain-text pattern matches in an allowed file/dir"@,
            object_schema(seq![("path"@, type_only("string"@)), ("pattern"@, type_only("string"@))], seq!["path"@, "pattern"@]),
        ))
    } else if name == "run_tests"@ {
        Some((
            "Run an allowlisted executable in an allowed working directory"@,
            object_schema(
                seq![
                    ("args"@, Json::Object(seq![("items"@, type_only("string"@)), ("type"@, Json::Str("array"@))])),
                    ("command"@, type_only("string"@)),
                    ("working_directory"@, type_only("string"@)),
                ],
                seq!["command"@, "working_directory"@],
            ),
        ))
    } else if name == "git_status"@ {
        Some((
            "Run git status --porcelain using an allowlisted git binary"@,
            object_schema(
                seq![("command"@, type_only("string"@)), ("working_directory"@, type_only("string"@))],
                seq!["command"@, "working_directory"@],
            ),
        ))
    } else {
        None
    }
}

/// A schema describes built-in tool `name`.
pub open spec fn schema_for(s: ToolSchema, name: Seq<char>) -> bool {
    &&& s.name@ == name
    &&& match schema_parts(name) {
        Some((description, input)) => s.description@ == description && s.input_schema@ == input,
        None => false,
    }
}

fn type_only_value(t: &str) -> (r: JsonValue)
    ensures
        r@ == type_only(t@),
{
    let mut b = ObjectBuilder::new();
    b.add("type", JsonValue::string(t));
    assert(b.members() =~= type_only(t@)->Object_0);
    b.build()
}

fn required_value(names: Vec<&str>) -> (r: JsonValue)
    ensures
        r@ == Json::Array(Seq::new(names@.len(), |i: int| names@[i]@).map_values(|s: Seq<char>| Json::Str(s))),
{
    let mut items: Vec<JsonValue> = Vec::new();
    let mut i: usize = 0;
    while i < names.len()
        invariant
            i <= names.len(),
            items@.len() == i,
            forall|j: int| 0 <= j < i ==> #[trigger] items@[j]@ == Json::Str(names@[j]@),
        decreases names.len() - i,
    {
        items.push(JsonValue::string(names[i]));
        i = i + 1;
    }
    let r = array_of(items);
    assert(r@->Array_0 =~= Seq::new(names@.len(), |i: int| names@[i]@).map_values(|s: Seq<char>| Json::Str(s)));
    r
}

fn object_schema_value(props: ObjectBuilder, required: Vec<&str>) -> (r: JsonValue)
    ensures
        r@ == object_schema(props.members(), Seq::new(required@.len(), |i: int| required@[i]@)),
{
    let ghost pm = props.members();
    let ghost rq = Seq::new(required@.len(), |i: int| required@[i]@);
    let mut b = ObjectBuilder::new();
    b.add("properties", props.build());
    b.add("required", required_value(required));
    b.add("type", JsonValue::string("object"));
    assert(b.members() =~= object_schema(pm, rq)->Object_0);
    b.build()
}

/// The schema of built-in tool `name`; `None` for any other name.
pub fn schema_for_tool(name: &str) -> (r: Option<ToolSchema>)
    ensures
        match r {
            Some(s) => schema_for(s, name@),
            None => schema_parts(name@) is None,
        },
{
    let mut props = ObjectBuilder::new();
    let (description, input_schema) = if crate::text::str_eq(name, "list_logs") {
        props.add("directory", type_only_value("string"));
        assert(props.members() =~= seq![("directory"@, type_only("string"@))]);
        let req = vec!["directory"];
        assert(Seq::new(req@.len(), |i: int| req@[i]@) =~= seq!["directory"@]);
        ("List files/dirs under an allowed directory", object_schema_value(props, req))
    } else if crate::text::str_eq(name, "read_log") {
        props.add("path", type_only_value("string"));
        assert(props.members() =~= seq![("path"@, type_only("string"@))]);
        let req = vec!["path"];
        assert(Seq::new(req@.len(), |i: int| req@[i]@) =~= seq!["path"@]);
        ("Read a small allowed file as text", object_schema_value(props, req))
    } else if crate::text::str_eq(name, "tail_log") {
        let mut lines = ObjectBuilder::new();
        lines.add("maximum", JsonValue::UInt(10000));
        lines.add("minimum", JsonValue::UInt(1));
        lines.add("type", JsonValue::string("integer"));
        assert(lines.members() =~= seq![("maximum"@, Json::UInt(10000)), ("minimum"@, Json::UInt(1)), ("type"@, Json::Str("integer"@))]);
        props.add("lines", lines.build());
        props.add("path", type_only_value("string"));
        assert(props.members() =~= seq![
            ("lines"@, Json::Object(seq![("maximum"@, Json::UInt(10000)), ("minimum"@, Json::UInt(1)), ("type"@, Json::Str("integer"@))])),
            ("path"@, type_only("string"@)),
        ]);
        let req = vec!["path"];
        assert(Seq::new(req@.len(), |i: int| req@[i]@) =~= seq!["path"@]);
        ("Read the last N lines from an allowed file", object_schema_value(props, req))
    } else if crate::text::str_eq(name, "grep_log") {
        props.add("path", type_only_value("string"));
        props.add("pattern", type_only_value("string"));
        assert(props.members() =~= seq![("path"@, type_only("string"@)), ("pattern"@, type_only("string"@))]);
        let req = vec!["path", "pattern"];
        assert(Seq::new(req@.len(), |i: int| req@[i]@) =~= seq!["path"@, "pattern"@]);
        ("Find plain-text pattern matches in an allowed file/dir", object_schema_value(props, req))
    } else if crate::text::str_eq(name, "run_tests") {
        let mut args = ObjectBuilder::new();
        args.add("items", type_only_value("string"));
        args.add("type", JsonValue::string("array"));
        assert(args.members() =~= seq![("items"@, type_only("string"@)), ("type"@, Json::Str("array"@))]);
        props.add("args", args.build());
        props.add("command", type_only_value("string"));
        props.add("working_directory", type_only_value("string"));
        assert(props.members() =~= seq![
            ("args"@, Json::Object(seq![("items"@, type_only("string"@)), ("type"@, Json::Str("array"@))])),
            ("command"@, type_only("string"@)),
            ("working_directory"@, type_only("string"@)),
        ]);
        let req = vec!["command", "working_directory"];
        assert(Seq::new(req@.len(), |i: int| req@[i]@) =~= seq!["command"@, "working_directory"@]);
        ("Run an allowlisted executable in an allowed working directory", object_schema_value(props, req))
    } else if crate::text::str_eq(name, "git_status") {
        props.add("command", type_only_value("string"));
        props.add("working_directory", type_only_value("string"));
        assert(props.members() =~= seq![("command"@, type_only("string"@)), ("working_directory"@, type_only("string"@))]);
        let req = vec!["command", "working_directory"];
        assert(Seq::new(req@.len(), |i: int| req@[i]@) =~= seq!["command"@, "working_directory"@]);
        ("Run git status --porcelain using an allowlisted git binary", object_schema_value(props, req))
    } else {
        return None;
    };
    Some(ToolSchema { name: owned(name), description: owned(description), input_schema })
}

/// The built-in tool names in lexicographic order.
pub open spec fn builtin_names_sorted() -> Seq<Seq<char>> {
    seq!["git_status"@, "grep_log"@, "list_logs"@, "read_log"@, "run_tests"@, "tail_log"@]
}

/// Each built-in tool has a schema.
pub proof fn lemma_builtins_have_schemas()
    ensures
        forall|k: int| 0 <= k < 6 ==> schema_parts(#[trigger] builtin_names_sorted()[k]) is Some,
{
    reveal_strlit("git_status");
    reveal_strlit("grep_log");
    reveal_strlit("list_logs");
    reveal_strlit("read_log");
    reveal_strlit("run_tests");
    reveal_strlit("tail_log");
    assert(schema_parts("git_status"@) is Some);
    assert(schema_parts("grep_log"@) is Some);
    assert(schema_parts("list_logs"@) is Some);
    assert(schema_parts("read_log"@) is Some);
    assert(schema_parts("run_tests"@) is Some);
    assert(schema_parts("tail_log"@) is Some);
}

/// The names among `names` that the policy allows, in order.
pub open spec fn allowed_names(p: CompiledPolicy, names: Seq<Seq<char>>) -> Seq<Seq<char>>
    decreases names.len(),
{
    if names.len() == 0 {
        seq![]
    } else if p.tool_allowed(names.last()) {
        allowed_names(p, names.drop_last()).push(names.last())
    } else {
        allowed_names(p, names.drop_last())
    }
}

/// Every name that `allowed_names` keeps is one of `names` that the policy allows.
proof fn lemma_allowed_names_allowed(p: CompiledPolicy, names: Seq<Seq<char>>)
    ensures
        forall|i: int| 0 <= i < allowed_names(p, names).len() ==>
            p.tool_allowed(#[trigger] allowed_names(p, names)[i]) && names.contains(allowed_names(p, names)[i]),
    decreases names.len(),
{
    if names.len() > 0 {
        let init = names.drop_last();
        lemma_allowed_names_allowed(p, init);
        let a = allowed_names(p, names);
        let b = allowed_names(p, init);
        assert forall|i: int| 0 <= i < a.len() implies p.tool_allowed(#[trigger] a[i]) && names.contains(a[i]) by {
            if i < b.len() {
                assert(a[i] == b[i]);
                let k = choose|k: int| 0 <= k < init.len() && init[k] == b[i];
                assert(names[k] == init[k]);
            } else {
                assert(a[i] == names.last());
                assert(names[names.len() - 1] == names.last());
            }
        }
    }
}

/// The model is offered only tools that the policy allows, and only built-in ones.
pub proof fn law_offered_tools_are_allowed(p: CompiledPolicy)
    ensures
        forall|i: int| 0 <= i < allowed_names(p, builtin_names_sorted()).len() ==> {
            let n = #[trigger] allowed_names(p, builtin_names_sorted())[i];
            p.tool_allowed(n) && crate::tools::builtin_tool(n)
        },
{
    lemma_allowed_names_allowed(p, builtin_names_sorted());
    assert forall|n: Seq<char>| builtin_names_sorted().contains(n) implies crate::tools::builtin_tool(n) by {
        let k = choose|k: int| 0 <= k < 6 && builtin_names_sorted()[k] == n;
        assert(0 <= k < 6);
    }
}

/// The schemas offered to the model: one per allowed built-in tool, by name
/// in lexicographic order.
pub fn schemas_from_policy(policy: &CompiledPolicy) -> (r: Vec<ToolSchema>)
    ensures
        r@.map_values(|s: ToolSchema| s.name@) == allowed_names(*policy, builtin_names_sorted()),
        forall|i: int| 0 <= i < r@.len() ==> schema_for(#[trigger] r@[i], r@[i].name@),
{
    let names = ["git_status", "grep_log", "list_logs", "read_log", "run_tests", "tail_log"];
    let ghost nv = Seq::new(6, |i: int| names@[i]@);
    assert(nv =~= builtin_names_sorted());
    let mut out: Vec<ToolSchema> = Vec::new();
    let mut k: usize = 0;
    assert(out@.map_values(|s: ToolSchema| s.name@) =~= allowed_names(*policy, nv.take(0)));
    while k < 6
        invariant
            k <= 6,
            nv == Seq::new(6, |i: int| names@[i]@),
            nv == builtin_names_sorted(),
            out@.map_values(|s: ToolSchema| s.name@) == allowed_names(*policy, nv.take(k as int)),
            forall|i: int| 0 <= i < out@.len() ==> schema_for(#[trigger] out@[i], out@[i].name@),
        decreases 6 - k,
    {
        let ghost before = out@;
        if policy.allows_tool(names[k]) {
            match schema_for_tool(names[k]) {
                Some(s) => {
                    out.push(s);
                    assert(out@.map_values(|s: ToolSchema| s.name@) =~= before.map_values(|s: ToolSchema| s.name@).push(names@[k as int]@));
                },
                None => {
                    proof {
                        lemma_builtins_have_schemas();
                        assert(names@[k as int]@ == builtin_names_sorted()[k as int]);
                    }
                    assert(false);
                },
            }
        }
        proof {
            assert(nv.take(k + 1).drop_last() =~= nv.take(k as int));
            assert(nv.take(k + 1).last() == nv[k as int]);
        }
        k = k + 1;
    }
    assert(nv.take(6) =~= nv);
    out
}

// ---------------------------------------------------------------- the loop

pub open spec fn agent_deadline_reason() -> Seq<char> {
    "deadline exceeded (max_runtime_seconds)"@
}

pub open spec fn answered_reason() -> Seq<char> {
    "model returned final answer"@
}

pub open spec fn exhausted_reason() -> Seq<char> {
    "max_tool_calls reached without final answer"@
}

/// The state of an agent run between turns.
pub struct AgentSession {
    pub run_id: String,
    pub run_dir: String,
    pub gateway: ToolGateway,
    pub manifest_path: String,
    pub prompt_path: String,
    pub system_prompt: String,
    pub user_task: String,
    pub tools: Vec<ToolSchema>,
    pub history: Vec<ConversationEvent>,
    /// Model turns taken.
    pub turns: u32,
    pub tool_calls_used: u32,
    pub final_answer: Option<String>,
    /// Set once the run has stopped.
    pub exit_reason: Option<String>,
}

impl AgentSession {
    pub open spec fn limit(self) -> u32 {
        self.gateway.current_policy().max_tool_calls
    }

    /// Tool calls never outnumber turns, turns never exceed the limit, the
    /// history opens with the user's task, and an answer ends the run.
    pub open spec fn wf(self) -> bool {
        &&& self.tool_calls_used <= self.turns <= self.limit()
        &&& self.history@.len() >= 1
        &&& self.history@[0] matches ConversationEvent::UserTask { content } && content@ == self.user_task@
        &&& self.final_answer is Some ==> (self.exit_reason is Some && self.exit_reason->0@ == answered_reason())
    }

    /// Starts an agent run: draws the run id, compiles the policy, picks the
    /// tool schemas, opens the history with the task, and gives the
    /// `RunStart` event to record.
    pub fn start(
        manifest: &AgentManifest,
        manifest_path: &str,
        prompt_path: &str,
        system_prompt: &str,
        user_task: &str,
        runs_dir: &str,
    ) -> (r: (AgentSession, Sandbox, AuditEvent))
        ensures
            r.0.wf(),
            run_id_shape(r.0.run_id@),
            compiled_from(r.0.gateway.current_policy(), *manifest),
            r.0.tools@.map_values(|s: ToolSchema| s.name@) == allowed_names(r.0.gateway.current_policy(), builtin_names_sorted()),
            r.0.history@.len() == 1,
            r.0.turns == 0,
            r.0.tool_calls_used == 0,
            r.0.final_answer is None,
            r.0.exit_reason is None,
            forall|i: int| 0 <= i < r.0.tools@.len() ==> schema_for(#[trigger] r.0.tools@[i], r.0.tools@[i].name@),
            r.0.manifest_path@ == manifest_path@,
            r.0.prompt_path@ == prompt_path@,
            r.0.system_prompt@ == system_prompt@,
            r.0.user_task@ == user_task@,
            r.1.run_root@ == join(runs_dir@, r.0.run_id@),
            r.0.run_dir@ == r.1.run_root@,
            r.2 matches AuditEvent::RunStart { run_id, manifest_path: mp, task_path, agent_name }
                && run_id@ == r.0.run_id@ && mp@ == manifest_path@
                && task_path@ == "agent-task: "@ + user_task@ && agent_name@ == manifest.name@,
    {
        let run_id = new_run_id();
        let policy = CompiledPolicy::compile(manifest);
        let tools = schemas_from_policy(&policy);
        let gateway = ToolGateway::new(policy);
        let sandbox = Sandbox::create(runs_dir, run_id.as_str());
        let event = AuditEvent::RunStart {
            run_id: run_id.clone(),
            manifest_path: owned(manifest_path),
            task_path: concat2("agent-task: ", user_task),
            agent_name: manifest.name.clone(),
        };
        let mut history: Vec<ConversationEvent> = Vec::new();
        history.push(ConversationEvent::UserTask { content: owned(user_task) });
        let session = AgentSession {
            run_id,
            run_dir: sandbox.run_root.clone(),
            gateway,
            manifest_path: owned(manifest_path),
            prompt_path: owned(prompt_path),
            system_prompt: owned(system_prompt),
            user_task: owned(user_task),
            tools,
            history,
            turns: 0,
            tool_calls_used: 0,
            final_answer: None,
            exit_reason: None,
        };
        (session, sandbox, event)
    }

    /// The next question for the model, or `None` when the run stops because
    /// the turn budget (`max_tool_calls`) is spent or the deadline passed
    /// (checked in that order).
    pub fn next_request(&mut self, past_deadline: bool) -> (r: Option<ModelRequest>)
        requires
            old(self).wf(),
            old(self).exit_reason is None,
        ensures
            final(self).wf(),
            final(self).gateway == old(self).gateway,
            final(self).run_id == old(self).run_id,
            final(self).run_dir == old(self).run_dir,
            final(self).manifest_path == old(self).manifest_path,
            final(self).prompt_path == old(self).prompt_path,
            final(self).system_prompt == old(self).system_prompt,
            final(self).tools == old(self).tools,
            final(self).user_task@ == old(self).user_task@,
            final(self).history@ == old(self).history@,
            final(self).tool_calls_used == old(self).tool_calls_used,
            final(self).final_answer is None,
            if old(self).turns >= old(self).limit() {
                &&& r is None
                &&& final(self).exit_reason is Some
                &&& final(self).exit_reason->0@ == exhausted_reason()
            } else if past_deadline {
                &&& r is None
                &&& final(self).exit_reason is Some
                &&& final(self).exit_reason->0@ == agent_deadline_reason()
            } else {
                &&& final(self).exit_reason is None
                &&& final(self).turns == old(self).turns + 1
                &&& r matches Some(req) && req.system_prompt@ == old(self).system_prompt@
                    && req.user_task@ == old(self).user_task@ && req.max_steps == old(self).limit()
                    && req.tools@.map_values(|s: ToolSchema| s.name@) == old(self).tools@.map_values(|s: ToolSchema| s.name@)
                    && req.tools@.map_values(|s: ToolSchema| schema_json(s)) == old(self).tools@.map_values(|s: ToolSchema| schema_json(s))
                    && req.history@.len() == old(self).history@.len()
                    && forall|i: int| 0 <= i < req.history@.len() ==>
                        conversation_json(#[trigger] req.history@[i]) == conversation_json(old(self).history@[i])
                        && called_tool_eq(req.history@[i], old(self).history@[i])
            },
    {
        proof {
            assert(self.final_answer is None);
        }
        let limit = self.gateway.policy().max_tool_calls;
        if self.turns >= limit {
            self.exit_reason = Some(owned("max_tool_calls reached without final answer"));
            return None;
        }
        if past_deadline {
            self.exit_reason = Some(owned("deadline exceeded (max_runtime_seconds)"));
            return None;
        }
        self.turns = self.turns + 1;
        let mut tools: Vec<ToolSchema> = Vec::new();
        let mut i: usize = 0;
        while i < self.tools.len()
            invariant
                i <= self.tools.len(),
                tools@.map_values(|s: ToolSchema| s.name@) == self.tools@.take(i as int).map_values(|s: ToolSchema| s.name@),
                tools@.map_values(|s: ToolSchema| schema_json(s)) == self.tools@.take(i as int).map_values(|s: ToolSchema| schema_json(s)),
            decreases self.tools.len() - i,
        {
            let ghost before = tools@;
            let d = self.tools[i].duplicate();
            let ghost dn = d.name@;
            let ghost dj = schema_json(d);
            tools.push(d);
            assert(dn == self.tools@[i as int].name@);
            assert(dj == schema_json(self.tools@[i as int]));
            assert(self.tools@.take(i + 1) =~= self.tools@.take(i as int).push(self.tools@[i as int]));
            assert(tools@.map_values(|s: ToolSchema| s.name@) =~= before.map_values(|s: ToolSchema| s.name@).push(dn));
            assert(tools@.map_values(|s: ToolSchema| s.name@) =~= self.tools@.take(i + 1).map_values(|s: ToolSchema| s.name@));
            assert(tools@.map_values(|s: ToolSchema| schema_json(s)) =~= before.map_values(|s: ToolSchema| schema_json(s)).push(dj));
            assert(tools@.map_values(|s: ToolSchema| schema_json(s)) =~= self.tools@.take(i + 1).map_values(|s: ToolSchema| schema_json(s)));
            i = i + 1;
        }
        assert(self.tools@.take(self.tools.len() as int) =~= self.tools@);
        let mut history: Vec<ConversationEvent> = Vec::new();
        let mut j: usize = 0;
        while j < self.history.len()
            invariant
                j <= self.history.len(),
                history@.len() == j,
                forall|q: int| 0 <= q < j ==> conversation_json(#[trigger] history@[q]) == conversation_json(self.history@[q])
                    && called_tool_eq(history@[q], self.history@[q]),
            decreases self.history.len() - j,
        {
            history.push(self.history[j].duplicate());
            j = j + 1;
        }
        Some(ModelRequest {
            system_prompt: self.system_prompt.clone(),
            user_task: self.user_task.clone(),
            max_steps: limit,
            tools,
            history,
        })
    }

    /// Applies the model's decision: an answer ends the run; a tool call is
    /// counted, added to the history, and handed back to be performed.
    pub fn apply_decision(&mut self, decision: AgentDecision) -> (r: Option<(String, JsonValue)>)
        requires
            old(self).wf(),
            old(self).exit_reason is None,
            old(self).tool_calls_used < old(self).turns,
        ensures
            final(self).wf(),
            final(self).gateway == old(self).gateway,
            final(self).run_id == old(self).run_id,
            final(self).run_dir == old(self).run_dir,
            final(self).manifest_path == old(self).manifest_path,
            final(self).prompt_path == old(self).prompt_path,
            final(self).system_prompt == old(self).system_prompt,
            final(self).tools == old(self).tools,
            final(self).turns == old(self).turns,
            final(self).user_task@ == old(self).user_task@,
            final(self).history@.len() == old(self).history@.len() + 1,
            final(self).history@.take(old(self).history@.len() as int) == old(self).history@,
            match decision@ {
                Decision::Final(content) => {
                    &&& r is None
                    &&& final(self).final_answer matches Some(a) && a@ == content
                    &&& final(self).exit_reason is Some
                    &&& final(self).exit_reason->0@ == answered_reason()
                    &&& final(self).tool_calls_used == old(self).tool_calls_used
                    &&& conversation_json(final(self).history@.last()) == conversation_json(
                        ConversationEvent::FinalAnswer { content: final(self).final_answer->0 },
                    )
                },
                Decision::ToolCall(tool, args) => {
                    &&& r matches Some(call) && call.0@ == tool && call.1@ == args
                    &&& final(self).final_answer == old(self).final_answer
                    &&& final(self).exit_reason is None
                    &&& final(self).tool_calls_used == old(self).tool_calls_used + 1
                    &&& called_tool(final(self).history@.last()) == Some(tool)
                    &&& final(self).history@.last() matches ConversationEvent::ToolCall { args: a, .. } && a@ == args
                },
            },
    {
        let ghost before = self.history@;
        match decision {
            AgentDecision::Final { content } => {
                self.history.push(ConversationEvent::FinalAnswer { content: content.clone() });
                self.final_answer = Some(content);
                self.exit_reason = Some(owned("model returned final answer"));
                assert(self.history@.take(before.len() as int) =~= before);
                None
            },
            AgentDecision::ToolCall { tool, args } => {
                self.tool_calls_used = self.tool_calls_used + 1;
                self.history.push(ConversationEvent::ToolCall { tool: tool.clone(), args: args.duplicate() });
                assert(self.history@.take(before.len() as int) =~= before);
                Some((tool, args))
            },
        }
    }

    /// Records how the tool call went: the history gets the result or the
    /// error text, and the `ToolCall` and `ToolResult` events are given to write.
    pub fn record_tool_result(&mut self, tool: &str, args: &JsonValue, outcome: Result<JsonValue, GatewayError>) -> (r: (AuditEvent, AuditEvent))
        requires
            old(self).wf(),
            old(self).exit_reason is None,
        ensures
            final(self).wf(),
            final(self).gateway == old(self).gateway,
            final(self).run_id == old(self).run_id,
            final(self).run_dir == old(self).run_dir,
            final(self).manifest_path == old(self).manifest_path,
            final(self).prompt_path == old(self).prompt_path,
            final(self).system_prompt == old(self).system_prompt,
            final(self).tools == old(self).tools,
            final(self).turns == old(self).turns,
            final(self).tool_calls_used == old(self).tool_calls_used,
            final(self).final_answer == old(self).final_answer,
            final(self).exit_reason is None,
            final(self).user_task@ == old(self).user_task@,
            final(self).history@.len() == old(self).history@.len() + 1,
            final(self).history@.take(old(self).history@.len() as int) == old(self).history@,
            match (final(self).history@.last(), tool_outcome_view(outcome)) {
                (ConversationEvent::ToolResult { tool: t, result }, Ok(v)) => t@ == tool@ && result@ == v,
                (ConversationEvent::ToolError { tool: t, error }, Err(e)) => t@ == tool@ && error@ == fault_text(e),
                _ => false,
            },
            r.0 matches AuditEvent::ToolCall { run_id, tool: t, args: a, allowed, reason }
                && run_id@ == old(self).run_id@ && t@ == tool@ && a@ == args@
                && allowed == outcome is Ok
                && match (reason, tool_outcome_view(outcome)) {
                    (None, Ok(_)) => true,
                    (Some(m), Err(e)) => m@ == fault_text(e),
                    _ => false,
                },
            r.1 matches AuditEvent::ToolResult { run_id, tool: t, output, error }
                && run_id@ == old(self).run_id@ && t@ == tool@
                && match (output, error, tool_outcome_view(outcome)) {
                    (Some(o), None, Ok(v)) => o@ == v,
                    (None, Some(m), Err(e)) => m@ == fault_text(e),
                    _ => false,
                },
    {
        let ghost before = self.history@;
        let allowed = outcome.is_ok();
        let r = match outcome {
            Ok(out) => {
                let call = AuditEvent::ToolCall {
                    run_id: self.run_id.clone(),
                    tool: owned(tool),
                    args: args.duplicate(),
                    allowed,
                    reason: None,
                };
                let result = AuditEvent::ToolResult {
                    run_id: self.run_id.clone(),
                    tool: owned(tool),
                    output: Some(out.duplicate()),
                    error: None,
                };
                self.history.push(ConversationEvent::ToolResult { tool: owned(tool), result: out });
                (call, result)
            },
            Err(e) => {
                let msg = e.message();
                let call = AuditEvent::ToolCall {
                    run_id: self.run_id.clone(),
                    tool: owned(tool),
                    args: args.duplicate(),
                    allowed,
                    reason: Some(msg.clone()),
                };
                let result = AuditEvent::ToolResult {
                    run_id: self.run_id.clone(),
                    tool: owned(tool),
                    output: None,
                    error: Some(msg.clone()),
                };
                self.history.push(ConversationEvent::ToolError { tool: owned(tool), error: msg });
                (call, result)
            },
        };
        assert(self.history@.take(before.len() as int) =~= before);
        r
    }

    /// Ends a stopped run: the outcome, the `RunEnd` event, and the
    /// conversation trace.
    pub fn finish(self) -> (r: (AgentRunOutcome, AuditEvent, JsonValue))
        requires
            self.exit_reason is Some,
        ensures
            r.0.run_id@ == self.run_id@,
            r.0.run_dir@ == self.run_dir@,
            r.0.exit_reason@ == self.exit_reason->0@,
            r.0.tool_calls_used == self.tool_calls_used,
            match (r.0.final_answer, self.final_answer) {
                (Some(a), Some(b)) => a@ == b@,
                (None, None) => true,
                _ => false,
            },
            r.1 matches AuditEvent::RunEnd { run_id, exit_reason, tool_calls_used }
                && run_id@ == self.run_id@ && exit_reason@ == self.exit_reason->0@
                && tool_calls_used == self.tool_calls_used,
            r.2@ == trace_json(self),
    {
        let exit_reason = match &self.exit_reason {
            Some(e) => e.clone(),
            None => String::new(),
        };
        let end = AuditEvent::RunEnd {
            run_id: self.run_id.clone(),
            exit_reason: exit_reason.clone(),
            tool_calls_used: self.tool_calls_used,
        };
        let trace = trace_value(&self);
        let final_answer = match &self.final_answer {
            Some(a) => Some(a.clone()),
            None => None,
        };
        let outcome = AgentRunOutcome {
            run_id: self.run_id,
            run_dir: self.run_dir,
            exit_reason,
            tool_calls_used: self.tool_calls_used,
            final_answer,
        };
        (outcome, end, trace)
    }
}

/// Two history entries are about the same call (if any).
pub open spec fn called_tool_eq(a: ConversationEvent, b: ConversationEvent) -> bool {
    called_tool(a) == called_tool(b) && (a is ToolCall <==> b is ToolCall)
}

/// The conversation trace saved at the end of an agent run.
pub open spec fn trace_json(s: AgentSession) -> Json {
    Json::Object(
        seq![
            ("exit_reason"@, Json::Str(s.exit_reason->0@)),
            ("final_answer"@, crate::audit::opt_json(s.final_answer)),
            ("history"@, Json::Array(s.history@.map_values(|e: ConversationEvent| conversation_json(e)))),
            ("manifest"@, Json::Str(s.manifest_path@)),
            ("prompt"@, Json::Str(s.prompt_path@)),
            ("run_id"@, Json::Str(s.run_id@)),
            ("tools"@, Json::Array(s.tools@.map_values(|t: ToolSchema| schema_json(t)))),
            ("user_task"@, Json::Str(s.user_task@)),
        ],
    )
}

fn trace_value(s: &AgentSession) -> (r: JsonValue)
    requires
        s.exit_reason is Some,
    ensures
        r@ == trace_json(*s),
{
    let mut hist: Vec<JsonValue> = Vec::new();
    let mut i: usize = 0;
    while i < s.history.len()
        invariant
            i <= s.history.len(),
            hist@.len() == i,
            forall|j: int| 0 <= j < i ==> #[trigger] hist@[j]@ == conversation_json(s.history@[j]),
        decreases s.history.len() - i,
    {
        hist.push(s.history[i].to_json());
        i = i + 1;
    }
    let harr = array_of(hist);
    assert(harr@->Array_0 =~= s.history@.map_values(|e: ConversationEvent| conversation_json(e)));
    let mut tools: Vec<JsonValue> = Vec::new();
    let mut k: usize = 0;
    while k < s.tools.len()
        invariant
            k <= s.tools.len(),
            tools@.len() == k,
            forall|j: int| 0 <= j < k ==> #[trigger] tools@[j]@ == schema_json(s.tools@[j]),
        decreases s.tools.len() - k,
    {
        tools.push(s.tools[k].to_json());
        k = k + 1;
    }
    let tarr = array_of(tools);
    assert(tarr@->Array_0 =~= s.tools@.map_values(|t: ToolSchema| schema_json(t)));
    let exit = match &s.exit_reason {
        Some(e) => e.clone(),
        None => String::new(),
    };
    let mut b = ObjectBuilder::new();
    b.add("exit_reason", JsonValue::Str(exit));
    b.add("final_answer", JsonValue::opt_string(&s.final_answer));
    b.add("history", harr);
    b.add("manifest", JsonValue::Str(s.manifest_path.clone()));
    b.add("prompt", JsonValue::Str(s.prompt_path.clone()));
    b.add("run_id", JsonValue::Str(s.run_id.clone()));
    b.add("tools", tarr);
    b.add("user_task", JsonValue::Str(s.user_task.clone()));
    assert(b.members() =~= trace_json(*s)->Object_0);
    b.build()
}

} // verus!
