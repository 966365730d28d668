use agent_runtime::app_state::{policy_preview_text, RuntimeApp, WorkerPoll};
use agent_runtime::audit::AuditEvent;
use agent_runtime::json::{JsonValue, ObjectBuilder};
use agent_runtime::manifest::{
    default_max_memory_mb, default_max_runtime, default_max_tool_calls, AgentManifest, Capabilities,
    CommandsCaps, FilesystemCaps, Limits, OutputSpec, Role,
};
use agent_runtime::model::{
    count_calls, AgentDecision, ConversationEvent, MockModelClient, ModelClient, ModelError, ModelRequest,
};
use agent_runtime::policy::{CompiledPolicy, FsSnapshot, PathFacts};
use agent_runtime::runner::{run_summary, RunSession, StepResult, TaskFile, TaskStep};
use agent_runtime::sandbox::Sandbox;
use agent_runtime::session::{schema_for_tool, schemas_from_policy, AgentSession};
use agent_runtime::tool_output::tail_log_output;
use agent_runtime::tools::{GatewayError, ToolAction};


/// Compact JSON text of a library value, written by serde_json.
trait Text {
    fn to_text(&self) -> String;
}

fn serde_of(v: &JsonValue) -> serde_json::Value {
    match v {
        JsonValue::Null => serde_json::Value::Null,
        JsonValue::Bool(b) => serde_json::Value::Bool(*b),
        JsonValue::UInt(n) => serde_json::Value::from(*n),
        JsonValue::NegInt(n) => serde_json::Value::from(*n),
        JsonValue::Decimal(t) => serde_json::Value::Number(t.parse().unwrap()),
        JsonValue::Str(s) => serde_json::Value::String(s.clone()),
        JsonValue::Array(items) => serde_json::Value::Array(items.iter().map(serde_of).collect()),
        JsonValue::Object(fields) => {
            serde_json::Value::Object(fields.iter().map(|(k, x)| (k.clone(), serde_of(x))).collect())
        }
    }
}

impl Text for JsonValue {
    fn to_text(&self) -> String {
        serde_json::to_string(&serde_of(self)).unwrap()
    }
}

fn s(x: &str) -> String {
    x.to_string()
}

fn obj(members: Vec<(&str, JsonValue)>) -> JsonValue {
    let mut b = ObjectBuilder::new();
    for (k, v) in members {
        b.add(k, v);
    }
    b.build()
}

fn manifest(tools: &[&str], read: &[&str], max_tool_calls: u32) -> AgentManifest {
    AgentManifest {
        name: s("int"),
        description: String::new(),
        role: Role { mission: s("test"), non_goals: vec![] },
        capabilities: Capabilities {
            tools: tools.iter().map(|t| s(t)).collect(),
            filesystem: FilesystemCaps { read: read.iter().map(|t| s(t)).collect(), write: vec![] },
            commands: CommandsCaps::default(),
            network: false,
            git: false,
        },
        limits: Limits { max_runtime_seconds: 30, max_memory_mb: 64, max_tool_calls },
        output: OutputSpec::default(),
    }
}

fn is_run_id(id: &str) -> bool {
    id.len() == 36
        && id.chars().enumerate().all(|(i, c)| {
            if [8, 13, 18, 23].contains(&i) {
                c == '-'
            } else {
                c.is_ascii_digit() || ('a'..='f').contains(&c)
            }
        })
        && id.as_bytes()[14] == b'4'
}

fn tail_task(path: &str, n: usize) -> TaskFile {
    TaskFile {
        description: String::new(),
        steps: (0..n)
            .map(|_| TaskStep { tool: s("tail_log"), args: obj(vec![("lines", JsonValue::UInt(5)), ("path", JsonValue::string(path))]) })
            .collect(),
    }
}

fn log_fs() -> FsSnapshot {
    let mut fs = FsSnapshot::new("/");
    fs.record(PathFacts { path: s("/b/logs"), canonical: Some(s("/b/logs")), is_dir: true, is_file: false, size: 0 });
    fs.record(PathFacts { path: s("/b/logs/a.log"), canonical: Some(s("/b/logs/a.log")), is_dir: false, is_file: true, size: 5 });
    fs
}

// ---------------------------------------------------------------- scripted runs

#[test]
fn runner_writes_audit_and_summary() {
    let m = manifest(&["tail_log"], &["/b/logs"], 10);
    let task = tail_task("/b/logs/a.log", 1);
    let (mut run, sandbox, start) = RunSession::start(&m, "/b/m.yaml", "/b/task.json", "/b/runs");
    assert!(is_run_id(&run.run_id), "{}", run.run_id);
    assert_eq!(sandbox.run_root, format!("/b/runs/{}", run.run_id));
    assert_eq!(sandbox.work_dir, format!("/b/runs/{}/workspace", run.run_id));
    assert_eq!(sandbox.temp_dir, format!("/b/runs/{}/tmp", run.run_id));
    assert_eq!(run.run_dir, sandbox.run_root);
    assert_eq!(
        start.to_json().to_text(),
        format!(
            "{{\"agent_name\":\"int\",\"kind\":\"run_start\",\"manifest_path\":\"/b/m.yaml\",\"run_id\":\"{}\",\"task_path\":\"/b/task.json\"}}",
            run.run_id
        )
    );

    let i = run.next_step(&task, false).expect("a step to take");
    assert_eq!(i, 0);
    let action = run.gateway.invoke(&task.steps[i].tool, &task.steps[i].args, &log_fs());
    let lines = match action {
        Ok(ToolAction::TailFile { path, lines }) => {
            assert_eq!(path, "/b/logs/a.log");
            lines
        }
        other => panic!("{other:?}"),
    };
    let output = tail_log_output("/b/logs/a.log", "line\n", lines);
    let (call, result) = run.record_result(&task, i, Ok(output));
    assert_eq!(
        call.to_json().to_text(),
        format!(
            "{{\"allowed\":true,\"args\":{{\"lines\":5,\"path\":\"/b/logs/a.log\"}},\"kind\":\"tool_call\",\"run_id\":\"{}\",\"tool\":\"tail_log\"}}",
            run.run_id
        )
    );
    assert_eq!(
        result.to_json().to_text(),
        format!(
            "{{\"kind\":\"tool_result\",\"output\":{{\"line_count\":1,\"lines\":[\"line\"],\"path\":\"/b/logs/a.log\"}},\"run_id\":\"{}\",\"tool\":\"tail_log\"}}",
            run.run_id
        )
    );
    assert_eq!(run.next_step(&task, false), None);
    let id = run.run_id.clone();
    let (outcome, end, summary) = run.finish();
    assert!(outcome.results[0].ok);
    assert_eq!(outcome.exit_reason, "completed all steps");
    assert_eq!(outcome.tool_calls_used, 1);
    assert_eq!(
        end.to_json().to_text(),
        format!("{{\"exit_reason\":\"completed all steps\",\"kind\":\"run_end\",\"run_id\":\"{id}\",\"tool_calls_used\":1}}")
    );
    assert_eq!(
        summary.to_text(),
        format!(
            "{{\"exit_reason\":\"completed all steps\",\"run_id\":\"{id}\",\"steps\":[{{\"error\":null,\"ok\":true,\"tool\":\"tail_log\"}}],\"tool_calls_used\":1}}"
        )
    );
}

#[test]
fn runner_stops_at_the_tool_call_limit() {
    let m = manifest(&["tail_log"], &["/b/logs"], 1);
    let task = tail_task("/b/logs/a.log", 2);
    let (mut run, _sandbox, _start) = RunSession::start(&m, "m", "t", "runs");
    let i = run.next_step(&task, false).unwrap();
    run.record_result(&task, i, Ok(JsonValue::Null));
    assert_eq!(run.next_step(&task, false), None);
    assert_eq!(run.exit_reason.as_deref(), Some("max_tool_calls exceeded"));
    let (outcome, _end, _summary) = run.finish();
    assert_eq!(outcome.tool_calls_used, 1);
    assert_eq!(outcome.results.len(), 1);
}

#[test]
fn runner_stops_at_the_deadline() {
    let m = manifest(&["tail_log"], &["/b/logs"], 5);
    let task = tail_task("/b/logs/a.log", 1);
    let (mut run, _sandbox, _start) = RunSession::start(&m, "m", "t", "runs");
    assert_eq!(run.next_step(&task, true), None);
    assert_eq!(run.exit_reason.as_deref(), Some("deadline exceeded (max_runtime_seconds)"));
    let (outcome, _end, summary) = run.finish();
    assert_eq!(outcome.tool_calls_used, 0);
    assert!(summary.to_text().contains("\"steps\":[]"));
}

#[test]
fn runner_records_denied_steps() {
    let m = manifest(&["read_log"], &["/b/logs"], 5);
    let task = TaskFile {
        description: s("denied"),
        steps: vec![TaskStep { tool: s("read_log"), args: obj(vec![("path", JsonValue::string("/etc/hosts"))]) }],
    };
    let (mut run, _sandbox, _start) = RunSession::start(&m, "m", "t", "runs");
    let i = run.next_step(&task, false).unwrap();
    let decision = run.gateway.invoke(&task.steps[i].tool, &task.steps[i].args, &FsSnapshot::new("/"));
    let err = match decision {
        Err(e) => e,
        Ok(a) => panic!("{a:?}"),
    };
    let (call, result) = run.record_result(&task, i, Err(err));
    let id = run.run_id.clone();
    assert_eq!(
        call.to_json().to_text(),
        format!(
            "{{\"allowed\":false,\"args\":{{\"path\":\"/etc/hosts\"}},\"kind\":\"tool_call\",\"reason\":\"path not allowed for read: /etc/hosts\",\"run_id\":\"{id}\",\"tool\":\"read_log\"}}"
        )
    );
    assert_eq!(
        result.to_json().to_text(),
        format!(
            "{{\"error\":\"path not allowed for read: /etc/hosts\",\"kind\":\"tool_result\",\"run_id\":\"{id}\",\"tool\":\"read_log\"}}"
        )
    );
    assert_eq!(run.results[0].error.as_deref(), Some("path not allowed for read: /etc/hosts"));
    assert!(!run.results[0].ok);
}

#[test]
fn summary_lists_each_step() {
    let results = vec![
        StepResult { tool: s("a"), ok: true, output: Some(JsonValue::Null), error: None },
        StepResult { tool: s("b"), ok: false, output: None, error: Some(s("no")) },
    ];
    assert_eq!(
        run_summary("r", "done", 2, &results).to_text(),
        "{\"exit_reason\":\"done\",\"run_id\":\"r\",\"steps\":[{\"error\":null,\"ok\":true,\"tool\":\"a\"},{\"error\":\"no\",\"ok\":false,\"tool\":\"b\"}],\"tool_calls_used\":2}"
    );
}

// ---------------------------------------------------------------- audit records

#[test]
fn audit_records_carry_time_and_event() {
    let ev = AuditEvent::RunEnd { run_id: s("r"), exit_reason: s("done"), tool_calls_used: 3 };
    assert_eq!(
        ev.record_at("T").to_text(),
        "{\"event\":{\"exit_reason\":\"done\",\"kind\":\"run_end\",\"run_id\":\"r\",\"tool_calls_used\":3},\"ts\":\"T\"}"
    );
    assert_eq!(ev.run_id(), "r");
    let stamped = ev.record();
    let ts = stamped.str_at("ts").expect("a time stamp");
    let b: Vec<char> = ts.chars().collect();
    let n = b.len();
    assert!(n >= 24, "{ts}");
    assert_eq!((b[n - 1], b[n - 5], b[n - 8], b[n - 11], b[n - 14], b[n - 17], b[n - 20]), ('Z', '.', ':', ':', 'T', '-', '-'));
    assert_eq!(stamped.get("event").unwrap().to_text(), ev.to_json().to_text());
}

// ---------------------------------------------------------------- sandbox

#[test]
fn sandbox_layout_and_manifest_copy() {
    let sb = Sandbox::create("runs", "abc");
    assert_eq!(sb.run_root, "runs/abc");
    assert_eq!(sb.work_dir, "runs/abc/workspace");
    assert_eq!(sb.temp_dir, "runs/abc/tmp");
    assert_eq!(sb.copy_manifest("agents/log-watcher.yaml"), "runs/abc/manifest-used-log-watcher.yaml");
    assert_eq!(sb.copy_manifest("/"), "runs/abc/manifest-used-manifest.yaml");
}

// ---------------------------------------------------------------- manifest defaults

#[test]
fn manifest_defaults() {
    assert_eq!(default_max_runtime(), 30);
    assert_eq!(default_max_memory_mb(), 256);
    assert_eq!(default_max_tool_calls(), 50);
    let l = Limits::default();
    assert_eq!((l.max_runtime_seconds, l.max_memory_mb, l.max_tool_calls), (0, 0, 0));
    let c = Capabilities::default();
    assert!(c.tools.is_empty() && c.filesystem.read.is_empty() && c.commands.allow.is_empty());
    assert!(!c.network && !c.git);
    assert_eq!(OutputSpec::default().schema.to_text(), "null");
    assert!(Role::default().mission.is_empty());
}

// ---------------------------------------------------------------- agent sessions

#[test]
fn schemas_follow_the_policy() {
    let p = CompiledPolicy::compile(&manifest(&["tail_log", "bogus", "read_log"], &[], 3));
    let names: Vec<String> = schemas_from_policy(&p).iter().map(|t| t.name.clone()).collect();
    assert_eq!(names, vec![s("read_log"), s("tail_log")]);
    assert!(schema_for_tool("bogus").is_none());
    let read = schema_for_tool("read_log").unwrap();
    assert_eq!(read.description, "Read a small allowed file as text");
    assert_eq!(
        read.input_schema.to_text(),
        "{\"properties\":{\"path\":{\"type\":\"string\"}},\"required\":[\"path\"],\"type\":\"object\"}"
    );
    assert_eq!(
        read.to_json().to_text(),
        "{\"description\":\"Read a small allowed file as text\",\"input_schema\":{\"properties\":{\"path\":{\"type\":\"string\"}},\"required\":[\"path\"],\"type\":\"object\"},\"name\":\"read_log\"}"
    );
}

fn drive(session: &mut AgentSession) -> Vec<String> {
    let mock = MockModelClient;
    let mut called = Vec::new();
    while let Some(req) = session.next_request(false) {
        let decision = match mock.decide(&req) {
            Ok(d) => d,
            Err(e) => panic!("{}", e.message()),
        };
        match session.apply_decision(decision) {
            Some((tool, args)) => {
                called.push(tool.clone());
                session.record_tool_result(&tool, &args, Ok(obj(vec![("ok", JsonValue::Bool(true))])));
            }
            None => break,
        }
    }
    called
}

#[test]
fn mock_agent_calls_each_offered_log_tool_once_then_answers() {
    let m = manifest(&["list_logs", "tail_log", "grep_log", "read_log"], &["testdata/logs"], 10);
    let (mut session, sandbox, start) = AgentSession::start(&m, "m.yaml", "p.md", "sys", "inspect logs", "runs");
    assert!(is_run_id(&session.run_id));
    assert_eq!(session.run_dir, sandbox.run_root);
    let names: Vec<String> = session.tools.iter().map(|t| t.name.clone()).collect();
    assert_eq!(names, vec![s("grep_log"), s("list_logs"), s("read_log"), s("tail_log")]);
    assert!(start.to_json().to_text().contains("\"task_path\":\"agent-task: inspect logs\""));
    let called = drive(&mut session);
    assert_eq!(called, vec![s("list_logs"), s("tail_log"), s("grep_log")]);
    assert_eq!(session.turns, 4);
    assert_eq!(count_calls(&session.history), 3);
    let (outcome, end, trace) = session.finish();
    assert_eq!(outcome.exit_reason, "model returned final answer");
    assert_eq!(outcome.final_answer.as_deref(), Some("Mock agent finished 'inspect logs' in 3 step(s)."));
    assert_eq!(outcome.tool_calls_used, 3);
    assert!(end.to_json().to_text().contains("\"tool_calls_used\":3"));
    let t = trace.to_text();
    assert!(t.starts_with("{\"exit_reason\":\"model returned final answer\",\"final_answer\":\"Mock agent finished 'inspect logs' in 3 step(s).\",\"history\":[{\"content\":\"inspect logs\",\"type\":\"user_task\"},{\"args\":{\"directory\":\"testdata/logs\"},\"tool\":\"list_logs\",\"type\":\"tool_call\"}"), "{t}");
    assert!(t.contains("\"manifest\":\"m.yaml\",\"prompt\":\"p.md\""));
}

#[test]
fn agent_run_stops_when_turns_run_out() {
    let m = manifest(&["list_logs", "tail_log", "grep_log"], &[], 2);
    let (mut session, _sandbox, _start) = AgentSession::start(&m, "m", "p", "sys", "t", "runs");
    let called = drive(&mut session);
    assert_eq!(called, vec![s("list_logs"), s("tail_log")]);
    assert_eq!(session.exit_reason.as_deref(), Some("max_tool_calls reached without final answer"));
    let (outcome, _end, _trace) = session.finish();
    assert_eq!(outcome.final_answer, None);
    assert_eq!(outcome.tool_calls_used, 2);
}

#[test]
fn agent_run_stops_at_the_deadline() {
    let m = manifest(&["list_logs"], &[], 5);
    let (mut session, _sandbox, _start) = AgentSession::start(&m, "m", "p", "sys", "t", "runs");
    assert!(session.next_request(true).is_none());
    assert_eq!(session.exit_reason.as_deref(), Some("deadline exceeded (max_runtime_seconds)"));
}

#[test]
fn agent_records_tool_errors_in_history() {
    let m = manifest(&["read_log"], &[], 5);
    let (mut session, _sandbox, _start) = AgentSession::start(&m, "m", "p", "sys", "t", "runs");
    let req = session.next_request(false).unwrap();
    assert_eq!(req.max_steps, 5);
    let (tool, args) = session
        .apply_decision(AgentDecision::ToolCall { tool: s("read_log"), args: obj(vec![("path", JsonValue::string("/x"))]) })
        .unwrap();
    let (call, result) = session.record_tool_result(&tool, &args, Err(GatewayError::PathReadDenied(s("/x"))));
    assert!(call.to_json().to_text().contains("\"allowed\":false"));
    assert!(result.to_json().to_text().contains("\"error\":\"path not allowed for read: /x\""));
    match session.history.last().unwrap() {
        ConversationEvent::ToolError { tool, error } => {
            assert_eq!(tool, "read_log");
            assert_eq!(error, "path not allowed for read: /x");
        }
        _ => panic!("expected a tool error"),
    }
}

#[test]
fn mock_answers_when_nothing_is_offered() {
    let req = ModelRequest {
        system_prompt: s(""),
        user_task: s("job"),
        max_steps: 3,
        tools: vec![],
        history: vec![ConversationEvent::UserTask { content: s("job") }],
    };
    match MockModelClient.decide(&req) {
        Ok(AgentDecision::Final { content }) => assert_eq!(content, "Mock agent finished 'job' in 0 step(s)."),
        _ => panic!("expected an answer"),
    }
    assert_eq!(ModelError::Backend(s("down")).message(), "model backend error: down");
}

// ---------------------------------------------------------------- front-end state

#[test]
fn policy_preview_lists_the_compiled_policy() {
    let mut m = manifest(&["list_logs", "read_log", "list_logs"], &["/tmp/a"], 5);
    m.name = s("t");
    m.role.mission = s("x");
    m.limits.max_runtime_seconds = 10;
    let p = CompiledPolicy::compile(&m);
    assert_eq!(
        policy_preview_text(&m, &p),
        "Agent: t\nRole (informational only): x\nAllowed tools: [\"list_logs\", \"read_log\"]\nRead paths: [\"/tmp/a\"]\nWrite paths: []\nAllowed commands: []\nnetwork: false  |  git: false\nLimits: 10s runtime, 64 MB, 5 tool calls max"
    );
    let mut app = RuntimeApp::new("m.yaml", "t.json", "runs");
    assert_eq!(app.status, "Pick a manifest and task, then click Run workflow.");
    app.refresh_policy_preview(Ok(&m));
    assert_eq!(app.policy_preview, policy_preview_text(&m, &p));
    app.refresh_policy_preview(Err("no such file"));
    assert_eq!(app.policy_preview, "Could not load manifest:\nno such file");
}

#[test]
fn worker_polls_update_the_status() {
    let mut app = RuntimeApp::new("m", "t", "r");
    app.poll_worker(WorkerPoll::Finished(Ok(s("ignored"))));
    assert_eq!(app.run_log, "");
    app.start_run();
    assert!(app.running && app.waiting);
    assert_eq!(app.status, "Running…");
    app.poll_worker(WorkerPoll::Empty);
    assert!(app.running);
    app.poll_worker(WorkerPoll::Finished(Ok(s("report"))));
    assert_eq!((app.status.as_str(), app.run_log.as_str(), app.running, app.waiting), ("Finished.", "report", false, false));
    app.start_run();
    app.poll_worker(WorkerPoll::Finished(Err(s("boom"))));
    assert_eq!((app.status.as_str(), app.run_log.as_str()), ("Run failed.", "boom"));
    app.start_run();
    app.poll_worker(WorkerPoll::Disconnected);
    assert_eq!(app.status, "Worker stopped unexpectedly.");
    assert!(!app.running && !app.waiting);
}
