use agent_runtime::audit::AuditEvent;
use agent_runtime::json::{array_of, parse_json, JsonValue, ObjectBuilder};
use agent_runtime::manifest::{
    AgentManifest, Capabilities, CommandsCaps, FilesystemCaps, Limits, OutputSpec, Role,
};
use agent_runtime::policy::{CompiledPolicy, FsSnapshot, PathFacts};
use agent_runtime::report::{
    compact_summary, format_human_run_report, format_human_run_report_text, humanize_tool_output,
};
use agent_runtime::text::{
    chars_of, contains_chars, decimal_string, split_chars, split_lines, take_chars, trim_chars,
};
use agent_runtime::tool_output::{
    git_status_output, grep_dir_output, grep_file_output, list_logs_output, read_log_output,
    run_tests_output, tail_log_output, DirEntryInfo, DirWalk, SearchedFile, WalkEntry,
};


/// Compact JSON text of a library value, written by serde_json.
trait Text {
    fn to_text(&self) -> String;
}

fn serde_of(v: &JsonValue) -> serde_json::Value {
    match v {
        JsonValue::Null => serde_json::Value::Null,
        JsonValue::Bool(b) => serde_json::Value::Bool(*b),
        JsonValue::UInt(n) => serde_json::Value::from(*n),
        JsonValue::NegInt(n) => serde_json::Value::from(*n),
        JsonValue::Decimal(t) => serde_json::Value::Number(t.parse().unwrap()),
        JsonValue::Str(s) => serde_json::Value::String(s.clone()),
        JsonValue::Array(items) => serde_json::Value::Array(items.iter().map(serde_of).collect()),
        JsonValue::Object(fields) => {
            serde_json::Value::Object(fields.iter().map(|(k, x)| (k.clone(), serde_of(x))).collect())
        }
    }
}

impl Text for JsonValue {
    fn to_text(&self) -> String {
        serde_json::to_string(&serde_of(self)).unwrap()
    }
}

fn obj(members: Vec<(&str, JsonValue)>) -> JsonValue {
    let mut b = ObjectBuilder::new();
    for (k, v) in members {
        b.add(k, v);
    }
    b.build()
}

fn entry(name: &str, is_file: bool, is_dir: bool) -> DirEntryInfo {
    DirEntryInfo { name: name.to_string(), is_file, is_dir }
}

fn chars(s: &str) -> String {
    s.to_string()
}

// ---------------------------------------------------------------- JSON text

#[test]
fn json_scalars_render_compactly() {
    assert_eq!(JsonValue::Null.to_text(), "null");
    assert_eq!(JsonValue::Bool(true).to_text(), "true");
    assert_eq!(JsonValue::Bool(false).to_text(), "false");
    assert_eq!(JsonValue::UInt(0).to_text(), "0");
    assert_eq!(JsonValue::UInt(18446744073709551615).to_text(), "18446744073709551615");
    assert_eq!(JsonValue::NegInt(-42).to_text(), "-42");
    assert_eq!(JsonValue::NegInt(i64::MIN).to_text(), "-9223372036854775808");
    assert_eq!(JsonValue::Decimal("1.5".to_string()).to_text(), "1.5");
}

#[test]
fn json_strings_are_escaped() {
    assert_eq!(JsonValue::string("plain").to_text(), "\"plain\"");
    assert_eq!(
        JsonValue::string("a\"b\\c\n\t\r\u{8}\u{c}\u{1}\u{1f}é").to_text(),
        "\"a\\\"b\\\\c\\n\\t\\r\\b\\f\\u0001\\u001fé\""
    );
}

#[test]
fn json_objects_render_in_key_order() {
    let v = obj(vec![
        ("b", JsonValue::UInt(1)),
        ("a", array_of(vec![JsonValue::Null, JsonValue::string("x"), obj(vec![])])),
    ]);
    assert_eq!(v.to_text(), "{\"a\":[null,\"x\",{}],\"b\":1}");
    assert_eq!(v.duplicate().to_text(), v.to_text());
}

#[test]
fn json_lookups() {
    let v = obj(vec![("k", JsonValue::string("v")), ("n", JsonValue::UInt(3))]);
    assert_eq!(v.str_at("k"), Some("v".to_string()));
    assert_eq!(v.get("n").and_then(|x| x.as_u64()), Some(3));
    assert!(v.get("missing").is_none());
    assert_eq!(JsonValue::NegInt(-5).as_i64(), Some(-5));
    assert_eq!(JsonValue::UInt(5).as_i64(), Some(5));
    assert_eq!(JsonValue::UInt(u64::MAX).as_i64(), None);
    assert_eq!(JsonValue::Bool(true).as_bool(), Some(true));
    assert!(JsonValue::string("x").as_array().is_none());
    assert_eq!(JsonValue::opt_string(&None).to_text(), "null");
    assert_eq!(JsonValue::opt_string(&Some("s".to_string())).to_text(), "\"s\"");
}

// ---------------------------------------------------------------- text helpers

#[test]
fn text_helpers() {
    assert_eq!(decimal_string(0), "0");
    assert_eq!(decimal_string(12345), "12345");
    let ls: Vec<String> = split_lines(&chars_of("a\nb\r\n\nc")).iter().map(|l| l.iter().collect()).collect();
    assert_eq!(ls, vec!["a", "b", "", "c"]);
    assert!(split_lines(&chars_of("")).is_empty());
    assert_eq!(split_lines(&chars_of("x\n")).len(), 1);
    let parts: Vec<String> = split_chars(&chars_of("/a//b"), '/').iter().map(|l| l.iter().collect()).collect();
    assert_eq!(parts, vec!["", "a", "", "b"]);
    assert_eq!(trim_chars(&chars_of("  x y \n")).iter().collect::<String>(), "x y");
    assert_eq!(take_chars(&chars_of("héllo"), 2).iter().collect::<String>(), "hé");
    assert!(contains_chars(&chars_of("an ERROR here"), &chars_of("ERROR")));
    assert!(!contains_chars(&chars_of("an error"), &chars_of("ERROR")));
    assert!(contains_chars(&chars_of("x"), &chars_of("")));
}

// ---------------------------------------------------------------- tool outputs

#[test]
fn list_logs_output_shape() {
    let v = list_logs_output("/d", &vec![entry("a.log", true, false), entry("sub", false, true)]);
    assert_eq!(
        v.to_text(),
        "{\"directory\":\"/d\",\"entries\":[{\"is_dir\":false,\"is_file\":true,\"name\":\"a.log\"},{\"is_dir\":true,\"is_file\":false,\"name\":\"sub\"}]}"
    );
}

#[test]
fn read_log_output_shape() {
    assert_eq!(read_log_output("p", "hi").to_text(), "{\"content\":\"hi\",\"path\":\"p\"}");
}

#[test]
fn tail_log_output_keeps_last_lines() {
    assert_eq!(
        tail_log_output("p", "a\nb\r\nc\n", 2).to_text(),
        "{\"line_count\":2,\"lines\":[\"b\",\"c\"],\"path\":\"p\"}"
    );
    assert_eq!(
        tail_log_output("p", "a\nb\r\nc\n", 10).to_text(),
        "{\"line_count\":3,\"lines\":[\"a\",\"b\",\"c\"],\"path\":\"p\"}"
    );
    assert_eq!(tail_log_output("p", "", 5).to_text(), "{\"line_count\":0,\"lines\":[],\"path\":\"p\"}");
    assert_eq!(tail_log_output("p", "a\nb", 0).to_text(), "{\"line_count\":0,\"lines\":[],\"path\":\"p\"}");
}

#[test]
fn grep_file_output_numbers_lines_from_one() {
    assert_eq!(
        grep_file_output("p", "ERR", "ok\nERR one\nfine\nERR two").to_text(),
        "{\"matches\":[{\"line\":2,\"text\":\"ERR one\"},{\"line\":4,\"text\":\"ERR two\"}],\"path\":\"p\",\"pattern\":\"ERR\"}"
    );
    assert_eq!(
        grep_file_output("p", "zzz", "a\nb").to_text(),
        "{\"matches\":[],\"path\":\"p\",\"pattern\":\"zzz\"}"
    );
}

#[test]
fn grep_dir_output_names_files() {
    let files = vec![
        SearchedFile { path: chars("/a"), text: chars("x1\ny") },
        SearchedFile { path: chars("/b"), text: chars("zx") },
    ];
    assert_eq!(
        grep_dir_output("x", &files).to_text(),
        "{\"matches\":[{\"file\":\"/a\",\"line\":1,\"text\":\"x1\"},{\"file\":\"/b\",\"line\":1,\"text\":\"zx\"}],\"pattern\":\"x\"}"
    );
}

#[test]
fn process_outputs() {
    assert_eq!(
        run_tests_output("/bin/true", "/w", &vec![chars("-q")], Some(0), "out", "").to_text(),
        "{\"args\":[\"-q\"],\"command\":\"/bin/true\",\"status\":0,\"stderr\":\"\",\"stdout\":\"out\",\"working_directory\":\"/w\"}"
    );
    assert_eq!(
        run_tests_output("/c", "/w", &vec![], Some(-1), "", "e").to_text(),
        "{\"args\":[],\"command\":\"/c\",\"status\":-1,\"stderr\":\"e\",\"stdout\":\"\",\"working_directory\":\"/w\"}"
    );
    assert_eq!(
        git_status_output("/w", None, "", "fatal").to_text(),
        "{\"status\":null,\"stderr\":\"fatal\",\"stdout\":\"\",\"working_directory\":\"/w\"}"
    );
    assert_eq!(
        git_status_output("/w", Some(128), "", "").to_text(),
        "{\"status\":128,\"stderr\":\"\",\"stdout\":\"\",\"working_directory\":\"/w\"}"
    );
}

fn walk_policy() -> CompiledPolicy {
    CompiledPolicy::compile(&AgentManifest {
        name: chars("w"),
        description: String::new(),
        role: Role::default(),
        capabilities: Capabilities {
            tools: vec![chars("grep_log")],
            filesystem: FilesystemCaps { read: vec![chars("/logs")], write: vec![] },
            commands: CommandsCaps::default(),
            network: false,
            git: false,
        },
        limits: Limits::default(),
        output: OutputSpec::default(),
    })
}

fn walk_fs() -> FsSnapshot {
    let mut fs = FsSnapshot::new("/");
    for (p, c) in [
        ("/logs", "/logs"),
        ("/logs/sub", "/logs/sub"),
        ("/logs/escape", "/etc"),
        ("/logs/a.log", "/logs/a.log"),
        ("/logs/evil.log", "/etc/shadow"),
    ] {
        fs.record(PathFacts { path: chars(p), canonical: Some(chars(c)), is_dir: false, is_file: false, size: 0 });
    }
    fs
}

fn walk_entry(path: &str, is_dir: bool, is_file: bool) -> WalkEntry {
    WalkEntry { path: chars(path), is_dir, is_file }
}

#[test]
fn directory_walk_keeps_only_readable_files() {
    let policy = walk_policy();
    let fs = walk_fs();
    let mut w = DirWalk::new("/logs");
    assert_eq!(w.next_dir(&policy, &fs), Some(chars("/logs")));
    w.add_entries(
        &policy,
        &fs,
        &vec![
            walk_entry("/logs/sub", true, false),
            walk_entry("/logs/a.log", false, true),
            walk_entry("/logs/evil.log", false, true),
            walk_entry("/logs/escape", true, false),
            walk_entry("/logs/fifo", false, false),
        ],
    );
    assert_eq!(w.pending, vec![chars("/logs/sub"), chars("/logs/escape")]);
    assert_eq!(w.next_dir(&policy, &fs), Some(chars("/logs/sub")));
    w.add_entries(&policy, &fs, &vec![walk_entry("/logs/sub/b.log", false, true)]);
    assert_eq!(w.next_dir(&policy, &fs), None);
    assert_eq!(w.files, vec![chars("/logs/a.log"), chars("/logs/sub/b.log")]);
}

// ---------------------------------------------------------------- humanized output

#[test]
fn humanize_list_logs() {
    let out = list_logs_output("/d", &vec![entry("a.log", true, false), entry("sub", false, true)]);
    assert_eq!(humanize_tool_output("list_logs", &out), "→ Listed 2 item(s) in “/d”\n→ Files/dirs: a.log, sub");
    let many: Vec<DirEntryInfo> = (0..13).map(|i| entry(&format!("f{i}"), true, false)).collect();
    let text = humanize_tool_output("list_logs", &list_logs_output("/d", &many));
    assert!(text.starts_with("→ Listed 13 item(s) in “/d”\n→ Files/dirs: f0, f1,"));
    assert!(text.ends_with("f11, …"));
    assert_eq!(humanize_tool_output("list_logs", &obj(vec![])), "→ Listed 0 item(s) in “?”\n");
}

#[test]
fn humanize_read_log() {
    assert_eq!(humanize_tool_output("read_log", &read_log_output("p", "hello")), "→ Read “p” (5 chars)\nhello");
    assert_eq!(humanize_tool_output("read_log", &read_log_output("p", "é")), "→ Read “p” (2 chars)\né");
    let long = "a".repeat(401);
    assert_eq!(
        humanize_tool_output("read_log", &read_log_output("p", &long)),
        format!("→ Read “p” (401 chars)\n{}\n… (truncated in UI)", "a".repeat(400))
    );
}

#[test]
fn humanize_tail_log() {
    let text: String = (1..=10).map(|i| format!("l{i}\n")).collect();
    let out = tail_log_output("p", &text, 100);
    let mut expected = String::from("→ Last 10 line(s) from “p”:\n");
    for i in 1..=8 {
        expected.push_str(&format!("   • l{i}\n"));
    }
    expected.push_str("   …\n");
    assert_eq!(humanize_tool_output("tail_log", &out), expected);
}

#[test]
fn humanize_grep_log() {
    let out = grep_file_output("p", "ERR", "ok\nERR one\nfine\nERR two");
    assert_eq!(
        humanize_tool_output("grep_log", &out),
        "→ Pattern “ERR”: 2 match(es)\n   • line 2: ERR one\n   • line 4: ERR two\n"
    );
    let files = vec![SearchedFile { path: chars("/a"), text: chars("x1\nx2\nx3\nx4\nx5\nx6") }];
    let dir = humanize_tool_output("grep_log", &grep_dir_output("x", &files));
    assert!(dir.starts_with("→ Pattern “x”: 6 match(es)\n   • /a:1 — x1\n"));
    assert!(dir.ends_with("   • /a:5 — x5\n   …\n"));
}

#[test]
fn humanize_process_tools() {
    let ok = run_tests_output("/bin/true", "/w", &vec![], Some(0), "", "");
    assert_eq!(humanize_tool_output("run_tests", &ok), "→ Command: /bin/true\n→ Exit code: 0\n");
    let failed = run_tests_output("/c", "/w", &vec![], None, "", "  boom ");
    assert_eq!(humanize_tool_output("run_tests", &failed), "→ Command: /c\n→ Stderr (preview):   boom \n");
    let clean = git_status_output("/w", Some(0), " \n", "");
    assert_eq!(humanize_tool_output("git_status", &clean), "→ Git status: working tree clean (no porcelain lines)\n");
    let dirty = git_status_output("/w", Some(0), " M a.rs\n", "");
    assert_eq!(humanize_tool_output("git_status", &dirty), "→ Git status (preview):\nM a.rs\n");
}

#[test]
fn humanize_other_tool_shows_compact_json() {
    let out = obj(vec![("a", JsonValue::UInt(1))]);
    assert_eq!(humanize_tool_output("custom", &out), "→ {\"a\":1}\n");
    // The text comes from serde_json: members in key order.
    let unordered = obj(vec![("b", JsonValue::UInt(2)), ("a", JsonValue::string("x"))]);
    assert_eq!(humanize_tool_output("custom", &unordered), "→ {\"a\":\"x\",\"b\":2}\n");
    let long = obj(vec![("k", JsonValue::string(&"y".repeat(300)))]);
    assert_eq!(humanize_tool_output("custom", &long), format!("→ {{\"k\":\"{}\n", "y".repeat(194)));
    assert_eq!(compact_summary("[1,2]"), "→ [1,2]\n");
}

// ---------------------------------------------------------------- run report

#[test]
fn human_run_report() {
    let ts = "2024-01-01T00:00:00.000Z";
    let denied = "path not allowed for read: /etc/hosts";
    let events = vec![
        AuditEvent::RunStart {
            run_id: chars("rid"),
            manifest_path: chars("m.yaml"),
            task_path: chars("t.json"),
            agent_name: chars("lw"),
        },
        AuditEvent::ToolCall {
            run_id: chars("rid"),
            tool: chars("read_log"),
            args: obj(vec![("path", JsonValue::string("/etc/hosts"))]),
            allowed: false,
            reason: Some(chars(denied)),
        },
        AuditEvent::ToolResult { run_id: chars("rid"), tool: chars("read_log"), output: None, error: Some(chars(denied)) },
        AuditEvent::ToolCall {
            run_id: chars("rid"),
            tool: chars("tail_log"),
            args: obj(vec![]),
            allowed: true,
            reason: None,
        },
        AuditEvent::ToolResult {
            run_id: chars("rid"),
            tool: chars("tail_log"),
            output: Some(tail_log_output("/l/a.log", "line\n", 5)),
            error: None,
        },
        AuditEvent::RunEnd { run_id: chars("rid"), exit_reason: chars("completed all steps"), tool_calls_used: 2 },
    ];
    let mut rows: Vec<JsonValue> = events.iter().map(|e| e.record_at(ts)).collect();
    rows.insert(1, obj(vec![("ts", JsonValue::string(ts))]));
    let rule = "═".repeat(38);
    let expected = format!(
        "{rule}\n WHAT HAPPENED\n{rule}\n\nRun ID:   rid\nSaved in: runs/rid\nOutcome:  completed all steps\nTool calls recorded: 2\n\n\
Agent profile: lw\n\n── Steps ──\n\n1. read_log — blocked ✗\n   Reason: {denied}\n   → Error: {denied}\n\n\
2. tail_log — allowed ✓\n   → Last 1 line(s) from “/l/a.log”:\n      • line\n\n\
{rule}\n ON DISK (full detail)\n{rule}\nruns/rid/audit.jsonl  — every event, machine-readable\nruns/rid/summary.json — compact step status\n"
    );
    assert_eq!(format_human_run_report("rid", "runs/rid", "completed all steps", 2, &rows), expected);
}

#[test]
fn human_run_report_without_events() {
    let rule = "═".repeat(38);
    let expected = format!(
        "{rule}\n WHAT HAPPENED\n{rule}\n\nRun ID:   r\nSaved in: d\nOutcome:  x\nTool calls recorded: 0\n\n\
\n{rule}\n ON DISK (full detail)\n{rule}\nd/audit.jsonl  — every event, machine-readable\nd/summary.json — compact step status\n"
    );
    assert_eq!(format_human_run_report("r", "d", "x", 0, &vec![]), expected);
}

#[test]
fn parse_json_reads_values() {
    assert_eq!(parse_json("{\"b\":[1,-2,1.5],\"a\":\"x\"}").unwrap().to_text(), "{\"a\":\"x\",\"b\":[1,-2,1.5]}");
    assert!(matches!(parse_json("-3"), Some(JsonValue::NegInt(-3))));
    assert!(matches!(parse_json("18446744073709551615"), Some(JsonValue::UInt(18446744073709551615))));
    match parse_json("1.5") {
        Some(JsonValue::Decimal(t)) => assert_eq!(t, "1.5"),
        other => panic!("{other:?}"),
    }
    assert_eq!(parse_json(" {\"k\":null} ").unwrap().str_at("k"), None);
    assert!(parse_json("nope").is_none());
    assert!(parse_json("").is_none());
}

#[test]
fn human_run_report_from_audit_text() {
    let ts = "2024-01-01T00:00:00.000Z";
    let events = vec![
        AuditEvent::RunStart {
            run_id: chars("rid"),
            manifest_path: chars("m.yaml"),
            task_path: chars("t.json"),
            agent_name: chars("lw"),
        },
        AuditEvent::ToolCall { run_id: chars("rid"), tool: chars("list_logs"), args: obj(vec![]), allowed: true, reason: None },
        AuditEvent::RunEnd { run_id: chars("rid"), exit_reason: chars("done"), tool_calls_used: 1 },
    ];
    let rows: Vec<JsonValue> = events.iter().map(|e| e.record_at(ts)).collect();
    let mut text = String::new();
    for (i, r) in rows.iter().enumerate() {
        text.push_str(&r.to_text());
        text.push_str(if i == 0 { "\r\n" } else { "\n" });
        if i == 1 {
            text.push_str("not json\n\n");
        }
    }
    let from_text = format_human_run_report_text("rid", "d", "done", 1, &text);
    assert_eq!(from_text, format_human_run_report("rid", "d", "done", 1, &rows));
    assert!(from_text.contains("Agent profile: lw\n\n── Steps ──\n\n1. list_logs — allowed ✓\n"));
    assert_eq!(
        format_human_run_report_text("r", "d", "x", 0, "(no audit: gone)"),
        format_human_run_report("r", "d", "x", 0, &vec![])
    );
}
