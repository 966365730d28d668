use agent_runtime::json::{JsonValue, ObjectBuilder};
use agent_runtime::manifest::{
    AgentManifest, Capabilities, CommandsCaps, FilesystemCaps, Limits, OutputSpec, Role,
};
use agent_runtime::paths::{
    components_of, display_components, join_path, normalize_components, normalize_dotdots, path_eq,
    path_file_name, path_starts_with, resolve_user_path, Component, PathError,
};
use agent_runtime::policy::{CompiledPolicy, FsSnapshot, PathFacts};
use agent_runtime::tools::{GatewayError, ToolAction, ToolGateway, MAX_READ_BYTES};

fn strings(items: &[&str]) -> Vec<String> {
    items.iter().map(|s| s.to_string()).collect()
}

fn manifest(tools: &[&str], read: &[&str], allow: &[&str], git: bool, max_tool_calls: u32) -> AgentManifest {
    AgentManifest {
        name: "t".to_string(),
        description: String::new(),
        role: Role { mission: "x".to_string(), non_goals: vec![] },
        capabilities: Capabilities {
            tools: strings(tools),
            filesystem: FilesystemCaps { read: strings(read), write: vec![] },
            commands: CommandsCaps { allow: strings(allow) },
            network: false,
            git,
        },
        limits: Limits { max_runtime_seconds: 30, max_memory_mb: 64, max_tool_calls },
        output: OutputSpec::default(),
    }
}

fn obj(members: Vec<(&str, JsonValue)>) -> JsonValue {
    let mut b = ObjectBuilder::new();
    for (k, v) in members {
        b.add(k, v);
    }
    b.build()
}

fn text(s: &str) -> JsonValue {
    JsonValue::string(s)
}

fn fact(path: &str, canonical: Option<&str>, is_dir: bool, is_file: bool, size: u64) -> PathFacts {
    PathFacts {
        path: path.to_string(),
        canonical: canonical.map(|c| c.to_string()),
        is_dir,
        is_file,
        size,
    }
}

fn snapshot(facts: Vec<PathFacts>) -> FsSnapshot {
    let mut fs = FsSnapshot::new("/tmp/t");
    for f in facts {
        fs.record(f);
    }
    fs
}

fn resolved(path: &str, cwd: &str) -> String {
    match resolve_user_path(path, cwd) {
        Ok(s) => s,
        Err(e) => panic!("{path:?} against {cwd:?}: {e:?}"),
    }
}

fn error_text(r: Result<ToolAction, GatewayError>) -> String {
    match r {
        Ok(a) => panic!("expected a refusal, got {a:?}"),
        Err(e) => e.message(),
    }
}

// ---------------------------------------------------------------- paths

#[test]
fn rejects_empty_path() {
    assert!(resolve_user_path("", "/work").is_err());
}

#[test]
fn normalizes_dotdot_under_cwd() {
    let g = resolved("../logs/secret.log", "/tmp/t/other");
    assert!(g.ends_with("logs/secret.log") || g.ends_with("logs\\secret.log"), "{g:?}");
    assert!(!components_of(&g).iter().any(|c| matches!(c, Component::ParentDir)));
}

#[test]
fn empty_path_error_and_message() {
    let e = resolve_user_path("", "/work").unwrap_err();
    assert!(matches!(e, PathError::Empty));
    assert_eq!(e.message(), "path must not be empty");
}

#[test]
fn path_normalizing_to_nothing_is_refused() {
    let e = resolve_user_path("..", "a").unwrap_err();
    assert!(matches!(e, PathError::NormalizedEmpty));
    assert_eq!(e.message(), "path normalized to empty");
}

#[test]
fn resolve_drops_dot_and_dotdot() {
    assert_eq!(resolved("a/./b/../c", "/w"), "/w/a/c");
    assert_eq!(resolved("..", "/"), "/");
    assert_eq!(resolved("../../..", "/a"), "/");
    assert_eq!(resolved("../x", "rel"), "x");
    assert_eq!(resolved("x//y/", "/w/"), "/w/x/y");
}

#[test]
fn absolute_path_ignores_cwd() {
    assert_eq!(resolved("/etc/../var/log", "/home/u"), "/var/log");
}

#[test]
fn resolving_a_resolved_path_gives_it_back() {
    let g = resolved("allowed/nested/../nested/a.log", "/tmp/t");
    assert_eq!(g, "/tmp/t/allowed/nested/a.log");
    assert_eq!(resolved(&g, "/somewhere/else"), g);
}

#[test]
fn components_follow_unix_rules() {
    let cs = components_of("/a//./b/../c");
    let names: Vec<String> = cs
        .iter()
        .map(|c| match c {
            Component::RootDir => "/".to_string(),
            Component::CurDir => ".".to_string(),
            Component::ParentDir => "..".to_string(),
            Component::Normal(s) => s.clone(),
        })
        .collect();
    assert_eq!(names, vec!["/", "a", "b", "..", "c"]);
    let lead = components_of("./x");
    assert!(matches!(lead[0], Component::CurDir));
    assert_eq!(lead.len(), 2);
}

#[test]
fn normalize_then_display() {
    let n = normalize_components(&components_of("/a/b/../../../c/./d"));
    assert_eq!(display_components(&n), "/c/d");
}

#[test]
fn normalize_dotdots_lexically() {
    assert_eq!(normalize_dotdots("/a/../b/./c").unwrap(), "/b/c");
    assert_eq!(normalize_dotdots("x/y/..").unwrap(), "x");
    assert!(matches!(normalize_dotdots("a/.."), Err(PathError::NormalizedEmpty)));
    assert!(matches!(normalize_dotdots(""), Err(PathError::NormalizedEmpty)));
}

#[test]
fn join_and_file_name() {
    assert_eq!(join_path("runs", "abc"), "runs/abc");
    assert_eq!(join_path("runs/", "abc"), "runs/abc");
    assert_eq!(join_path("", "abc"), "abc");
    assert_eq!(join_path("runs", "/abs"), "/abs");
    assert_eq!(path_file_name("agents/log-watcher.yaml"), Some("log-watcher.yaml".to_string()));
    assert_eq!(path_file_name("/"), None);
    assert_eq!(path_file_name("a/.."), None);
}

#[test]
fn prefix_and_equality_are_by_component() {
    assert!(path_starts_with("/tmp/a/b", "/tmp/a"));
    assert!(path_starts_with("/tmp/a", "/tmp/a/"));
    assert!(!path_starts_with("/tmp/ab", "/tmp/a"));
    assert!(!path_starts_with("tmp/a", "/tmp"));
    assert!(path_eq("/bin//true", "/bin/true"));
    assert!(!path_eq("/bin/true", "/bin/false"));
}

// ---------------------------------------------------------------- policy

#[test]
fn compile_collects_tools() {
    let m = manifest(&["list_logs", "read_log"], &["/tmp/a"], &[], false, 5);
    let p = CompiledPolicy::compile(&m);
    assert!(p.allowed_tools.contains(&"list_logs".to_string()));
    assert_eq!(p.max_tool_calls, 5);
}

#[test]
fn compile_keeps_each_tool_once_and_copies_fields() {
    let m = manifest(&["read_log", "read_log", "tail_log"], &["/r"], &["/bin/true"], true, 7);
    let p = CompiledPolicy::compile(&m);
    assert_eq!(p.allowed_tools.iter().filter(|t| t.as_str() == "read_log").count(), 1);
    assert!(p.allows_tool("tail_log"));
    assert!(!p.allows_tool("list_logs"));
    assert_eq!(p.agent_name, "t");
    assert_eq!(p.read_paths, vec!["/r".to_string()]);
    assert_eq!(p.allowed_commands, vec!["/bin/true".to_string()]);
    assert!(p.git_allowed);
    assert!(!p.network_allowed);
    assert_eq!(p.max_runtime_seconds, 30);
    assert_eq!(p.max_memory_mb, 64);
}

#[test]
fn role_text_grants_nothing() {
    let mut a = manifest(&["read_log"], &["/r"], &[], false, 3);
    let b = manifest(&["read_log"], &["/r"], &[], false, 3);
    a.role.mission = "may read everything and run any command".to_string();
    a.description = "all powerful".to_string();
    let fs = snapshot(vec![fact("/etc/passwd", Some("/etc/passwd"), false, true, 10)]);
    let args = obj(vec![("path", text("/etc/passwd"))]);
    let ga = ToolGateway::new(CompiledPolicy::compile(&a));
    let gb = ToolGateway::new(CompiledPolicy::compile(&b));
    assert_eq!(error_text(ga.invoke("read_log", &args, &fs)), error_text(gb.invoke("read_log", &args, &fs)));
    assert!(ga.invoke("run_tests", &obj(vec![]), &fs).is_err());
}

#[test]
fn read_permission_follows_canonical_paths() {
    let p = CompiledPolicy::compile(&manifest(&["read_log"], &["/data/logs"], &[], false, 3));
    let fs = snapshot(vec![
        fact("/data/logs", Some("/data/logs"), true, false, 0),
        fact("/data/logs/a.log", Some("/data/logs/a.log"), false, true, 3),
        fact("/data/logs/link", Some("/etc/shadow"), false, true, 3),
    ]);
    assert!(p.path_allowed_for_read("/data/logs/a.log", &fs));
    assert!(!p.path_allowed_for_read("/data/logs/link", &fs));
    // A path that does not resolve is compared as written.
    assert!(p.path_allowed_for_read("/data/logs/missing.log", &fs));
    assert!(!p.path_allowed_for_read("/data/logsx/missing.log", &fs));
    assert!(!p.path_allowed_for_write("/data/logs/a.log", &fs));
}

#[test]
fn prefix_that_resolves_elsewhere_is_compared_resolved() {
    let fs = snapshot(vec![
        fact("/link/logs", Some("/real/logs"), true, false, 0),
        fact("/real/logs/a.log", Some("/real/logs/a.log"), false, true, 1),
    ]);
    let prefixes = vec!["/link/logs".to_string()];
    assert!(CompiledPolicy::path_under_any_prefix("/real/logs/a.log", &prefixes, &fs));
    assert!(!CompiledPolicy::path_under_any_prefix("/real/other.log", &prefixes, &fs));
}

#[test]
fn commands_need_the_allowlist() {
    let none = CompiledPolicy::compile(&manifest(&["run_tests"], &[], &[], false, 3));
    let fs = snapshot(vec![
        fact("/bin/true", Some("/usr/bin/true"), false, true, 1),
        fact("/usr/bin/true", Some("/usr/bin/true"), false, true, 1),
    ]);
    assert!(!none.command_allowed("/bin/true", &fs));
    let some = CompiledPolicy::compile(&manifest(&["run_tests"], &[], &["/usr/bin/true"], false, 3));
    assert!(some.command_allowed("/bin/true", &fs));
    assert!(some.command_allowed("/usr/bin/true", &fs));
    assert!(!some.command_allowed("/bin/sh", &fs));
    let written = CompiledPolicy::compile(&manifest(&["run_tests"], &[], &["/opt/tool"], false, 3));
    assert!(written.command_allowed("/opt/tool", &FsSnapshot::new("/")));
    assert!(!written.command_allowed("/opt/tool2", &FsSnapshot::new("/")));
}

// ---------------------------------------------------------------- gateway

fn log_fs() -> FsSnapshot {
    snapshot(vec![
        fact("/tmp/t/allowed", Some("/tmp/t/allowed"), true, false, 0),
        fact("/tmp/t/allowed/a.log", Some("/tmp/t/allowed/a.log"), false, true, 1),
        fact("/tmp/t/secret.log", Some("/tmp/t/secret.log"), false, true, 1),
        fact("allowed/nested/../../secret/flag.txt", Some("/tmp/t/secret/flag.txt"), false, true, 4),
        fact("allowed/nested/../nested/a.log", Some("/tmp/t/allowed/nested/a.log"), false, true, 2),
        fact("/tmp/t/allowed/via_link.txt", Some("/tmp/t/secret/x.txt"), false, true, 5),
        fact("/tmp/t/allowed/big.log", Some("/tmp/t/allowed/big.log"), false, true, MAX_READ_BYTES + 1),
    ])
}

fn log_gateway(tools: &[&str]) -> ToolGateway {
    ToolGateway::new(CompiledPolicy::compile(&manifest(tools, &["/tmp/t/allowed"], &[], false, 10)))
}

#[test]
fn log_watcher_denies_outside_allowlist() {
    let gw = log_gateway(&["read_log"]);
    let fs = log_fs();
    let ok = gw.invoke("read_log", &obj(vec![("path", text("/tmp/t/allowed/a.log"))]), &fs);
    assert!(ok.is_ok());
    let denied = gw.invoke("read_log", &obj(vec![("path", text("/tmp/t/secret.log"))]), &fs);
    assert!(denied.is_err());
}

#[test]
fn dotdot_escape_sibling_directory_denied() {
    let gw = log_gateway(&["read_log", "list_logs"]);
    let denied = gw.invoke(
        "read_log",
        &obj(vec![("path", text("allowed/nested/../../secret/flag.txt"))]),
        &log_fs(),
    );
    assert!(denied.is_err(), "expected traversal outside allowlist to be denied");
}

#[test]
fn symlink_inside_allowlist_to_outside_target_denied() {
    let gw = log_gateway(&["read_log", "list_logs"]);
    let denied = gw.invoke("read_log", &obj(vec![("path", text("/tmp/t/allowed/via_link.txt"))]), &log_fs());
    assert!(denied.is_err(), "symlink target outside allowlist must not be readable: {denied:?}");
}

#[test]
fn allowed_file_via_normalized_path_ok() {
    let gw = log_gateway(&["read_log", "list_logs"]);
    let ok = gw.invoke("read_log", &obj(vec![("path", text("allowed/nested/../nested/a.log"))]), &log_fs());
    assert!(ok.is_ok(), "{ok:?}");
}

#[test]
fn empty_path_string_denied() {
    let gw = log_gateway(&["read_log", "list_logs"]);
    let denied = gw.invoke("read_log", &obj(vec![("path", text(""))]), &log_fs());
    assert!(denied.is_err());
}

#[test]
fn read_log_decisions() {
    let gw = log_gateway(&["read_log"]);
    let fs = log_fs();
    match gw.invoke("read_log", &obj(vec![("path", text("/tmp/t/allowed/a.log"))]), &fs) {
        Ok(ToolAction::ReadFile { path }) => assert_eq!(path, "/tmp/t/allowed/a.log"),
        other => panic!("{other:?}"),
    }
    assert_eq!(
        error_text(gw.invoke("read_log", &obj(vec![("path", text("/tmp/t/secret.log"))]), &fs)),
        "path not allowed for read: /tmp/t/secret.log"
    );
    assert_eq!(
        error_text(gw.invoke("read_log", &obj(vec![("path", text("/tmp/t/allowed"))]), &fs)),
        "not a file: /tmp/t/allowed"
    );
    assert_eq!(
        error_text(gw.invoke("read_log", &obj(vec![("path", text("/tmp/t/allowed/big.log"))]), &fs)),
        "file too large (524289 bytes); max 524288"
    );
    assert_eq!(
        error_text(gw.invoke("read_log", &obj(vec![("file", text("x"))]), &fs)),
        "invalid arguments: missing string 'path'"
    );
    assert_eq!(
        error_text(gw.invoke("read_log", &obj(vec![("path", JsonValue::UInt(3))]), &fs)),
        "invalid arguments: missing string 'path'"
    );
}

#[test]
fn unlisted_and_unknown_tools_are_refused() {
    let gw = log_gateway(&["read_log", "write_file"]);
    let fs = log_fs();
    let args = obj(vec![("directory", text("/tmp/t/allowed"))]);
    assert_eq!(error_text(gw.invoke("list_logs", &args, &fs)), "tool 'list_logs' is not allowed by policy");
    assert_eq!(error_text(gw.invoke("write_file", &args, &fs)), "tool 'write_file' is not allowed by policy");
}

#[test]
fn list_logs_decisions() {
    let gw = log_gateway(&["list_logs"]);
    let fs = log_fs();
    match gw.invoke("list_logs", &obj(vec![("directory", text("/tmp/t/allowed"))]), &fs) {
        Ok(ToolAction::ListDir { directory }) => assert_eq!(directory, "/tmp/t/allowed"),
        other => panic!("{other:?}"),
    }
    assert_eq!(
        error_text(gw.invoke("list_logs", &obj(vec![("directory", text("/tmp/t/allowed/a.log"))]), &fs)),
        "not a directory: /tmp/t/allowed/a.log"
    );
    assert_eq!(
        error_text(gw.invoke("list_logs", &obj(vec![]), &fs)),
        "invalid arguments: missing string 'directory'"
    );
}

#[test]
fn tail_log_line_counts() {
    let gw = log_gateway(&["tail_log"]);
    let fs = log_fs();
    let lines_for = |lines: Option<JsonValue>| {
        let mut members = vec![("path", text("/tmp/t/allowed/a.log"))];
        if let Some(l) = lines {
            members.push(("lines", l));
        }
        match gw.invoke("tail_log", &obj(members), &fs) {
            Ok(ToolAction::TailFile { path, lines }) => {
                assert_eq!(path, "/tmp/t/allowed/a.log");
                lines
            }
            other => panic!("{other:?}"),
        }
    };
    assert_eq!(lines_for(None), 100);
    assert_eq!(lines_for(Some(JsonValue::UInt(5))), 5);
    assert_eq!(lines_for(Some(JsonValue::UInt(20000))), 10000);
    assert_eq!(lines_for(Some(JsonValue::NegInt(-3))), 100);
    assert_eq!(lines_for(Some(text("7"))), 100);
}

#[test]
fn grep_log_decisions() {
    let gw = log_gateway(&["grep_log"]);
    let fs = log_fs();
    match gw.invoke("grep_log", &obj(vec![("path", text("/tmp/t/allowed")), ("pattern", text("ERR"))]), &fs) {
        Ok(ToolAction::GrepDir { root, pattern }) => {
            assert_eq!(root, "/tmp/t/allowed");
            assert_eq!(pattern, "ERR");
        }
        other => panic!("{other:?}"),
    }
    match gw.invoke("grep_log", &obj(vec![("path", text("/tmp/t/allowed/a.log")), ("pattern", text("x"))]), &fs) {
        Ok(ToolAction::GrepFile { path, pattern }) => {
            assert_eq!(path, "/tmp/t/allowed/a.log");
            assert_eq!(pattern, "x");
        }
        other => panic!("{other:?}"),
    }
    assert_eq!(
        error_text(gw.invoke("grep_log", &obj(vec![("path", text("/tmp/t/allowed/a.log"))]), &fs)),
        "invalid arguments: missing string 'pattern'"
    );
    assert_eq!(
        error_text(gw.invoke("grep_log", &obj(vec![("path", text("/tmp/t/allowed/none")), ("pattern", text("x"))]), &fs)),
        "not a file or directory: /tmp/t/allowed/none"
    );
}

fn tester_fs() -> FsSnapshot {
    snapshot(vec![
        fact("/bin/true", Some("/usr/bin/true"), false, true, 1),
        fact("/usr/bin/true", Some("/usr/bin/true"), false, true, 1),
        fact("/usr/bin/git", Some("/usr/bin/git"), false, true, 1),
        fact("/bin/sh", Some("/usr/bin/dash"), false, true, 1),
        fact("/work/crate", Some("/work/crate"), true, false, 0),
        fact("/work", Some("/work"), true, false, 0),
    ])
}

#[test]
fn run_tests_decisions() {
    let p = CompiledPolicy::compile(&manifest(&["run_tests"], &["/work"], &["/usr/bin/true"], false, 3));
    let gw = ToolGateway::new(p);
    let fs = tester_fs();
    let args = obj(vec![
        ("args", JsonValue::Array(vec![text("--quiet"), JsonValue::UInt(1), text("-v")])),
        ("command", text("/bin/true")),
        ("working_directory", text("/work/crate")),
    ]);
    match gw.invoke("run_tests", &args, &fs) {
        Ok(ToolAction::RunCommand { command, working_directory, args }) => {
            assert_eq!(command, "/bin/true");
            assert_eq!(working_directory, "/work/crate");
            assert_eq!(args, vec!["--quiet".to_string(), "-v".to_string()]);
        }
        other => panic!("{other:?}"),
    }
    let sh = obj(vec![("command", text("/bin/sh")), ("working_directory", text("/work/crate"))]);
    assert_eq!(error_text(gw.invoke("run_tests", &sh, &fs)), "command not allowlisted: /bin/sh");
    let outside = obj(vec![("command", text("/bin/true")), ("working_directory", text("/etc"))]);
    assert_eq!(error_text(gw.invoke("run_tests", &outside, &fs)), "path not allowed for read: /etc");
    assert_eq!(
        error_text(gw.invoke("run_tests", &obj(vec![]), &fs)),
        "invalid arguments: missing string 'command' (absolute path)"
    );
    assert_eq!(
        error_text(gw.invoke("run_tests", &obj(vec![("command", text("/bin/true"))]), &fs)),
        "invalid arguments: missing string 'working_directory'"
    );
}

#[test]
fn git_status_decisions() {
    let fs = tester_fs();
    let args = obj(vec![("command", text("/usr/bin/git")), ("working_directory", text("/work/crate"))]);
    let off = ToolGateway::new(CompiledPolicy::compile(&manifest(&["git_status"], &["/work"], &["/usr/bin/git"], false, 3)));
    assert_eq!(error_text(off.invoke("git_status", &args, &fs)), "git operations are disabled for this agent");
    let on = ToolGateway::new(CompiledPolicy::compile(&manifest(&["git_status"], &["/work"], &["/usr/bin/git"], true, 3)));
    match on.invoke("git_status", &args, &fs) {
        Ok(ToolAction::GitStatus { command, working_directory }) => {
            assert_eq!(command, "/usr/bin/git");
            assert_eq!(working_directory, "/work/crate");
        }
        other => panic!("{other:?}"),
    }
    let no_list = ToolGateway::new(CompiledPolicy::compile(&manifest(&["git_status"], &["/work"], &[], true, 3)));
    assert_eq!(error_text(no_list.invoke("git_status", &args, &fs)), "command not allowlisted: /usr/bin/git");
}

#[test]
fn gateway_keeps_its_policy() {
    let gw = log_gateway(&["read_log"]);
    assert_eq!(gw.policy().read_paths, vec!["/tmp/t/allowed".to_string()]);
    assert_eq!(gw.policy().max_tool_calls, 10);
}

#[test]
fn paths_to_inspect_lists_prefixes_commands_and_arguments() {
    let p = CompiledPolicy::compile(&manifest(&["run_tests"], &["/work"], &["/usr/bin/true"], false, 3));
    let gw = ToolGateway::new(p);
    let args = obj(vec![("command", text("/bin/true")), ("working_directory", text("/work/crate")), ("other", text("/x"))]);
    let paths = gw.paths_to_inspect("run_tests", &args);
    assert_eq!(paths, vec!["/usr/bin/true", "/work", "/bin/true", "/work/crate"]);
    let both = obj(vec![("path", text("/p")), ("directory", text("/d"))]);
    assert_eq!(gw.paths_to_inspect("run_tests", &both), vec!["/usr/bin/true", "/work"]);
    // A tool the policy refuses needs no facts at all.
    assert!(gw.paths_to_inspect("read_log", &both).is_empty());
    let logs = ToolGateway::new(CompiledPolicy::compile(&manifest(&["read_log", "list_logs", "git_status"], &["/l"], &["/g"], false, 3)));
    assert_eq!(logs.paths_to_inspect("read_log", &both), vec!["/l", "/p"]);
    assert_eq!(logs.paths_to_inspect("list_logs", &both), vec!["/l", "/d"]);
    assert!(logs.paths_to_inspect("git_status", &both).is_empty());
}

#[test]
fn gateway_error_messages() {
    let cases = vec![
        (GatewayError::ToolNotAllowed("x".into()), "tool 'x' is not allowed by policy"),
        (GatewayError::PathReadDenied("/p".into()), "path not allowed for read: /p"),
        (GatewayError::PathWriteDenied("/p".into()), "path not allowed for write: /p"),
        (GatewayError::CommandDenied("/c".into()), "command not allowlisted: /c"),
        (GatewayError::GitDenied, "git operations are disabled for this agent"),
        (GatewayError::InvalidArgs("bad".into()), "invalid arguments: bad"),
        (GatewayError::Io("gone".into()), "io: gone"),
        (GatewayError::Other("plain".into()), "plain"),
    ];
    for (e, text) in cases {
        assert_eq!(e.message(), text);
        assert_eq!(e.duplicate().message(), text);
    }
}

#[test]
fn no_process_runs_without_an_allowlist() {
    let gw = ToolGateway::new(CompiledPolicy::compile(&manifest(&["run_tests", "git_status"], &["/work"], &[], true, 3)));
    let fs = tester_fs();
    let run = obj(vec![("command", text("/bin/true")), ("working_directory", text("/work/crate"))]);
    assert_eq!(error_text(gw.invoke("run_tests", &run, &fs)), "command not allowlisted: /bin/true");
    let git = obj(vec![("command", text("/usr/bin/git")), ("working_directory", text("/work/crate"))]);
    assert_eq!(error_text(gw.invoke("git_status", &git, &fs)), "command not allowlisted: /usr/bin/git");
}

#[test]
fn decisions_need_only_the_inspected_paths() {
    let gw = log_gateway(&["read_log"]);
    let full = log_fs();
    let args = obj(vec![("path", text("/tmp/t/allowed/via_link.txt"))]);
    let mut small = FsSnapshot::new(&full.cwd);
    for p in gw.paths_to_inspect("read_log", &args) {
        let canonical = full.canonical(&p);
        small.record(PathFacts {
            path: p.clone(),
            canonical,
            is_dir: full.is_dir(&p),
            is_file: full.is_file(&p),
            size: full.size(&p),
        });
    }
    assert_eq!(small.entries.len(), 2);
    assert_eq!(error_text(gw.invoke("read_log", &args, &small)), error_text(gw.invoke("read_log", &args, &full)));
    let ok = obj(vec![("path", text("/tmp/t/allowed/a.log"))]);
    let mut small_ok = FsSnapshot::new(&full.cwd);
    for p in gw.paths_to_inspect("read_log", &ok) {
        small_ok.record(PathFacts {
            path: p.clone(),
            canonical: full.canonical(&p),
            is_dir: full.is_dir(&p),
            is_file: full.is_file(&p),
            size: full.size(&p),
        });
    }
    assert!(gw.invoke("read_log", &ok, &small_ok).is_ok());
}

#[test]
fn relative_command_is_refused_even_when_allowlisted() {
    let gw = ToolGateway::new(CompiledPolicy::compile(&manifest(&["run_tests"], &["/work"], &["true"], false, 3)));
    let args = obj(vec![("command", text("true")), ("working_directory", text("/work/crate"))]);
    assert_eq!(error_text(gw.invoke("run_tests", &args, &tester_fs())), "command not allowlisted: true");
}

fn write_policy() -> CompiledPolicy {
    let mut m = manifest(&[], &[], &[], false, 3);
    m.capabilities.filesystem.write = vec!["/w".to_string(), "out".to_string()];
    CompiledPolicy::compile(&m)
}

#[test]
fn missing_target_is_checked_after_folding_dotdot() {
    let p = write_policy();
    let mut fs = FsSnapshot::new("/c");
    fs.record(fact("/w", Some("/w"), true, false, 0));
    assert!(!p.path_allowed_for_write("/w/../etc/new.txt", &fs));
    assert!(p.path_allowed_for_write("/w/new.txt", &fs));
    assert!(p.path_allowed_for_write("/w/sub/../new.txt", &fs));
    // Relative paths and prefixes are taken against the working directory.
    assert!(p.path_allowed_for_write("out/report.txt", &fs));
    assert!(p.path_allowed_for_write("/c/out/x", &fs));
    assert!(!p.path_allowed_for_write("out/../../etc/x", &fs));
    assert!(!p.path_allowed_for_write("", &fs));
}

#[test]
fn normalize_dotdots_is_idempotent_on_relative_paths() {
    let once = normalize_dotdots("../a").unwrap();
    assert_eq!(once, "a");
    assert_eq!(normalize_dotdots(&once).unwrap(), once);
    let abs = normalize_dotdots("/..").unwrap();
    assert_eq!(abs, "/");
    assert_eq!(normalize_dotdots(&abs).unwrap(), abs);
    assert!(matches!(normalize_dotdots("."), Err(PathError::NormalizedEmpty)));
}
