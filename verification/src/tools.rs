//! The tool gateway: every tool request is checked against the compiled policy
//! and, when allowed, turned into one concrete filesystem or process action.

use vstd::prelude::*;
use crate::json::{Json, JsonValue};
use crate::manifest::{texts, AgentManifest};
use crate::paths::is_absolute;
use crate::policy::{
    admits_command, command_permitted, compiled_from, lexical, prefix_target, same_capabilities, under_any_prefix,
    CompiledPolicy, FsSnapshot,
};
use crate::text::{concat2, concat3, decimal, decimal_string, owned, str_eq};

verus! {

/// Largest file `read_log` returns, in bytes.
pub const MAX_READ_BYTES: u64 = 524288;

/// Why a tool request failed.
#[derive(Debug)]
pub enum GatewayError {
    ToolNotAllowed(String),
    PathReadDenied(String),
    PathWriteDenied(String),
    CommandDenied(String),
    GitDenied,
    InvalidArgs(String),
    Io(String),
    Other(String),
}

/// The value of a [`GatewayError`].
pub enum GatewayFault {
    ToolNotAllowed(Seq<char>),
    PathReadDenied(Seq<char>),
    PathWriteDenied(Seq<char>),
    CommandDenied(Seq<char>),
    GitDenied,
    InvalidArgs(Seq<char>),
    Io(Seq<char>),
    Other(Seq<char>),
}

impl GatewayError {
    pub open spec fn view(&self) -> GatewayFault {
        match self {
            GatewayError::ToolNotAllowed(s) => GatewayFault::ToolNotAllowed(s@),
            GatewayError::PathReadDenied(s) => GatewayFault::PathReadDenied(s@),
            GatewayError::PathWriteDenied(s) => GatewayFault::PathWriteDenied(s@),
            GatewayError::CommandDenied(s) => GatewayFault::CommandDenied(s@),
            GatewayError::GitDenied => GatewayFault::GitDenied,
            GatewayError::InvalidArgs(s) => GatewayFault::InvalidArgs(s@),
            GatewayError::Io(s) => GatewayFault::Io(s@),
            GatewayError::Other(s) => GatewayFault::Other(s@),
        }
    }

    /// The error's text.
    pub fn message(&self) -> (r: String)
        ensures
            r@ == fault_text(self@),
    {
        match self {
            GatewayError::ToolNotAllowed(s) => concat3("tool '", s.as_str(), "' is not allowed by policy"),
            GatewayError::PathReadDenied(s) => concat2("path not allowed for read: ", s.as_str()),
            GatewayError::PathWriteDenied(s) => concat2("path not allowed for write: ", s.as_str()),
            GatewayError::CommandDenied(s) => concat2("command not allowlisted: ", s.as_str()),
            GatewayError::GitDenied => owned("git operations are disabled for this agent"),
            GatewayError::InvalidArgs(s) => concat2("invalid arguments: ", s.as_str()),
            GatewayError::Io(s) => concat2("io: ", s.as_str()),
            GatewayError::Other(s) => s.clone(),
        }
    }

    /// A copy of the error.
    pub fn duplicate(&self) -> (r: GatewayError)
        ensures
            r@ == self@,
    {
        match self {
            GatewayError::ToolNotAllowed(s) => GatewayError::ToolNotAllowed(s.clone()),
            GatewayError::PathReadDenied(s) => GatewayError::PathReadDenied(s.clone()),
            GatewayError::PathWriteDenied(s) => GatewayError::PathWriteDenied(s.clone()),
            GatewayError::CommandDenied(s) => GatewayError::CommandDenied(s.clone()),
            GatewayError::GitDenied => GatewayError::GitDenied,
            GatewayError::InvalidArgs(s) => GatewayError::InvalidArgs(s.clone()),
            GatewayError::Io(s) => GatewayError::Io(s.clone()),
            GatewayError::Other(s) => GatewayError::Other(s.clone()),
        }
    }
}

/// The text of an error.
pub open spec fn fault_text(e: GatewayFault) -> Seq<char> {
    match e {
        GatewayFault::ToolNotAllowed(s) => "tool '"@ + s + "' is not allowed by policy"@,
        GatewayFault::PathReadDenied(s) => "path not allowed for read: "@ + s,
        GatewayFault::PathWriteDenied(s) => "path not allowed for write: "@ + s,
        GatewayFault::CommandDenied(s) => "command not allowlisted: "@ + s,
        GatewayFault::GitDenied => "git operations are disabled for this agent"@,
        GatewayFault::InvalidArgs(s) => "invalid arguments: "@ + s,
        GatewayFault::Io(s) => "io: "@ + s,
        GatewayFault::Other(s) => s,
    }
}

/// The one filesystem or process action an allowed tool request comes down to.
#[derive(Debug)]
pub enum ToolAction {
    ListDir { directory: String },
    ReadFile { path: String },
    TailFile { path: String, lines: usize },
    GrepFile { path: String, pattern: String },
    GrepDir { root: String, pattern: String },
    RunCommand { command: String, working_directory: String, args: Vec<String> },
    GitStatus { command: String, working_directory: String },
}

/// The value of a [`ToolAction`].
pub enum Action {
    ListDir(Seq<char>),
    ReadFile(Seq<char>),
    TailFile(Seq<char>, nat),
    GrepFile(Seq<char>, Seq<char>),
    GrepDir(Seq<char>, Seq<char>),
    RunCommand(Seq<char>, Seq<char>, Seq<Seq<char>>),
    GitStatus(Seq<char>, Seq<char>),
}

impl ToolAction {
    pub open spec fn view(&self) -> Action {
        match self {
            ToolAction::ListDir { directory } => Action::ListDir(directory@),
            ToolAction::ReadFile { path } => Action::ReadFile(path@),
            ToolAction::TailFile { path, lines } => Action::TailFile(path@, *lines as nat),
            ToolAction::GrepFile { path, pattern } => Action::GrepFile(path@, pattern@),
            ToolAction::GrepDir { root, pattern } => Action::GrepDir(root@, pattern@),
            ToolAction::RunCommand { command, working_directory, args } => Action::RunCommand(
                command@,
                working_directory@,
                crate::manifest::texts(args@),
            ),
            ToolAction::GitStatus { command, working_directory } => Action::GitStatus(
                command@,
                working_directory@,
            ),
        }
    }
}

/// The value of a decision.
pub open spec fn outcome_view(r: Result<ToolAction, GatewayError>) -> Result<Action, GatewayFault> {
    match r {
        Ok(a) => Ok(a@),
        Err(e) => Err(e@),
    }
}

// ---------------------------------------------------------------- decisions

/// `list_logs`: a readable directory is listed.
pub open spec fn list_logs_decision(p: CompiledPolicy, args: Json, fs: FsSnapshot) -> Result<Action, GatewayFault> {
    match args.str_at("directory"@) {
        None => Err(GatewayFault::InvalidArgs("missing string 'directory'"@)),
        Some(d) => if !p.read_allowed(fs, d) {
            Err(GatewayFault::PathReadDenied(d))
        } else if !fs.facts(d).is_dir {
            Err(GatewayFault::Other("not a directory: "@ + d))
        } else {
            Ok(Action::ListDir(d))
        },
    }
}

/// `read_log`: a readable file of at most [`MAX_READ_BYTES`] bytes is read.
pub open spec fn read_log_decision(p: CompiledPolicy, args: Json, fs: FsSnapshot) -> Result<Action, GatewayFault> {
    match args.str_at("path"@) {
        None => Err(GatewayFault::InvalidArgs("missing string 'path'"@)),
        Some(f) => if !p.read_allowed(fs, f) {
            Err(GatewayFault::PathReadDenied(f))
        } else if !fs.facts(f).is_file {
            Err(GatewayFault::Other("not a file: "@ + f))
        } else if fs.facts(f).size > MAX_READ_BYTES {
            Err(
                GatewayFault::Other(
                    "file too large ("@ + decimal(fs.facts(f).size as nat) + " bytes); max 524288"@,
                ),
            )
        } else {
            Ok(Action::ReadFile(f))
        },
    }
}

/// The line count `tail_log` asks for: `lines` when it is a non-negative
/// integer, else 100; at most 10000.
pub open spec fn tail_count(args: Json) -> nat {
    let n: u64 = match args.get("lines"@) {
        Some(v) => match v.as_u64() {
            Some(k) => k,
            None => 100,
        },
        None => 100,
    };
    if n < 10000 {
        n as nat
    } else {
        10000
    }
}

/// `tail_log`: the last lines of a readable path.
pub open spec fn tail_log_decision(p: CompiledPolicy, args: Json, fs: FsSnapshot) -> Result<Action, GatewayFault> {
    match args.str_at("path"@) {
        None => Err(GatewayFault::InvalidArgs("missing string 'path'"@)),
        Some(f) => if !p.read_allowed(fs, f) {
            Err(GatewayFault::PathReadDenied(f))
        } else {
            Ok(Action::TailFile(f, tail_count(args)))
        },
    }
}

/// `grep_log`: a readable directory is searched file by file, a readable file directly.
pub open spec fn grep_log_decision(p: CompiledPolicy, args: Json, fs: FsSnapshot) -> Result<Action, GatewayFault> {
    match args.str_at("path"@) {
        None => Err(GatewayFault::InvalidArgs("missing string 'path'"@)),
        Some(f) => match args.str_at("pattern"@) {
            None => Err(GatewayFault::InvalidArgs("missing string 'pattern'"@)),
            Some(pat) => if !p.read_allowed(fs, f) {
                Err(GatewayFault::PathReadDenied(f))
            } else if fs.facts(f).is_dir {
                Ok(Action::GrepDir(f, pat))
            } else if !fs.facts(f).is_file {
                Err(GatewayFault::Other("not a file or directory: "@ + f))
            } else {
                Ok(Action::GrepFile(f, pat))
            },
        },
    }
}

/// The strings among `items`, in order.
pub open spec fn string_items(items: Seq<Json>) -> Seq<Seq<char>>
    decreases items.len(),
{
    if items.len() == 0 {
        seq![]
    } else {
        let rest = string_items(items.drop_last());
        match items.last().as_str() {
            Some(s) => rest.push(s),
            None => rest,
        }
    }
}

/// The extra command-line arguments: the strings of the `args` array, if any.
pub open spec fn extra_args(args: Json) -> Seq<Seq<char>> {
    match args.get("args"@) {
        Some(v) => match v.as_array() {
            Some(items) => string_items(items),
            None => seq![],
        },
        None => seq![],
    }
}

/// `run_tests`: an allowlisted executable, named by an absolute path, runs in a
/// readable working directory.
pub open spec fn run_tests_decision(p: CompiledPolicy, args: Json, fs: FsSnapshot) -> Result<Action, GatewayFault> {
    match args.str_at("command"@) {
        None => Err(GatewayFault::InvalidArgs("missing string 'command' (absolute path)"@)),
        Some(c) => if !is_absolute(c) || !p.command_ok(fs, c) {
            Err(GatewayFault::CommandDenied(c))
        } else {
            match args.str_at("working_directory"@) {
                None => Err(GatewayFault::InvalidArgs("missing string 'working_directory'"@)),
                Some(w) => if !p.read_allowed(fs, w) {
                    Err(GatewayFault::PathReadDenied(w))
                } else {
                    Ok(Action::RunCommand(c, w, extra_args(args)))
                },
            }
        },
    }
}

/// `git_status`: only with git enabled, an allowlisted git binary, and a readable directory.
pub open spec fn git_status_decision(p: CompiledPolicy, args: Json, fs: FsSnapshot) -> Result<Action, GatewayFault> {
    if !p.git_allowed {
        Err(GatewayFault::GitDenied)
    } else {
        match args.str_at("command"@) {
            None => Err(GatewayFault::InvalidArgs("missing string 'command' (path to git binary)"@)),
            Some(c) => if !p.command_ok(fs, c) {
                Err(GatewayFault::CommandDenied(c))
            } else {
                match args.str_at("working_directory"@) {
                    None => Err(GatewayFault::InvalidArgs("missing string 'working_directory'"@)),
                    Some(w) => if !p.read_allowed(fs, w) {
                        Err(GatewayFault::PathReadDenied(w))
                    } else {
                        Ok(Action::GitStatus(c, w))
                    },
                }
            },
        }
    }
}

/// The names of the built-in tools.
pub open spec fn builtin_tool(name: Seq<char>) -> bool {
    ||| name == "list_logs"@
    ||| name == "read_log"@
    ||| name == "tail_log"@
    ||| name == "grep_log"@
    ||| name == "run_tests"@
    ||| name == "git_status"@
}

/// The gateway's answer to a request for tool `name`: refused unless the
/// policy lists the tool and it is a built-in tool; otherwise that tool's rule.
pub open spec fn tool_decision(p: CompiledPolicy, name: Seq<char>, args: Json, fs: FsSnapshot) -> Result<Action, GatewayFault> {
    if !p.tool_allowed(name) {
        Err(GatewayFault::ToolNotAllowed(name))
    } else if name == "list_logs"@ {
        list_logs_decision(p, args, fs)
    } else if name == "read_log"@ {
        read_log_decision(p, args, fs)
    } else if name == "tail_log"@ {
        tail_log_decision(p, args, fs)
    } else if name == "grep_log"@ {
        grep_log_decision(p, args, fs)
    } else if name == "run_tests"@ {
        run_tests_decision(p, args, fs)
    } else if name == "git_status"@ {
        git_status_decision(p, args, fs)
    } else {
        Err(GatewayFault::ToolNotAllowed(name))
    }
}

// ---------------------------------------------------------------- exec decisions

fn string_arg(args: &JsonValue, key: &str, missing: &str) -> (r: Result<String, GatewayError>)
    ensures
        match r {
            Ok(s) => args@.str_at(key@) == Some(s@),
            Err(e) => args@.str_at(key@) is None && e@ == GatewayFault::InvalidArgs(missing@),
        },
{
    match args.str_at(key) {
        Some(s) => Ok(s),
        None => Err(GatewayError::InvalidArgs(owned(missing))),
    }
}

/// Decides a `list_logs` request.
pub fn list_logs(policy: &CompiledPolicy, args: &JsonValue, fs: &FsSnapshot) -> (r: Result<ToolAction, GatewayError>)
    ensures
        outcome_view(r) == list_logs_decision(*policy, args@, *fs),
{
    let dir = match string_arg(args, "directory", "missing string 'directory'") {
        Ok(d) => d,
        Err(e) => return Err(e),
    };
    if !policy.path_allowed_for_read(dir.as_str(), fs) {
        return Err(GatewayError::PathReadDenied(dir));
    }
    if !fs.is_dir(dir.as_str()) {
        return Err(GatewayError::Other(concat2("not a directory: ", dir.as_str())));
    }
    Ok(ToolAction::ListDir { directory: dir })
}

/// Decides a `read_log` request.
pub fn read_log(policy: &CompiledPolicy, args: &JsonValue, fs: &FsSnapshot) -> (r: Result<ToolAction, GatewayError>)
    ensures
        outcome_view(r) == read_log_decision(*policy, args@, *fs),
{
    let path = match string_arg(args, "path", "missing string 'path'") {
        Ok(d) => d,
        Err(e) => return Err(e),
    };
    if !policy.path_allowed_for_read(path.as_str(), fs) {
        return Err(GatewayError::PathReadDenied(path));
    }
    if !fs.is_file(path.as_str()) {
        return Err(GatewayError::Other(concat2("not a file: ", path.as_str())));
    }
    let len = fs.size(path.as_str());
    if len > MAX_READ_BYTES {
        let n = decimal_string(len);
        return Err(GatewayError::Other(concat3("file too large (", n.as_str(), " bytes); max 524288")));
    }
    Ok(ToolAction::ReadFile { path })
}

fn line_count_arg(args: &JsonValue) -> (r: usize)
    ensures
        r as nat == tail_count(args@),
{
    let n: u64 = match args.get("lines") {
        Some(v) => match v.as_u64() {
            Some(k) => k,
            None => 100,
        },
        None => 100,
    };
    if n < 10000 {
        n as usize
    } else {
        10000
    }
}

/// Decides a `tail_log` request.
pub fn tail_log(policy: &CompiledPolicy, args: &JsonValue, fs: &FsSnapshot) -> (r: Result<ToolAction, GatewayError>)
    ensures
        outcome_view(r) == tail_log_decision(*policy, args@, *fs),
{
    let path = match string_arg(args, "path", "missing string 'path'") {
        Ok(d) => d,
        Err(e) => return Err(e),
    };
    let lines = line_count_arg(args);
    if !policy.path_allowed_for_read(path.as_str(), fs) {
        return Err(GatewayError::PathReadDenied(path));
    }
    Ok(ToolAction::TailFile { path, lines })
}

/// Decides a `grep_log` request.
pub fn grep_log(policy: &CompiledPolicy, args: &JsonValue, fs: &FsSnapshot) -> (r: Result<ToolAction, GatewayError>)
    ensures
        outcome_view(r) == grep_log_decision(*policy, args@, *fs),
{
    let path = match string_arg(args, "path", "missing string 'path'") {
        Ok(d) => d,
        Err(e) => return Err(e),
    };
    let pattern = match string_arg(args, "pattern", "missing string 'pattern'") {
        Ok(d) => d,
        Err(e) => return Err(e),
    };
    if !policy.path_allowed_for_read(path.as_str(), fs) {
        return Err(GatewayError::PathReadDenied(path));
    }
    if fs.is_dir(path.as_str()) {
        return Ok(ToolAction::GrepDir { root: path, pattern });
    }
    if !fs.is_file(path.as_str()) {
        return Err(GatewayError::Other(concat2("not a file or directory: ", path.as_str())));
    }
    Ok(ToolAction::GrepFile { path, pattern })
}

fn extra_args_of(args: &JsonValue) -> (r: Vec<String>)
    ensures
        crate::manifest::texts(r@) == extra_args(args@),
{
    let mut out: Vec<String> = Vec::new();
    match args.get("args") {
        Some(v) => match v.as_array() {
            Some(items) => {
                let ghost js = Seq::new(items.len() as nat, |i: int| items[i]@);
                let mut i: usize = 0;
                assert(js.take(0) =~= Seq::<Json>::empty());
                assert(crate::manifest::texts(out@) =~= Seq::<Seq<char>>::empty());
                while i < items.len()
                    invariant
                        i <= items.len(),
                        js == Seq::new(items.len() as nat, |i: int| items[i]@),
                        crate::manifest::texts(out@) == string_items(js.take(i as int)),
                    decreases items.len() - i,
                {
                    let ghost before = out@;
                    match items[i].as_str() {
                        Some(s) => {
                            out.push(owned(s));
                            assert(crate::manifest::texts(out@) =~= crate::manifest::texts(before).push(items[i as int]@.as_str()->0));
                        },
                        None => {},
                    }
                    assert(js.take(i + 1).drop_last() =~= js.take(i as int));
                    i = i + 1;
                }
                assert(js.take(items.len() as int) =~= js);
            },
            None => {
                assert(crate::manifest::texts(out@) =~= Seq::<Seq<char>>::empty());
            },
        },
        None => {
            assert(crate::manifest::texts(out@) =~= Seq::<Seq<char>>::empty());
        },
    }
    out
}

/// Decides a `run_tests` request.
pub fn run_tests(policy: &CompiledPolicy, args: &JsonValue, fs: &FsSnapshot) -> (r: Result<ToolAction, GatewayError>)
    ensures
        outcome_view(r) == run_tests_decision(*policy, args@, *fs),
{
    let command = match string_arg(args, "command", "missing string 'command' (absolute path)") {
        Ok(d) => d,
        Err(e) => return Err(e),
    };
    let absolute = {
        let cs = crate::text::chars_of(command.as_str());
        cs.len() > 0 && cs[0] == '/'
    };
    if !absolute || !policy.command_allowed(command.as_str(), fs) {
        return Err(GatewayError::CommandDenied(command));
    }
    let cwd = match string_arg(args, "working_directory", "missing string 'working_directory'") {
        Ok(d) => d,
        Err(e) => return Err(e),
    };
    if !policy.path_allowed_for_read(cwd.as_str(), fs) {
        return Err(GatewayError::PathReadDenied(cwd));
    }
    let extra = extra_args_of(args);
    Ok(ToolAction::RunCommand { command, working_directory: cwd, args: extra })
}

/// Decides a `git_status` request.
pub fn git_status(policy: &CompiledPolicy, args: &JsonValue, fs: &FsSnapshot) -> (r: Result<ToolAction, GatewayError>)
    ensures
        outcome_view(r) == git_status_decision(*policy, args@, *fs),
{
    if !policy.git_allowed {
        return Err(GatewayError::GitDenied);
    }
    let command = match string_arg(args, "command", "missing string 'command' (path to git binary)") {
        Ok(d) => d,
        Err(e) => return Err(e),
    };
    if !policy.command_allowed(command.as_str(), fs) {
        return Err(GatewayError::CommandDenied(command));
    }
    let cwd = match string_arg(args, "working_directory", "missing string 'working_directory'") {
        Ok(d) => d,
        Err(e) => return Err(e),
    };
    if !policy.path_allowed_for_read(cwd.as_str(), fs) {
        return Err(GatewayError::PathReadDenied(cwd));
    }
    Ok(ToolAction::GitStatus { command, working_directory: cwd })
}

/// The string under `key` in `args`, as a one-element list, or nothing.
pub open spec fn opt_arg(args: Json, key: Seq<char>) -> Seq<Seq<char>> {
    match args.str_at(key) {
        Some(v) => seq![v],
        None => seq![],
    }
}

/// The paths whose facts the decision on tool `name` may consult: none for a
/// refused tool; for a log tool, the read prefixes and its path argument; for
/// `run_tests` (and `git_status` when git is enabled), the allowlisted
/// commands, the read prefixes, the command and the working directory.
pub open spec fn inspected_paths(p: CompiledPolicy, name: Seq<char>, args: Json) -> Seq<Seq<char>> {
    let reads = texts(p.read_paths@);
    let cmds = texts(p.allowed_commands@);
    if !p.tool_allowed(name) {
        seq![]
    } else if name == "list_logs"@ {
        reads + opt_arg(args, "directory"@)
    } else if name == "read_log"@ || name == "tail_log"@ || name == "grep_log"@ {
        reads + opt_arg(args, "path"@)
    } else if name == "run_tests"@ || (name == "git_status"@ && p.git_allowed) {
        cmds + reads + opt_arg(args, "command"@) + opt_arg(args, "working_directory"@)
    } else {
        seq![]
    }
}

fn push_texts(out: &mut Vec<String>, v: &Vec<String>)
    ensures
        texts(final(out)@) == texts(old(out)@) + texts(v@),
{
    let ghost start = texts(out@);
    let mut i: usize = 0;
    while i < v.len()
        invariant
            i <= v.len(),
            texts(out@) == start + texts(v@).take(i as int),
        decreases v.len() - i,
    {
        let ghost before = out@;
        let c = v[i].clone();
        out.push(c);
        assert(out@ == before.push(c));
        assert(c@ == v@[i as int]@);
        assert(texts(out@) =~= texts(before).push(c@));
        assert(texts(out@) =~= start + texts(v@).take(i + 1));
        i = i + 1;
    }
    assert(texts(v@).take(i as int) =~= texts(v@));
}

fn push_arg(out: &mut Vec<String>, args: &JsonValue, key: &str)
    ensures
        texts(final(out)@) == texts(old(out)@) + opt_arg(args@, key@),
{
    match args.str_at(key) {
        Some(v) => {
            let ghost before = out@;
            out.push(v);
            assert(texts(out@) =~= texts(before) + opt_arg(args@, key@));
        },
        None => {
            assert(texts(out@) =~= texts(out@) + opt_arg(args@, key@));
        },
    }
}

/// Structured tool access: every request is decided against the policy.
pub struct ToolGateway {
    policy: CompiledPolicy,
}

impl ToolGateway {
    /// The policy the gateway decides by.
    pub closed spec fn current_policy(&self) -> CompiledPolicy {
        self.policy
    }

    pub fn new(policy: CompiledPolicy) -> (g: ToolGateway)
        ensures
            g.current_policy() == policy,
    {
        ToolGateway { policy }
    }

    pub fn policy(&self) -> (r: &CompiledPolicy)
        ensures
            *r == self.current_policy(),
    {
        &self.policy
    }

    /// Decides a request for tool `name` with `args`, given what the filesystem
    /// says about the paths involved (see [`ToolGateway::paths_to_inspect`]).
    pub fn invoke(&self, name: &str, args: &JsonValue, fs: &FsSnapshot) -> (r: Result<ToolAction, GatewayError>)
        ensures
            outcome_view(r) == tool_decision(self.current_policy(), name@, args@, *fs),
    {
        if !self.policy.allows_tool(name) {
            return Err(GatewayError::ToolNotAllowed(owned(name)));
        }
        if str_eq(name, "list_logs") {
            list_logs(&self.policy, args, fs)
        } else if str_eq(name, "read_log") {
            read_log(&self.policy, args, fs)
        } else if str_eq(name, "tail_log") {
            tail_log(&self.policy, args, fs)
        } else if str_eq(name, "grep_log") {
            grep_log(&self.policy, args, fs)
        } else if str_eq(name, "run_tests") {
            run_tests(&self.policy, args, fs)
        } else if str_eq(name, "git_status") {
            git_status(&self.policy, args, fs)
        } else {
            Err(GatewayError::ToolNotAllowed(owned(name)))
        }
    }

    /// Every path whose facts the decision on tool `name` may consult (see
    /// [`inspected_paths`]); none for a tool that the policy refuses.
    pub fn paths_to_inspect(&self, name: &str, args: &JsonValue) -> (r: Vec<String>)
        ensures
            texts(r@) == inspected_paths(self.current_policy(), name@, args@),
    {
        let mut out: Vec<String> = Vec::new();
        assert(texts(out@) =~= Seq::<Seq<char>>::empty());
        if !self.policy.allows_tool(name) {
            return out;
        }
        if str_eq(name, "list_logs") {
            push_texts(&mut out, &self.policy.read_paths);
            push_arg(&mut out, args, "directory");
        } else if str_eq(name, "read_log") || str_eq(name, "tail_log") || str_eq(name, "grep_log") {
            push_texts(&mut out, &self.policy.read_paths);
            push_arg(&mut out, args, "path");
        } else if str_eq(name, "run_tests") || (str_eq(name, "git_status") && self.policy.git_allowed) {
            push_texts(&mut out, &self.policy.allowed_commands);
            push_texts(&mut out, &self.policy.read_paths);
            push_arg(&mut out, args, "command");
            push_arg(&mut out, args, "working_directory");
        }
        proof {
            reveal_strlit("directory");
            reveal_strlit("path");
            reveal_strlit("command");
            reveal_strlit("working_directory");
        }
        out
    }
}

// ---------------------------------------------------------------- laws

/// What an allowed action may touch under policy `p`: only readable paths,
/// only allowlisted commands, and git only when the policy enables it.
pub open spec fn action_within_policy(p: CompiledPolicy, fs: FsSnapshot, a: Action) -> bool {
    match a {
        Action::ListDir(d) => p.read_allowed(fs, d) && fs.facts(d).is_dir,
        Action::ReadFile(f) => p.read_allowed(fs, f) && fs.facts(f).is_file && fs.facts(f).size <= MAX_READ_BYTES,
        Action::TailFile(f, n) => p.read_allowed(fs, f) && n <= 10000,
        Action::GrepFile(f, _pat) => p.read_allowed(fs, f) && fs.facts(f).is_file,
        Action::GrepDir(d, _pat) => p.read_allowed(fs, d) && fs.facts(d).is_dir,
        Action::RunCommand(c, w, _extra) => is_absolute(c) && p.command_ok(fs, c) && p.read_allowed(fs, w),
        Action::GitStatus(c, w) => p.git_allowed && p.command_ok(fs, c) && p.read_allowed(fs, w),
    }
}

/// A tool that the policy does not list, or that is not one of the built-in
/// tools, is refused as not allowed, whatever the arguments.
pub proof fn law_unlisted_tool_refused(p: CompiledPolicy, name: Seq<char>, args: Json, fs: FsSnapshot)
    requires
        !p.tool_allowed(name) || !builtin_tool(name),
    ensures
        tool_decision(p, name, args, fs) == Err::<Action, GatewayFault>(GatewayFault::ToolNotAllowed(name)),
{
}

/// Whatever the gateway allows is a listed built-in tool whose action stays
/// within the policy: readable paths only, allowlisted commands only.
pub proof fn law_allowed_actions_within_policy(p: CompiledPolicy, name: Seq<char>, args: Json, fs: FsSnapshot)
    ensures
        tool_decision(p, name, args, fs) matches Ok(a) ==> {
            &&& p.tool_allowed(name)
            &&& builtin_tool(name)
            &&& action_within_policy(p, fs, a)
        },
{
    reveal_strlit("list_logs");
    reveal_strlit("read_log");
    reveal_strlit("tail_log");
    reveal_strlit("grep_log");
    reveal_strlit("run_tests");
    reveal_strlit("git_status");
}

/// With no allowlisted command, no request runs a process.
pub proof fn law_no_process_without_allowlist(p: CompiledPolicy, name: Seq<char>, args: Json, fs: FsSnapshot)
    requires
        p.allowed_commands@.len() == 0,
    ensures
        !(tool_decision(p, name, args, fs) matches Ok(Action::RunCommand(_c, _w, _a))),
        !(tool_decision(p, name, args, fs) matches Ok(Action::GitStatus(_c, _w))),
{
    law_allowed_actions_within_policy(p, name, args, fs);
}

/// Role and description grant nothing: policies compiled from two manifests
/// with the same capabilities decide every request alike.
pub proof fn law_role_text_grants_nothing(
    m1: AgentManifest,
    m2: AgentManifest,
    p1: CompiledPolicy,
    p2: CompiledPolicy,
    name: Seq<char>,
    args: Json,
    fs: FsSnapshot,
)
    requires
        compiled_from(p1, m1),
        compiled_from(p2, m2),
        same_capabilities(m1, m2),
    ensures
        tool_decision(p1, name, args, fs) == tool_decision(p2, name, args, fs),
{
    let t1 = texts(p1.allowed_tools@);
    let t2 = texts(p2.allowed_tools@);
    assert(t1.contains(name) == t1.to_set().contains(name));
    assert(t2.contains(name) == t2.to_set().contains(name));
    assert(p1.tool_allowed(name) == p2.tool_allowed(name));
}

proof fn lemma_prefixes_agree(fs1: FsSnapshot, fs2: FsSnapshot, path: Seq<char>, prefixes: Seq<Seq<char>>)
    requires
        fs1.cwd@ == fs2.cwd@,
        fs1.facts(path) == fs2.facts(path),
        forall|i: int| 0 <= i < prefixes.len() ==> fs1.facts(#[trigger] prefixes[i]) == fs2.facts(prefixes[i]),
    ensures
        under_any_prefix(fs1, path, prefixes) == under_any_prefix(fs2, path, prefixes),
{
    assert(lexical(fs1, path) == lexical(fs2, path));
    assert forall|i: int| 0 <= i < prefixes.len() implies prefix_target(fs1, #[trigger] prefixes[i]) == prefix_target(fs2, prefixes[i])
        && lexical(fs1, prefixes[i]) == lexical(fs2, prefixes[i]) by {
        assert(fs1.facts(prefixes[i]) == fs2.facts(prefixes[i]));
    }
}

proof fn lemma_commands_agree(fs1: FsSnapshot, fs2: FsSnapshot, cmd: Seq<char>, allowed: Seq<Seq<char>>)
    requires
        fs1.facts(cmd) == fs2.facts(cmd),
        forall|i: int| 0 <= i < allowed.len() ==> fs1.facts(#[trigger] allowed[i]) == fs2.facts(allowed[i]),
    ensures
        command_permitted(fs1, cmd, allowed) == command_permitted(fs2, cmd, allowed),
{
    assert forall|i: int| 0 <= i < allowed.len() implies admits_command(fs1, cmd, #[trigger] allowed[i]) == admits_command(fs2, cmd, allowed[i]) by {
        assert(fs1.facts(allowed[i]) == fs2.facts(allowed[i]));
    }
}

/// The facts of every listed path agree between two snapshots.
pub open spec fn agree_on(fs1: FsSnapshot, fs2: FsSnapshot, ps: Seq<Seq<char>>) -> bool {
    forall|i: int| 0 <= i < ps.len() ==> fs1.facts(#[trigger] ps[i]) == fs2.facts(ps[i])
}

proof fn lemma_agree_split(fs1: FsSnapshot, fs2: FsSnapshot, a: Seq<Seq<char>>, b: Seq<Seq<char>>)
    requires
        agree_on(fs1, fs2, a + b),
    ensures
        agree_on(fs1, fs2, a),
        agree_on(fs1, fs2, b),
{
    assert forall|i: int| 0 <= i < a.len() implies fs1.facts(#[trigger] a[i]) == fs2.facts(a[i]) by {
        assert((a + b)[i] == a[i]);
    }
    assert forall|i: int| 0 <= i < b.len() implies fs1.facts(#[trigger] b[i]) == fs2.facts(b[i]) by {
        assert((a + b)[a.len() + i] == b[i]);
    }
}

proof fn lemma_agree_arg(fs1: FsSnapshot, fs2: FsSnapshot, args: Json, key: Seq<char>)
    requires
        agree_on(fs1, fs2, opt_arg(args, key)),
    ensures
        args.str_at(key) matches Some(v) ==> fs1.facts(v) == fs2.facts(v),
{
    if args.str_at(key) is Some {
        assert(opt_arg(args, key)[0] == args.str_at(key)->0);
    }
}

/// A decision consults the filesystem only about the inspected paths (see
/// [`inspected_paths`]): two snapshots with the same working directory that
/// agree on those decide every request alike.
pub proof fn law_decision_needs_only_inspected_paths(
    p: CompiledPolicy,
    name: Seq<char>,
    args: Json,
    fs1: FsSnapshot,
    fs2: FsSnapshot,
)
    requires
        fs1.cwd@ == fs2.cwd@,
        forall|x: Seq<char>| inspected_paths(p, name, args).contains(x) ==> #[trigger] fs1.facts(x) == fs2.facts(x),
    ensures
        tool_decision(p, name, args, fs1) == tool_decision(p, name, args, fs2),
{
    reveal_strlit("list_logs");
    reveal_strlit("read_log");
    reveal_strlit("tail_log");
    reveal_strlit("grep_log");
    reveal_strlit("run_tests");
    reveal_strlit("git_status");
    reveal_strlit("directory");
    reveal_strlit("path");
    reveal_strlit("command");
    reveal_strlit("working_directory");
    let reads = texts(p.read_paths@);
    let cmds = texts(p.allowed_commands@);
    let ins = inspected_paths(p, name, args);
    assert(agree_on(fs1, fs2, ins)) by {
        assert forall|i: int| 0 <= i < ins.len() implies fs1.facts(#[trigger] ins[i]) == fs2.facts(ins[i]) by {
            assert(ins.contains(ins[i]));
        }
    }
    if !p.tool_allowed(name) {
    } else if name == "list_logs"@ {
        lemma_agree_split(fs1, fs2, reads, opt_arg(args, "directory"@));
        lemma_agree_arg(fs1, fs2, args, "directory"@);
        if let Some(d) = args.str_at("directory"@) {
            lemma_prefixes_agree(fs1, fs2, d, reads);
        }
    } else if name == "read_log"@ || name == "tail_log"@ || name == "grep_log"@ {
        lemma_agree_split(fs1, fs2, reads, opt_arg(args, "path"@));
        lemma_agree_arg(fs1, fs2, args, "path"@);
        if let Some(f) = args.str_at("path"@) {
            lemma_prefixes_agree(fs1, fs2, f, reads);
        }
    } else if name == "run_tests"@ || (name == "git_status"@ && p.git_allowed) {
        let c_part = opt_arg(args, "command"@);
        let w_part = opt_arg(args, "working_directory"@);
        assert(ins == cmds + reads + c_part + w_part);
        lemma_agree_split(fs1, fs2, cmds + reads + c_part, w_part);
        lemma_agree_split(fs1, fs2, cmds + reads, c_part);
        lemma_agree_split(fs1, fs2, cmds, reads);
        lemma_agree_arg(fs1, fs2, args, "command"@);
        lemma_agree_arg(fs1, fs2, args, "working_directory"@);
        if let Some(c) = args.str_at("command"@) {
            lemma_commands_agree(fs1, fs2, c, cmds);
        }
        if let Some(w) = args.str_at("working_directory"@) {
            lemma_prefixes_agree(fs1, fs2, w, reads);
        }
    }
}

/// `run_tests` never runs a command that is not named by an absolute path:
/// such a command is refused before the allowlist is consulted.
pub proof fn law_relative_command_refused(p: CompiledPolicy, args: Json, fs: FsSnapshot)
    requires
        args.str_at("command"@) is Some,
        !is_absolute(args.str_at("command"@)->0),
    ensures
        run_tests_decision(p, args, fs) == Err::<Action, GatewayFault>(
            GatewayFault::CommandDenied(args.str_at("command"@)->0),
        ),
{
}

/// `tail_log` returns as many lines as the request asks for, up to 10000:
/// a count `k` in `lines` gives `k` lines when `k <= 10000` and 10000 above;
/// without a non-negative integer count it gives 100. So asking for more
/// never gives fewer.
pub proof fn law_tail_line_count(p: CompiledPolicy, args: Json, fs: FsSnapshot, more: Json)
    ensures
        tail_log_decision(p, args, fs) matches Ok(Action::TailFile(_f, n)) ==> {
            &&& (args.get("lines"@) matches Some(Json::UInt(k)) ==> (k <= 10000 ==> n == k) && (k > 10000 ==> n == 10000))
            &&& (!(args.get("lines"@) matches Some(Json::UInt(_k))) ==> n == 100)
        },
        (args.get("lines"@) matches Some(Json::UInt(k)) && (more.get("lines"@) matches Some(Json::UInt(m)) && k <= m))
            ==> tail_count(args) <= tail_count(more),
        tail_count(args) <= 10000,
{
}

} // verus!
