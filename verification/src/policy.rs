//! The compiled policy: the authoritative allow/deny decisions for tools,
//! paths and commands. Role text grants nothing.

use vstd::prelude::*;
use crate::manifest::{texts, AgentManifest};
use crate::paths::{components, path_eq, path_starts_with, resolve_spec, resolve_user_path, same_path, starts_with, Comp};
use crate::text::str_eq;

verus! {

/// What the filesystem says about one path: where it leads once symlinks and
/// `..` are resolved (`None` when that fails), and what it is.
pub struct PathFacts {
    pub path: String,
    pub canonical: Option<String>,
    pub is_dir: bool,
    pub is_file: bool,
    pub size: u64,
}

/// The facts about a path, as values.
pub struct Facts {
    pub canonical: Option<Seq<char>>,
    pub is_dir: bool,
    pub is_file: bool,
    pub size: u64,
}

impl PathFacts {
    pub open spec fn view(&self) -> (Seq<char>, Facts) {
        (
            self.path@,
            Facts {
                canonical: match self.canonical {
                    Some(c) => Some(c@),
                    None => None,
                },
                is_dir: self.is_dir,
                is_file: self.is_file,
                size: self.size,
            },
        )
    }
}

/// Facts of a path the filesystem does not know: it resolves nowhere and is
/// neither a file nor a directory.
pub open spec fn missing() -> Facts {
    Facts { canonical: None, is_dir: false, is_file: false, size: 0 }
}

/// The facts recorded for `p`: the first record for it, or [`missing`].
pub open spec fn facts_in(entries: Seq<(Seq<char>, Facts)>, p: Seq<char>) -> Facts
    decreases entries.len(),
{
    if entries.len() == 0 {
        missing()
    } else if entries[0].0 == p {
        entries[0].1
    } else {
        facts_in(entries.drop_first(), p)
    }
}

/// A snapshot of what the filesystem says about the paths a decision needs,
/// with the working directory that relative paths are taken against. A path
/// that it does not list counts as missing.
pub struct FsSnapshot {
    pub cwd: String,
    pub entries: Vec<PathFacts>,
}

impl FsSnapshot {
    pub open spec fn view(&self) -> Seq<(Seq<char>, Facts)> {
        Seq::new(self.entries.len() as nat, |i: int| self.entries[i]@)
    }

    pub open spec fn facts(&self, p: Seq<char>) -> Facts {
        facts_in(self@, p)
    }

    pub open spec fn canon(&self, p: Seq<char>) -> Option<Seq<char>> {
        self.facts(p).canonical
    }

    /// A snapshot with no records, for working directory `cwd`.
    pub fn new(cwd: &str) -> (r: FsSnapshot)
        ensures
            r@.len() == 0,
            r.cwd@ == cwd@,
    {
        FsSnapshot { cwd: crate::text::owned(cwd), entries: Vec::new() }
    }

    /// Records `facts`; earlier records for the same path take precedence.
    pub fn record(&mut self, facts: PathFacts)
        ensures
            final(self)@ == old(self)@.push(facts@),
            final(self).cwd == old(self).cwd,
    {
        self.entries.push(facts);
        assert(self@ =~= old(self)@.push(facts@));
    }

    /// The index of the record that holds the facts of `p`.
    fn find(&self, p: &str) -> (r: Option<usize>)
        ensures
            match r {
                Some(i) => i < self.entries.len() && self.facts(p@) == self.entries[i as int]@.1,
                None => self.facts(p@) == missing(),
            },
    {
        let ghost es = self@;
        let mut i: usize = 0;
        assert(es.skip(0) =~= es);
        while i < self.entries.len()
            invariant
                i <= self.entries.len(),
                es == self@,
                facts_in(es, p@) == facts_in(es.skip(i as int), p@),
            decreases self.entries.len() - i,
        {
            assert(es.skip(i as int)[0] == es[i as int]);
            assert(es.skip(i as int).drop_first() =~= es.skip(i + 1));
            if str_eq(self.entries[i].path.as_str(), p) {
                return Some(i);
            }
            i = i + 1;
        }
        assert(es.skip(i as int).len() == 0);
        None
    }

    /// Where `p` leads once resolved, if it resolves.
    pub fn canonical(&self, p: &str) -> (r: Option<String>)
        ensures
            match r {
                Some(c) => self.canon(p@) == Some(c@),
                None => self.canon(p@) is None,
            },
    {
        match self.find(p) {
            Some(i) => match &self.entries[i].canonical {
                Some(c) => Some(c.clone()),
                None => None,
            },
            None => None,
        }
    }

    pub fn is_dir(&self, p: &str) -> (r: bool)
        ensures
            r == self.facts(p@).is_dir,
    {
        match self.find(p) {
            Some(i) => self.entries[i].is_dir,
            None => false,
        }
    }

    pub fn is_file(&self, p: &str) -> (r: bool)
        ensures
            r == self.facts(p@).is_file,
    {
        match self.find(p) {
            Some(i) => self.entries[i].is_file,
            None => false,
        }
    }

    pub fn size(&self, p: &str) -> (r: u64)
        ensures
            r == self.facts(p@).size,
    {
        match self.find(p) {
            Some(i) => self.entries[i].size,
            None => 0,
        }
    }
}

/// `p` with `.` and `..` folded lexically against the working directory
/// (see [`resolve_spec`]), or `p` as written when that fails (an empty path).
pub open spec fn lexical(fs: FsSnapshot, p: Seq<char>) -> Seq<char> {
    match resolve_spec(p, fs.cwd@) {
        Ok(g) => g,
        Err(_) => p,
    }
}

/// What a prefix is compared against: where it resolves, or its folded form.
pub open spec fn prefix_target(fs: FsSnapshot, prefix: Seq<char>) -> Seq<char> {
    match fs.canon(prefix) {
        Some(c) => c,
        None => lexical(fs, prefix),
    }
}

/// `path` lies under one of `prefixes`. When `path` resolves, where it leads
/// is compared with where each prefix leads (its folded form if it does not
/// resolve); when it does not resolve, its `..`-folded form is compared with
/// the folded form of each prefix.
pub open spec fn under_any_prefix(fs: FsSnapshot, path: Seq<char>, prefixes: Seq<Seq<char>>) -> bool {
    match fs.canon(path) {
        None => exists|i: int|
            0 <= i < prefixes.len() && starts_with(lexical(fs, path), lexical(fs, #[trigger] prefixes[i])),
        Some(c) => exists|i: int|
            0 <= i < prefixes.len() && starts_with(c, prefix_target(fs, #[trigger] prefixes[i])),
    }
}

/// `allowed` entry `a` admits command `cmd`.
pub open spec fn admits_command(fs: FsSnapshot, cmd: Seq<char>, a: Seq<char>) -> bool {
    match fs.canon(cmd) {
        None => same_path(cmd, a),
        Some(c) => match fs.canon(a) {
            Some(ca) => same_path(ca, c),
            None => same_path(a, cmd),
        },
    }
}

/// `cmd` is one of the allowlisted executables; an empty allowlist admits nothing.
pub open spec fn command_permitted(fs: FsSnapshot, cmd: Seq<char>, allowed: Seq<Seq<char>>) -> bool {
    allowed.len() > 0 && exists|i: int| 0 <= i < allowed.len() && admits_command(fs, cmd, #[trigger] allowed[i])
}

/// Authoritative runtime policy compiled from a manifest.
pub struct CompiledPolicy {
    pub agent_name: String,
    /// Each allowed tool once.
    pub allowed_tools: Vec<String>,
    pub read_paths: Vec<String>,
    pub write_paths: Vec<String>,
    pub allowed_commands: Vec<String>,
    pub network_allowed: bool,
    pub git_allowed: bool,
    pub max_runtime_seconds: u64,
    pub max_memory_mb: u64,
    pub max_tool_calls: u32,
}

/// Two manifests grant the same capabilities (names, descriptions and roles aside).
pub open spec fn same_capabilities(m1: AgentManifest, m2: AgentManifest) -> bool {
    &&& texts(m1.capabilities.tools@) == texts(m2.capabilities.tools@)
    &&& texts(m1.capabilities.filesystem.read@) == texts(m2.capabilities.filesystem.read@)
    &&& texts(m1.capabilities.filesystem.write@) == texts(m2.capabilities.filesystem.write@)
    &&& texts(m1.capabilities.commands.allow@) == texts(m2.capabilities.commands.allow@)
    &&& m1.capabilities.network == m2.capabilities.network
    &&& m1.capabilities.git == m2.capabilities.git
}

/// The policy that `compile` makes of `m`, field by field.
pub open spec fn compiled_from(p: CompiledPolicy, m: AgentManifest) -> bool {
    &&& p.agent_name@ == m.name@
    &&& texts(p.allowed_tools@).to_set() == texts(m.capabilities.tools@).to_set()
    &&& texts(p.allowed_tools@).no_duplicates()
    &&& texts(p.read_paths@) == texts(m.capabilities.filesystem.read@)
    &&& texts(p.write_paths@) == texts(m.capabilities.filesystem.write@)
    &&& texts(p.allowed_commands@) == texts(m.capabilities.commands.allow@)
    &&& p.network_allowed == m.capabilities.network
    &&& p.git_allowed == m.capabilities.git
    &&& p.max_runtime_seconds == m.limits.max_runtime_seconds
    &&& p.max_memory_mb == m.limits.max_memory_mb
    &&& p.max_tool_calls == m.limits.max_tool_calls
}

/// Whether `name` is in `v`.
pub fn contains_text(v: &Vec<String>, name: &str) -> (r: bool)
    ensures
        r == texts(v@).contains(name@),
{
    let mut i: usize = 0;
    while i < v.len()
        invariant
            i <= v.len(),
            forall|j: int| 0 <= j < i ==> v@[j]@ != name@,
        decreases v.len() - i,
    {
        if str_eq(v[i].as_str(), name) {
            assert(texts(v@)[i as int] == name@);
            return true;
        }
        i = i + 1;
    }
    assert(!texts(v@).contains(name@)) by {
        if texts(v@).contains(name@) {
            let k = choose|k: int| 0 <= k < texts(v@).len() && texts(v@)[k] == name@;
            assert(v@[k]@ == name@);
        }
    }
    false
}

/// A copy of `v`, string by string.
pub fn copy_texts(v: &Vec<String>) -> (r: Vec<String>)
    ensures
        texts(r@) == texts(v@),
{
    let mut out: Vec<String> = Vec::new();
    let mut i: usize = 0;
    while i < v.len()
        invariant
            i <= v.len(),
            texts(out@) == texts(v@).take(i as int),
        decreases v.len() - i,
    {
        let ghost before = out@;
        let t = v[i].clone();
        out.push(t);
        assert(out@ == before.push(t));
        assert(texts(out@) =~= texts(before).push(v@[i as int]@));
        assert(texts(v@).take(i + 1) =~= texts(v@).take(i as int).push(v@[i as int]@));
        i = i + 1;
    }
    assert(texts(v@).take(v.len() as int) =~= texts(v@));
    out
}

/// The distinct strings of `v`, each once, in order of first occurrence.
pub fn distinct_texts(v: &Vec<String>) -> (r: Vec<String>)
    ensures
        texts(r@).to_set() == texts(v@).to_set(),
        texts(r@).no_duplicates(),
{
    let mut out: Vec<String> = Vec::new();
    let mut i: usize = 0;
    while i < v.len()
        invariant
            i <= v.len(),
            texts(out@).to_set() == texts(v@).take(i as int).to_set(),
            texts(out@).no_duplicates(),
        decreases v.len() - i,
    {
        let ghost before = texts(out@);
        let ghost x = v@[i as int]@;
        if !contains_text(&out, v[i].as_str()) {
            let ghost prev = out@;
            let t = v[i].clone();
            out.push(t);
            assert(out@ == prev.push(t));
            assert(texts(out@) =~= before.push(x));
            proof {
                before.lemma_push_to_set_commute(x);
                assert forall|a: int, b: int| 0 <= a < texts(out@).len() && 0 <= b < texts(out@).len() && a != b
                    implies texts(out@)[a] != texts(out@)[b] by {
                    if a == before.len() as int {
                        assert(before.contains(texts(out@)[b]));
                    } else if b == before.len() as int {
                        assert(before.contains(texts(out@)[a]));
                    }
                }
            }
        } else {
            assert(before.to_set().contains(x));
            assert(before.to_set().insert(x) =~= before.to_set());
        }
        proof {
            assert(texts(v@).take(i + 1) =~= texts(v@).take(i as int).push(x));
            texts(v@).take(i as int).lemma_push_to_set_commute(x);
        }
        i = i + 1;
    }
    assert(texts(v@).take(v.len() as int) =~= texts(v@));
    out
}

/// `p` folded against the snapshot's working directory (see [`lexical`]).
fn lexical_form(p: &str, fs: &FsSnapshot) -> (r: String)
    ensures
        r@ == lexical(*fs, p@),
{
    match resolve_user_path(p, fs.cwd.as_str()) {
        Ok(g) => g,
        Err(_) => crate::text::owned(p),
    }
}

impl CompiledPolicy {
    /// Copies the manifest's capabilities and limits into a policy; the tool
    /// list becomes a set.
    pub fn compile(manifest: &AgentManifest) -> (p: CompiledPolicy)
        ensures
            compiled_from(p, *manifest),
    {
        CompiledPolicy {
            agent_name: manifest.name.clone(),
            allowed_tools: distinct_texts(&manifest.capabilities.tools),
            read_paths: copy_texts(&manifest.capabilities.filesystem.read),
            write_paths: copy_texts(&manifest.capabilities.filesystem.write),
            allowed_commands: copy_texts(&manifest.capabilities.commands.allow),
            network_allowed: manifest.capabilities.network,
            git_allowed: manifest.capabilities.git,
            max_runtime_seconds: manifest.limits.max_runtime_seconds,
            max_memory_mb: manifest.limits.max_memory_mb,
            max_tool_calls: manifest.limits.max_tool_calls,
        }
    }

    /// A copy of the policy.
    pub fn duplicate(&self) -> (r: CompiledPolicy)
        ensures
            r.same_as(*self),
    {
        CompiledPolicy {
            agent_name: self.agent_name.clone(),
            allowed_tools: copy_texts(&self.allowed_tools),
            read_paths: copy_texts(&self.read_paths),
            write_paths: copy_texts(&self.write_paths),
            allowed_commands: copy_texts(&self.allowed_commands),
            network_allowed: self.network_allowed,
            git_allowed: self.git_allowed,
            max_runtime_seconds: self.max_runtime_seconds,
            max_memory_mb: self.max_memory_mb,
            max_tool_calls: self.max_tool_calls,
        }
    }

    /// Two policies decide alike: every field holds the same values.
    pub open spec fn same_as(self, other: CompiledPolicy) -> bool {
        &&& self.agent_name@ == other.agent_name@
        &&& texts(self.allowed_tools@) == texts(other.allowed_tools@)
        &&& texts(self.read_paths@) == texts(other.read_paths@)
        &&& texts(self.write_paths@) == texts(other.write_paths@)
        &&& texts(self.allowed_commands@) == texts(other.allowed_commands@)
        &&& self.network_allowed == other.network_allowed
        &&& self.git_allowed == other.git_allowed
        &&& self.max_runtime_seconds == other.max_runtime_seconds
        &&& self.max_memory_mb == other.max_memory_mb
        &&& self.max_tool_calls == other.max_tool_calls
    }

    pub open spec fn tool_allowed(self, name: Seq<char>) -> bool {
        texts(self.allowed_tools@).contains(name)
    }

    pub open spec fn read_allowed(self, fs: FsSnapshot, path: Seq<char>) -> bool {
        under_any_prefix(fs, path, texts(self.read_paths@))
    }

    pub open spec fn write_allowed(self, fs: FsSnapshot, path: Seq<char>) -> bool {
        under_any_prefix(fs, path, texts(self.write_paths@))
    }

    pub open spec fn command_ok(self, fs: FsSnapshot, cmd: Seq<char>) -> bool {
        command_permitted(fs, cmd, texts(self.allowed_commands@))
    }

    /// Whether the policy lists tool `name`.
    pub fn allows_tool(&self, name: &str) -> (r: bool)
        ensures
            r == self.tool_allowed(name@),
    {
        contains_text(&self.allowed_tools, name)
    }

    /// Whether `path` may be read (see [`under_any_prefix`]).
    pub fn path_allowed_for_read(&self, path: &str, fs: &FsSnapshot) -> (r: bool)
        ensures
            r == self.read_allowed(*fs, path@),
    {
        Self::path_under_any_prefix(path, &self.read_paths, fs)
    }

    /// Whether `path` may be written (see [`under_any_prefix`]).
    pub fn path_allowed_for_write(&self, path: &str, fs: &FsSnapshot) -> (r: bool)
        ensures
            r == self.write_allowed(*fs, path@),
    {
        Self::path_under_any_prefix(path, &self.write_paths, fs)
    }

    /// Whether `path` lies under one of `prefixes` (see [`under_any_prefix`]).
    pub fn path_under_any_prefix(path: &str, prefixes: &Vec<String>, fs: &FsSnapshot) -> (r: bool)
        ensures
            r == under_any_prefix(*fs, path@, texts(prefixes@)),
    {
        let ghost ps = texts(prefixes@);
        match fs.canonical(path) {
            None => {
                let folded = lexical_form(path, fs);
                let mut i: usize = 0;
                while i < prefixes.len()
                    invariant
                        i <= prefixes.len(),
                        ps == texts(prefixes@),
                        fs.canon(path@) is None,
                        folded@ == lexical(*fs, path@),
                        forall|j: int| 0 <= j < i ==> !starts_with(folded@, lexical(*fs, #[trigger] ps[j])),
                    decreases prefixes.len() - i,
                {
                    let fp = lexical_form(prefixes[i].as_str(), fs);
                    if path_starts_with(folded.as_str(), fp.as_str()) {
                        assert(starts_with(folded@, lexical(*fs, ps[i as int])));
                        return true;
                    }
                    i = i + 1;
                }
                false
            },
            Some(c) => {
                let mut i: usize = 0;
                while i < prefixes.len()
                    invariant
                        i <= prefixes.len(),
                        ps == texts(prefixes@),
                        fs.canon(path@) == Some(c@),
                        forall|j: int|
                            0 <= j < i ==> !starts_with(c@, prefix_target(*fs, #[trigger] ps[j])),
                    decreases prefixes.len() - i,
                {
                    let hit = match fs.canonical(prefixes[i].as_str()) {
                        Some(cp) => path_starts_with(c.as_str(), cp.as_str()),
                        None => {
                            let fp = lexical_form(prefixes[i].as_str(), fs);
                            path_starts_with(c.as_str(), fp.as_str())
                        },
                    };
                    if hit {
                        assert(starts_with(c@, prefix_target(*fs, ps[i as int])));
                        return true;
                    }
                    i = i + 1;
                }
                false
            },
        }
    }

    /// Whether `cmd` is an allowlisted executable (see [`command_permitted`]).
    pub fn command_allowed(&self, cmd: &str, fs: &FsSnapshot) -> (r: bool)
        ensures
            r == self.command_ok(*fs, cmd@),
    {
        let ghost al = texts(self.allowed_commands@);
        if self.allowed_commands.len() == 0 {
            return false;
        }
        let canonical = fs.canonical(cmd);
        let mut i: usize = 0;
        while i < self.allowed_commands.len()
            invariant
                i <= self.allowed_commands.len(),
                al == texts(self.allowed_commands@),
                match canonical {
                    Some(c) => fs.canon(cmd@) == Some(c@),
                    None => fs.canon(cmd@) is None,
                },
                forall|j: int| 0 <= j < i ==> !admits_command(*fs, cmd@, #[trigger] al[j]),
            decreases self.allowed_commands.len() - i,
        {
            let a = self.allowed_commands[i].as_str();
            let hit = match &canonical {
                None => path_eq(cmd, a),
                Some(c) => match fs.canonical(a) {
                    Some(ca) => path_eq(ca.as_str(), c.as_str()),
                    None => path_eq(a, cmd),
                },
            };
            if hit {
                assert(admits_command(*fs, cmd@, al[i as int]));
                return true;
            }
            i = i + 1;
        }
        false
    }
}

/// A path that does not resolve is checked in its `..`-folded form: it is
/// allowed exactly when that form, which holds no `.` or `..`, lies under the
/// folded form of one of the prefixes, whatever its text begins with.
pub proof fn law_missing_path_checked_folded(fs: FsSnapshot, path: Seq<char>, prefixes: Seq<Seq<char>>)
    requires
        fs.canon(path) is None,
    ensures
        under_any_prefix(fs, path, prefixes) <==> exists|i: int|
            0 <= i < prefixes.len() && starts_with(lexical(fs, path), lexical(fs, #[trigger] prefixes[i])),
        resolve_spec(path, fs.cwd@) matches Ok(g) ==> {
            &&& lexical(fs, path) == g
            &&& forall|i: int| 0 <= i < components(g).len()
                ==> #[trigger] components(g)[i] != Comp::Parent && components(g)[i] != Comp::Cur
        },
{
    crate::paths::law_resolved_path_is_normal(path, fs.cwd@);
}

/// Any listed prefix admits what lies under it, wherever it stands in the
/// list: a path that resolves to `c` is allowed when some entry resolves to a
/// leading part of `c`; a path that does not resolve is allowed when its
/// `..`-folded form lies under the folded form of some entry.
pub proof fn law_any_listed_prefix_admits(fs: FsSnapshot, path: Seq<char>, prefixes: Seq<Seq<char>>, i: int)
    requires
        0 <= i < prefixes.len(),
    ensures
        (fs.canon(path) matches Some(c) && fs.canon(prefixes[i]) matches Some(d) && starts_with(c, d))
            ==> under_any_prefix(fs, path, prefixes),
        (fs.canon(path) is None && (resolve_spec(path, fs.cwd@) matches Ok(g)
            && resolve_spec(prefixes[i], fs.cwd@) matches Ok(h) && starts_with(g, h)))
            ==> under_any_prefix(fs, path, prefixes),
{
    if fs.canon(path) is Some && fs.canon(prefixes[i]) is Some {
        assert(prefix_target(fs, prefixes[i]) == fs.canon(prefixes[i])->0);
    }
    if fs.canon(path) is None && resolve_spec(path, fs.cwd@) is Ok && resolve_spec(prefixes[i], fs.cwd@) is Ok {
        assert(lexical(fs, prefixes[i]) == resolve_spec(prefixes[i], fs.cwd@)->Ok_0);
    }
}

/// Permission only grows with the prefix list: what some prefixes allow,
/// they still allow with more prefixes before or after them; an empty list
/// allows nothing.
pub proof fn law_prefix_list_monotone(fs: FsSnapshot, path: Seq<char>, ps: Seq<Seq<char>>, qs: Seq<Seq<char>>)
    ensures
        under_any_prefix(fs, path, ps) ==> under_any_prefix(fs, path, qs + ps),
        under_any_prefix(fs, path, ps) ==> under_any_prefix(fs, path, ps + qs),
        !under_any_prefix(fs, path, Seq::<Seq<char>>::empty()),
{
    if under_any_prefix(fs, path, ps) {
        match fs.canon(path) {
            None => {
                let i = choose|i: int|
                    0 <= i < ps.len() && starts_with(lexical(fs, path), lexical(fs, #[trigger] ps[i]));
                assert((qs + ps)[qs.len() + i] == ps[i]);
                assert((ps + qs)[i] == ps[i]);
            },
            Some(c) => {
                let i = choose|i: int| 0 <= i < ps.len() && starts_with(c, prefix_target(fs, #[trigger] ps[i]));
                assert((qs + ps)[qs.len() + i] == ps[i]);
                assert((ps + qs)[i] == ps[i]);
            },
        }
    }
}

/// Any allowlist entry admits its command, wherever it stands in the list:
/// a command that does not resolve is admitted when it is the same path as
/// some entry; one that resolves is admitted when some entry resolves to the
/// same place (or, not resolving, is the same path as the command).
pub proof fn law_any_allowlist_entry_admits(fs: FsSnapshot, cmd: Seq<char>, allowed: Seq<Seq<char>>, i: int)
    requires
        0 <= i < allowed.len(),
    ensures
        (fs.canon(cmd) is None && same_path(cmd, allowed[i])) ==> command_permitted(fs, cmd, allowed),
        (fs.canon(cmd) matches Some(c) && fs.canon(allowed[i]) matches Some(a) && same_path(a, c))
            ==> command_permitted(fs, cmd, allowed),
        (fs.canon(cmd) is Some && fs.canon(allowed[i]) is None && same_path(allowed[i], cmd))
            ==> command_permitted(fs, cmd, allowed),
{
    if (fs.canon(cmd) is None && same_path(cmd, allowed[i]))
        || (fs.canon(cmd) is Some && fs.canon(allowed[i]) is Some && same_path(fs.canon(allowed[i])->0, fs.canon(cmd)->0))
        || (fs.canon(cmd) is Some && fs.canon(allowed[i]) is None && same_path(allowed[i], cmd)) {
        assert(admits_command(fs, cmd, allowed[i]));
    }
}

/// The allowlist only grows what it admits: a command admitted by some
/// entries is still admitted with more entries before or after them; an
/// empty allowlist admits nothing.
pub proof fn law_allowlist_monotone(fs: FsSnapshot, cmd: Seq<char>, al: Seq<Seq<char>>, qs: Seq<Seq<char>>)
    ensures
        command_permitted(fs, cmd, al) ==> command_permitted(fs, cmd, qs + al),
        command_permitted(fs, cmd, al) ==> command_permitted(fs, cmd, al + qs),
        !command_permitted(fs, cmd, Seq::<Seq<char>>::empty()),
{
    if command_permitted(fs, cmd, al) {
        let i = choose|i: int| 0 <= i < al.len() && admits_command(fs, cmd, #[trigger] al[i]);
        assert((qs + al)[qs.len() + i] == al[i]);
        assert((al + qs)[i] == al[i]);
    }
}

} // verus!
