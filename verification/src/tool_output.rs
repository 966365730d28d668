//! What each tool reports once its action has run: the JSON results built
//! from directory listings, file text and process output, and the policy-
//! filtered walk over a directory tree that `grep_log` searches.

use vstd::prelude::*;
use crate::json::{array_of, Json, JsonValue, ObjectBuilder};
use crate::manifest::texts;
use crate::policy::{CompiledPolicy, FsSnapshot};
use crate::text::{chars_of, contains_chars, contains_seq, lines, split_lines, string_of};

verus! {

/// The text of an optional string.
pub open spec fn opt_text(o: Option<String>) -> Option<Seq<char>> {
    match o {
        Some(s) => Some(s@),
        None => None,
    }
}

/// One entry of a directory listing.
pub struct DirEntryInfo {
    pub name: String,
    pub is_file: bool,
    pub is_dir: bool,
}

pub open spec fn entry_json(e: DirEntryInfo) -> Json {
    Json::Object(
        seq![
            ("is_dir"@, Json::Bool(e.is_dir)),
            ("is_file"@, Json::Bool(e.is_file)),
            ("name"@, Json::Str(e.name@)),
        ],
    )
}

/// The `list_logs` result for `directory` and its entries.
pub open spec fn list_logs_json(directory: Seq<char>, entries: Seq<DirEntryInfo>) -> Json {
    Json::Object(
        seq![
            ("directory"@, Json::Str(directory)),
            ("entries"@, Json::Array(entries.map_values(|e: DirEntryInfo| entry_json(e)))),
        ],
    )
}

/// The `read_log` result.
pub open spec fn read_log_json(path: Seq<char>, content: Seq<char>) -> Json {
    Json::Object(seq![("content"@, Json::Str(content)), ("path"@, Json::Str(path))])
}

/// The last `n` lines of `text` (all of them when there are fewer).
pub open spec fn tail_lines(text: Seq<char>, n: nat) -> Seq<Seq<char>> {
    let ls = lines(text);
    if n >= ls.len() {
        ls
    } else {
        ls.skip(ls.len() - n)
    }
}

pub open spec fn str_array(ss: Seq<Seq<char>>) -> Json {
    Json::Array(ss.map_values(|s: Seq<char>| Json::Str(s)))
}

/// The `tail_log` result.
pub open spec fn tail_log_json(path: Seq<char>, text: Seq<char>, n: nat) -> Json {
    let t = tail_lines(text, n);
    Json::Object(
        seq![
            ("line_count"@, Json::UInt(t.len() as u64)),
            ("lines"@, str_array(t)),
            ("path"@, Json::Str(path)),
        ],
    )
}

/// A match record: 1-based line number and line text, plus the file when
/// searching a directory.
pub open spec fn match_json(file: Option<Seq<char>>, number: nat, line: Seq<char>) -> Json {
    match file {
        Some(f) => Json::Object(
            seq![
                ("file"@, Json::Str(f)),
                ("line"@, Json::UInt(number as u64)),
                ("text"@, Json::Str(line)),
            ],
        ),
        None => Json::Object(seq![("line"@, Json::UInt(number as u64)), ("text"@, Json::Str(line))]),
    }
}

/// Match records for the first `n` lines of `ls` that contain `pattern`.
pub open spec fn line_matches(file: Option<Seq<char>>, ls: Seq<Seq<char>>, pattern: Seq<char>, n: nat) -> Seq<Json>
    decreases n,
{
    if n == 0 || n > ls.len() {
        seq![]
    } else {
        let before = line_matches(file, ls, pattern, (n - 1) as nat);
        if contains_seq(ls[n - 1], pattern) {
            before.push(match_json(file, n, ls[n - 1]))
        } else {
            before
        }
    }
}

/// All match records of `text`.
pub open spec fn text_matches(file: Option<Seq<char>>, text: Seq<char>, pattern: Seq<char>) -> Seq<Json> {
    line_matches(file, lines(text), pattern, lines(text).len())
}

/// The `grep_log` result for a single file.
pub open spec fn grep_file_json(path: Seq<char>, pattern: Seq<char>, text: Seq<char>) -> Json {
    Json::Object(
        seq![
            ("matches"@, Json::Array(text_matches(None, text, pattern))),
            ("path"@, Json::Str(path)),
            ("pattern"@, Json::Str(pattern)),
        ],
    )
}

/// A file that was read during a directory search.
pub struct SearchedFile {
    pub path: String,
    pub text: String,
}

/// Match records of the first `n` files, file after file.
pub open spec fn files_matches(files: Seq<SearchedFile>, pattern: Seq<char>, n: nat) -> Seq<Json>
    decreases n,
{
    if n == 0 || n > files.len() {
        seq![]
    } else {
        files_matches(files, pattern, (n - 1) as nat) + text_matches(
            Some(files[n - 1].path@),
            files[n - 1].text@,
            pattern,
        )
    }
}

/// The `grep_log` result for a directory.
pub open spec fn grep_dir_json(pattern: Seq<char>, files: Seq<SearchedFile>) -> Json {
    Json::Object(
        seq![
            ("matches"@, Json::Array(files_matches(files, pattern, files.len()))),
            ("pattern"@, Json::Str(pattern)),
        ],
    )
}

/// An exit status as JSON: the code, or `null` when the process had none.
pub open spec fn status_json(status: Option<i32>) -> Json {
    match status {
        Some(s) => if s >= 0 {
            Json::UInt(s as u64)
        } else {
            Json::NegInt(s as i64)
        },
        None => Json::Null,
    }
}

/// The `run_tests` result.
pub open spec fn run_tests_json(
    command: Seq<char>,
    working_directory: Seq<char>,
    args: Seq<Seq<char>>,
    status: Option<i32>,
    stdout: Seq<char>,
    stderr: Seq<char>,
) -> Json {
    Json::Object(
        seq![
            ("args"@, str_array(args)),
            ("command"@, Json::Str(command)),
            ("status"@, status_json(status)),
            ("stderr"@, Json::Str(stderr)),
            ("stdout"@, Json::Str(stdout)),
            ("working_directory"@, Json::Str(working_directory)),
        ],
    )
}

/// The `git_status` result.
pub open spec fn git_status_json(
    working_directory: Seq<char>,
    status: Option<i32>,
    stdout: Seq<char>,
    stderr: Seq<char>,
) -> Json {
    Json::Object(
        seq![
            ("status"@, status_json(status)),
            ("stderr"@, Json::Str(stderr)),
            ("stdout"@, Json::Str(stdout)),
            ("working_directory"@, Json::Str(working_directory)),
        ],
    )
}

// ---------------------------------------------------------------- exec

fn status_value(status: Option<i32>) -> (r: JsonValue)
    ensures
        r@ == status_json(status),
{
    match status {
        Some(s) => if s >= 0 {
            JsonValue::UInt(s as u64)
        } else {
            JsonValue::NegInt(s as i64)
        },
        None => JsonValue::Null,
    }
}

fn string_array(ss: &Vec<String>) -> (r: JsonValue)
    ensures
        r@ == str_array(texts(ss@)),
{
    let mut items: Vec<JsonValue> = Vec::new();
    let mut i: usize = 0;
    while i < ss.len()
        invariant
            i <= ss.len(),
            items@.len() == i,
            forall|j: int| 0 <= j < i ==> #[trigger] items@[j]@ == Json::Str(ss@[j]@),
        decreases ss.len() - i,
    {
        items.push(JsonValue::Str(ss[i].clone()));
        i = i + 1;
    }
    let r = array_of(items);
    assert(r@->Array_0 =~= texts(ss@).map_values(|s: Seq<char>| Json::Str(s)));
    r
}

fn chars_array(ss: &Vec<Vec<char>>, from: usize) -> (r: JsonValue)
    requires
        from <= ss@.len(),
    ensures
        r@ == str_array(Seq::new(ss@.len(), |i: int| ss@[i]@).skip(from as int)),
{
    let mut items: Vec<JsonValue> = Vec::new();
    let mut i: usize = from;
    while i < ss.len()
        invariant
            from <= i <= ss.len(),
            items@.len() == i - from,
            forall|j: int| 0 <= j < i - from ==> #[trigger] items@[j]@ == Json::Str(ss@[j + from]@),
        decreases ss.len() - i,
    {
        items.push(JsonValue::Str(string_of(ss[i].as_slice())));
        i = i + 1;
    }
    let r = array_of(items);
    assert(r@->Array_0 =~= Seq::new(ss@.len(), |i: int| ss@[i]@).skip(from as int).map_values(|s: Seq<char>| Json::Str(s)));
    r
}

/// The `list_logs` result.
pub fn list_logs_output(directory: &str, entries: &Vec<DirEntryInfo>) -> (r: JsonValue)
    ensures
        r@ == list_logs_json(directory@, entries@),
{
    let mut items: Vec<JsonValue> = Vec::new();
    let mut i: usize = 0;
    while i < entries.len()
        invariant
            i <= entries.len(),
            items@.len() == i,
            forall|j: int| 0 <= j < i ==> #[trigger] items@[j]@ == entry_json(entries@[j]),
        decreases entries.len() - i,
    {
        let mut b = ObjectBuilder::new();
        b.add("is_dir", JsonValue::Bool(entries[i].is_dir));
        b.add("is_file", JsonValue::Bool(entries[i].is_file));
        b.add("name", JsonValue::Str(entries[i].name.clone()));
        assert(b.members() =~= entry_json(entries@[i as int])->Object_0);
        let o = b.build();
        assert(o@ =~= entry_json(entries@[i as int]));
        items.push(o);
        i = i + 1;
    }
    let arr = array_of(items);
    assert(arr@->Array_0 =~= entries@.map_values(|e: DirEntryInfo| entry_json(e)));
    let mut b = ObjectBuilder::new();
    b.add("directory", JsonValue::string(directory));
    b.add("entries", arr);
    assert(b.members() =~= list_logs_json(directory@, entries@)->Object_0);
    let r = b.build();
    assert(r@ =~= list_logs_json(directory@, entries@));
    r
}

/// The `read_log` result.
pub fn read_log_output(path: &str, content: &str) -> (r: JsonValue)
    ensures
        r@ == read_log_json(path@, content@),
{
    let mut b = ObjectBuilder::new();
    b.add("content", JsonValue::string(content));
    b.add("path", JsonValue::string(path));
    assert(b.members() =~= seq![("content"@, Json::Str(content@)), ("path"@, Json::Str(path@))]);
    let r = b.build();
    assert(r@ =~= read_log_json(path@, content@));
    r
}

/// The `tail_log` result: the last `n` lines of `text`.
pub fn tail_log_output(path: &str, text: &str, n: usize) -> (r: JsonValue)
    ensures
        r@ == tail_log_json(path@, text@, n as nat),
{
    let cs = chars_of(text);
    let ls = split_lines(&cs);
    let ghost lv = Seq::new(ls@.len(), |i: int| ls@[i]@);
    assert(lv =~= lines(text@));
    let start: usize = if n >= ls.len() { 0 } else { ls.len() - n };
    let arr = chars_array(&ls, start);
    let count = ls.len() - start;
    proof {
        if n >= ls.len() {
            assert(lv.skip(0) =~= lv);
        }
        assert(tail_lines(text@, n as nat) =~= lv.skip(start as int));
    }
    let mut b = ObjectBuilder::new();
    b.add("line_count", JsonValue::UInt(count as u64));
    b.add("lines", arr);
    b.add("path", JsonValue::string(path));
    assert(b.members() =~= tail_log_json(path@, text@, n as nat)->Object_0);
    let r = b.build();
    assert(r@ =~= tail_log_json(path@, text@, n as nat));
    r
}

fn match_value(file: &Option<String>, number: usize, line: &Vec<char>) -> (r: JsonValue)
    ensures
        r@ == match_json(
            opt_text(*file),
            number as nat,
            line@,
        ),
{
    let mut b = ObjectBuilder::new();
    match file {
        Some(f) => b.add("file", JsonValue::Str(f.clone())),
        None => {},
    }
    b.add("line", JsonValue::UInt(number as u64));
    b.add("text", JsonValue::Str(string_of(line.as_slice())));
    assert(b.members() =~= match_json(
        opt_text(*file),
        number as nat,
        line@,
    )->Object_0);
    let r = b.build();
    assert(r@ =~= match_json(
        opt_text(*file),
        number as nat,
        line@,
    ));
    r
}

/// Appends the match records of `text` to `out`.
fn push_text_matches(out: &mut Vec<JsonValue>, file: &Option<String>, text: &str, pattern: &Vec<char>)
    ensures
        Seq::new(final(out)@.len(), |i: int| final(out)@[i]@) == Seq::new(old(out)@.len(), |i: int| old(out)@[i]@)
            + text_matches(
            opt_text(*file),
            text@,
            pattern@,
        ),
{
    let ghost fv = opt_text(*file);
    let ghost start = Seq::new(out@.len(), |i: int| out@[i]@);
    let cs = chars_of(text);
    let ls = split_lines(&cs);
    let ghost lv = Seq::new(ls@.len(), |i: int| ls@[i]@);
    assert(lv =~= lines(text@));
    let mut i: usize = 0;
    assert(Seq::new(out@.len(), |i: int| out@[i]@) =~= start + line_matches(fv, lv, pattern@, 0));
    while i < ls.len()
        invariant
            i <= ls.len(),
            lv == Seq::new(ls@.len(), |i: int| ls@[i]@),
            fv == opt_text(*file),
            Seq::new(out@.len(), |i: int| out@[i]@) == start + line_matches(fv, lv, pattern@, i as nat),
        decreases ls.len() - i,
    {
        let ghost before = Seq::new(out@.len(), |i: int| out@[i]@);
        let hit = contains_chars(&ls[i], pattern);
        assert(lv[i as int] == ls@[i as int]@);
        if hit {
            let m = match_value(file, i + 1, &ls[i]);
            let ghost mv = m@;
            assert(mv == match_json(fv, (i + 1) as nat, lv[i as int]));
            let ghost prev = out@;
            out.push(m);
            assert(out@.len() == prev.len() + 1);
            assert(out@[prev.len() as int]@ == mv);
            assert(forall|k: int| 0 <= k < prev.len() ==> out@[k] == prev[k]);
            assert(Seq::new(out@.len(), |i: int| out@[i]@) =~= before.push(match_json(fv, (i + 1) as nat, lv[i as int])));
        } else {
            assert(Seq::new(out@.len(), |i: int| out@[i]@) =~= before);
        }
        assert(line_matches(fv, lv, pattern@, (i + 1) as nat) == if contains_seq(lv[i as int], pattern@) {
            line_matches(fv, lv, pattern@, i as nat).push(match_json(fv, (i + 1) as nat, lv[i as int]))
        } else {
            line_matches(fv, lv, pattern@, i as nat)
        });
        assert(Seq::new(out@.len(), |i: int| out@[i]@) =~= start + line_matches(fv, lv, pattern@, (i + 1) as nat));
        i = i + 1;
    }
}

/// The `grep_log` result for one file.
pub fn grep_file_output(path: &str, pattern: &str, text: &str) -> (r: JsonValue)
    ensures
        r@ == grep_file_json(path@, pattern@, text@),
{
    let pat = chars_of(pattern);
    let mut items: Vec<JsonValue> = Vec::new();
    assert(Seq::new(items@.len(), |i: int| items@[i]@) =~= Seq::<Json>::empty());
    push_text_matches(&mut items, &None, text, &pat);
    let arr = array_of(items);
    let mut b = ObjectBuilder::new();
    b.add("matches", arr);
    b.add("path", JsonValue::string(path));
    b.add("pattern", JsonValue::string(pattern));
    assert(b.members() =~= grep_file_json(path@, pattern@, text@)->Object_0);
    let r = b.build();
    assert(r@ =~= grep_file_json(path@, pattern@, text@));
    r
}

/// The `grep_log` result for the files of a directory, in search order.
pub fn grep_dir_output(pattern: &str, files: &Vec<SearchedFile>) -> (r: JsonValue)
    ensures
        r@ == grep_dir_json(pattern@, files@),
{
    let pat = chars_of(pattern);
    let mut items: Vec<JsonValue> = Vec::new();
    let mut i: usize = 0;
    assert(Seq::new(items@.len(), |i: int| items@[i]@) =~= files_matches(files@, pattern@, 0));
    while i < files.len()
        invariant
            i <= files.len(),
            pat@ == pattern@,
            Seq::new(items@.len(), |i: int| items@[i]@) == files_matches(files@, pattern@, i as nat),
        decreases files.len() - i,
    {
        let f = Some(files[i].path.clone());
        push_text_matches(&mut items, &f, files[i].text.as_str(), &pat);
        i = i + 1;
    }
    let arr = array_of(items);
    let mut b = ObjectBuilder::new();
    b.add("matches", arr);
    b.add("pattern", JsonValue::string(pattern));
    assert(b.members() =~= grep_dir_json(pattern@, files@)->Object_0);
    let r = b.build();
    assert(r@ =~= grep_dir_json(pattern@, files@));
    r
}

/// The `run_tests` result.
pub fn run_tests_output(
    command: &str,
    working_directory: &str,
    args: &Vec<String>,
    status: Option<i32>,
    stdout: &str,
    stderr: &str,
) -> (r: JsonValue)
    ensures
        r@ == run_tests_json(command@, working_directory@, texts(args@), status, stdout@, stderr@),
{
    let mut b = ObjectBuilder::new();
    b.add("args", string_array(args));
    b.add("command", JsonValue::string(command));
    b.add("status", status_value(status));
    b.add("stderr", JsonValue::string(stderr));
    b.add("stdout", JsonValue::string(stdout));
    b.add("working_directory", JsonValue::string(working_directory));
    assert(b.members() =~= run_tests_json(command@, working_directory@, texts(args@), status, stdout@, stderr@)->Object_0);
    let r = b.build();
    assert(r@ =~= run_tests_json(command@, working_directory@, texts(args@), status, stdout@, stderr@));
    r
}

/// The `git_status` result.
pub fn git_status_output(working_directory: &str, status: Option<i32>, stdout: &str, stderr: &str) -> (r: JsonValue)
    ensures
        r@ == git_status_json(working_directory@, status, stdout@, stderr@),
{
    let mut b = ObjectBuilder::new();
    b.add("status", status_value(status));
    b.add("stderr", JsonValue::string(stderr));
    b.add("stdout", JsonValue::string(stdout));
    b.add("working_directory", JsonValue::string(working_directory));
    assert(b.members() =~= git_status_json(working_directory@, status, stdout@, stderr@)->Object_0);
    let r = b.build();
    assert(r@ =~= git_status_json(working_directory@, status, stdout@, stderr@));
    r
}

// ---------------------------------------------------------------- directory walk

/// An entry met while walking a directory tree; its kind is that of the
/// entry itself (a symbolic link is neither a file nor a directory).
pub struct WalkEntry {
    pub path: String,
    pub is_dir: bool,
    pub is_file: bool,
}

/// Depth-first walk over a directory tree for `grep_log`: directories not
/// readable under the policy are skipped, and only readable files are kept.
pub struct DirWalk {
    pub pending: Vec<String>,
    pub files: Vec<String>,
}

impl DirWalk {
    /// Starts at `root`.
    pub fn new(root: &str) -> (w: DirWalk)
        ensures
            texts(w.pending@) == seq![root@],
            w.files@.len() == 0,
    {
        let mut pending: Vec<String> = Vec::new();
        pending.push(crate::text::owned(root));
        let w = DirWalk { pending, files: Vec::new() };
        assert(texts(w.pending@) =~= seq![root@]);
        w
    }

    /// The next directory to list: pending paths are taken last-in first-out,
    /// and those not readable are dropped. `None` when nothing is pending.
    pub fn next_dir(&mut self, policy: &CompiledPolicy, fs: &FsSnapshot) -> (r: Option<String>)
        ensures
            texts(final(self).files@) == texts(old(self).files@),
            match r {
                Some(d) => {
                    &&& policy.read_allowed(*fs, d@)
                    &&& final(self).pending@.len() < old(self).pending@.len()
                    &&& texts(old(self).pending@) == texts(final(self).pending@) + seq![d@]
                        + texts(old(self).pending@).skip(final(self).pending@.len() as int + 1)
                    &&& forall|i: int|
                        final(self).pending@.len() + 1 <= i < old(self).pending@.len()
                            ==> !policy.read_allowed(*fs, #[trigger] old(self).pending@[i]@)
                },
                None => {
                    &&& final(self).pending@.len() == 0
                    &&& forall|i: int|
                        0 <= i < old(self).pending@.len() ==> !policy.read_allowed(*fs, #[trigger] old(self).pending@[i]@)
                },
            },
    {
        let ghost orig = self.pending@;
        while self.pending.len() > 0
            invariant
                self.files@ == old(self).files@,
                orig == old(self).pending@,
                self.pending@.len() <= orig.len(),
                self.pending@ == orig.take(self.pending@.len() as int),
                forall|i: int| self.pending@.len() <= i < orig.len() ==> !policy.read_allowed(*fs, #[trigger] orig[i]@),
            decreases self.pending.len(),
        {
            let p = self.pending.pop().unwrap();
            assert(p == orig[self.pending@.len() as int]);
            if policy.path_allowed_for_read(p.as_str(), fs) {
                proof {
                    let k = self.pending@.len() as int;
                    assert(texts(orig) =~= texts(self.pending@) + seq![p@] + texts(orig).skip(k + 1));
                }
                return Some(p);
            }
        }
        None
    }

    /// Takes in the entries of a listed directory: subdirectories become
    /// pending, readable files are kept, everything else is dropped.
    pub fn add_entries(&mut self, policy: &CompiledPolicy, fs: &FsSnapshot, entries: &Vec<WalkEntry>)
        ensures
            texts(final(self).pending@) == texts(old(self).pending@) + dir_paths(entries@),
            texts(final(self).files@) == texts(old(self).files@) + readable_files(*policy, *fs, entries@),
    {
        let mut i: usize = 0;
        while i < entries.len()
            invariant
                i <= entries.len(),
                texts(self.pending@) == texts(old(self).pending@) + dir_paths(entries@.take(i as int)),
                texts(self.files@) == texts(old(self).files@) + readable_files(*policy, *fs, entries@.take(i as int)),
            decreases entries.len() - i,
        {
            let ghost p0 = texts(self.pending@);
            let ghost f0 = texts(self.files@);
            let e = &entries[i];
            if e.is_dir {
                self.pending.push(e.path.clone());
                assert(texts(self.pending@) =~= p0.push(e.path@));
            } else if e.is_file && policy.path_allowed_for_read(e.path.as_str(), fs) {
                self.files.push(e.path.clone());
                assert(texts(self.files@) =~= f0.push(e.path@));
            }
            proof {
                assert(entries@.take(i + 1).drop_last() =~= entries@.take(i as int));
                assert(entries@.take(i + 1).last() == entries@[i as int]);
            }
            i = i + 1;
        }
        assert(entries@.take(entries.len() as int) =~= entries@);
    }
}

/// Paths of the directory entries, in order.
pub open spec fn dir_paths(es: Seq<WalkEntry>) -> Seq<Seq<char>>
    decreases es.len(),
{
    if es.len() == 0 {
        seq![]
    } else if es.last().is_dir {
        dir_paths(es.drop_last()).push(es.last().path@)
    } else {
        dir_paths(es.drop_last())
    }
}

/// Paths of the readable file entries, in order.
pub open spec fn readable_files(p: CompiledPolicy, fs: FsSnapshot, es: Seq<WalkEntry>) -> Seq<Seq<char>>
    decreases es.len(),
{
    if es.len() == 0 {
        seq![]
    } else if !es.last().is_dir && es.last().is_file && p.read_allowed(fs, es.last().path@) {
        readable_files(p, fs, es.drop_last()).push(es.last().path@)
    } else {
        readable_files(p, fs, es.drop_last())
    }
}

/// A directory walk keeps only files that the policy lets be read: every
/// path that `add_entries` adds to the files is readable.
pub proof fn law_walk_keeps_only_readable_files(p: CompiledPolicy, fs: FsSnapshot, es: Seq<WalkEntry>)
    ensures
        forall|i: int| 0 <= i < readable_files(p, fs, es).len() ==> p.read_allowed(fs, #[trigger] readable_files(p, fs, es)[i]),
    decreases es.len(),
{
    if es.len() > 0 {
        law_walk_keeps_only_readable_files(p, fs, es.drop_last());
        let a = readable_files(p, fs, es);
        let b = readable_files(p, fs, es.drop_last());
        assert forall|i: int| 0 <= i < a.len() implies p.read_allowed(fs, #[trigger] a[i]) by {
            if i < b.len() {
                assert(a[i] == b[i]);
            }
        }
    }
}

/// The lines whose text holds `pattern`.
pub open spec fn holds(pattern: Seq<char>) -> spec_fn(Seq<char>) -> bool {
    |l: Seq<char>| contains_seq(l, pattern)
}

/// `x` is the match record of some line among the first `n` of `ls` that
/// holds `pattern`, numbered from 1.
pub open spec fn record_of_matching_line(
    file: Option<Seq<char>>,
    ls: Seq<Seq<char>>,
    pattern: Seq<char>,
    n: nat,
    x: Json,
) -> bool {
    exists|k: int| 0 <= k < n && contains_seq(ls[k], pattern) && x == match_json(file, (k + 1) as nat, #[trigger] ls[k])
}

proof fn lemma_record_of_wider(file: Option<Seq<char>>, ls: Seq<Seq<char>>, pattern: Seq<char>, m: nat, n: nat, x: Json)
    requires
        m <= n,
        record_of_matching_line(file, ls, pattern, m, x),
    ensures
        record_of_matching_line(file, ls, pattern, n, x),
{
    let k = choose|k: int| 0 <= k < m && contains_seq(ls[k], pattern) && x == match_json(file, (k + 1) as nat, #[trigger] ls[k]);
    assert(0 <= k < n && contains_seq(ls[k], pattern) && x == match_json(file, (k + 1) as nat, ls[k]));
}

proof fn lemma_line_matches(file: Option<Seq<char>>, ls: Seq<Seq<char>>, pattern: Seq<char>, n: nat)
    requires
        n <= ls.len(),
    ensures
        forall|k: int| 0 <= k < n && contains_seq(ls[k], pattern)
            ==> line_matches(file, ls, pattern, n).contains(match_json(file, (k + 1) as nat, #[trigger] ls[k])),
        forall|j: int| 0 <= j < line_matches(file, ls, pattern, n).len()
            ==> record_of_matching_line(file, ls, pattern, n, #[trigger] line_matches(file, ls, pattern, n)[j]),
        line_matches(file, ls, pattern, n).len() == ls.take(n as int).filter(holds(pattern)).len(),
    decreases n,
{
    reveal(Seq::filter);
    if n == 0 {
        assert(line_matches(file, ls, pattern, n) =~= Seq::<Json>::empty());
    } else {
        let m = (n - 1) as nat;
        lemma_line_matches(file, ls, pattern, m);
        let prev = line_matches(file, ls, pattern, m);
        let cur = line_matches(file, ls, pattern, n);
        let rec = match_json(file, n, ls[m as int]);
        assert(ls.take(n as int).drop_last() =~= ls.take(m as int));
        assert(ls.take(n as int).last() == ls[m as int]);
        if contains_seq(ls[m as int], pattern) {
            assert(cur == prev.push(rec));
            assert forall|k: int| 0 <= k < n && contains_seq(ls[k], pattern)
                implies cur.contains(match_json(file, (k + 1) as nat, #[trigger] ls[k])) by {
                if k < m {
                    let q = choose|q: int| 0 <= q < prev.len() && prev[q] == match_json(file, (k + 1) as nat, ls[k]);
                    assert(cur[q] == prev[q]);
                } else {
                    assert(cur[prev.len() as int] == rec);
                }
            }
            assert forall|j: int| 0 <= j < cur.len()
                implies record_of_matching_line(file, ls, pattern, n, #[trigger] cur[j]) by {
                if j < prev.len() {
                    assert(cur[j] == prev[j]);
                    lemma_record_of_wider(file, ls, pattern, m, n, prev[j]);
                } else {
                    assert(cur[j] == rec);
                    assert(0 <= m < n && contains_seq(ls[m as int], pattern)
                        && cur[j] == match_json(file, (m + 1) as nat, ls[m as int]));
                }
            }
            assert(holds(pattern)(ls[m as int]));
        } else {
            assert(cur == prev);
            assert(!holds(pattern)(ls[m as int]));
            assert forall|j: int| 0 <= j < cur.len()
                implies record_of_matching_line(file, ls, pattern, n, #[trigger] cur[j]) by {
                lemma_record_of_wider(file, ls, pattern, m, n, prev[j]);
            }
        }
    }
}

/// A search reports every line that holds the pattern, with its 1-based
/// number, and nothing else; how many lines match does not depend on whether
/// a file name goes with the records: it is the number of matching lines.
pub proof fn law_text_matches_report_matching_lines(
    file: Option<Seq<char>>,
    other: Option<Seq<char>>,
    text: Seq<char>,
    pattern: Seq<char>,
)
    ensures
        forall|k: int| 0 <= k < lines(text).len() && contains_seq(lines(text)[k], pattern)
            ==> text_matches(file, text, pattern).contains(match_json(file, (k + 1) as nat, #[trigger] lines(text)[k])),
        forall|j: int| 0 <= j < text_matches(file, text, pattern).len() ==> record_of_matching_line(
            file,
            lines(text),
            pattern,
            lines(text).len(),
            #[trigger] text_matches(file, text, pattern)[j],
        ),
        text_matches(file, text, pattern).len() == lines(text).filter(holds(pattern)).len(),
        text_matches(file, text, pattern).len() == text_matches(other, text, pattern).len(),
{
    let ls = lines(text);
    lemma_line_matches(file, ls, pattern, ls.len());
    lemma_line_matches(other, ls, pattern, ls.len());
    assert(ls.take(ls.len() as int) =~= ls);
}

} // verus!
