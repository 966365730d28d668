//! A readable account of a run, built from its audit records: one line per
//! step, with a short summary of each tool's output.

use vstd::prelude::*;
use vstd::utf8::encode_utf8;
use crate::json::{compact_json, parse_json, parsed_json, signed_decimal, Json, JsonValue};
use crate::text::{
    chars_of, decimal, decimal_chars, lines, push_all, push_str, split_lines, string_of, take_chars,
    take_upto, trim_chars, trimmed,
};
use vstd::string::StrSliceExecFns;

verus! {

/// The text, or `d` when there is none.
pub open spec fn or_text(o: Option<Seq<char>>, d: Seq<char>) -> Seq<char> {
    match o {
        Some(t) => t,
        None => d,
    }
}

/// The array held under `key`, if any.
pub open spec fn array_at(v: Json, key: Seq<char>) -> Option<Seq<Json>> {
    match v.get(key) {
        Some(x) => x.as_array(),
        None => None,
    }
}

/// The length of the array under `key`, 0 when there is none.
pub open spec fn array_len_at(v: Json, key: Seq<char>) -> nat {
    match array_at(v, key) {
        Some(a) => a.len(),
        None => 0,
    }
}

/// `ss` joined with `sep` in between.
pub open spec fn join_sep(ss: Seq<Seq<char>>, sep: Seq<char>) -> Seq<char>
    decreases ss.len(),
{
    if ss.len() == 0 {
        seq![]
    } else if ss.len() == 1 {
        ss[0]
    } else {
        join_sep(ss.drop_last(), sep) + sep + ss.last()
    }
}

/// The string `name` members of the entries, in order.
pub open spec fn entry_names(items: Seq<Json>) -> Seq<Seq<char>>
    decreases items.len(),
{
    if items.len() == 0 {
        seq![]
    } else {
        match items.last().str_at("name"@) {
            Some(n) => entry_names(items.drop_last()).push(n),
            None => entry_names(items.drop_last()),
        }
    }
}

/// `   • <text>` lines for the string items.
pub open spec fn bullets(items: Seq<Json>) -> Seq<char>
    decreases items.len(),
{
    if items.len() == 0 {
        seq![]
    } else {
        bullets(items.drop_last()) + match items.last().as_str() {
            Some(t) => "   • "@ + t + "\n"@,
            None => seq![],
        }
    }
}

/// The line shown for one match record.
pub open spec fn match_line(m: Json) -> Seq<char> {
    let line = match m.get("line"@) {
        Some(v) => v.as_u64(),
        None => None,
    };
    match (m.str_at("file"@), line, m.str_at("text"@)) {
        (Some(f), Some(ln), Some(t)) => "   • "@ + f + ":"@ + decimal(ln as nat) + " — "@ + t + "\n"@,
        (_, Some(ln), Some(t)) => "   • line "@ + decimal(ln as nat) + ": "@ + t + "\n"@,
        (_, _, Some(t)) => "   • "@ + t + "\n"@,
        _ => seq![],
    }
}

pub open spec fn match_lines(ms: Seq<Json>) -> Seq<char>
    decreases ms.len(),
{
    if ms.len() == 0 {
        seq![]
    } else {
        match_lines(ms.drop_last()) + match_line(ms.last())
    }
}

pub open spec fn humanize_list(out: Json) -> Seq<char> {
    let dir = or_text(out.str_at("directory"@), "?"@);
    let n = array_len_at(out, "entries"@);
    let names = match array_at(out, "entries"@) {
        Some(a) => take_upto(entry_names(a), 12),
        None => seq![],
    };
    let head = "→ Listed "@ + decimal(n) + " item(s) in “"@ + dir + "”\n"@;
    if names.len() == 0 {
        head
    } else {
        head + "→ Files/dirs: "@ + join_sep(names, ", "@) + if n > names.len() {
            ", …"@
        } else {
            seq![]
        }
    }
}

pub open spec fn humanize_read(out: Json) -> Seq<char> {
    let path = or_text(out.str_at("path"@), "?"@);
    let content = or_text(out.str_at("content"@), seq![]);
    let bytes = (encode_utf8(content).len() as usize) as nat;
    "→ Read “"@ + path + "” ("@ + decimal(bytes) + " chars)\n"@ + take_upto(content, 400) + if bytes > 400 {
        "\n… (truncated in UI)"@
    } else {
        seq![]
    }
}

pub open spec fn humanize_tail(out: Json) -> Seq<char> {
    let path = or_text(out.str_at("path"@), "?"@);
    let ls = match array_at(out, "lines"@) {
        Some(a) => a,
        None => seq![],
    };
    "→ Last "@ + decimal(ls.len()) + " line(s) from “"@ + path + "”:\n"@ + bullets(take_upto(ls, 8)) + if ls.len() > 8 {
        "   …\n"@
    } else {
        seq![]
    }
}

pub open spec fn humanize_grep(out: Json) -> Seq<char> {
    let pat = or_text(out.str_at("pattern"@), "?"@);
    let m = array_len_at(out, "matches"@);
    "→ Pattern “"@ + pat + "”: "@ + decimal(m) + " match(es)\n"@ + match array_at(out, "matches"@) {
        Some(arr) => match_lines(take_upto(arr, 5)) + if m > 5 {
            "   …\n"@
        } else {
            seq![]
        },
        None => seq![],
    }
}

pub open spec fn humanize_run(out: Json) -> Seq<char> {
    let cmd = or_text(out.str_at("command"@), "?"@);
    let status = match out.get("status"@) {
        Some(v) => v.as_i64(),
        None => None,
    };
    let stderr = take_upto(or_text(out.str_at("stderr"@), seq![]), 200);
    "→ Command: "@ + cmd + "\n"@ + match status {
        Some(st) => "→ Exit code: "@ + signed_decimal(st as int) + "\n"@,
        None => seq![],
    } + if trimmed(stderr).len() > 0 {
        "→ Stderr (preview): "@ + stderr + "\n"@
    } else {
        seq![]
    }
}

pub open spec fn humanize_git(out: Json) -> Seq<char> {
    let t = trimmed(or_text(out.str_at("stdout"@), seq![]));
    if t.len() == 0 {
        "→ Git status: working tree clean (no porcelain lines)\n"@
    } else {
        "→ Git status (preview):\n"@ + take_upto(t, 300) + "\n"@
    }
}

/// A short account of a tool's output, by tool.
pub open spec fn humanize(tool: Seq<char>, out: Json) -> Seq<char> {
    if tool == "list_logs"@ {
        humanize_list(out)
    } else if tool == "read_log"@ {
        humanize_read(out)
    } else if tool == "tail_log"@ {
        humanize_tail(out)
    } else if tool == "grep_log"@ {
        humanize_grep(out)
    } else if tool == "run_tests"@ {
        humanize_run(out)
    } else if tool == "git_status"@ {
        humanize_git(out)
    } else {
        compact_line(compact_json(out))
    }
}

/// The line shown for the output of another tool: an arrow and the first 200
/// characters of the output's compact JSON text.
pub open spec fn compact_line(compact: Seq<char>) -> Seq<char> {
    "→ "@ + take_upto(compact, 200) + "\n"@
}

/// The line shown for the output of another tool, given the output's compact
/// JSON text (see [`compact_line`]).
pub fn compact_summary(compact: &str) -> (r: String)
    ensures
        r@ == compact_line(compact@),
{
    let cs = chars_of(compact);
    let short = take_chars(&cs, 200);
    let mut s: Vec<char> = Vec::new();
    push_str(&mut s, "→ ");
    push_all(&mut s, &short);
    push_str(&mut s, "\n");
    string_of(s.as_slice())
}

// ---------------------------------------------------------------- exec pieces

fn str_at_or(v: &JsonValue, key: &str, d: &str) -> (r: Vec<char>)
    ensures
        r@ == or_text(v@.str_at(key@), d@),
{
    match v.str_at(key) {
        Some(s) => chars_of(s.as_str()),
        None => chars_of(d),
    }
}

fn array_at_of<'a>(v: &'a JsonValue, key: &str) -> (r: Option<&'a Vec<JsonValue>>)
    ensures
        match r {
            Some(items) => array_at(v@, key@) == Some(Seq::new(items.len() as nat, |i: int| items[i]@)),
            None => array_at(v@, key@) is None,
        },
{
    match v.get(key) {
        Some(x) => x.as_array(),
        None => None,
    }
}

fn push_decimal(out: &mut Vec<char>, n: u64)
    ensures
        final(out)@ == old(out)@ + decimal(n as nat),
{
    let d = decimal_chars(n);
    push_all(out, &d);
}

fn humanize_list_text(out: &JsonValue, s: &mut Vec<char>)
    ensures
        final(s)@ == old(s)@ + humanize_list(out@),
{
    let dir = str_at_or(out, "directory", "?");
    let arr = array_at_of(out, "entries");
    let n: usize = match arr {
        Some(a) => a.len(),
        None => 0,
    };
    let mut names: Vec<Vec<char>> = Vec::new();
    let ghost mut all_names: Seq<Seq<char>> = seq![];
    match arr {
        Some(a) => {
            let ghost js = Seq::new(a.len() as nat, |i: int| a[i]@);
            let mut i: usize = 0;
            assert(js.take(0) =~= Seq::<Json>::empty());
            while i < a.len()
                invariant
                    i <= a.len(),
                    js == Seq::new(a.len() as nat, |i: int| a[i]@),
                    Seq::new(names@.len(), |k: int| names@[k]@) == take_upto(entry_names(js.take(i as int)), 12),
                decreases a.len() - i,
            {
                let ghost before = Seq::new(names@.len(), |k: int| names@[k]@);
                proof {
                    assert(js.take(i + 1).drop_last() =~= js.take(i as int));
                    assert(js.take(i + 1).last() == a[i as int]@);
                }
                match a[i].str_at("name") {
                    Some(nm) => {
                        if names.len() < 12 {
                            names.push(chars_of(nm.as_str()));
                            assert(Seq::new(names@.len(), |k: int| names@[k]@) =~= before.push(nm@));
                        }
                        proof {
                            let e = entry_names(js.take(i as int));
                            assert(entry_names(js.take(i + 1)) == e.push(nm@));
                            if e.len() < 12 {
                                assert(take_upto(e.push(nm@), 12) =~= take_upto(e, 12).push(nm@));
                            } else {
                                assert(take_upto(e.push(nm@), 12) =~= take_upto(e, 12));
                            }
                        }
                    },
                    None => {},
                }
                i = i + 1;
            }
            assert(js.take(a.len() as int) =~= js);
        },
        None => {},
    }
    let ghost nv = Seq::new(names@.len(), |k: int| names@[k]@);
    push_str(s, "→ Listed ");
    push_decimal(s, n as u64);
    push_str(s, " item(s) in “");
    push_all(s, &dir);
    push_str(s, "”\n");
    if names.len() > 0 {
        push_str(s, "→ Files/dirs: ");
        let mut i: usize = 0;
        let ghost mid = s@;
        while i < names.len()
            invariant
                i <= names.len(),
                nv == Seq::new(names@.len(), |k: int| names@[k]@),
                s@ == mid + join_sep(nv.take(i as int), ", "@),
            decreases names.len() - i,
        {
            if i > 0 {
                push_str(s, ", ");
            }
            push_all(s, &names[i]);
            proof {
                assert(nv.take(i + 1).drop_last() =~= nv.take(i as int));
                assert(nv.take(i + 1).last() == names@[i as int]@);
                if i == 0 {
                    assert(nv.take(1) =~= seq![names@[0]@]);
                }
            }
            i = i + 1;
        }
        assert(nv.take(names.len() as int) =~= nv);
        if n > names.len() {
            push_str(s, ", …");
        }
    }
    assert(final(s)@ =~= old(s)@ + humanize_list(out@));
}

fn humanize_read_text(out: &JsonValue, s: &mut Vec<char>)
    ensures
        final(s)@ == old(s)@ + humanize_read(out@),
{
    let path = str_at_or(out, "path", "?");
    let content_s = match out.str_at("content") {
        Some(c) => c,
        None => String::new(),
    };
    let bytes = content_s.as_str().len();
    let content = chars_of(content_s.as_str());
    let preview = take_chars(&content, 400);
    push_str(s, "→ Read “");
    push_all(s, &path);
    push_str(s, "” (");
    push_decimal(s, bytes as u64);
    push_str(s, " chars)\n");
    push_all(s, &preview);
    if bytes > 400 {
        push_str(s, "\n… (truncated in UI)");
    }
    assert(final(s)@ =~= old(s)@ + humanize_read(out@));
}

fn push_bullets(s: &mut Vec<char>, items: &Vec<JsonValue>, limit: usize)
    ensures
        final(s)@ == old(s)@ + bullets(take_upto(Seq::new(items.len() as nat, |i: int| items[i]@), limit as nat)),
{
    let ghost js = Seq::new(items.len() as nat, |i: int| items[i]@);
    let ghost start = s@;
    let mut i: usize = 0;
    assert(js.take(0) =~= Seq::<Json>::empty());
    while i < items.len() && i < limit
        invariant
            i <= items.len(),
            i <= limit,
            js == Seq::new(items.len() as nat, |i: int| items[i]@),
            s@ == start + bullets(js.take(i as int)),
        decreases items.len() - i,
    {
        match items[i].as_str() {
            Some(t) => {
                push_str(s, "   • ");
                push_str(s, t);
                push_str(s, "\n");
            },
            None => {},
        }
        proof {
            assert(js.take(i + 1).drop_last() =~= js.take(i as int));
            assert(js.take(i + 1).last() == items[i as int]@);
        }
        i = i + 1;
    }
    proof {
        if (limit as nat) < js.len() {
            assert(i == limit);
        } else {
            assert(js.take(i as int) =~= js);
        }
    }
}

fn humanize_tail_text(out: &JsonValue, s: &mut Vec<char>)
    ensures
        final(s)@ == old(s)@ + humanize_tail(out@),
{
    let path = str_at_or(out, "path", "?");
    let empty: Vec<JsonValue> = Vec::new();
    let ls = match array_at_of(out, "lines") {
        Some(a) => a,
        None => &empty,
    };
    assert(Seq::new(empty.len() as nat, |i: int| empty[i]@) =~= Seq::<Json>::empty());
    push_str(s, "→ Last ");
    push_decimal(s, ls.len() as u64);
    push_str(s, " line(s) from “");
    push_all(s, &path);
    push_str(s, "”:\n");
    push_bullets(s, ls, 8);
    if ls.len() > 8 {
        push_str(s, "   …\n");
    }
    assert(final(s)@ =~= old(s)@ + humanize_tail(out@));
}

fn push_match_line(s: &mut Vec<char>, m: &JsonValue)
    ensures
        final(s)@ == old(s)@ + match_line(m@),
{
    let file = m.str_at("file");
    let line = match m.get("line") {
        Some(v) => v.as_u64(),
        None => None,
    };
    let text = m.str_at("text");
    match (file, line, text) {
        (Some(f), Some(ln), Some(t)) => {
            push_str(s, "   • ");
            push_str(s, f.as_str());
            push_str(s, ":");
            push_decimal(s, ln);
            push_str(s, " — ");
            push_str(s, t.as_str());
            push_str(s, "\n");
        },
        (_, Some(ln), Some(t)) => {
            push_str(s, "   • line ");
            push_decimal(s, ln);
            push_str(s, ": ");
            push_str(s, t.as_str());
            push_str(s, "\n");
        },
        (_, _, Some(t)) => {
            push_str(s, "   • ");
            push_str(s, t.as_str());
            push_str(s, "\n");
        },
        _ => {},
    }
    assert(final(s)@ =~= old(s)@ + match_line(m@));
}

fn humanize_grep_text(out: &JsonValue, s: &mut Vec<char>)
    ensures
        final(s)@ == old(s)@ + humanize_grep(out@),
{
    let pat = str_at_or(out, "pattern", "?");
    let arr = array_at_of(out, "matches");
    let m: usize = match arr {
        Some(a) => a.len(),
        None => 0,
    };
    push_str(s, "→ Pattern “");
    push_all(s, &pat);
    push_str(s, "”: ");
    push_decimal(s, m as u64);
    push_str(s, " match(es)\n");
    let ghost head = s@;
    match arr {
        Some(a) => {
            let ghost js = Seq::new(a.len() as nat, |i: int| a[i]@);
            let mut i: usize = 0;
            assert(js.take(0) =~= Seq::<Json>::empty());
            while i < a.len() && i < 5
                invariant
                    i <= a.len(),
                    i <= 5,
                    js == Seq::new(a.len() as nat, |i: int| a[i]@),
                    s@ == head + match_lines(js.take(i as int)),
                decreases a.len() - i,
            {
                push_match_line(s, &a[i]);
                proof {
                    assert(js.take(i + 1).drop_last() =~= js.take(i as int));
                    assert(js.take(i + 1).last() == a[i as int]@);
                }
                i = i + 1;
            }
            proof {
                if 5 < js.len() {
                    assert(i == 5);
                } else {
                    assert(js.take(i as int) =~= js);
                }
            }
            if m > 5 {
                push_str(s, "   …\n");
            }
        },
        None => {},
    }
    assert(final(s)@ =~= old(s)@ + humanize_grep(out@));
}

fn push_signed_decimal(s: &mut Vec<char>, n: i64)
    ensures
        final(s)@ == old(s)@ + signed_decimal(n as int),
{
    if n < 0 {
        s.push('-');
        let m: u64 = ((-(n + 1)) as u64) + 1;
        push_decimal(s, m);
        assert(final(s)@ =~= old(s)@ + signed_decimal(n as int));
    } else {
        push_decimal(s, n as u64);
    }
}

fn humanize_run_text(out: &JsonValue, s: &mut Vec<char>)
    ensures
        final(s)@ == old(s)@ + humanize_run(out@),
{
    let cmd = str_at_or(out, "command", "?");
    let status = match out.get("status") {
        Some(v) => v.as_i64(),
        None => None,
    };
    let err_all = str_at_or(out, "stderr", "");
    proof {
        reveal_strlit("");
    }
    let stderr = take_chars(&err_all, 200);
    push_str(s, "→ Command: ");
    push_all(s, &cmd);
    push_str(s, "\n");
    match status {
        Some(st) => {
            push_str(s, "→ Exit code: ");
            push_signed_decimal(s, st);
            push_str(s, "\n");
        },
        None => {},
    }
    let t = trim_chars(&stderr);
    if t.len() > 0 {
        push_str(s, "→ Stderr (preview): ");
        push_all(s, &stderr);
        push_str(s, "\n");
    }
    assert(final(s)@ =~= old(s)@ + humanize_run(out@));
}

fn humanize_git_text(out: &JsonValue, s: &mut Vec<char>)
    ensures
        final(s)@ == old(s)@ + humanize_git(out@),
{
    let raw = str_at_or(out, "stdout", "");
    proof {
        reveal_strlit("");
    }
    let t = trim_chars(&raw);
    if t.len() == 0 {
        push_str(s, "→ Git status: working tree clean (no porcelain lines)\n");
    } else {
        push_str(s, "→ Git status (preview):\n");
        let p = take_chars(&t, 300);
        push_all(s, &p);
        push_str(s, "\n");
    }
    assert(final(s)@ =~= old(s)@ + humanize_git(out@));
}

/// A short account of the output of `tool` (see [`humanize`]).
pub fn humanize_tool_output(tool: &str, output: &JsonValue) -> (r: String)
    ensures
        r@ == humanize(tool@, output@),
{
    let mut s: Vec<char> = Vec::new();
    if crate::text::str_eq(tool, "list_logs") {
        humanize_list_text(output, &mut s);
    } else if crate::text::str_eq(tool, "read_log") {
        humanize_read_text(output, &mut s);
    } else if crate::text::str_eq(tool, "tail_log") {
        humanize_tail_text(output, &mut s);
    } else if crate::text::str_eq(tool, "grep_log") {
        humanize_grep_text(output, &mut s);
    } else if crate::text::str_eq(tool, "run_tests") {
        humanize_run_text(output, &mut s);
    } else if crate::text::str_eq(tool, "git_status") {
        humanize_git_text(output, &mut s);
    } else {
        let compact = output.to_text();
        let line = compact_summary(compact.as_str());
        push_str(&mut s, line.as_str());
    }
    assert(s@ =~= humanize(tool@, output@));
    string_of(s.as_slice())
}

// ---------------------------------------------------------------- run report

/// The events of the audit rows: the `event` member of each row that has one.
pub open spec fn events_of(rows: Seq<Json>) -> Seq<Json>
    decreases rows.len(),
{
    if rows.len() == 0 {
        seq![]
    } else {
        match rows.last().get("event"@) {
            Some(e) => events_of(rows.drop_last()).push(e),
            None => events_of(rows.drop_last()),
        }
    }
}

/// The number of tool-call events among `evs`.
pub open spec fn tool_calls_in(evs: Seq<Json>) -> nat
    decreases evs.len(),
{
    if evs.len() == 0 {
        0
    } else {
        tool_calls_in(evs.drop_last()) + if evs.last().str_at("kind"@) == Some("tool_call"@) {
            1nat
        } else {
            0nat
        }
    }
}

/// Each line of `ls` indented by three spaces.
pub open spec fn indented(ls: Seq<Seq<char>>) -> Seq<char>
    decreases ls.len(),
{
    if ls.len() == 0 {
        seq![]
    } else {
        indented(ls.drop_last()) + "   "@ + ls.last() + "\n"@
    }
}

/// The lines for a tool-call event that is step `step` of the run.
pub open spec fn call_text(ev: Json, step: nat) -> Seq<char> {
    let allowed = match ev.get("allowed"@) {
        Some(v) => match v.as_bool() {
            Some(b) => b,
            None => false,
        },
        None => false,
    };
    let tool = or_text(ev.str_at("tool"@), "?"@);
    if allowed {
        "\n"@ + decimal(step) + ". "@ + tool + " — allowed ✓\n"@
    } else {
        "\n"@ + decimal(step) + ". "@ + tool + " — blocked ✗\n"@ + match ev.str_at("reason"@) {
            Some(r) => if r.len() > 0 {
                "   Reason: "@ + r + "\n"@
            } else {
                seq![]
            },
            None => seq![],
        }
    }
}

/// The lines for a tool-result event: its error, or an account of its output.
pub open spec fn result_text(ev: Json) -> Seq<char> {
    let tool = or_text(ev.str_at("tool"@), "?"@);
    match ev.str_at("error"@) {
        Some(err) => "   → Error: "@ + err + "\n"@,
        None => match ev.get("output"@) {
            Some(o) => indented(lines(humanize(tool, o))),
            None => seq![],
        },
    }
}

/// The lines for one event; `step` numbers tool calls.
pub open spec fn event_text(ev: Json, step: nat) -> Seq<char> {
    match ev.str_at("kind"@) {
        None => seq![],
        Some(k) => if k == "run_start"@ {
            (match ev.str_at("agent_name"@) {
                Some(n) => "Agent profile: "@ + n + "\n"@,
                None => seq![],
            }) + "\n"@ + "── Steps ──\n"@
        } else if k == "tool_call"@ {
            call_text(ev, step)
        } else if k == "tool_result"@ {
            result_text(ev)
        } else {
            seq![]
        },
    }
}

pub open spec fn events_text(evs: Seq<Json>) -> Seq<char>
    decreases evs.len(),
{
    if evs.len() == 0 {
        seq![]
    } else {
        events_text(evs.drop_last()) + event_text(evs.last(), tool_calls_in(evs.drop_last()) + 1)
    }
}

pub open spec fn rule() -> Seq<char> {
    "══════════════════════════════════════"@
}

/// The whole report: heading with the run's id, folder, outcome and call
/// count; the steps; and where the full records are.
pub open spec fn run_report(
    run_id: Seq<char>,
    run_dir: Seq<char>,
    exit_reason: Seq<char>,
    tool_calls_used: u32,
    rows: Seq<Json>,
) -> Seq<char> {
    rule() + "\n"@ + " WHAT HAPPENED\n"@ + rule() + "\n\n"@
        + "Run ID:   "@ + run_id + "\n"@
        + "Saved in: "@ + run_dir + "\n"@
        + "Outcome:  "@ + exit_reason + "\n"@
        + "Tool calls recorded: "@ + decimal(tool_calls_used as nat) + "\n\n"@
        + events_text(events_of(rows))
        + "\n"@ + rule() + "\n"@ + " ON DISK (full detail)\n"@ + rule() + "\n"@
        + run_dir + "/audit.jsonl  — every event, machine-readable\n"@
        + run_dir + "/summary.json — compact step status\n"@
}

fn push_indented(s: &mut Vec<char>, text: &str)
    ensures
        final(s)@ == old(s)@ + indented(lines(text@)),
{
    let cs = chars_of(text);
    let ls = split_lines(&cs);
    let ghost lv = Seq::new(ls@.len(), |i: int| ls@[i]@);
    assert(lv =~= lines(text@));
    let ghost start = s@;
    let mut i: usize = 0;
    assert(lv.take(0) =~= Seq::<Seq<char>>::empty());
    while i < ls.len()
        invariant
            i <= ls.len(),
            lv == Seq::new(ls@.len(), |i: int| ls@[i]@),
            s@ == start + indented(lv.take(i as int)),
        decreases ls.len() - i,
    {
        push_str(s, "   ");
        push_all(s, &ls[i]);
        push_str(s, "\n");
        proof {
            assert(lv.take(i + 1).drop_last() =~= lv.take(i as int));
            assert(lv.take(i + 1).last() == ls@[i as int]@);
        }
        i = i + 1;
    }
    assert(lv.take(ls.len() as int) =~= lv);
}

fn push_event(s: &mut Vec<char>, ev: &JsonValue, step: usize)
    ensures
        final(s)@ == old(s)@ + event_text(ev@, step as nat),
{
    let kind = match ev.str_at("kind") {
        Some(k) => k,
        None => {
            return;
        },
    };
    if crate::text::str_eq(kind.as_str(), "run_start") {
        match ev.str_at("agent_name") {
            Some(n) => {
                push_str(s, "Agent profile: ");
                push_str(s, n.as_str());
                push_str(s, "\n");
            },
            None => {},
        }
        push_str(s, "\n");
        push_str(s, "── Steps ──\n");
    } else if crate::text::str_eq(kind.as_str(), "tool_call") {
        let allowed = match ev.get("allowed") {
            Some(v) => match v.as_bool() {
                Some(b) => b,
                None => false,
            },
            None => false,
        };
        let tool = str_at_or(ev, "tool", "?");
        push_str(s, "\n");
        push_decimal(s, step as u64);
        push_str(s, ". ");
        push_all(s, &tool);
        if allowed {
            push_str(s, " — allowed ✓\n");
        } else {
            push_str(s, " — blocked ✗\n");
            match ev.str_at("reason") {
                Some(r) => {
                    if r.as_str().unicode_len() > 0 {
                        push_str(s, "   Reason: ");
                        push_str(s, r.as_str());
                        push_str(s, "\n");
                    }
                },
                None => {},
            }
        }
    } else if crate::text::str_eq(kind.as_str(), "tool_result") {
        let tool = str_at_or(ev, "tool", "?");
        match ev.str_at("error") {
            Some(err) => {
                push_str(s, "   → Error: ");
                push_str(s, err.as_str());
                push_str(s, "\n");
            },
            None => match ev.get("output") {
                Some(o) => {
                    let t = string_of(tool.as_slice());
                    let summary = humanize_tool_output(t.as_str(), o);
                    push_indented(s, summary.as_str());
                },
                None => {},
            },
        }
    }
    assert(final(s)@ =~= old(s)@ + event_text(ev@, step as nat));
}

/// The readable report of a run (see [`run_report`]); `rows` are the audit
/// records that could be read.
pub fn format_human_run_report(
    run_id: &str,
    run_dir: &str,
    exit_reason: &str,
    tool_calls_used: u32,
    rows: &Vec<JsonValue>,
) -> (r: String)
    ensures
        r@ == run_report(run_id@, run_dir@, exit_reason@, tool_calls_used, Seq::new(rows.len() as nat, |i: int| rows[i]@)),
{
    let ghost rv = Seq::new(rows.len() as nat, |i: int| rows[i]@);
    let rule = "══════════════════════════════════════";
    let mut s: Vec<char> = Vec::new();
    push_str(&mut s, rule);
    push_str(&mut s, "\n");
    push_str(&mut s, " WHAT HAPPENED\n");
    push_str(&mut s, rule);
    push_str(&mut s, "\n\n");
    push_str(&mut s, "Run ID:   ");
    push_str(&mut s, run_id);
    push_str(&mut s, "\n");
    push_str(&mut s, "Saved in: ");
    push_str(&mut s, run_dir);
    push_str(&mut s, "\n");
    push_str(&mut s, "Outcome:  ");
    push_str(&mut s, exit_reason);
    push_str(&mut s, "\n");
    push_str(&mut s, "Tool calls recorded: ");
    push_decimal(&mut s, tool_calls_used as u64);
    push_str(&mut s, "\n\n");
    let ghost head = s@;
    let mut step: usize = 0;
    let mut i: usize = 0;
    assert(rv.take(0) =~= Seq::<Json>::empty());
    while i < rows.len()
        invariant
            i <= rows.len(),
            rv == Seq::new(rows.len() as nat, |i: int| rows[i]@),
            step as nat == tool_calls_in(events_of(rv.take(i as int))),
            step <= i,
            s@ == head + events_text(events_of(rv.take(i as int))),
        decreases rows.len() - i,
    {
        proof {
            assert(rv.take(i + 1).drop_last() =~= rv.take(i as int));
            assert(rv.take(i + 1).last() == rows[i as int]@);
        }
        match rows[i].get("event") {
            Some(ev) => {
                let is_call = match ev.str_at("kind") {
                    Some(k) => crate::text::str_eq(k.as_str(), "tool_call"),
                    None => false,
                };
                push_event(&mut s, ev, step + 1);
                if is_call {
                    step = step + 1;
                }
                proof {
                    let prev = events_of(rv.take(i as int));
                    assert(events_of(rv.take(i + 1)) == prev.push(ev@));
                    assert(prev.push(ev@).drop_last() =~= prev);
                }
            },
            None => {
                assert(events_of(rv.take(i + 1)) == events_of(rv.take(i as int)));
            },
        }
        i = i + 1;
    }
    assert(rv.take(rows.len() as int) =~= rv);
    push_str(&mut s, "\n");
    push_str(&mut s, rule);
    push_str(&mut s, "\n");
    push_str(&mut s, " ON DISK (full detail)\n");
    push_str(&mut s, rule);
    push_str(&mut s, "\n");
    push_str(&mut s, run_dir);
    push_str(&mut s, "/audit.jsonl  — every event, machine-readable\n");
    push_str(&mut s, run_dir);
    push_str(&mut s, "/summary.json — compact step status\n");
    assert(s@ =~= run_report(run_id@, run_dir@, exit_reason@, tool_calls_used, rv));
    string_of(s.as_slice())
}

/// The values of the lines that parse as JSON, in order; the others are dropped.
pub open spec fn parsed_rows(ls: Seq<Seq<char>>) -> Seq<Json>
    decreases ls.len(),
{
    if ls.len() == 0 {
        seq![]
    } else {
        match parsed_json(ls.last()) {
            Some(v) => parsed_rows(ls.drop_last()).push(v),
            None => parsed_rows(ls.drop_last()),
        }
    }
}

/// The readable report of a run from its raw audit log: each line is parsed
/// as JSON, lines that do not parse are skipped, and the rows are reported as
/// [`format_human_run_report`] does.
pub fn format_human_run_report_text(
    run_id: &str,
    run_dir: &str,
    exit_reason: &str,
    tool_calls_used: u32,
    audit_jsonl: &str,
) -> (r: String)
    ensures
        r@ == run_report(run_id@, run_dir@, exit_reason@, tool_calls_used, parsed_rows(lines(audit_jsonl@))),
{
    let cs = chars_of(audit_jsonl);
    let ls = split_lines(&cs);
    let ghost lv = lines(audit_jsonl@);
    let mut rows: Vec<JsonValue> = Vec::new();
    let mut i: usize = 0;
    assert(lv.take(0) =~= Seq::<Seq<char>>::empty());
    assert(Seq::new(rows.len() as nat, |j: int| rows[j]@) =~= Seq::<Json>::empty());
    while i < ls.len()
        invariant
            i <= ls.len(),
            ls@.len() == lv.len(),
            lv == lines(audit_jsonl@),
            forall|j: int| 0 <= j < ls@.len() ==> #[trigger] ls@[j]@ == lv[j],
            Seq::new(rows.len() as nat, |j: int| rows[j]@) == parsed_rows(lv.take(i as int)),
        decreases ls.len() - i,
    {
        let ghost before = Seq::new(rows.len() as nat, |j: int| rows[j]@);
        let line = string_of(ls[i].as_slice());
        proof {
            assert(lv.take(i + 1).drop_last() =~= lv.take(i as int));
            assert(lv.take(i + 1).last() == lv[i as int]);
            assert(line@ == lv[i as int]);
        }
        match parse_json(line.as_str()) {
            Some(v) => {
                let ghost vv = v@;
                rows.push(v);
                assert(Seq::new(rows.len() as nat, |j: int| rows[j]@) =~= before.push(vv));
            },
            None => {},
        }
        i = i + 1;
    }
    assert(lv.take(ls.len() as int) =~= lv);
    format_human_run_report(run_id, run_dir, exit_reason, tool_calls_used, &rows)
}

} // verus!
