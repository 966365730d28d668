//! Audit events of a run and the JSON records written for them.

use vstd::prelude::*;
use crate::json::{opt_str_json, Json, JsonValue, ObjectBuilder};

verus! {

/// One event of a run's audit trail.
pub enum AuditEvent {
    RunStart { run_id: String, manifest_path: String, task_path: String, agent_name: String },
    ToolCall { run_id: String, tool: String, args: JsonValue, allowed: bool, reason: Option<String> },
    ToolResult { run_id: String, tool: String, output: Option<JsonValue>, error: Option<String> },
    RunEnd { run_id: String, exit_reason: String, tool_calls_used: u32 },
}

/// The members of an event record, in key order; absent optional members are
/// left out.
pub open spec fn event_json(e: AuditEvent) -> Json {
    match e {
        AuditEvent::RunStart { run_id, manifest_path, task_path, agent_name } => Json::Object(
            seq![
                ("agent_name"@, Json::Str(agent_name@)),
                ("kind"@, Json::Str("run_start"@)),
                ("manifest_path"@, Json::Str(manifest_path@)),
                ("run_id"@, Json::Str(run_id@)),
                ("task_path"@, Json::Str(task_path@)),
            ],
        ),
        AuditEvent::ToolCall { run_id, tool, args, allowed, reason } => {
            let head = seq![
                ("allowed"@, Json::Bool(allowed)),
                ("args"@, args@),
                ("kind"@, Json::Str("tool_call"@)),
            ];
            let mid = match reason {
                Some(r) => seq![("reason"@, Json::Str(r@))],
                None => seq![],
            };
            Json::Object(head + mid + seq![("run_id"@, Json::Str(run_id@)), ("tool"@, Json::Str(tool@))])
        },
        AuditEvent::ToolResult { run_id, tool, output, error } => {
            let e1 = match error {
                Some(m) => seq![("error"@, Json::Str(m@))],
                None => seq![],
            };
            let o1 = match output {
                Some(v) => seq![("output"@, v@)],
                None => seq![],
            };
            Json::Object(
                e1 + seq![("kind"@, Json::Str("tool_result"@))] + o1 + seq![
                    ("run_id"@, Json::Str(run_id@)),
                    ("tool"@, Json::Str(tool@)),
                ],
            )
        },
        AuditEvent::RunEnd { run_id, exit_reason, tool_calls_used } => Json::Object(
            seq![
                ("exit_reason"@, Json::Str(exit_reason@)),
                ("kind"@, Json::Str("run_end"@)),
                ("run_id"@, Json::Str(run_id@)),
                ("tool_calls_used"@, Json::UInt(tool_calls_used as u64)),
            ],
        ),
    }
}

/// An audit line: the event with the time it was written.
pub open spec fn record_json(ts: Seq<char>, event: Json) -> Json {
    Json::Object(seq![("event"@, event), ("ts"@, Json::Str(ts))])
}

/// What every RFC 3339 UTC time with milliseconds looks like
/// (`YYYY-MM-DDTHH:MM:SS.mmmZ`, with a longer year part outside 0..=9999).
pub open spec fn timestamp_shape(t: Seq<char>) -> bool {
    &&& t.len() >= 24
    &&& t[t.len() - 1] == 'Z'
    &&& t[t.len() - 5] == '.'
    &&& t[t.len() - 8] == ':'
    &&& t[t.len() - 11] == ':'
    &&& t[t.len() - 14] == 'T'
    &&& t[t.len() - 17] == '-'
    &&& t[t.len() - 20] == '-'
}

/// The current UTC time from `chrono::Utc::now`, rendered by
/// `to_rfc3339_opts(SecondsFormat::Millis, true)`. Claimed: only the shape of
/// the text ([`timestamp_shape`]); the time itself is whatever the clock says.
#[verifier::external_body]
fn now_timestamp() -> (r: String)
    ensures
        timestamp_shape(r@),
{
    chrono::Utc::now().to_rfc3339_opts(chrono::SecondsFormat::Millis, true)
}

fn opt_value(v: &Option<JsonValue>) -> (r: Option<JsonValue>)
    ensures
        match (r, v) {
            (Some(a), Some(b)) => a@ == b@,
            (None, None) => true,
            _ => false,
        },
{
    match v {
        Some(x) => Some(x.duplicate()),
        None => None,
    }
}

impl AuditEvent {
    /// The event as a JSON object.
    pub fn to_json(&self) -> (r: JsonValue)
        ensures
            r@ == event_json(*self),
    {
        let mut b = ObjectBuilder::new();
        match self {
            AuditEvent::RunStart { run_id, manifest_path, task_path, agent_name } => {
                b.add("agent_name", JsonValue::Str(agent_name.clone()));
                b.add("kind", JsonValue::string("run_start"));
                b.add("manifest_path", JsonValue::Str(manifest_path.clone()));
                b.add("run_id", JsonValue::Str(run_id.clone()));
                b.add("task_path", JsonValue::Str(task_path.clone()));
            },
            AuditEvent::ToolCall { run_id, tool, args, allowed, reason } => {
                b.add("allowed", JsonValue::Bool(*allowed));
                b.add("args", args.duplicate());
                b.add("kind", JsonValue::string("tool_call"));
                match reason {
                    Some(r) => b.add("reason", JsonValue::Str(r.clone())),
                    None => {},
                }
                b.add("run_id", JsonValue::Str(run_id.clone()));
                b.add("tool", JsonValue::Str(tool.clone()));
            },
            AuditEvent::ToolResult { run_id, tool, output, error } => {
                match error {
                    Some(m) => b.add("error", JsonValue::Str(m.clone())),
                    None => {},
                }
                b.add("kind", JsonValue::string("tool_result"));
                match opt_value(output) {
                    Some(v) => b.add("output", v),
                    None => {},
                }
                b.add("run_id", JsonValue::Str(run_id.clone()));
                b.add("tool", JsonValue::Str(tool.clone()));
            },
            AuditEvent::RunEnd { run_id, exit_reason, tool_calls_used } => {
                b.add("exit_reason", JsonValue::Str(exit_reason.clone()));
                b.add("kind", JsonValue::string("run_end"));
                b.add("run_id", JsonValue::Str(run_id.clone()));
                b.add("tool_calls_used", JsonValue::UInt(*tool_calls_used as u64));
            },
        }
        assert(b.members() =~= event_json(*self)->Object_0);
        b.build()
    }

    /// The audit line for this event written at time `ts`.
    pub fn record_at(&self, ts: &str) -> (r: JsonValue)
        ensures
            r@ == record_json(ts@, event_json(*self)),
    {
        let mut b = ObjectBuilder::new();
        b.add("event", self.to_json());
        b.add("ts", JsonValue::string(ts));
        assert(b.members() =~= record_json(ts@, event_json(*self))->Object_0);
        b.build()
    }

    /// The audit line for this event, stamped with the current time.
    pub fn record(&self) -> (r: JsonValue)
        ensures
            exists|ts: Seq<char>| timestamp_shape(ts) && r@ == record_json(ts, event_json(*self)),
    {
        let ts = now_timestamp();
        self.record_at(ts.as_str())
    }

    /// The event's run id.
    pub fn run_id(&self) -> (r: &String)
        ensures
            r@ == event_run_id(*self),
    {
        match self {
            AuditEvent::RunStart { run_id, .. } => run_id,
            AuditEvent::ToolCall { run_id, .. } => run_id,
            AuditEvent::ToolResult { run_id, .. } => run_id,
            AuditEvent::RunEnd { run_id, .. } => run_id,
        }
    }
}

pub open spec fn event_run_id(e: AuditEvent) -> Seq<char> {
    match e {
        AuditEvent::RunStart { run_id, .. } => run_id@,
        AuditEvent::ToolCall { run_id, .. } => run_id@,
        AuditEvent::ToolResult { run_id, .. } => run_id@,
        AuditEvent::RunEnd { run_id, .. } => run_id@,
    }
}

/// `Some(s)` as a JSON string, `None` as `null`.
pub open spec fn opt_json(s: Option<String>) -> Json {
    opt_str_json(
        match s {
            Some(t) => Some(t@),
            None => None,
        },
    )
}

} // verus!
