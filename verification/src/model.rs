//! The model interface of the agent loop, its message types, and a
//! deterministic mock model.

use vstd::prelude::*;
use crate::json::{Json, JsonValue, ObjectBuilder};
use crate::text::{concat2, decimal, decimal_chars, owned, push_all, push_str, str_eq, string_of};

verus! {

/// A tool offered to the model.
pub struct ToolSchema {
    pub name: String,
    pub description: String,
    pub input_schema: JsonValue,
}

/// What the model is asked each turn.
pub struct ModelRequest {
    pub system_prompt: String,
    pub user_task: String,
    pub max_steps: u32,
    pub tools: Vec<ToolSchema>,
    pub history: Vec<ConversationEvent>,
}

/// One entry of the conversation history.
pub enum ConversationEvent {
    UserTask { content: String },
    ToolCall { tool: String, args: JsonValue },
    ToolResult { tool: String, result: JsonValue },
    ToolError { tool: String, error: String },
    FinalAnswer { content: String },
}

/// What the model decides: call a tool, or answer.
pub enum AgentDecision {
    ToolCall { tool: String, args: JsonValue },
    Final { content: String },
}

/// A failure of the model backend.
pub enum ModelError {
    Backend(String),
}

impl ModelError {
    pub fn message(&self) -> (r: String)
        ensures
            r@ == match self {
                ModelError::Backend(s) => "model backend error: "@ + s@,
            },
    {
        match self {
            ModelError::Backend(s) => concat2("model backend error: ", s.as_str()),
        }
    }
}

/// A model backend: given the request, decides the next step.
pub trait ModelClient: Send + Sync {
    fn decide(&self, req: &ModelRequest) -> Result<AgentDecision, ModelError>;
}

// ---------------------------------------------------------------- values

/// The value of a decision: the tool and arguments, or the answer.
pub enum Decision {
    ToolCall(Seq<char>, Json),
    Final(Seq<char>),
}

impl AgentDecision {
    pub open spec fn view(&self) -> Decision {
        match self {
            AgentDecision::ToolCall { tool, args } => Decision::ToolCall(tool@, args@),
            AgentDecision::Final { content } => Decision::Final(content@),
        }
    }
}

/// The kind of a history entry and the tool it is about.
pub open spec fn called_tool(e: ConversationEvent) -> Option<Seq<char>> {
    match e {
        ConversationEvent::ToolCall { tool, .. } => Some(tool@),
        _ => None,
    }
}

/// The request offers a tool called `name`.
pub open spec fn offers_tool(req: ModelRequest, name: Seq<char>) -> bool {
    exists|i: int| 0 <= i < req.tools@.len() && (#[trigger] req.tools@[i]).name@ == name
}

/// The history holds a call of tool `name`.
pub open spec fn has_called(req: ModelRequest, name: Seq<char>) -> bool {
    exists|i: int| 0 <= i < req.history@.len() && called_tool(#[trigger] req.history@[i]) == Some(name)
}

/// The number of tool calls among the first `n` history entries.
pub open spec fn calls_in(history: Seq<ConversationEvent>, n: nat) -> nat
    decreases n,
{
    if n == 0 || n > history.len() {
        0
    } else {
        calls_in(history, (n - 1) as nat) + if history[n - 1] is ToolCall {
            1nat
        } else {
            0nat
        }
    }
}

pub open spec fn mock_list_args() -> Json {
    Json::Object(seq![("directory"@, Json::Str("testdata/logs"@))])
}

pub open spec fn mock_tail_args() -> Json {
    Json::Object(seq![("lines"@, Json::UInt(120)), ("path"@, Json::Str("testdata/logs/app.log"@))])
}

pub open spec fn mock_grep_args() -> Json {
    Json::Object(seq![("path"@, Json::Str("testdata/logs/app.log"@)), ("pattern"@, Json::Str("ERROR"@))])
}

/// The mock's answer once there is nothing left to call.
pub open spec fn mock_summary(user_task: Seq<char>, calls: nat) -> Seq<char> {
    "Mock agent finished '"@ + user_task + "' in "@ + decimal(calls) + " step(s)."@
}

/// The mock's decision: list the logs, tail the app log, grep it for errors —
/// each once and only if offered — then answer with a summary.
pub open spec fn mock_decision(req: ModelRequest) -> Decision {
    if offers_tool(req, "list_logs"@) && !has_called(req, "list_logs"@) {
        Decision::ToolCall("list_logs"@, mock_list_args())
    } else if offers_tool(req, "tail_log"@) && !has_called(req, "tail_log"@) {
        Decision::ToolCall("tail_log"@, mock_tail_args())
    } else if offers_tool(req, "grep_log"@) && !has_called(req, "grep_log"@) {
        Decision::ToolCall("grep_log"@, mock_grep_args())
    } else {
        Decision::Final(mock_summary(req.user_task@, calls_in(req.history@, req.history@.len())))
    }
}

/// The mock calls only tools that it is offered and has not called yet, so
/// it calls each tool at most once and answers once nothing is left.
pub proof fn law_mock_calls_each_offered_tool_once(req: ModelRequest)
    ensures
        mock_decision(req) matches Decision::ToolCall(name, _args) ==> offers_tool(req, name) && !has_called(req, name),
        !(offers_tool(req, "list_logs"@) && !has_called(req, "list_logs"@))
            && !(offers_tool(req, "tail_log"@) && !has_called(req, "tail_log"@))
            && !(offers_tool(req, "grep_log"@) && !has_called(req, "grep_log"@))
            ==> mock_decision(req) is Final,
{
}

/// A deterministic model for exercising the loop and tool routing.
pub struct MockModelClient;

fn offers(req: &ModelRequest, name: &str) -> (r: bool)
    ensures
        r == offers_tool(*req, name@),
{
    let mut i: usize = 0;
    while i < req.tools.len()
        invariant
            i <= req.tools.len(),
            forall|j: int| 0 <= j < i ==> (#[trigger] req.tools@[j]).name@ != name@,
        decreases req.tools.len() - i,
    {
        if str_eq(req.tools[i].name.as_str(), name) {
            return true;
        }
        i = i + 1;
    }
    false
}

fn called(req: &ModelRequest, name: &str) -> (r: bool)
    ensures
        r == has_called(*req, name@),
{
    let mut i: usize = 0;
    while i < req.history.len()
        invariant
            i <= req.history.len(),
            forall|j: int| 0 <= j < i ==> called_tool(#[trigger] req.history@[j]) != Some(name@),
        decreases req.history.len() - i,
    {
        match &req.history[i] {
            ConversationEvent::ToolCall { tool, .. } => {
                if str_eq(tool.as_str(), name) {
                    return true;
                }
            },
            _ => {},
        }
        i = i + 1;
    }
    false
}

/// The number of tool calls in `history`.
pub fn count_calls(history: &Vec<ConversationEvent>) -> (r: usize)
    ensures
        r as nat == calls_in(history@, history@.len()),
{
    let mut n: usize = 0;
    let mut i: usize = 0;
    while i < history.len()
        invariant
            i <= history.len(),
            n as nat == calls_in(history@, i as nat),
            n <= i,
        decreases history.len() - i,
    {
        match &history[i] {
            ConversationEvent::ToolCall { .. } => {
                n = n + 1;
            },
            _ => {},
        }
        i = i + 1;
    }
    n
}

fn mock_summary_text(user_task: &str, calls: usize) -> (r: String)
    ensures
        r@ == mock_summary(user_task@, calls as nat),
{
    let mut v: Vec<char> = Vec::new();
    push_str(&mut v, "Mock agent finished '");
    push_str(&mut v, user_task);
    push_str(&mut v, "' in ");
    let d = decimal_chars(calls as u64);
    push_all(&mut v, &d);
    push_str(&mut v, " step(s).");
    string_of(v.as_slice())
}

impl ModelClient for MockModelClient {
    fn decide(&self, req: &ModelRequest) -> (r: Result<AgentDecision, ModelError>)
        ensures
            r matches Ok(d) && d@ == mock_decision(*req),
    {
        if offers(req, "list_logs") && !called(req, "list_logs") {
            let mut b = ObjectBuilder::new();
            b.add("directory", JsonValue::string("testdata/logs"));
            assert(b.members() =~= mock_list_args()->Object_0);
            return Ok(AgentDecision::ToolCall { tool: owned("list_logs"), args: b.build() });
        }
        if offers(req, "tail_log") && !called(req, "tail_log") {
            let mut b = ObjectBuilder::new();
            b.add("lines", JsonValue::UInt(120));
            b.add("path", JsonValue::string("testdata/logs/app.log"));
            assert(b.members() =~= mock_tail_args()->Object_0);
            return Ok(AgentDecision::ToolCall { tool: owned("tail_log"), args: b.build() });
        }
        if offers(req, "grep_log") && !called(req, "grep_log") {
            let mut b = ObjectBuilder::new();
            b.add("path", JsonValue::string("testdata/logs/app.log"));
            b.add("pattern", JsonValue::string("ERROR"));
            assert(b.members() =~= mock_grep_args()->Object_0);
            return Ok(AgentDecision::ToolCall { tool: owned("grep_log"), args: b.build() });
        }
        let n = count_calls(&req.history);
        Ok(AgentDecision::Final { content: mock_summary_text(req.user_task.as_str(), n) })
    }
}

// ---------------------------------------------------------------- JSON forms

/// A history entry as JSON, tagged by `type`.
pub open spec fn conversation_json(e: ConversationEvent) -> Json {
    match e {
        ConversationEvent::UserTask { content } => Json::Object(
            seq![("content"@, Json::Str(content@)), ("type"@, Json::Str("user_task"@))],
        ),
        ConversationEvent::ToolCall { tool, args } => Json::Object(
            seq![("args"@, args@), ("tool"@, Json::Str(tool@)), ("type"@, Json::Str("tool_call"@))],
        ),
        ConversationEvent::ToolResult { tool, result } => Json::Object(
            seq![("result"@, result@), ("tool"@, Json::Str(tool@)), ("type"@, Json::Str("tool_result"@))],
        ),
        ConversationEvent::ToolError { tool, error } => Json::Object(
            seq![("error"@, Json::Str(error@)), ("tool"@, Json::Str(tool@)), ("type"@, Json::Str("tool_error"@))],
        ),
        ConversationEvent::FinalAnswer { content } => Json::Object(
            seq![("content"@, Json::Str(content@)), ("type"@, Json::Str("final_answer"@))],
        ),
    }
}

/// A tool schema as JSON.
pub open spec fn schema_json(s: ToolSchema) -> Json {
    Json::Object(
        seq![
            ("description"@, Json::Str(s.description@)),
            ("input_schema"@, s.input_schema@),
            ("name"@, Json::Str(s.name@)),
        ],
    )
}

impl ConversationEvent {
    pub fn to_json(&self) -> (r: JsonValue)
        ensures
            r@ == conversation_json(*self),
    {
        let mut b = ObjectBuilder::new();
        match self {
            ConversationEvent::UserTask { content } => {
                b.add("content", JsonValue::Str(content.clone()));
                b.add("type", JsonValue::string("user_task"));
            },
            ConversationEvent::ToolCall { tool, args } => {
                b.add("args", args.duplicate());
                b.add("tool", JsonValue::Str(tool.clone()));
                b.add("type", JsonValue::string("tool_call"));
            },
            ConversationEvent::ToolResult { tool, result } => {
                b.add("result", result.duplicate());
                b.add("tool", JsonValue::Str(tool.clone()));
                b.add("type", JsonValue::string("tool_result"));
            },
            ConversationEvent::ToolError { tool, error } => {
                b.add("error", JsonValue::Str(error.clone()));
                b.add("tool", JsonValue::Str(tool.clone()));
                b.add("type", JsonValue::string("tool_error"));
            },
            ConversationEvent::FinalAnswer { content } => {
                b.add("content", JsonValue::Str(content.clone()));
                b.add("type", JsonValue::string("final_answer"));
            },
        }
        assert(b.members() =~= conversation_json(*self)->Object_0);
        b.build()
    }

    /// A copy of the entry.
    pub fn duplicate(&self) -> (r: ConversationEvent)
        ensures
            conversation_json(r) == conversation_json(*self),
            r is ToolCall <==> self is ToolCall,
            called_tool(r) == called_tool(*self),
    {
        match self {
            ConversationEvent::UserTask { content } => ConversationEvent::UserTask { content: content.clone() },
            ConversationEvent::ToolCall { tool, args } => ConversationEvent::ToolCall { tool: tool.clone(), args: args.duplicate() },
            ConversationEvent::ToolResult { tool, result } => ConversationEvent::ToolResult { tool: tool.clone(), result: result.duplicate() },
            ConversationEvent::ToolError { tool, error } => ConversationEvent::ToolError { tool: tool.clone(), error: error.clone() },
            ConversationEvent::FinalAnswer { content } => ConversationEvent::FinalAnswer { content: content.clone() },
        }
    }
}

impl ToolSchema {
    pub fn to_json(&self) -> (r: JsonValue)
        ensures
            r@ == schema_json(*self),
    {
        let mut b = ObjectBuilder::new();
        b.add("description", JsonValue::Str(self.description.clone()));
        b.add("input_schema", self.input_schema.duplicate());
        b.add("name", JsonValue::Str(self.name.clone()));
        assert(b.members() =~= schema_json(*self)->Object_0);
        b.build()
    }

    /// A copy of the schema.
    pub fn duplicate(&self) -> (r: ToolSchema)
        ensures
            r.name@ == self.name@,
            r.description@ == self.description@,
            r.input_schema@ == self.input_schema@,
    {
        ToolSchema {
            name: self.name.clone(),
            description: self.description.clone(),
            input_schema: self.input_schema.duplicate(),
        }
    }
}

/// Whether a history entry is a tool call.
pub open spec fn is_tool_call() -> spec_fn(ConversationEvent) -> bool {
    |e: ConversationEvent| e is ToolCall
}

proof fn lemma_calls_in_prefix(h: Seq<ConversationEvent>, e: ConversationEvent, k: nat)
    requires
        k <= h.len(),
    ensures
        calls_in(h.push(e), k) == calls_in(h, k),
    decreases k,
{
    if k > 0 {
        lemma_calls_in_prefix(h, e, (k - 1) as nat);
        assert(h.push(e)[k - 1] == h[k - 1]);
    }
}

/// Appending a history entry adds one to the call count exactly when the
/// entry is a tool call; results, errors, answers and tasks add nothing.
pub proof fn law_calls_in_push(h: Seq<ConversationEvent>, e: ConversationEvent)
    ensures
        calls_in(h.push(e), h.len() + 1) == calls_in(h, h.len()) + (if e is ToolCall { 1nat } else { 0nat }),
        calls_in(Seq::<ConversationEvent>::empty(), 0) == 0,
{
    lemma_calls_in_prefix(h, e, h.len());
    assert(h.push(e)[h.len() as int] == e);
}

/// The call count of a history is the number of its tool-call entries,
/// whatever became of those calls; the mock's final answer reports it.
pub proof fn law_calls_count_tool_calls(h: Seq<ConversationEvent>, req: ModelRequest)
    ensures
        calls_in(h, h.len()) == h.filter(is_tool_call()).len(),
        mock_decision(req) matches Decision::Final(answer) ==> answer == mock_summary(
            req.user_task@,
            req.history@.filter(is_tool_call()).len(),
        ),
{
    lemma_calls_filter(h);
    lemma_calls_filter(req.history@);
}

proof fn lemma_calls_filter(h: Seq<ConversationEvent>)
    ensures
        calls_in(h, h.len()) == h.filter(is_tool_call()).len(),
    decreases h.len(),
{
    reveal(Seq::filter);
    if h.len() > 0 {
        let init = h.drop_last();
        lemma_calls_filter(init);
        assert(init.push(h.last()) =~= h);
        law_calls_in_push(init, h.last());
        assert(h.drop_last() == init);
        assert(is_tool_call()(h.last()) == h.last() is ToolCall);
    }
}

} // verus!
