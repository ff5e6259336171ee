//! The decisions of the binary's hidden test agent: a minimal ACP agent that
//! answers one JSON-RPC line at a time, for infrastructure-free tests.
use crate::decimal::{decimal, decimal_text};
use crate::json::{
    clone_json, get_member, json_text, json_to_text, lemma_object_model, member, parse_json,
    object0, object1, object2, object3, object4, text_value, Json, JsonSpec,
    json_parse,
};
use crate::policy::{json_rpc_error, rpc_error_document};
use crate::{Error, Result};
use vstd::prelude::*;

verus! {

/// How many noisy diagnostic lines `test/stderr` prints.
pub const NOISE_LINES: u32 = 1000;

/// What the test agent does with one request line.
#[derive(Debug)]
pub enum TestAgentStep {
    /// Write these lines to standard output.
    Reply(Vec<String>),
    /// Print the `NOISE_LINES` noise lines on standard error, then write
    /// these lines.
    NoiseThenReply(Vec<String>),
    /// Write these lines, then stop reading requests.
    ReplyAndExit(Vec<String>),
    /// Answer with the process id, through `pid_reply`.
    ReportPid(Option<Json>),
    /// Answer with the value of the named environment variable, through
    /// `environment_reply`.
    ReportEnvironment(Option<Json>, String),
}

/// What the test agent answers to one parsed request, before printing.
#[derive(Debug)]
pub enum TestAgentPlan {
    /// Write these documents.
    Reply(Vec<Json>),
    /// Print the noise lines, then write these documents.
    NoiseThenReply(Vec<Json>),
    /// Write these documents, then stop reading requests.
    ReplyAndExit(Vec<Json>),
    /// Answer with the process id.
    ReportPid(Option<Json>),
    /// Answer with the value of the named environment variable.
    ReportEnvironment(Option<Json>, String),
}

/// The model of a step.
pub enum TestAgentStepModel {
    Reply(Seq<Seq<char>>),
    NoiseThenReply(Seq<Seq<char>>),
    ReplyAndExit(Seq<Seq<char>>),
    ReportPid(Option<JsonSpec>),
    ReportEnvironment(Option<JsonSpec>, Seq<char>),
}

/// The model of an optional document.
pub open spec fn optional_model(value: Option<Json>) -> Option<JsonSpec> {
    match value {
        Some(v) => Some(v@),
        None => None,
    }
}

/// The models of a list of documents.
pub open spec fn documents_model(documents: Seq<Json>) -> Seq<JsonSpec> {
    Seq::new(documents.len(), |i: int| documents[i]@)
}

impl View for TestAgentPlan {
    type V = TestAgentPlanModel;

    open spec fn view(&self) -> TestAgentPlanModel {
        match self {
            TestAgentPlan::Reply(documents) => TestAgentPlanModel::Reply(documents_model(documents@)),
            TestAgentPlan::NoiseThenReply(documents) => TestAgentPlanModel::NoiseThenReply(
                documents_model(documents@),
            ),
            TestAgentPlan::ReplyAndExit(documents) => TestAgentPlanModel::ReplyAndExit(
                documents_model(documents@),
            ),
            TestAgentPlan::ReportPid(id) => TestAgentPlanModel::ReportPid(optional_model(*id)),
            TestAgentPlan::ReportEnvironment(id, name) => TestAgentPlanModel::ReportEnvironment(
                optional_model(*id),
                name@,
            ),
        }
    }
}

/// The texts of a list of strings.
pub open spec fn lines_model(lines: Seq<String>) -> Seq<Seq<char>> {
    Seq::new(lines.len(), |i: int| lines[i]@)
}

impl View for TestAgentStep {
    type V = TestAgentStepModel;

    open spec fn view(&self) -> TestAgentStepModel {
        match self {
            TestAgentStep::Reply(lines) => TestAgentStepModel::Reply(lines_model(lines@)),
            TestAgentStep::NoiseThenReply(lines) => TestAgentStepModel::NoiseThenReply(
                lines_model(lines@),
            ),
            TestAgentStep::ReplyAndExit(lines) => TestAgentStepModel::ReplyAndExit(
                lines_model(lines@),
            ),
            TestAgentStep::ReportPid(id) => TestAgentStepModel::ReportPid(optional_model(*id)),
            TestAgentStep::ReportEnvironment(id, name) => TestAgentStepModel::ReportEnvironment(
                optional_model(*id),
                name@,
            ),
        }
    }
}

/// A member of an object document.
pub open spec fn field(document: JsonSpec, key: Seq<char>) -> Option<JsonSpec> {
    match document {
        JsonSpec::Object(members) => member(members, key),
        _ => None,
    }
}

/// The string a member holds.
pub open spec fn string_field(document: JsonSpec, key: Seq<char>) -> Option<Seq<char>> {
    match field(document, key) {
        Some(JsonSpec::Str(text)) => Some(text),
        _ => None,
    }
}

/// A member of the `params` object, as the pointer `/params/<key>` finds it.
pub open spec fn param(document: JsonSpec, key: Seq<char>) -> Option<JsonSpec> {
    match field(document, "params"@) {
        Some(params) => field(params, key),
        None => None,
    }
}

/// The request id, or null.
pub open spec fn id_or_null(id: Option<JsonSpec>) -> JsonSpec {
    match id {
        Some(id) => id,
        None => JsonSpec::Null,
    }
}

/// A JSON-RPC result response.
pub open spec fn result_document(id: Option<JsonSpec>, result: JsonSpec) -> JsonSpec {
    JsonSpec::Object(
        seq![("jsonrpc"@, JsonSpec::Str("2.0"@)), ("id"@, id_or_null(id)), ("result"@, result)],
    )
}

/// The `initialize` result.
pub open spec fn initialize_result() -> JsonSpec {
    JsonSpec::Object(
        seq![
            ("protocolVersion"@, JsonSpec::Number("1"@)),
            ("agentCapabilities"@, JsonSpec::Object(Seq::empty())),
            (
                "agentInfo"@,
                JsonSpec::Object(
                    seq![
                        ("name"@, JsonSpec::Str("acp-tunnel-test-agent"@)),
                        ("version"@, JsonSpec::Str("0"@)),
                    ],
                ),
            ),
        ],
    )
}

/// The `session/new` result, which reports the `cwd` the agent received.
pub open spec fn session_new_result(cwd: Option<JsonSpec>) -> JsonSpec {
    JsonSpec::Object(
        seq![("sessionId"@, JsonSpec::Str("test-session"@)), ("observedCwd"@, id_or_null(cwd))],
    )
}

/// The `session/update` notification a prompt streams.
pub open spec fn prompt_update() -> JsonSpec {
    JsonSpec::Object(
        seq![
            ("jsonrpc"@, JsonSpec::Str("2.0"@)),
            ("method"@, JsonSpec::Str("session/update"@)),
            (
                "params"@,
                JsonSpec::Object(
                    seq![
                        ("sessionId"@, JsonSpec::Str("test-session"@)),
                        (
                            "update"@,
                            JsonSpec::Object(
                                seq![
                                    ("sessionUpdate"@, JsonSpec::Str("agent_message_chunk"@)),
                                    (
                                        "content"@,
                                        JsonSpec::Object(
                                            seq![
                                                ("type"@, JsonSpec::Str("text"@)),
                                                ("text"@, JsonSpec::Str("test"@)),
                                            ],
                                        ),
                                    ),
                                ],
                            ),
                        ),
                    ],
                ),
            ),
        ],
    )
}

/// The permission request a prompt sends to the client.
pub open spec fn permission_request() -> JsonSpec {
    JsonSpec::Object(
        seq![
            ("jsonrpc"@, JsonSpec::Str("2.0"@)),
            ("id"@, JsonSpec::Str("agent-permission-1"@)),
            ("method"@, JsonSpec::Str("session/request_permission"@)),
            (
                "params"@,
                JsonSpec::Object(
                    seq![
                        ("sessionId"@, JsonSpec::Str("test-session"@)),
                        ("options"@, JsonSpec::Array(Seq::empty())),
                    ],
                ),
            ),
        ],
    )
}

/// The result of a single boolean member `key`.
pub open spec fn flag_result(key: Seq<char>) -> JsonSpec {
    JsonSpec::Object(seq![(key, JsonSpec::Bool(true))])
}

/// The JSON-RPC error code for an unknown method.
pub open spec fn method_not_found_code() -> int {
    -32601
}

/// The model of a plan.
pub enum TestAgentPlanModel {
    Reply(Seq<JsonSpec>),
    NoiseThenReply(Seq<JsonSpec>),
    ReplyAndExit(Seq<JsonSpec>),
    ReportPid(Option<JsonSpec>),
    ReportEnvironment(Option<JsonSpec>, Seq<char>),
}

/// What the test agent does with a parsed request.
pub open spec fn agent_plan(request: JsonSpec) -> TestAgentPlanModel {
    let id = field(request, "id"@);
    match string_field(request, "method"@) {
        None => TestAgentPlanModel::Reply(Seq::empty()),
        Some(method) => if method == "initialize"@ {
            TestAgentPlanModel::Reply(seq![result_document(id, initialize_result())])
        } else if method == "session/new"@ {
            TestAgentPlanModel::Reply(
                seq![result_document(id, session_new_result(param(request, "cwd"@)))],
            )
        } else if method == "session/prompt"@ {
            TestAgentPlanModel::Reply(
                seq![
                    prompt_update(),
                    permission_request(),
                    result_document(
                        id,
                        JsonSpec::Object(seq![("stopReason"@, JsonSpec::Str("end_turn"@))]),
                    ),
                ],
            )
        } else if method == "session/cancel"@ {
            if id is Some {
                TestAgentPlanModel::Reply(seq![result_document(id, JsonSpec::Object(Seq::empty()))])
            } else {
                TestAgentPlanModel::Reply(Seq::empty())
            }
        } else if method == "test/exit"@ {
            TestAgentPlanModel::ReplyAndExit(
                seq![result_document(id, JsonSpec::Object(Seq::empty()))],
            )
        } else if method == "test/stderr"@ {
            TestAgentPlanModel::NoiseThenReply(
                seq![result_document(id, flag_result("stderrComplete"@))],
            )
        } else if method == "test/pid"@ {
            TestAgentPlanModel::ReportPid(id)
        } else if method == "test/environment"@ {
            TestAgentPlanModel::ReportEnvironment(
                id,
                match param(request, "name"@) {
                    Some(JsonSpec::Str(name)) => name,
                    _ => Seq::empty(),
                },
            )
        } else if id is Some {
            TestAgentPlanModel::Reply(
                seq![
                    rpc_error_document(
                        id_or_null(id),
                        method_not_found_code(),
                        "method not found"@,
                    ),
                ],
            )
        } else {
            TestAgentPlanModel::Reply(Seq::empty())
        },
    }
}

/// The printed lines of documents.
pub open spec fn printed(documents: Seq<JsonSpec>) -> Seq<Seq<char>> {
    documents.map_values(|document: JsonSpec| json_text(document))
}

/// A plan with its documents printed.
pub open spec fn printed_step(plan: TestAgentPlanModel) -> TestAgentStepModel {
    match plan {
        TestAgentPlanModel::Reply(documents) => TestAgentStepModel::Reply(printed(documents)),
        TestAgentPlanModel::NoiseThenReply(documents) => TestAgentStepModel::NoiseThenReply(
            printed(documents),
        ),
        TestAgentPlanModel::ReplyAndExit(documents) => TestAgentStepModel::ReplyAndExit(
            printed(documents),
        ),
        TestAgentPlanModel::ReportPid(id) => TestAgentStepModel::ReportPid(id),
        TestAgentPlanModel::ReportEnvironment(id, name) => TestAgentStepModel::ReportEnvironment(
            id,
            name,
        ),
    }
}

/// What the test agent does with one line: the step for the parsed request,
/// or the parse error's message when the line is not JSON.
pub open spec fn test_agent_decision(line: Seq<char>) -> std::result::Result<
    TestAgentStepModel,
    Seq<char>,
> {
    match json_parse(line) {
        Ok(request) => Ok(printed_step(agent_plan(request))),
        Err(message) => Err(message),
    }
}

/// The reply carrying the agent's process id.
pub open spec fn pid_document(id: Option<JsonSpec>, pid: nat) -> JsonSpec {
    result_document(id, JsonSpec::Object(seq![("pid"@, JsonSpec::Number(decimal_text(pid)))]))
}

/// The reply carrying the value of an environment variable, or null.
pub open spec fn environment_document(id: Option<JsonSpec>, value: Option<Seq<char>>) -> JsonSpec {
    result_document(
        id,
        JsonSpec::Object(
            seq![
                (
                    "value"@,
                    match value {
                        Some(v) => JsonSpec::Str(v),
                        None => JsonSpec::Null,
                    },
                ),
            ],
        ),
    )
}

/// The text of one noise line.
pub open spec fn noise_text(index: nat) -> Seq<char> {
    "noisy diagnostic "@ + decimal_text(index)
}


/// One document.
fn one_document(document: Json) -> (documents: Vec<Json>)
    ensures
        documents_model(documents@) == seq![document@],
{
    let ghost model = document@;
    let mut documents: Vec<Json> = Vec::new();
    documents.push(document);
    assert(documents_model(documents@) =~= seq![model]);
    documents
}

/// No document.
fn no_documents() -> (documents: Vec<Json>)
    ensures
        documents_model(documents@) == Seq::<JsonSpec>::empty(),
{
    let documents: Vec<Json> = Vec::new();
    assert(documents_model(documents@) =~= Seq::<JsonSpec>::empty());
    documents
}

/// An array without items.
fn empty_array() -> (array: Json)
    ensures
        array@ == JsonSpec::Array(Seq::empty()),
{
    let items: Vec<Json> = Vec::new();
    proof {
        crate::json::lemma_array_model(items);
        assert(crate::json::items_model(items@) =~= Seq::<JsonSpec>::empty());
    }
    Json::Array(items)
}

/// A member of an object document.
fn field_of<'a>(document: &'a Json, key: &str) -> (found: Option<&'a Json>)
    ensures
        match found {
            Some(value) => field(document@, key@) == Some(value@),
            None => field(document@, key@) is None,
        },
{
    match document {
        Json::Object(members) => {
            proof { lemma_object_model(*members); }
            get_member(members, key)
        },
        _ => None,
    }
}

/// A JSON-RPC result response.
fn result_response(id: &Option<Json>, result: Json) -> (response: Json)
    ensures
        response@ == result_document(optional_model(*id), result@),
{
    let id_value = match id {
        Some(v) => clone_json(v),
        None => Json::Null,
    };
    object3("jsonrpc", text_value("2.0"), "id", id_value, "result", result)
}

/// Decides what the test agent answers to one parsed request.
pub fn test_agent_plan(request: &Json) -> (plan: TestAgentPlan)
    ensures
        plan@ == agent_plan(request@),
{
    let id: Option<Json> = match field_of(request, "id") {
        Some(v) => Some(clone_json(v)),
        None => None,
    };
    assert(optional_model(id) == field(request@, "id"@));
    let method: &String = match field_of(request, "method") {
        Some(Json::Str(method)) => method,
        _ => return TestAgentPlan::Reply(no_documents()),
    };
    assert(string_field(request@, "method"@) == Some(method@));
    if crate::json::same_text(method, "initialize") {
        let info = object2(
            "name",
            text_value("acp-tunnel-test-agent"),
            "version",
            text_value("0"),
        );
        let result = object3(
            "protocolVersion",
            Json::Number("1".to_owned()),
            "agentCapabilities",
            object0(),
            "agentInfo",
            info,
        );
        TestAgentPlan::Reply(one_document(result_response(&id, result)))
    } else if crate::json::same_text(method, "session/new") {
        let cwd = match field_of(request, "params") {
            Some(params) => match field_of(params, "cwd") {
                Some(cwd) => clone_json(cwd),
                None => Json::Null,
            },
            None => Json::Null,
        };
        let result = object2("sessionId", text_value("test-session"), "observedCwd", cwd);
        assert(result@ == session_new_result(param(request@, "cwd"@)));
        TestAgentPlan::Reply(one_document(result_response(&id, result)))
    } else if crate::json::same_text(method, "session/prompt") {
        let content = object2("type", text_value("text"), "text", text_value("test"));
        let update = object2(
            "sessionUpdate",
            text_value("agent_message_chunk"),
            "content",
            content,
        );
        let params = object2("sessionId", text_value("test-session"), "update", update);
        let notification = object3(
            "jsonrpc",
            text_value("2.0"),
            "method",
            text_value("session/update"),
            "params",
            params,
        );
        let permission_params = object2(
            "sessionId",
            text_value("test-session"),
            "options",
            empty_array(),
        );
        let permission = object4(
            "jsonrpc",
            text_value("2.0"),
            "id",
            text_value("agent-permission-1"),
            "method",
            text_value("session/request_permission"),
            "params",
            permission_params,
        );
        let done = result_response(&id, object1("stopReason", text_value("end_turn")));
        let ghost models = seq![notification@, permission@, done@];
        assert(notification@ == prompt_update());
        assert(permission@ == permission_request());
        let mut documents: Vec<Json> = Vec::new();
        documents.push(notification);
        documents.push(permission);
        documents.push(done);
        assert(documents_model(documents@) =~= models);
        TestAgentPlan::Reply(documents)
    } else if crate::json::same_text(method, "session/cancel") {
        if id.is_some() {
            TestAgentPlan::Reply(one_document(result_response(&id, object0())))
        } else {
            TestAgentPlan::Reply(no_documents())
        }
    } else if crate::json::same_text(method, "test/exit") {
        TestAgentPlan::ReplyAndExit(one_document(result_response(&id, object0())))
    } else if crate::json::same_text(method, "test/stderr") {
        let result = object1("stderrComplete", Json::Bool(true));
        TestAgentPlan::NoiseThenReply(one_document(result_response(&id, result)))
    } else if crate::json::same_text(method, "test/pid") {
        TestAgentPlan::ReportPid(id)
    } else if crate::json::same_text(method, "test/environment") {
        let name = match field_of(request, "params") {
            Some(params) => match field_of(params, "name") {
                Some(Json::Str(name)) => name.clone(),
                _ => "".to_owned(),
            },
            None => "".to_owned(),
        };
        proof { reveal_strlit(""); }
        assert(name@ == match param(request@, "name"@) {
            Some(JsonSpec::Str(name)) => name,
            _ => Seq::empty(),
        });
        TestAgentPlan::ReportEnvironment(id, name)
    } else {
        match id {
            Some(id) => TestAgentPlan::Reply(
                one_document(json_rpc_error(id, -32601, "method not found")),
            ),
            None => TestAgentPlan::Reply(no_documents()),
        }
    }
}

/// Prints documents, one line each.
fn print_documents(documents: &Vec<Json>) -> (lines: Vec<String>)
    ensures
        lines_model(lines@) == printed(documents_model(documents@)),
{
    let mut lines: Vec<String> = Vec::new();
    let mut index: usize = 0;
    while index < documents.len()
        invariant
            index <= documents@.len(),
            lines_model(lines@) == printed(documents_model(documents@).take(index as int)),
        decreases documents@.len() - index,
    {
        let ghost before = lines@;
        let line = json_to_text(&documents[index]);
        lines.push(line);
        assert(lines_model(lines@) =~= lines_model(before).push(line@));
        assert(printed(documents_model(documents@).take(index + 1)) =~= printed(
            documents_model(documents@).take(index as int),
        ).push(json_text(documents@[index as int]@)));
        index = index + 1;
    }
    assert(documents_model(documents@).take(index as int) =~= documents_model(documents@));
    lines
}

/// Decides what the test agent does with one request line.
pub fn test_agent_step(line: &str) -> (step: Result<TestAgentStep>)
    ensures
        match step {
            Ok(s) => test_agent_decision(line@) == Ok::<TestAgentStepModel, Seq<char>>(s@),
            Err(Error::Json(message)) => test_agent_decision(line@) == Err::<
                TestAgentStepModel,
                Seq<char>,
            >(message@),
            Err(_) => false,
        },
{
    let request = match parse_json(line) {
        Ok(request) => request,
        Err(message) => return Err(Error::Json(message)),
    };
    match test_agent_plan(&request) {
        TestAgentPlan::Reply(documents) => Ok(TestAgentStep::Reply(print_documents(&documents))),
        TestAgentPlan::NoiseThenReply(documents) => Ok(
            TestAgentStep::NoiseThenReply(print_documents(&documents)),
        ),
        TestAgentPlan::ReplyAndExit(documents) => Ok(
            TestAgentStep::ReplyAndExit(print_documents(&documents)),
        ),
        TestAgentPlan::ReportPid(id) => Ok(TestAgentStep::ReportPid(id)),
        TestAgentPlan::ReportEnvironment(id, name) => Ok(TestAgentStep::ReportEnvironment(id, name)),
    }
}

/// Prints the reply carrying the agent's process id.
pub fn pid_reply(id: &Option<Json>, pid: u32) -> (text: String)
    ensures
        text@ == json_text(pid_document(optional_model(*id), pid as nat)),
{
    let result = object1("pid", Json::Number(decimal(pid as u64)));
    json_to_text(&result_response(id, result))
}

/// Prints the reply carrying the value of an environment variable.
pub fn environment_reply(id: &Option<Json>, value: Option<String>) -> (text: String)
    ensures
        text@ == json_text(
            environment_document(
                optional_model(*id),
                match value {
                    Some(v) => Some(v@),
                    None => None,
                },
            ),
        ),
{
    let value = match value {
        Some(v) => Json::Str(v),
        None => Json::Null,
    };
    json_to_text(&result_response(id, object1("value", value)))
}

/// The text of one noise line.
pub fn noise_line(index: u32) -> (text: String)
    ensures
        text@ == noise_text(index as nat),
{
    let mut text = "noisy diagnostic ".to_owned();
    text.append(decimal(index as u64).as_str());
    text
}

/// `session/cancel` is answered only when it is a request: with an `id` it
/// gets one empty result carrying that `id`; as a notification, without an
/// `id`, it gets no answer at all, whatever else it holds.
pub proof fn lemma_cancel_answers_only_requests(request: JsonSpec)
    requires
        string_field(request, "method"@) == Some("session/cancel"@),
    ensures
        field(request, "id"@) is None ==> agent_plan(request) == TestAgentPlanModel::Reply(
            Seq::empty(),
        ),
        field(request, "id"@) matches Some(id) ==> agent_plan(request) == TestAgentPlanModel::Reply(
            seq![
                JsonSpec::Object(
                    seq![
                        ("jsonrpc"@, JsonSpec::Str("2.0"@)),
                        ("id"@, id),
                        ("result"@, JsonSpec::Object(Seq::empty())),
                    ],
                ),
            ],
        ),
{
    reveal_strlit("session/cancel");
    reveal_strlit("initialize");
    reveal_strlit("session/new");
    reveal_strlit("session/prompt");
    assert("session/cancel"@.len() != "initialize"@.len());
    assert("session/cancel"@.len() != "session/new"@.len());
    assert("session/cancel"@[8] != "session/prompt"@[8]);
}

/// A notification, a request without an `id`, of a method the agent does
/// not know gets no answer.
pub proof fn lemma_unknown_notification_gets_no_answer(request: JsonSpec, method: Seq<char>)
    requires
        string_field(request, "method"@) == Some(method),
        field(request, "id"@) is None,
        method != "initialize"@,
        method != "session/new"@,
        method != "session/prompt"@,
        method != "session/cancel"@,
        method != "test/exit"@,
        method != "test/stderr"@,
        method != "test/pid"@,
        method != "test/environment"@,
    ensures
        agent_plan(request) == TestAgentPlanModel::Reply(Seq::empty()),
{
}

} // verus!
