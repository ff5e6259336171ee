//! The only ACP-aware transformations the tunnel performs: lifecycle `cwd`
//! mapping and the `session/new` MCP server policy.
use crate::config::{named_servers, text_pairs, texts, McpPolicy, McpServerConfig, McpServerModel};
use crate::decimal::{signed_decimal, signed_decimal_text};
use crate::json::{
    clone_json, find_member, get_member, is_first_key, lemma_key_position,
    lemma_member_of_with_member, lemma_with_member_of_same_value, json_from_value, json_parse, json_text, json_to_text,
    items_model, lemma_array_model, lemma_object_model, member, members_model, parse_json,
    quote_debug, debug_quoted, same_text, set_member, with_member, Json, JsonSpec, object2, object3,
    text_value,
};
use crate::process::{mcp_environment, selected_mcp_environment};
use crate::{Error, Result};
use agent_client_protocol::v2::schema::{EnvVariable, McpServer, McpServerStdio};
use vstd::prelude::*;

verus! {

/// Outcome of applying configured ACP path and MCP policies.
#[derive(Clone, Debug, Eq, PartialEq)]
pub enum PolicyOutcome {
    /// Forward this line to the agent.
    Forward(String),
    /// Send this correlated JSON-RPC error to the client instead.
    Reject(String),
}

/// The edit of a lifecycle request.
#[derive(Debug)]
pub enum PolicyEdit {
    /// The edited request to forward.
    Forward(Json),
    /// The JSON-RPC error to send back instead.
    Reject(Json),
}

/// Whether an edit is the modelled one.
pub open spec fn edit_is(edit: Result<PolicyEdit>, model: EditModel) -> bool {
    match edit {
        Ok(PolicyEdit::Forward(document)) => model == EditModel::Forward(document@),
        Ok(PolicyEdit::Reject(document)) => model == EditModel::Reject(document@),
        Err(Error::Policy(message)) => model == EditModel::Refuse(message@),
        Err(_) => false,
    }
}

/// Applies the only ACP-aware transformations performed by acp-tunnel.
#[derive(Clone)]
pub struct AcpPolicy {
    workspace_path: String,
    rewrite_cwd: bool,
    mcp_policy: McpPolicy,
    mcp_servers: Vec<(String, McpServerConfig)>,
    server_environment: Vec<(String, String)>,
}

/// The model of a policy.
pub struct PolicyModel {
    /// The selected workspace's remote path.
    pub workspace_path: Seq<char>,
    /// Whether lifecycle requests get the workspace path as `cwd`.
    pub rewrite_cwd: bool,
    /// The agent's MCP policy.
    pub mcp_policy: McpPolicy,
    /// The configured MCP servers by name.
    pub mcp_servers: Map<Seq<char>, McpServerModel>,
    /// The server's own environment, read by `pass_env`.
    pub environment: Seq<(Seq<char>, Seq<char>)>,
}

impl View for AcpPolicy {
    type V = PolicyModel;

    closed spec fn view(&self) -> PolicyModel {
        PolicyModel {
            workspace_path: self.workspace_path@,
            rewrite_cwd: self.rewrite_cwd,
            mcp_policy: self.mcp_policy,
            mcp_servers: servers_by_name(named_servers(self.mcp_servers@)),
            environment: text_pairs(self.server_environment@),
        }
    }
}

/// What the policy does with one line.
pub enum PolicyDecision {
    /// The line to forward to the agent.
    Forward(Seq<char>),
    /// The JSON-RPC error to send back to the client.
    Reject(Seq<char>),
    /// The request cannot be processed; the message says why.
    Refuse(Seq<char>),
}

/// `session/new`, the one lifecycle method that carries MCP servers.
pub open spec fn session_new() -> Seq<char> {
    "session/new"@
}

/// The ACP session lifecycle methods whose `cwd` is mapped.
pub open spec fn is_lifecycle(method: Seq<char>) -> bool {
    method == session_new() || method == "session/load"@ || method == "session/resume"@
}

/// What `serde_json::from_str` gives when it reads a line into a
/// `Vec<(String, Box<RawValue>)>` through `serde_with::Map`: the members of a
/// JSON object in the order written, a repeated key as often as it is
/// written, each value as its raw JSON text; none when the line is no JSON
/// object.
pub uninterp spec fn raw_members_read(line: Seq<char>) -> Option<Seq<(Seq<char>, Seq<char>)>>;

/// What `serde_json::from_str` gives when it reads a text as an
/// `Option<String>`: `Some` of the read value, or none when it does not read.
pub uninterp spec fn optional_string_read(text: Seq<char>) -> Option<Option<Seq<char>>>;

/// What `serde_json::from_str` gives when it reads a line as the one-item
/// tuple `(Option<String>,)`, that is a JSON array of one optional string:
/// `Some` of the item, or none when the line does not read so.
pub uninterp spec fn single_item_read(line: Seq<char>) -> Option<Option<Seq<char>>>;

/// The model of an optional string read.
pub open spec fn optional_text_model(read: Option<Option<String>>) -> Option<Option<Seq<char>>> {
    match read {
        None => None,
        Some(None) => Some(None),
        Some(Some(text)) => Some(Some(text@)),
    }
}

/// `serde_json::from_str` of a line into a `Vec<(String, Box<RawValue>)>`
/// read as a map through `serde_with::Map<Same, Same>`, each member handed
/// out as its key and raw text.
#[verifier::external_body]
fn read_raw_members(line: &str) -> (members: Option<Vec<(String, String)>>)
    ensures
        match members {
            Some(members) => raw_members_read(line@) == Some(text_pairs(members@)),
            None => raw_members_read(line@) is None,
        },
{
    let read = serde_json::from_str::<serde_with::de::DeserializeAsWrap<Vec<(String, Box<serde_json::value::RawValue>)>, serde_with::Map<serde_with::Same, serde_with::Same>>>(line);
    read.ok().map(|members| members.into_inner().into_iter().map(|(key, raw)| (key, raw.get().to_owned())).collect())
}

/// `serde_json::from_str::<Option<String>>`.
#[verifier::external_body]
fn read_optional_string(text: &str) -> (read: Option<Option<String>>)
    ensures
        optional_text_model(read) == optional_string_read(text@),
{
    serde_json::from_str::<Option<String>>(text).ok()
}

/// `serde_json::from_str::<(Option<String>,)>`.
#[verifier::external_body]
fn read_single_item(line: &str) -> (read: Option<Option<String>>)
    ensures
        optional_text_model(read) == single_item_read(line@),
{
    serde_json::from_str::<(Option<String>,)>(line).ok().map(|(item,)| item)
}

/// The raw text of the last member called `key`.
pub open spec fn last_member_text(members: Seq<(Seq<char>, Seq<char>)>, key: Seq<char>) -> Option<
    Seq<char>,
>
    decreases members.len(),
{
    if members.len() == 0 {
        None
    } else if members.last().0 == key {
        Some(members.last().1)
    } else {
        last_member_text(members.drop_last(), key)
    }
}

/// How many members are called `key`.
pub open spec fn key_count(members: Seq<(Seq<char>, Seq<char>)>, key: Seq<char>) -> nat
    decreases members.len(),
{
    if members.len() == 0 {
        0
    } else {
        key_count(members.drop_last(), key) + if members.last().0 == key {
            1nat
        } else {
            0nat
        }
    }
}

/// The raw text of the one member called `key`; none when no member or more
/// than one is called so.
pub open spec fn sole_member_text(members: Seq<(Seq<char>, Seq<char>)>, key: Seq<char>) -> Option<
    Seq<char>,
> {
    if key_count(members, key) == 1 {
        last_member_text(members, key)
    } else {
        None
    }
}

/// The method of a line, as reading it into a struct whose one field is
/// `method: Option<String>` gives it: of a JSON object, its one `method`
/// member read as an optional string, none when the member is absent, null,
/// does not read as a string, or is repeated (a struct read refuses a
/// duplicate field); of any other line, the item of a one-item array of an
/// optional string, none when the line does not read so.
pub open spec fn sniffed_method(line: Seq<char>) -> Option<Seq<char>> {
    match raw_members_read(line) {
        Some(members) => match sole_member_text(members, "method"@) {
            Some(raw) => match optional_string_read(raw) {
                Some(Some(method)) => Some(method),
                _ => None,
            },
            None => None,
        },
        None => match single_item_read(line) {
            Some(Some(method)) => Some(method),
            _ => None,
        },
    }
}

/// The raw text of the one `method` member of an object's members; none
/// when no member or more than one is called `method`.
pub fn method_member(members: &Vec<(String, String)>) -> (raw: Option<&String>)
    ensures
        match raw {
            Some(raw) => sole_member_text(text_pairs(members@), "method"@) == Some(raw@),
            None => sole_member_text(text_pairs(members@), "method"@) is None,
        },
{
    let ghost all = text_pairs(members@);
    let mut count: usize = 0;
    let mut scanned: usize = 0;
    assert(all.take(0) =~= Seq::<(Seq<char>, Seq<char>)>::empty());
    while scanned < members.len()
        invariant
            scanned <= members@.len(),
            count <= scanned,
            all == text_pairs(members@),
            count == key_count(all.take(scanned as int), "method"@),
        decreases members@.len() - scanned,
    {
        assert(all.take(scanned + 1).drop_last() =~= all.take(scanned as int));
        assert(all.take(scanned + 1).last() == all[scanned as int]);
        if same_text(&members[scanned].0, "method") {
            count = count + 1;
        }
        scanned = scanned + 1;
    }
    assert(all.take(scanned as int) =~= all);
    if count != 1 {
        return None;
    }
    let mut index: usize = members.len();
    assert(all.take(index as int) =~= all);
    while index > 0
        invariant
            index <= members@.len(),
            all == text_pairs(members@),
            key_count(all, "method"@) == 1,
            last_member_text(all, "method"@) == last_member_text(all.take(index as int), "method"@),
        decreases index,
    {
        let ghost prefix = all.take(index as int);
        assert(prefix.drop_last() =~= all.take(index - 1));
        assert(prefix.last() == all[index - 1]);
        if same_text(&members[index - 1].0, "method") {
            return Some(&members[index - 1].1);
        }
        index = index - 1;
    }
    None
}

/// Reads the `method` of a line; see `sniffed_method`.
fn sniff_method(line: &str) -> (method: Option<String>)
    ensures
        match method {
            Some(m) => sniffed_method(line@) == Some(m@),
            None => sniffed_method(line@) is None,
        },
{
    match read_raw_members(line) {
        Some(members) => match method_member(&members) {
            Some(raw) => match read_optional_string(raw.as_str()) {
                Some(Some(method)) => Some(method),
                _ => None,
            },
            None => None,
        },
        None => match read_single_item(line) {
            Some(Some(method)) => Some(method),
            _ => None,
        },
    }
}

/// The servers of a list by name, as a map built from the list holds them:
/// of a name listed twice, the later entry.
pub open spec fn servers_by_name(servers: Seq<(Seq<char>, McpServerModel)>) -> Map<
    Seq<char>,
    McpServerModel,
>
    decreases servers.len(),
{
    if servers.len() == 0 {
        Map::empty()
    } else {
        servers_by_name(servers.drop_last()).insert(servers.last().0, servers.last().1)
    }
}

/// The configured server of a name.
pub open spec fn configured_server(servers: Map<Seq<char>, McpServerModel>, name: Seq<char>) -> Option<
    McpServerModel,
> {
    if servers.contains_key(name) {
        Some(servers[name])
    } else {
        None
    }
}

/// The JSON that `agent_client_protocol` gives a stdio MCP server: the
/// `type` tag, then `name`, `command`, and `args` and `env` when not empty,
/// each environment variable an object of `name` and `value`.
pub open spec fn stdio_server_json(
    name: Seq<char>,
    command: Seq<char>,
    args: Seq<Seq<char>>,
    environment: Seq<(Seq<char>, Seq<char>)>,
) -> JsonSpec {
    let base = seq![
        ("type"@, JsonSpec::Str("stdio"@)),
        ("name"@, JsonSpec::Str(name)),
        ("command"@, JsonSpec::Str(command)),
    ];
    let with_args = if args.len() == 0 {
        base
    } else {
        base.push(("args"@, JsonSpec::Array(args.map_values(|arg: Seq<char>| JsonSpec::Str(arg)))))
    };
    let with_env = if environment.len() == 0 {
        with_args
    } else {
        with_args.push(
            (
                "env"@,
                JsonSpec::Array(
                    environment.map_values(
                        |variable: (Seq<char>, Seq<char>)|
                            JsonSpec::Object(
                                seq![
                                    ("name"@, JsonSpec::Str(variable.0)),
                                    ("value"@, JsonSpec::Str(variable.1)),
                                ],
                            ),
                    ),
                ),
            ),
        )
    };
    JsonSpec::Object(with_env)
}

/// The server-owned definition that replaces an MCP server of this name.
pub open spec fn canonical_server(
    name: Seq<char>,
    server: McpServerModel,
    environment: Seq<(Seq<char>, Seq<char>)>,
) -> JsonSpec {
    stdio_server_json(name, server.command, server.args, mcp_environment(server, environment))
}

/// The string `name` of an incoming MCP server.
pub open spec fn server_name(server: JsonSpec) -> Option<Seq<char>> {
    match server {
        JsonSpec::Object(members) => match member(members, "name"@) {
            Some(JsonSpec::Str(name)) => Some(name),
            _ => None,
        },
        _ => None,
    }
}

/// The message for a server without a string name.
pub open spec fn unnamed_server_message() -> Seq<char> {
    "each MCP server must have a string name"@
}

/// The message for a server name the configuration does not list.
pub open spec fn not_allowlisted_message(name: Seq<char>) -> Seq<char> {
    "MCP server "@ + debug_quoted(name) + " is not allowlisted"@
}

/// The message for an `mcpServers` member that is not an array.
pub open spec fn servers_not_array_message() -> Seq<char> {
    "params.mcpServers must be an array"@
}

/// The allowlisted replacements of incoming servers, in order, or the message
/// for the first server that cannot be replaced.
pub open spec fn replaced_servers(policy: PolicyModel, servers: Seq<JsonSpec>) -> std::result::Result<
    Seq<JsonSpec>,
    Seq<char>,
>
    decreases servers.len(),
{
    if servers.len() == 0 {
        Ok(Seq::empty())
    } else {
        match replaced_servers(policy, servers.drop_last()) {
            Err(message) => Err(message),
            Ok(done) => match server_name(servers.last()) {
                None => Err(unnamed_server_message()),
                Some(name) => match configured_server(policy.mcp_servers, name) {
                    None => Err(not_allowlisted_message(name)),
                    Some(server) => Ok(
                        done.push(canonical_server(name, server, policy.environment)),
                    ),
                },
            },
        }
    }
}

/// The `params` members after the MCP policy, or the message of a rejection.
pub open spec fn mcp_decision(
    policy: PolicyModel,
    params: Seq<(Seq<char>, JsonSpec)>,
) -> std::result::Result<Seq<(Seq<char>, JsonSpec)>, Seq<char>> {
    match policy.mcp_policy {
        McpPolicy::Passthrough => Ok(params),
        McpPolicy::Deny => Ok(with_member(params, "mcpServers"@, JsonSpec::Array(Seq::empty()))),
        McpPolicy::Allowlisted => match member(params, "mcpServers"@) {
            None => Ok(params),
            Some(JsonSpec::Array(servers)) => match replaced_servers(policy, servers) {
                Ok(replacements) => Ok(
                    with_member(params, "mcpServers"@, JsonSpec::Array(replacements)),
                ),
                Err(message) => Err(message),
            },
            Some(_) => Err(servers_not_array_message()),
        },
    }
}

/// The JSON-RPC error code of a refused MCP server.
pub open spec fn mcp_rejection_code() -> int {
    -32001
}

/// A JSON-RPC error response correlated with the request `id`.
pub open spec fn rpc_error_document(id: JsonSpec, code: int, message: Seq<char>) -> JsonSpec {
    JsonSpec::Object(
        seq![
            ("jsonrpc"@, JsonSpec::Str("2.0"@)),
            ("id"@, id),
            (
                "error"@,
                JsonSpec::Object(
                    seq![
                        ("code"@, JsonSpec::Number(signed_decimal_text(code))),
                        ("message"@, JsonSpec::Str(message)),
                    ],
                ),
            ),
        ],
    )
}

/// The request's `id`, or null without one.
pub open spec fn request_id(root: Seq<(Seq<char>, JsonSpec)>) -> JsonSpec {
    match member(root, "id"@) {
        Some(id) => id,
        None => JsonSpec::Null,
    }
}

/// The `params` members of a lifecycle request: empty when absent, `None`
/// when `params` is not an object.
pub open spec fn lifecycle_params(root: Seq<(Seq<char>, JsonSpec)>) -> Option<
    Seq<(Seq<char>, JsonSpec)>,
> {
    match member(root, "params"@) {
        None => Some(Seq::empty()),
        Some(JsonSpec::Object(members)) => Some(members),
        Some(_) => None,
    }
}

/// The model of an edit of a lifecycle request.
pub enum EditModel {
    /// The edited request to forward.
    Forward(JsonSpec),
    /// The JSON-RPC error to send back instead.
    Reject(JsonSpec),
    /// The request cannot be edited; the message says why.
    Refuse(Seq<char>),
}

/// How the policy edits a parsed lifecycle request; `session_new` tells
/// whether it is a `session/new` request, the one that carries MCP servers.
pub open spec fn lifecycle_edit(policy: PolicyModel, session_new: bool, request: JsonSpec) -> EditModel {
    match request {
        JsonSpec::Object(root) => match lifecycle_params(root) {
            None => EditModel::Refuse("lifecycle JSON-RPC params must be an object"@),
            Some(params) => {
                let mapped = if policy.rewrite_cwd {
                    with_member(params, "cwd"@, JsonSpec::Str(policy.workspace_path))
                } else {
                    params
                };
                if session_new {
                    match mcp_decision(policy, mapped) {
                        Err(message) => EditModel::Reject(
                            rpc_error_document(request_id(root), mcp_rejection_code(), message),
                        ),
                        Ok(edited) => EditModel::Forward(
                            JsonSpec::Object(with_member(root, "params"@, JsonSpec::Object(edited))),
                        ),
                    }
                } else {
                    EditModel::Forward(
                        JsonSpec::Object(with_member(root, "params"@, JsonSpec::Object(mapped))),
                    )
                }
            },
        },
        _ => EditModel::Refuse("lifecycle JSON-RPC request must be an object"@),
    }
}

/// What the policy does with a lifecycle request that it has to edit: the
/// edit, with the edited request or the error printed.
pub open spec fn lifecycle_decision(
    policy: PolicyModel,
    method: Seq<char>,
    parsed: std::result::Result<JsonSpec, Seq<char>>,
) -> PolicyDecision {
    match parsed {
        Err(error) => PolicyDecision::Refuse("invalid lifecycle JSON-RPC request: "@ + error),
        Ok(request) => match lifecycle_edit(policy, method == session_new(), request) {
            EditModel::Forward(document) => PolicyDecision::Forward(json_text(document)),
            EditModel::Reject(document) => PolicyDecision::Reject(json_text(document)),
            EditModel::Refuse(message) => PolicyDecision::Refuse(message),
        },
    }
}

/// Whether the policy leaves a line with this method untouched.
pub open spec fn passes_unchanged(policy: PolicyModel, method: Option<Seq<char>>) -> bool {
    match method {
        None => true,
        Some(method) => !is_lifecycle(method) || (!policy.rewrite_cwd && (method != session_new()
            || policy.mcp_policy == McpPolicy::Passthrough)),
    }
}

/// What the policy does with one ACP line.
pub open spec fn policy_decision(policy: PolicyModel, line: Seq<char>) -> PolicyDecision {
    let method = sniffed_method(line);
    if passes_unchanged(policy, method) {
        PolicyDecision::Forward(line)
    } else {
        lifecycle_decision(policy, method->0, json_parse(line))
    }
}

/// Whether an outcome is the decision.
pub open spec fn outcome_is(outcome: Result<PolicyOutcome>, decision: PolicyDecision) -> bool {
    match outcome {
        Ok(PolicyOutcome::Forward(line)) => decision == PolicyDecision::Forward(line@),
        Ok(PolicyOutcome::Reject(line)) => decision == PolicyDecision::Reject(line@),
        Err(Error::Policy(message)) => decision == PolicyDecision::Refuse(message@),
        Err(_) => false,
    }
}


/// `agent_client_protocol::v2::schema::McpServer::Stdio` of
/// `McpServerStdio::new(name, command).args(args).env(environment)`, each
/// variable an `EnvVariable::new(name, value)`, turned into JSON by
/// `serde_json::to_value`. The schema's serde attributes give the claimed
/// JSON: the internal `type` tag first, then the fields in order, with empty
/// `args` and `env` and the absent `_meta` left out. The conversion does not
/// fail: the command path comes from a UTF-8 string.
#[verifier::external_body]
fn canonical_stdio_server(
    name: &str,
    command: &str,
    args: &Vec<String>,
    environment: &Vec<(String, String)>,
) -> (server: Json)
    ensures
        server@ == stdio_server_json(name@, command@, texts(args@), text_pairs(environment@)),
{
    let env = environment.iter().map(|(key, value)| EnvVariable::new(key.clone(), value.clone())).collect();
    let server = McpServerStdio::new(name, std::path::PathBuf::from(command)).args(args.clone()).env(env);
    serde_json::to_value(McpServer::Stdio(server)).map_or(Json::Null, json_from_value)
}

/// A correlated JSON-RPC error response.
pub(crate) fn json_rpc_error(id: Json, code: i32, message: &str) -> (response: Json)
    ensures
        response@ == rpc_error_document(id@, code as int, message@),
{
    let error = object2(
        "code",
        Json::Number(signed_decimal(code as i64)),
        "message",
        text_value(message),
    );
    object3("jsonrpc", text_value("2.0"), "id", id, "error", error)
}

/// Whether a method is one of the session lifecycle methods.
fn lifecycle_method(method: &String) -> (lifecycle: bool)
    ensures
        lifecycle == is_lifecycle(method@),
{
    same_text(method, "session/new") || same_text(method, "session/load") || same_text(
        method,
        "session/resume",
    )
}

/// The configured server of a name: its last entry in the list.
fn find_server<'a>(servers: &'a Vec<(String, McpServerConfig)>, name: &String) -> (found: Option<
    &'a McpServerConfig,
>)
    ensures
        match found {
            Some(server) => configured_server(servers_by_name(named_servers(servers@)), name@)
                == Some(server@),
            None => configured_server(servers_by_name(named_servers(servers@)), name@) is None,
        },
{
    let ghost all = named_servers(servers@);
    let mut index: usize = servers.len();
    assert(all.take(index as int) =~= all);
    while index > 0
        invariant
            index <= servers@.len(),
            all == named_servers(servers@),
            configured_server(servers_by_name(all), name@) == configured_server(
                servers_by_name(all.take(index as int)),
                name@,
            ),
        decreases index,
    {
        let ghost prefix = all.take(index as int);
        assert(prefix.drop_last() =~= all.take(index - 1));
        assert(prefix.last() == all[index - 1]);
        if servers[index - 1].0.eq(name) {
            return Some(&servers[index - 1].1);
        }
        assert(servers_by_name(prefix).contains_key(name@) == servers_by_name(
            all.take(index - 1),
        ).contains_key(name@));
        index = index - 1;
    }
    assert(servers_by_name(all.take(0)) == Map::<Seq<char>, McpServerModel>::empty());
    None
}

/// The message for a server without a string name.
fn unnamed_server() -> (message: String)
    ensures
        message@ == unnamed_server_message(),
{
    "each MCP server must have a string name".to_owned()
}

/// Once a prefix of the incoming servers is refused, the whole list is
/// refused with the same message.
proof fn lemma_refusal_persists(policy: PolicyModel, servers: Seq<JsonSpec>, count: int)
    requires
        0 <= count <= servers.len(),
        replaced_servers(policy, servers.take(count)) is Err,
    ensures
        replaced_servers(policy, servers) == replaced_servers(policy, servers.take(count)),
    decreases servers.len() - count,
{
    if count < servers.len() {
        let longer = servers.take(count + 1);
        assert(longer.drop_last() =~= servers.take(count));
        lemma_refusal_persists(policy, servers, count + 1);
    } else {
        assert(servers.take(count) =~= servers);
    }
}

impl AcpPolicy {
    /// Builds a policy for one selected agent and workspace. Of a server
    /// name listed twice, the later entry applies, as in a map built from the
    /// list. `server_environment` is the server's own environment (name and
    /// value pairs; the first pair of a name counts), from which `pass_env`
    /// variables are copied.
    pub fn new(
        workspace_path: String,
        rewrite_cwd: bool,
        mcp_policy: McpPolicy,
        mcp_servers: Vec<(String, McpServerConfig)>,
        server_environment: Vec<(String, String)>,
    ) -> (policy: Self)
        ensures
            policy@ == (PolicyModel {
                workspace_path: workspace_path@,
                rewrite_cwd,
                mcp_policy,
                mcp_servers: servers_by_name(named_servers(mcp_servers@)),
                environment: text_pairs(server_environment@),
            }),
    {
        Self { workspace_path, rewrite_cwd, mcp_policy, mcp_servers, server_environment }
    }

    /// The server-owned definition for an allowlisted MCP server.
    fn configured_mcp(&self, name: &String, configured: &McpServerConfig) -> (server: Json)
        ensures
            server@ == canonical_server(name@, configured@, self@.environment),
    {
        let environment = selected_mcp_environment(configured, &self.server_environment);
        canonical_stdio_server(name.as_str(), configured.command.as_str(), &configured.args, &environment)
    }

    /// Applies the MCP policy to a `session/new` request's `params`.
    fn apply_mcp(&self, params: &mut Vec<(String, Json)>) -> (applied: std::result::Result<(), String>)
        ensures
            match applied {
                Ok(()) => mcp_decision(self@, members_model(old(params)@)) == Ok::<
                    Seq<(Seq<char>, JsonSpec)>,
                    Seq<char>,
                >(members_model(final(params)@)),
                Err(message) => {
                    &&& mcp_decision(self@, members_model(old(params)@)) == Err::<
                        Seq<(Seq<char>, JsonSpec)>,
                        Seq<char>,
                    >(message@)
                    &&& final(params)@ == old(params)@
                },
            },
    {
        match self.mcp_policy {
            McpPolicy::Passthrough => Ok(()),
            McpPolicy::Deny => {
                let empty: Vec<Json> = Vec::new();
                proof {
                    lemma_array_model(empty);
                    assert(items_model(empty@) =~= Seq::<JsonSpec>::empty());
                }
                set_member(params, "mcpServers", Json::Array(empty));
                Ok(())
            },
            McpPolicy::Allowlisted => {
                let ghost before = members_model(params@);
                let Some(position) = find_member(params, "mcpServers") else {
                    return Ok(());
                };
                proof {
                    crate::json::lemma_key_position(before, "mcpServers"@, position as int);
                }
                let mut replacements: Vec<Json> = Vec::new();
                match &params[position].1 {
                    Json::Array(servers) => {
                        let ghost incoming = items_model(servers@);
                        proof {
                            lemma_array_model(*servers);
                            assert(incoming.take(0) =~= Seq::<JsonSpec>::empty());
                            assert(items_model(replacements@) =~= Seq::<JsonSpec>::empty());
                        }
                        let mut index: usize = 0;
                        while index < servers.len()
                            invariant
                                index <= servers@.len(),
                                incoming == items_model(servers@),
                                self.mcp_policy == McpPolicy::Allowlisted,
                                before == members_model(old(params)@),
                                member(before, "mcpServers"@) == Some(JsonSpec::Array(incoming)),
                                replaced_servers(self@, incoming.take(index as int)) == Ok::<
                                    Seq<JsonSpec>,
                                    Seq<char>,
                                >(items_model(replacements@)),
                            decreases servers@.len() - index,
                        {
                            let ghost done = items_model(replacements@);
                            assert(incoming.take(index + 1).drop_last() =~= incoming.take(
                                index as int,
                            ));
                            assert(incoming.take(index + 1).last() == servers@[index as int]@);
                            let name: &String = match &servers[index] {
                                Json::Object(members) => {
                                    proof { lemma_object_model(*members); }
                                    match get_member(members, "name") {
                                        Some(Json::Str(name)) => name,
                                        _ => {
                                            proof {
                                                lemma_refusal_persists(self@, incoming, index + 1);
                                            }
                                            return Err(unnamed_server());
                                        },
                                    }
                                },
                                _ => {
                                    proof {
                                        lemma_refusal_persists(self@, incoming, index + 1);
                                    }
                                    return Err(unnamed_server());
                                },
                            };
                            match find_server(&self.mcp_servers, name) {
                                Some(configured) => {
                                    let server = self.configured_mcp(name, configured);
                                    replacements.push(server);
                                    assert(items_model(replacements@) =~= done.push(server@));
                                },
                                None => {
                                    proof {
                                        lemma_refusal_persists(self@, incoming, index + 1);
                                    }
                                    let mut message = "MCP server ".to_owned();
                                    message.append(quote_debug(name.as_str()).as_str());
                                    message.append(" is not allowlisted");
                                    return Err(message);
                                },
                            }
                            index = index + 1;
                        }
                        assert(incoming.take(index as int) =~= incoming);
                    },
                    _ => {
                        return Err("params.mcpServers must be an array".to_owned());
                    },
                }
                proof { lemma_array_model(replacements); }
                set_member(params, "mcpServers", Json::Array(replacements));
                Ok(())
            },
        }
    }

    /// Edits a parsed lifecycle request: maps its `cwd` and, for
    /// `session/new`, applies the MCP policy.
    pub fn edit_lifecycle_request(&self, session_new: bool, request: Json) -> (edit: Result<
        PolicyEdit,
    >)
        ensures
            edit_is(edit, lifecycle_edit(self@, session_new, request@)),
    {
        let mut root = match request {
            Json::Object(members) => members,
            _ => {
                return Err(Error::Policy("lifecycle JSON-RPC request must be an object".to_owned()));
            },
        };
        proof { lemma_object_model(root); }
        let ghost root_before = members_model(root@);
        let mut params: Vec<(String, Json)> = match get_member(&root, "params") {
            None => Vec::new(),
            Some(value) => match clone_json(value) {
                Json::Object(members) => {
                    proof { lemma_object_model(members); }
                    members
                },
                _ => {
                    return Err(Error::Policy("lifecycle JSON-RPC params must be an object".to_owned()));
                },
            },
        };
        assert(lifecycle_params(root_before) == Some(members_model(params@)));
        if self.rewrite_cwd {
            set_member(&mut params, "cwd", Json::Str(self.workspace_path.clone()));
        }
        if session_new {
            match self.apply_mcp(&mut params) {
                Ok(()) => {},
                Err(message) => {
                    let id = match get_member(&root, "id") {
                        Some(id) => clone_json(id),
                        None => Json::Null,
                    };
                    return Ok(PolicyEdit::Reject(json_rpc_error(id, -32001, message.as_str())));
                },
            }
        }
        proof { lemma_object_model(params); }
        set_member(&mut root, "params", Json::Object(params));
        proof { lemma_object_model(root); }
        Ok(PolicyEdit::Forward(Json::Object(root)))
    }

    /// Applies lifecycle path mapping and `session/new` MCP controls.
    ///
    /// Every other ACP message is returned byte-for-byte unchanged.
    pub fn apply(&self, line: &str) -> (outcome: Result<PolicyOutcome>)
        ensures
            outcome_is(outcome, policy_decision(self@, line@)),
    {
        let Some(method) = sniff_method(line) else {
            return Ok(PolicyOutcome::Forward(line.to_owned()));
        };
        if !lifecycle_method(&method) {
            return Ok(PolicyOutcome::Forward(line.to_owned()));
        }
        let is_new = same_text(&method, "session/new");
        let passthrough = match self.mcp_policy {
            McpPolicy::Passthrough => true,
            _ => false,
        };
        if !self.rewrite_cwd && (!is_new || passthrough) {
            return Ok(PolicyOutcome::Forward(line.to_owned()));
        }
        let request = match parse_json(line) {
            Ok(request) => request,
            Err(error) => {
                let mut message = "invalid lifecycle JSON-RPC request: ".to_owned();
                message.append(error.as_str());
                return Err(Error::Policy(message));
            },
        };
        match self.edit_lifecycle_request(is_new, request) {
            Ok(PolicyEdit::Forward(document)) => Ok(PolicyOutcome::Forward(json_to_text(&document))),
            Ok(PolicyEdit::Reject(document)) => Ok(PolicyOutcome::Reject(json_to_text(&document))),
            Err(error) => Err(error),
        }
    }
}

/// A line without a lifecycle `method`, or one the configuration leaves
/// alone (no `cwd` mapping, and no MCP policy to enforce on it), is
/// forwarded byte for byte.
pub proof fn lemma_untouched_lines_pass_byte_for_byte(policy: PolicyModel, line: Seq<char>)
    requires
        passes_unchanged(policy, sniffed_method(line)),
    ensures
        policy_decision(policy, line) == PolicyDecision::Forward(line),
{
}

/// An object that repeats `method` has no method, as a struct read refuses
/// the duplicate field, so the line is forwarded byte for byte.
pub proof fn lemma_repeated_method_passes_unchanged(policy: PolicyModel, line: Seq<char>)
    requires
        raw_members_read(line) matches Some(members) && key_count(members, "method"@) > 1,
    ensures
        sniffed_method(line) is None,
        policy_decision(policy, line) == PolicyDecision::Forward(line),
{
}

/// A lifecycle request whose MCP servers are not edited (a load or resume,
/// or any lifecycle request under `passthrough`) is forwarded with its
/// `cwd` set to the workspace path: every other member of the request and
/// of its `params` survives the edit.
pub proof fn lemma_cwd_mapping_preserves_other_members(
    policy: PolicyModel,
    line: Seq<char>,
    root: Seq<(Seq<char>, JsonSpec)>,
    params: Seq<(Seq<char>, JsonSpec)>,
    key: Seq<char>,
)
    requires
        json_parse(line) == Ok::<JsonSpec, Seq<char>>(JsonSpec::Object(root)),
        sniffed_method(line) matches Some(method) && is_lifecycle(method) && (method
            != session_new() || policy.mcp_policy == McpPolicy::Passthrough),
        policy.rewrite_cwd,
        lifecycle_params(root) == Some(params),
    ensures
        ({
            let mapped = with_member(params, "cwd"@, JsonSpec::Str(policy.workspace_path));
            let edited = with_member(root, "params"@, JsonSpec::Object(mapped));
            &&& policy_decision(policy, line) == PolicyDecision::Forward(
                json_text(JsonSpec::Object(edited)),
            )
            &&& member(mapped, "cwd"@) == Some(JsonSpec::Str(policy.workspace_path))
            &&& key != "cwd"@ ==> member(mapped, key) == member(params, key)
            &&& member(edited, "params"@) == Some(JsonSpec::Object(mapped))
            &&& key != "params"@ ==> member(edited, key) == member(root, key)
        }),
{
    let mapped = with_member(params, "cwd"@, JsonSpec::Str(policy.workspace_path));
    crate::json::lemma_member_of_with_member(params, "cwd"@, JsonSpec::Str(policy.workspace_path), key);
    crate::json::lemma_member_of_with_member(root, "params"@, JsonSpec::Object(mapped), key);
}

/// Under `deny`, a `session/new` request is forwarded with an empty
/// `mcpServers` array.
pub proof fn lemma_deny_empties_mcp_servers(
    policy: PolicyModel,
    line: Seq<char>,
    root: Seq<(Seq<char>, JsonSpec)>,
    params: Seq<(Seq<char>, JsonSpec)>,
)
    requires
        json_parse(line) == Ok::<JsonSpec, Seq<char>>(JsonSpec::Object(root)),
        sniffed_method(line) == Some(session_new()),
        policy.mcp_policy == McpPolicy::Deny,
        lifecycle_params(root) == Some(params),
    ensures
        ({
            let mapped = if policy.rewrite_cwd {
                with_member(params, "cwd"@, JsonSpec::Str(policy.workspace_path))
            } else {
                params
            };
            let denied = with_member(mapped, "mcpServers"@, JsonSpec::Array(Seq::empty()));
            &&& policy_decision(policy, line) == PolicyDecision::Forward(
                json_text(JsonSpec::Object(with_member(root, "params"@, JsonSpec::Object(denied)))),
            )
            &&& member(denied, "mcpServers"@) == Some(JsonSpec::Array(Seq::empty()))
        }),
{
    let mapped = if policy.rewrite_cwd {
        with_member(params, "cwd"@, JsonSpec::Str(policy.workspace_path))
    } else {
        params
    };
    crate::json::lemma_member_of_with_member(mapped, "mcpServers"@, JsonSpec::Array(Seq::empty()), "mcpServers"@);
}

/// Any incoming server without a string name, or with a name the
/// configuration does not list, makes the whole list refused.
pub proof fn lemma_one_refused_server_refuses_all(
    policy: PolicyModel,
    servers: Seq<JsonSpec>,
    index: int,
)
    requires
        0 <= index < servers.len(),
        server_name(servers[index]) matches Some(name) ==> configured_server(
            policy.mcp_servers,
            name,
        ) is None,
    ensures
        replaced_servers(policy, servers) is Err,
    decreases servers.len(),
{
    let earlier = servers.drop_last();
    if index < servers.len() - 1 {
        assert(earlier[index] == servers[index]);
        lemma_one_refused_server_refuses_all(policy, earlier, index);
    }
}

/// When every incoming server names a configured server, each is replaced
/// by the configured definition alone: nothing the client sent beyond the
/// name survives.
pub proof fn lemma_allowlist_replaces_client_fields(policy: PolicyModel, servers: Seq<JsonSpec>)
    requires
        forall|i: int|
            0 <= i < servers.len() ==> (server_name(#[trigger] servers[i]) matches Some(name)
                && configured_server(policy.mcp_servers, name) is Some),
    ensures
        replaced_servers(policy, servers) == Ok::<Seq<JsonSpec>, Seq<char>>(
            Seq::new(
                servers.len(),
                |i: int|
                    canonical_server(
                        server_name(servers[i])->0,
                        configured_server(policy.mcp_servers, server_name(servers[i])->0)->0,
                        policy.environment,
                    ),
            ),
        ),
    decreases servers.len(),
{
    if servers.len() > 0 {
        let earlier = servers.drop_last();
        assert forall|i: int| 0 <= i < earlier.len() implies (server_name(#[trigger] earlier[i]) matches Some(name)
            && configured_server(policy.mcp_servers, name) is Some) by {
            assert(earlier[i] == servers[i]);
        }
        lemma_allowlist_replaces_client_fields(policy, earlier);
        let last = servers.len() - 1;
        assert(server_name(servers[last]) is Some);
        let expected = Seq::new(
            servers.len(),
            |i: int|
                canonical_server(
                    server_name(servers[i])->0,
                    configured_server(policy.mcp_servers, server_name(servers[i])->0)->0,
                    policy.environment,
                ),
        );
        let done = Seq::new(
            earlier.len(),
            |i: int|
                canonical_server(
                    server_name(earlier[i])->0,
                    configured_server(policy.mcp_servers, server_name(earlier[i])->0)->0,
                    policy.environment,
                ),
        );
        assert(done.push(expected[last]) =~= expected);
    } else {
        assert(Seq::new(
            servers.len(),
            |i: int|
                canonical_server(
                    server_name(servers[i])->0,
                    configured_server(policy.mcp_servers, server_name(servers[i])->0)->0,
                    policy.environment,
                ),
        ) =~= Seq::<JsonSpec>::empty());
    }
}

/// Under `allowlisted`, a `session/new` request that lists a server the
/// configuration does not allow is answered with a JSON-RPC error that
/// carries the request's own `id` and the code -32001; nothing reaches the
/// agent.
pub proof fn lemma_unlisted_server_is_rejected_with_request_id(
    policy: PolicyModel,
    line: Seq<char>,
    root: Seq<(Seq<char>, JsonSpec)>,
    params: Seq<(Seq<char>, JsonSpec)>,
    servers: Seq<JsonSpec>,
    index: int,
)
    requires
        json_parse(line) == Ok::<JsonSpec, Seq<char>>(JsonSpec::Object(root)),
        sniffed_method(line) == Some(session_new()),
        policy.mcp_policy == McpPolicy::Allowlisted,
        lifecycle_params(root) == Some(params),
        member(params, "mcpServers"@) == Some(JsonSpec::Array(servers)),
        0 <= index < servers.len(),
        server_name(servers[index]) matches Some(name) ==> configured_server(
            policy.mcp_servers,
            name,
        ) is None,
    ensures
        exists|message: Seq<char>|
            policy_decision(policy, line) == PolicyDecision::Reject(
                json_text(rpc_error_document(request_id(root), mcp_rejection_code(), message)),
            ),
{
    lemma_one_refused_server_refuses_all(policy, servers, index);
    let mapped = if policy.rewrite_cwd {
        with_member(params, "cwd"@, JsonSpec::Str(policy.workspace_path))
    } else {
        params
    };
    if policy.rewrite_cwd {
        reveal_strlit("cwd");
        reveal_strlit("mcpServers");
        assert("cwd"@.len() != "mcpServers"@.len());
        crate::json::lemma_member_of_with_member(params, "cwd"@, JsonSpec::Str(policy.workspace_path), "mcpServers"@);
    }
    assert(member(mapped, "mcpServers"@) == Some(JsonSpec::Array(servers)));
    let message = replaced_servers(policy, servers)->Err_0;
    assert(policy_decision(policy, line) == PolicyDecision::Reject(
        json_text(rpc_error_document(request_id(root), mcp_rejection_code(), message)),
    ));
}

/// The server-owned definition of a server carries the server's name.
pub proof fn lemma_canonical_server_name(
    name: Seq<char>,
    server: McpServerModel,
    environment: Seq<(Seq<char>, Seq<char>)>,
)
    ensures
        server_name(canonical_server(name, server, environment)) == Some(name),
{
    let definition = canonical_server(name, server, environment);
    if let JsonSpec::Object(members) = definition {
        reveal_strlit("type");
        reveal_strlit("name");
        assert(members[0].0 == "type"@);
        assert(members[1].0 == "name"@);
        assert("type"@[0] != "name"@[0]);
        assert(is_first_key(members, "name"@, 1));
        lemma_key_position(members, "name"@, 1);
    }
}

/// Replacing servers that are already the configured definitions gives them
/// back unchanged.
proof fn lemma_replacements_are_kept(
    policy: PolicyModel,
    servers: Seq<JsonSpec>,
    replacements: Seq<JsonSpec>,
)
    requires
        replaced_servers(policy, servers) == Ok::<Seq<JsonSpec>, Seq<char>>(replacements),
    ensures
        replaced_servers(policy, replacements) == Ok::<Seq<JsonSpec>, Seq<char>>(replacements),
    decreases servers.len(),
{
    if servers.len() > 0 {
        let done = replaced_servers(policy, servers.drop_last())->Ok_0;
        lemma_replacements_are_kept(policy, servers.drop_last(), done);
        let name = server_name(servers.last())->0;
        let server = configured_server(policy.mcp_servers, name)->0;
        lemma_canonical_server_name(name, server, policy.environment);
        assert(replacements.drop_last() =~= done);
    }
}

/// The MCP policy leaves `params` that it has already edited unchanged.
proof fn lemma_mcp_decision_is_idempotent(
    policy: PolicyModel,
    params: Seq<(Seq<char>, JsonSpec)>,
    edited: Seq<(Seq<char>, JsonSpec)>,
)
    requires
        mcp_decision(policy, params) == Ok::<Seq<(Seq<char>, JsonSpec)>, Seq<char>>(edited),
    ensures
        mcp_decision(policy, edited) == Ok::<Seq<(Seq<char>, JsonSpec)>, Seq<char>>(edited),
{
    let key = "mcpServers"@;
    match policy.mcp_policy {
        McpPolicy::Passthrough => {},
        McpPolicy::Deny => {
            let empty = JsonSpec::Array(Seq::empty());
            lemma_member_of_with_member(params, key, empty, key);
            lemma_with_member_of_same_value(edited, key, empty);
        },
        McpPolicy::Allowlisted => {
            if let Some(JsonSpec::Array(servers)) = member(params, key) {
                let replacements = replaced_servers(policy, servers)->Ok_0;
                lemma_replacements_are_kept(policy, servers, replacements);
                let value = JsonSpec::Array(replacements);
                lemma_member_of_with_member(params, key, value, key);
                lemma_with_member_of_same_value(edited, key, value);
            }
        },
    }
}

/// A request the policy has edited for forwarding is left as it is by a
/// second edit under the same policy.
pub proof fn lemma_edit_is_idempotent(
    policy: PolicyModel,
    session_new: bool,
    request: JsonSpec,
    edited: JsonSpec,
)
    requires
        lifecycle_edit(policy, session_new, request) == EditModel::Forward(edited),
    ensures
        lifecycle_edit(policy, session_new, edited) == EditModel::Forward(edited),
{
    let root = request->Object_0;
    let params = lifecycle_params(root)->0;
    let cwd = JsonSpec::Str(policy.workspace_path);
    let mapped = if policy.rewrite_cwd {
        with_member(params, "cwd"@, cwd)
    } else {
        params
    };
    if policy.rewrite_cwd {
        lemma_member_of_with_member(params, "cwd"@, cwd, "cwd"@);
    }
    let kept = if session_new {
        mcp_decision(policy, mapped)->Ok_0
    } else {
        mapped
    };
    if session_new {
        lemma_mcp_decision_is_idempotent(policy, mapped, kept);
        reveal_strlit("cwd");
        reveal_strlit("mcpServers");
        assert("cwd"@.len() != "mcpServers"@.len());
        lemma_member_of_with_member(
            mapped,
            "mcpServers"@,
            JsonSpec::Array(Seq::empty()),
            "cwd"@,
        );
        if let Some(JsonSpec::Array(servers)) = member(mapped, "mcpServers"@) {
            if let Ok(replacements) = replaced_servers(policy, servers) {
                lemma_member_of_with_member(
                    mapped,
                    "mcpServers"@,
                    JsonSpec::Array(replacements),
                    "cwd"@,
                );
            }
        }
    }
    if policy.rewrite_cwd {
        lemma_with_member_of_same_value(kept, "cwd"@, cwd);
    }
    let root_after = with_member(root, "params"@, JsonSpec::Object(kept));
    lemma_member_of_with_member(root, "params"@, JsonSpec::Object(kept), "params"@);
    lemma_with_member_of_same_value(root_after, "params"@, JsonSpec::Object(kept));
    assert(lifecycle_params(root_after) == Some(kept));
}

/// The allowlist refuses nothing it can replace: under `allowlisted`, when
/// `mcpServers` is an array whose servers all carry a configured name (an
/// empty array included), the MCP step succeeds and sets `mcpServers` to the
/// configured definitions, one per incoming server, in order.
pub proof fn lemma_allowlist_forwards_configured_servers(
    policy: PolicyModel,
    params: Seq<(Seq<char>, JsonSpec)>,
    servers: Seq<JsonSpec>,
)
    requires
        policy.mcp_policy == McpPolicy::Allowlisted,
        member(params, "mcpServers"@) == Some(JsonSpec::Array(servers)),
        forall|i: int|
            0 <= i < servers.len() ==> (server_name(#[trigger] servers[i]) matches Some(name)
                && configured_server(policy.mcp_servers, name) is Some),
    ensures
        mcp_decision(policy, params) == Ok::<Seq<(Seq<char>, JsonSpec)>, Seq<char>>(
            with_member(
                params,
                "mcpServers"@,
                JsonSpec::Array(
                    Seq::new(
                        servers.len(),
                        |i: int|
                            canonical_server(
                                server_name(servers[i])->0,
                                configured_server(policy.mcp_servers, server_name(servers[i])->0)->0,
                                policy.environment,
                            ),
                    ),
                ),
            ),
        ),
        servers.len() == 0 ==> mcp_decision(policy, params) == Ok::<
            Seq<(Seq<char>, JsonSpec)>,
            Seq<char>,
        >(with_member(params, "mcpServers"@, JsonSpec::Array(Seq::empty()))),
{
    lemma_allowlist_replaces_client_fields(policy, servers);
    if servers.len() == 0 {
        assert(Seq::new(
            servers.len(),
            |i: int|
                canonical_server(
                    server_name(servers[i])->0,
                    configured_server(policy.mcp_servers, server_name(servers[i])->0)->0,
                    policy.environment,
                ),
        ) =~= Seq::<JsonSpec>::empty());
    }
}

/// A `session/new` request under `allowlisted` whose servers all carry a
/// configured name (none at all included) is forwarded, never answered with
/// an error.
pub proof fn lemma_configured_session_new_is_forwarded(
    policy: PolicyModel,
    root: Seq<(Seq<char>, JsonSpec)>,
    params: Seq<(Seq<char>, JsonSpec)>,
    servers: Seq<JsonSpec>,
)
    requires
        policy.mcp_policy == McpPolicy::Allowlisted,
        member(root, "params"@) == Some(JsonSpec::Object(params)),
        member(params, "mcpServers"@) == Some(JsonSpec::Array(servers)),
        forall|i: int|
            0 <= i < servers.len() ==> (server_name(#[trigger] servers[i]) matches Some(name)
                && configured_server(policy.mcp_servers, name) is Some),
    ensures
        lifecycle_edit(policy, true, JsonSpec::Object(root)) is Forward,
{
    let cwd = JsonSpec::Str(policy.workspace_path);
    let mapped = if policy.rewrite_cwd {
        with_member(params, "cwd"@, cwd)
    } else {
        params
    };
    if policy.rewrite_cwd {
        reveal_strlit("cwd");
        reveal_strlit("mcpServers");
        assert("cwd"@.len() != "mcpServers"@.len());
        lemma_member_of_with_member(params, "cwd"@, cwd, "mcpServers"@);
    }
    lemma_allowlist_forwards_configured_servers(policy, mapped, servers);
}

/// The members of the object `canonical_server` gives.
pub open spec fn definition_members(definition: JsonSpec) -> Seq<(Seq<char>, JsonSpec)> {
    match definition {
        JsonSpec::Object(members) => members,
        _ => Seq::empty(),
    }
}

/// The definition that replaces an allowlisted server is a stdio server of
/// the incoming name with the configured command and the configured
/// arguments, every one of them, in the configured order (no `args` member
/// when there are none).
pub proof fn lemma_canonical_server_carries_configuration(
    name: Seq<char>,
    server: McpServerModel,
    environment: Seq<(Seq<char>, Seq<char>)>,
)
    ensures
        canonical_server(name, server, environment) is Object,
        member(definition_members(canonical_server(name, server, environment)), "type"@) == Some(
            JsonSpec::Str("stdio"@),
        ),
        member(definition_members(canonical_server(name, server, environment)), "name"@) == Some(
            JsonSpec::Str(name),
        ),
        member(definition_members(canonical_server(name, server, environment)), "command"@)
            == Some(JsonSpec::Str(server.command)),
        server.args.len() == 0 ==> member(
            definition_members(canonical_server(name, server, environment)),
            "args"@,
        ) is None,
        server.args.len() > 0 ==> (member(
            definition_members(canonical_server(name, server, environment)),
            "args"@,
        ) matches Some(JsonSpec::Array(items)) && items.len() == server.args.len() && forall|
            i: int,
        |
            0 <= i < items.len() ==> #[trigger] items[i] == JsonSpec::Str(server.args[i])),
{
    let members = definition_members(canonical_server(name, server, environment));
    reveal_strlit("type");
    reveal_strlit("name");
    reveal_strlit("command");
    reveal_strlit("args");
    reveal_strlit("env");
    assert(members[0].0 == "type"@);
    assert(members[1].0 == "name"@);
    assert(members[2].0 == "command"@);
    assert("type"@[0] != "name"@[0]);
    assert("type"@[0] != "command"@[0]);
    assert("name"@[0] != "command"@[0]);
    assert(is_first_key(members, "type"@, 0));
    lemma_key_position(members, "type"@, 0);
    assert(is_first_key(members, "name"@, 1));
    lemma_key_position(members, "name"@, 1);
    assert(is_first_key(members, "command"@, 2));
    lemma_key_position(members, "command"@, 2);
    assert("args"@ != "type"@ && "args"@ != "name"@ && "args"@ != "command"@ && "args"@ != "env"@)
        by {
        assert("args"@[0] != "type"@[0]);
        assert("args"@[0] != "name"@[0]);
        assert("args"@.len() != "command"@.len());
        assert("args"@.len() != "env"@.len());
    }
    if server.args.len() == 0 {
        assert forall|i: int| 0 <= i < members.len() implies members[i].0 != "args"@ by {
            if i >= 3 {
                assert(members[i].0 == "env"@);
            }
        }
    } else {
        assert(members[3].0 == "args"@);
        assert(is_first_key(members, "args"@, 3));
        lemma_key_position(members, "args"@, 3);
    }
}

} // verus!
