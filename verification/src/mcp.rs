//! The Model Context Protocol over one JSON-RPC endpoint: which method a message calls, what the
//! engine is asked for it, and how its answer is framed.
//!
//! A message that cannot be carried out as a call of the protocol is answered with a JSON-RPC
//! error. A tool that cannot do what it was asked is answered with a result that says so, so
//! that the model sees it.

use vstd::prelude::*;
use crate::calls::{add_call, adds, AddCall};
use crate::container_tag::{
    parse_container_tag, parsed_scope, reconstructed_tag, tag_survives_parsing, Scope, ScopeView,
};
use crate::directory::{user_id, user_id_of};
use crate::error::{ApiError, ApiErrorView};
use crate::ident::{id_text, print_id};
use crate::json::{
    json_items, json_of, json_text, no_fields, no_items, render, text_array, text_items,
    texts_among, Json, JsonView, Number, NumberView,
};
use crate::memories::conversation_kind;
use crate::number::{decimal, decimal_text};
use crate::query::{asks_for, scoped_query, Profile, RecallHit, RecallQuery};
use crate::request::{
    clamp_limit, clamped_limit, proper_tags_by_their_codes, resolve_container_tag, resolved_tag,
    tag_fault, the_tag_used_is_the_tag_sent,
};
use crate::text::{
    a_prefix_comes_off_and_goes_on, blank, copy_opt, is_blank, same_text, strip_prefix, text_of,
    texts, texts_of, without_prefix,
};
use crate::time::{rfc3339, rfc3339_of, time_of, to_rfc3339_opt};

verus! {

// ---------------------------------------------------------------------------------------------
// Frames
// ---------------------------------------------------------------------------------------------

/// A text as JSON.
pub open spec fn jtext(text: Seq<char>) -> JsonView {
    JsonView::Text(text)
}

/// A whole number as JSON.
pub open spec fn jint(n: i64) -> JsonView {
    if n < 0 {
        JsonView::Number(NumberView::Negative(n))
    } else {
        JsonView::Number(NumberView::Unsigned(n as u64))
    }
}

/// An optional text as JSON; null for none.
pub open spec fn jopt(text: Option<Seq<char>>) -> JsonView {
    match text {
        Some(text) => JsonView::Text(text),
        None => JsonView::Null,
    }
}

fn whole(n: i64) -> (r: Json)
    ensures
        r@ == jint(n),
{
    if n < 0 {
        Json::Number(Number::Negative(n))
    } else {
        Json::Number(Number::Unsigned(n as u64))
    }
}

fn optional(text: Option<String>) -> (r: Json)
    ensures
        r@ == jopt(text_of(text)),
{
    match text {
        Some(text) => Json::Text(text),
        None => Json::Null,
    }
}

/// The answer to a call that gave a result.
pub open spec fn rpc_result(id: JsonView, result: JsonView) -> JsonView {
    no_fields().with("jsonrpc"@, jtext("2.0"@)).with("id"@, id).with("result"@, result)
}

/// The answer to a call that failed.
pub open spec fn rpc_error(id: JsonView, code: i64, message: Seq<char>) -> JsonView {
    no_fields()
        .with("jsonrpc"@, jtext("2.0"@))
        .with("id"@, id)
        .with("error"@, no_fields().with("code"@, jint(code)).with("message"@, jtext(message)))
}

/// The answer to a call that gave a result.
pub fn succeed(id: Json, result: Json) -> (r: Json)
    ensures
        r@ == rpc_result(id@, result@),
{
    Json::empty_object().with_text("jsonrpc", "2.0").with("id", id).with("result", result)
}

/// The answer to a call that failed.
pub fn fail(id: Json, code: i64, message: &str) -> (r: Json)
    ensures
        r@ == rpc_error(id@, code, message@),
{
    let error: Json = Json::empty_object().with("code", whole(code)).with_text("message", message);
    Json::empty_object().with_text("jsonrpc", "2.0").with("id", id).with("error", error)
}

/// A text as the content of a tool's result.
pub open spec fn content_of(text: Seq<char>) -> JsonView {
    no_items().item(no_fields().with("type"@, jtext("text"@)).with("text"@, jtext(text)))
}

/// The result of a tool that did what it was asked.
pub open spec fn tool_text(text: Seq<char>) -> JsonView {
    no_fields().with("content"@, content_of(text))
}

/// The result of a tool that could not do what it was asked.
pub open spec fn tool_error(message: Seq<char>) -> JsonView {
    no_fields().with("content"@, content_of(message)).with("isError"@, JsonView::Bool(true))
}

fn content(text: &str) -> (r: Json)
    ensures
        r@ == content_of(text@),
{
    Json::empty_array().item(Json::empty_object().with_text("type", "text").with_text("text", text))
}

/// The result of a tool that did what it was asked.
pub fn tool_success(text: &str) -> (r: Json)
    ensures
        r@ == tool_text(text@),
{
    Json::empty_object().with("content", content(text))
}

/// The result of a tool that could not do what it was asked.
pub fn tool_failure(message: &str) -> (r: Json)
    ensures
        r@ == tool_error(message@),
{
    Json::empty_object().with("content", content(message)).with("isError", Json::Bool(true))
}

// ---------------------------------------------------------------------------------------------
// What the server says of itself
// ---------------------------------------------------------------------------------------------

/// The version of the protocol that is spoken: the one asked for where it is known, and the
/// latest known one otherwise.
pub open spec fn protocol_version(params: Option<JsonView>) -> Seq<char> {
    match params {
        Some(p) => match p.get_text("protocolVersion"@) {
            Some(v) => if v == "2024-11-05"@ || v == "2025-03-26"@ || v == "2025-06-18"@ {
                v
            } else {
                "2025-06-18"@
            },
            None => "2025-06-18"@,
        },
        None => "2025-06-18"@,
    }
}

/// The answer to a greeting.
pub open spec fn greeting(params: Option<JsonView>, server_version: Seq<char>) -> JsonView {
    no_fields()
        .with("protocolVersion"@, jtext(protocol_version(params)))
        .with(
            "capabilities"@,
            no_fields()
                .with("tools"@, no_fields())
                .with("resources"@, no_fields())
                .with("prompts"@, no_fields()),
        )
        .with(
            "serverInfo"@,
            no_fields().with("name"@, jtext("mnestic"@)).with("version"@, jtext(server_version)),
        )
}

/// The answer to a greeting.
pub fn initialize_result(params: Option<&Json>, server_version: &str) -> (r: Json)
    ensures
        r@ == greeting(json_of(params), server_version@),
{
    let requested: Option<&str> = match params {
        Some(p) => p.get_text("protocolVersion"),
        None => None,
    };
    let version: &str = match requested {
        Some(v) => if same_text(v, "2024-11-05") || same_text(v, "2025-03-26") || same_text(
            v,
            "2025-06-18",
        ) {
            v
        } else {
            "2025-06-18"
        },
        None => "2025-06-18",
    };
    let capabilities: Json = Json::empty_object()
        .with("tools", Json::empty_object())
        .with("resources", Json::empty_object())
        .with("prompts", Json::empty_object());
    let server: Json = Json::empty_object()
        .with_text("name", "mnestic")
        .with_text("version", server_version);
    Json::empty_object()
        .with_text("protocolVersion", version)
        .with("capabilities", capabilities)
        .with("serverInfo", server)
}

/// A schema that names a type.
pub open spec fn type_schema(name: Seq<char>) -> JsonView {
    no_fields().with("type"@, jtext(name))
}

fn typed(name: &str) -> (r: Json)
    ensures
        r@ == type_schema(name@),
{
    Json::empty_object().with_text("type", name)
}

/// A tool as it is listed.
pub open spec fn tool_entry(
    name: Seq<char>,
    description: Seq<char>,
    input_schema: JsonView,
) -> JsonView {
    no_fields()
        .with("name"@, jtext(name))
        .with("description"@, jtext(description))
        .with("inputSchema"@, input_schema)
}

fn tool(name: &str, description: &str, input_schema: Json) -> (r: Json)
    ensures
        r@ == tool_entry(name@, description@, input_schema@),
{
    Json::empty_object()
        .with_text("name", name)
        .with_text("description", description)
        .with("inputSchema", input_schema)
}

/// The schema of an object with these properties, all of them optional.
pub open spec fn object_schema(properties: JsonView) -> JsonView {
    no_fields().with("type"@, jtext("object"@)).with("properties"@, properties)
}

fn schema(properties: Json) -> (r: Json)
    ensures
        r@ == object_schema(properties@),
{
    Json::empty_object().with_text("type", "object").with("properties", properties)
}

/// The schema of an object with these properties, one of which it must have.
pub open spec fn object_schema_requiring(properties: JsonView, name: Seq<char>) -> JsonView {
    no_fields()
        .with("type"@, jtext("object"@))
        .with("properties"@, properties)
        .with("required"@, no_items().item(jtext(name)))
}

fn schema_requiring(properties: Json, name: &str) -> (r: Json)
    ensures
        r@ == object_schema_requiring(properties@, name@),
{
    let required: Json = Json::empty_array().item(Json::Text(name.to_owned()));
    schema(properties).with("required", required)
}

/// The tool that saves and forgets.
pub open spec fn memory_tool_entry() -> JsonView {
    tool_entry(
        "memory"@,
        "Save a memory or forget memories by content. action is save or forget."@,
        object_schema_requiring(
            no_fields()
                .with("content"@, type_schema("string"@))
                .with(
                    "action"@,
                    no_fields()
                        .with("type"@, jtext("string"@))
                        .with("enum"@, no_items().item(jtext("save"@)).item(jtext("forget"@))),
                )
                .with("containerTag"@, type_schema("string"@)),
            "content"@,
        ),
    )
}

fn memory_tool_listing() -> (r: Json)
    ensures
        r@ == memory_tool_entry(),
{
    let actions: Json = Json::empty_array()
        .item(Json::Text("save".to_owned()))
        .item(Json::Text("forget".to_owned()));
    let action: Json = Json::empty_object().with_text("type", "string").with("enum", actions);
    let properties: Json = Json::empty_object()
        .with("content", typed("string"))
        .with("action", action)
        .with("containerTag", typed("string"));
    tool(
        "memory",
        "Save a memory or forget memories by content. action is save or forget.",
        schema_requiring(properties, "content"),
    )
}

/// The tool that recalls.
pub open spec fn recall_tool_entry() -> JsonView {
    tool_entry(
        "recall"@,
        "Hybrid search over the actor's memories; optionally include the profile."@,
        object_schema_requiring(
            no_fields()
                .with("query"@, type_schema("string"@))
                .with("includeProfile"@, type_schema("boolean"@))
                .with("containerTag"@, type_schema("string"@))
                .with(
                    "limit"@,
                    no_fields()
                        .with("type"@, jtext("integer"@))
                        .with("minimum"@, jint(1))
                        .with("maximum"@, jint(100)),
                ),
            "query"@,
        ),
    )
}

fn recall_tool_listing() -> (r: Json)
    ensures
        r@ == recall_tool_entry(),
{
    let limit: Json = Json::empty_object()
        .with_text("type", "integer")
        .with("minimum", whole(1))
        .with("maximum", whole(100));
    let properties: Json = Json::empty_object()
        .with("query", typed("string"))
        .with("includeProfile", typed("boolean"))
        .with("containerTag", typed("string"))
        .with("limit", limit);
    tool(
        "recall",
        "Hybrid search over the actor's memories; optionally include the profile.",
        schema_requiring(properties, "query"),
    )
}

/// The tools there are.
pub open spec fn tools() -> JsonView {
    no_fields().with(
        "tools"@,
        no_items()
            .item(memory_tool_entry())
            .item(recall_tool_entry())
            .item(
                tool_entry(
                    "listProjects"@,
                    "List the container tags (projects) in use."@,
                    object_schema(no_fields().with("refresh"@, type_schema("boolean"@))),
                ),
            )
            .item(
                tool_entry(
                    "whoAmI"@,
                    "Return the authenticated user (userId, email, name)."@,
                    object_schema(no_fields()),
                ),
            )
            .item(
                tool_entry(
                    "memory-graph"@,
                    "Summary of the actor's documents (ids and titles) and the entities extracted across their memories."@,
                    object_schema(no_fields().with("containerTag"@, type_schema("string"@))),
                ),
            ),
    )
}

/// The tools there are.
pub fn tools_list() -> (r: Json)
    ensures
        r@ == tools(),
{
    let projects: Json = tool(
        "listProjects",
        "List the container tags (projects) in use.",
        schema(Json::empty_object().with("refresh", typed("boolean"))),
    );
    let who: Json = tool(
        "whoAmI",
        "Return the authenticated user (userId, email, name).",
        schema(Json::empty_object()),
    );
    let graph: Json = tool(
        "memory-graph",
        "Summary of the actor's documents (ids and titles) and the entities extracted across their memories.",
        schema(Json::empty_object().with("containerTag", typed("string"))),
    );
    let all: Json = Json::empty_array()
        .item(memory_tool_listing())
        .item(recall_tool_listing())
        .item(projects)
        .item(who)
        .item(graph);
    Json::empty_object().with("tools", all)
}

/// The resources there are.
pub open spec fn resources() -> JsonView {
    no_fields().with(
        "resources"@,
        no_items().item(
            no_fields()
                .with("uri"@, jtext("supermemory://projects"@))
                .with("name"@, jtext("projects"@))
                .with("description"@, jtext("Container tags in use, as JSON."@))
                .with("mimeType"@, jtext("application/json"@)),
        ),
    )
}

/// The resources there are.
pub fn resources_list() -> (r: Json)
    ensures
        r@ == resources(),
{
    let projects: Json = Json::empty_object()
        .with_text("uri", "supermemory://projects")
        .with_text("name", "projects")
        .with_text("description", "Container tags in use, as JSON.")
        .with_text("mimeType", "application/json");
    Json::empty_object().with("resources", Json::empty_array().item(projects))
}

/// The templates of resources there are.
pub open spec fn resource_templates() -> JsonView {
    no_fields().with(
        "resourceTemplates"@,
        no_items().item(
            no_fields()
                .with("uriTemplate"@, jtext("supermemory://profile/{containerTag}"@))
                .with("name"@, jtext("profile"@))
                .with("description"@, jtext("Markdown memory profile for a container."@))
                .with("mimeType"@, jtext("text/markdown"@)),
        ),
    )
}

/// The templates of resources there are.
pub fn resource_templates_list() -> (r: Json)
    ensures
        r@ == resource_templates(),
{
    let profile: Json = Json::empty_object()
        .with_text("uriTemplate", "supermemory://profile/{containerTag}")
        .with_text("name", "profile")
        .with_text("description", "Markdown memory profile for a container.")
        .with_text("mimeType", "text/markdown");
    Json::empty_object().with("resourceTemplates", Json::empty_array().item(profile))
}

/// The prompts there are.
pub open spec fn prompts() -> JsonView {
    no_fields().with(
        "prompts"@,
        no_items().item(
            no_fields()
                .with("name"@, jtext("context"@))
                .with("description"@, jtext("Injects the user's memory profile as a message."@))
                .with(
                    "arguments"@,
                    no_items().item(
                        no_fields()
                            .with("name"@, jtext("containerTag"@))
                            .with("description"@, jtext("Which container's profile."@))
                            .with("required"@, JsonView::Bool(true)),
                    ),
                ),
        ),
    )
}

/// The prompts there are.
pub fn prompts_list() -> (r: Json)
    ensures
        r@ == prompts(),
{
    let argument: Json = Json::empty_object()
        .with_text("name", "containerTag")
        .with_text("description", "Which container's profile.")
        .with("required", Json::Bool(true));
    let context: Json = Json::empty_object()
        .with_text("name", "context")
        .with_text("description", "Injects the user's memory profile as a message.")
        .with("arguments", Json::empty_array().item(argument));
    Json::empty_object().with("prompts", Json::empty_array().item(context))
}

// ---------------------------------------------------------------------------------------------
// What a message calls
// ---------------------------------------------------------------------------------------------

/// What the engine or the store is asked for a call.
#[derive(Debug)]
pub enum McpCall {
    Save { scope: Scope, content: String },
    Forget { actor_id: String, content: String },
    Recall { scope: Scope, query: String, limit: i64, with_profile: bool },
    ListProjects,
    WhoAmI,
    Graph { actor_id: String },
    ReadProjects { uri: String },
    ReadProfile { uri: String, actor_id: String },
    GivePrompt { actor_id: String },
}

/// What an [`McpCall`] holds.
pub enum McpCallView {
    Save { scope: ScopeView, content: Seq<char> },
    Forget { actor_id: Seq<char>, content: Seq<char> },
    Recall { scope: ScopeView, query: Seq<char>, limit: int, with_profile: bool },
    ListProjects,
    WhoAmI,
    Graph { actor_id: Seq<char> },
    ReadProjects { uri: Seq<char> },
    ReadProfile { uri: Seq<char>, actor_id: Seq<char> },
    GivePrompt { actor_id: Seq<char> },
}

impl View for McpCall {
    type V = McpCallView;

    open spec fn view(&self) -> McpCallView {
        match self {
            McpCall::Save { scope, content } => McpCallView::Save {
                scope: scope@,
                content: content@,
            },
            McpCall::Forget { actor_id, content } => McpCallView::Forget {
                actor_id: actor_id@,
                content: content@,
            },
            McpCall::Recall { scope, query, limit, with_profile } => McpCallView::Recall {
                scope: scope@,
                query: query@,
                limit: *limit as int,
                with_profile: *with_profile,
            },
            McpCall::ListProjects => McpCallView::ListProjects,
            McpCall::WhoAmI => McpCallView::WhoAmI,
            McpCall::Graph { actor_id } => McpCallView::Graph { actor_id: actor_id@ },
            McpCall::ReadProjects { uri } => McpCallView::ReadProjects { uri: uri@ },
            McpCall::ReadProfile { uri, actor_id } => McpCallView::ReadProfile {
                uri: uri@,
                actor_id: actor_id@,
            },
            McpCall::GivePrompt { actor_id } => McpCallView::GivePrompt { actor_id: actor_id@ },
        }
    }
}

/// What is to be done for a method: answer with a result, answer with an error, or make a call.
#[derive(Debug)]
pub enum MethodOutcome {
    Result(Json),
    Error(i64, String),
    Call(McpCall),
}

/// What a [`MethodOutcome`] holds.
pub enum MethodOutcomeView {
    Result(JsonView),
    Error(i64, Seq<char>),
    Call(McpCallView),
}

impl View for MethodOutcome {
    type V = MethodOutcomeView;

    open spec fn view(&self) -> MethodOutcomeView {
        match self {
            MethodOutcome::Result(json) => MethodOutcomeView::Result(json@),
            MethodOutcome::Error(code, message) => MethodOutcomeView::Error(*code, message@),
            MethodOutcome::Call(call) => MethodOutcomeView::Call(call@),
        }
    }
}

/// The code of an error in what a method was given.
pub const INVALID_PARAMS: i64 = -32602;

/// The code of an error of a method that there is not.
pub const METHOD_NOT_FOUND: i64 = -32601;

/// The code of an error of a message that is no request.
pub const INVALID_REQUEST: i64 = -32600;

/// The code of an error on the server's side.
pub const INTERNAL_ERROR: i64 = -32603;

fn invalid(message: &str) -> (r: MethodOutcome)
    ensures
        r@ == MethodOutcomeView::Error(INVALID_PARAMS, message@),
{
    MethodOutcome::Error(INVALID_PARAMS, message.to_owned())
}

fn failed(message: &str) -> (r: MethodOutcome)
    ensures
        r@ == MethodOutcomeView::Result(tool_error(message@)),
{
    MethodOutcome::Result(tool_failure(message))
}

/// The texts in the array in a field, where there is one.
pub open spec fn text_list(json: JsonView, key: Seq<char>) -> Option<Seq<Seq<char>>> {
    match json.get(key) {
        Some(JsonView::Array(items)) => Some(texts_among(items)),
        _ => None,
    }
}

fn read_text_list(json: &Json, key: &str) -> (r: Option<Vec<String>>)
    ensures
        texts_of(r) == text_list(json@, key@),
{
    match json.get(key) {
        Some(Json::Array(items)) => {
            proof {
                Json::view_of_array(*items);
            }
            let ghost all = json_items(items@);
            let mut out: Vec<String> = Vec::new();
            let mut i: usize = 0;
            assert(texts(out@) =~= texts_among(all.take(0)));
            while i < items.len()
                invariant
                    all == json_items(items@),
                    i <= items@.len(),
                    texts(out@) == texts_among(all.take(i as int)),
                decreases items@.len() - i,
            {
                let ghost before = texts(out@);
                assert(all.take(i + 1).drop_last() =~= all.take(i as int));
                assert(all[i as int] == items@[i as int]@);
                match &items[i] {
                    Json::Text(text) => {
                        out.push(text.clone());
                        assert(texts(out@) =~= before.push(text@));
                    },
                    _ => {},
                }
                i += 1;
            }
            assert(all.take(i as int) =~= all);
            Some(out)
        },
        _ => None,
    }
}

/// The container tag in a tool's arguments, or what is wrong with it.
pub open spec fn argument_tag(args: JsonView) -> Result<Seq<char>, Seq<char>> {
    match resolved_tag(args.get_text("containerTag"@), text_list(args, "containerTags"@)) {
        Ok(tag) => Ok(tag),
        Err(ApiErrorView::BadRequest(message)) => Err(message),
        Err(_) => Err("invalid containerTag"@),
    }
}

/// The container tag in a tool's arguments.
pub fn tag_from_args(args: &Json) -> (r: Result<String, String>)
    ensures
        match r {
            Ok(tag) => argument_tag(args@) == Ok::<_, Seq<char>>(tag@),
            Err(message) => argument_tag(args@) == Err::<Seq<char>, _>(message@),
        },
{
    let singular: Option<String> = match args.get_text("containerTag") {
        Some(tag) => Some(tag.to_owned()),
        None => None,
    };
    match resolve_container_tag(singular, read_text_list(args, "containerTags")) {
        Ok(tag) => Ok(tag),
        Err(ApiError::BadRequest(message)) => Err(message),
        Err(_) => Err("invalid containerTag".to_owned()),
    }
}

/// The text of an argument, and none at all where there is no such text.
pub open spec fn argument_text(args: JsonView, key: Seq<char>, default: Seq<char>) -> Seq<char> {
    match args.get_text(key) {
        Some(text) => text,
        None => default,
    }
}

/// What the memory tool is to do.
pub open spec fn memory_call(args: JsonView) -> MethodOutcomeView {
    let content = argument_text(args, "content"@, ""@);
    let action = argument_text(args, "action"@, "save"@);
    if is_blank(content) {
        MethodOutcomeView::Result(tool_error("content is empty"@))
    } else {
        match argument_tag(args) {
            Err(message) => MethodOutcomeView::Result(tool_error(message)),
            Ok(tag) => if action == "save"@ {
                MethodOutcomeView::Call(McpCallView::Save { scope: parsed_scope(tag), content })
            } else if action == "forget"@ {
                MethodOutcomeView::Call(
                    McpCallView::Forget { actor_id: parsed_scope(tag).actor_id, content },
                )
            } else {
                MethodOutcomeView::Result(tool_error("unknown action: "@ + action))
            },
        }
    }
}

fn memory_tool(args: &Json) -> (r: MethodOutcome)
    ensures
        r@ == memory_call(args@),
{
    let content: &str = match args.get_text("content") {
        Some(text) => text,
        None => "",
    };
    if blank(content) {
        return failed("content is empty");
    }
    let tag: String = match tag_from_args(args) {
        Ok(tag) => tag,
        Err(message) => {
            return failed(message.as_str());
        },
    };
    let scope: Scope = parse_container_tag(tag.as_str());
    let action: &str = match args.get_text("action") {
        Some(text) => text,
        None => "save",
    };
    if same_text(action, "save") {
        MethodOutcome::Call(McpCall::Save { scope, content: content.to_owned() })
    } else if same_text(action, "forget") {
        MethodOutcome::Call(
            McpCall::Forget { actor_id: scope.actor_id, content: content.to_owned() },
        )
    } else {
        failed("unknown action: ".to_owned().concat(action).as_str())
    }
}

/// What the recall tool is to do. The profile comes along unless it is declined.
pub open spec fn recall_call(args: JsonView) -> MethodOutcomeView {
    let query = argument_text(args, "query"@, ""@);
    if is_blank(query) {
        MethodOutcomeView::Result(tool_error("query is empty"@))
    } else {
        match argument_tag(args) {
            Err(message) => MethodOutcomeView::Result(tool_error(message)),
            Ok(tag) => MethodOutcomeView::Call(
                McpCallView::Recall {
                    scope: parsed_scope(tag),
                    query,
                    limit: clamped_limit(args.get_i64("limit"@)),
                    with_profile: args.get_bool("includeProfile"@) != Some(false),
                },
            ),
        }
    }
}

fn recall_tool(args: &Json) -> (r: MethodOutcome)
    ensures
        r@ == recall_call(args@),
{
    let query: &str = match args.get_text("query") {
        Some(text) => text,
        None => "",
    };
    if blank(query) {
        return failed("query is empty");
    }
    let tag: String = match tag_from_args(args) {
        Ok(tag) => tag,
        Err(message) => {
            return failed(message.as_str());
        },
    };
    let scope: Scope = parse_container_tag(tag.as_str());
    let limit: i64 = clamp_limit(args.get_i64("limit"));
    let with_profile: bool = match args.get_bool("includeProfile") {
        Some(b) => b,
        None => true,
    };
    MethodOutcome::Call(McpCall::Recall { scope, query: query.to_owned(), limit, with_profile })
}

/// What the graph tool is to do. It is about the actor as a whole.
pub open spec fn graph_call(args: JsonView) -> MethodOutcomeView {
    match argument_tag(args) {
        Err(message) => MethodOutcomeView::Result(tool_error(message)),
        Ok(tag) => MethodOutcomeView::Call(
            McpCallView::Graph { actor_id: parsed_scope(tag).actor_id },
        ),
    }
}

fn memory_graph_tool(args: &Json) -> (r: MethodOutcome)
    ensures
        r@ == graph_call(args@),
{
    match tag_from_args(args) {
        Ok(tag) => {
            let scope: Scope = parse_container_tag(tag.as_str());
            MethodOutcome::Call(McpCall::Graph { actor_id: scope.actor_id })
        },
        Err(message) => failed(message.as_str()),
    }
}

/// What is to be done for a call of a tool.
pub open spec fn tool_call(params: Option<JsonView>) -> MethodOutcomeView {
    match params {
        None => MethodOutcomeView::Error(INVALID_PARAMS, "missing params"@),
        Some(p) => match p.get_text("name"@) {
            None => MethodOutcomeView::Error(INVALID_PARAMS, "missing tool name"@),
            Some(name) => {
                let args = match p.get("arguments"@) {
                    Some(args) => args,
                    None => no_fields(),
                };
                if name == "memory-graph"@ {
                    graph_call(args)
                } else if name == "memory"@ {
                    memory_call(args)
                } else if name == "recall"@ {
                    recall_call(args)
                } else if name == "listProjects"@ {
                    MethodOutcomeView::Call(McpCallView::ListProjects)
                } else if name == "whoAmI"@ {
                    MethodOutcomeView::Call(McpCallView::WhoAmI)
                } else {
                    MethodOutcomeView::Error(INVALID_PARAMS, "unknown tool: "@ + name)
                }
            },
        },
    }
}

/// Decides what is to be done for a call of a tool.
pub fn call_tool(params: Option<&Json>) -> (r: MethodOutcome)
    ensures
        r@ == tool_call(json_of(params)),
{
    let params: &Json = match params {
        Some(p) => p,
        None => {
            return invalid("missing params");
        },
    };
    let name: &str = match params.get_text("name") {
        Some(name) => name,
        None => {
            return invalid("missing tool name");
        },
    };
    let args: Json = match params.get("arguments") {
        Some(args) => args.copy(),
        None => Json::empty_object(),
    };
    if same_text(name, "memory-graph") {
        memory_graph_tool(&args)
    } else if same_text(name, "memory") {
        memory_tool(&args)
    } else if same_text(name, "recall") {
        recall_tool(&args)
    } else if same_text(name, "listProjects") {
        MethodOutcome::Call(McpCall::ListProjects)
    } else if same_text(name, "whoAmI") {
        MethodOutcome::Call(McpCall::WhoAmI)
    } else {
        invalid("unknown tool: ".to_owned().concat(name).as_str())
    }
}

/// What is to be done to read a resource.
pub open spec fn resource_call(params: Option<JsonView>) -> MethodOutcomeView {
    let uri = match params {
        Some(p) => p.get_text("uri"@),
        None => None,
    };
    match uri {
        None => MethodOutcomeView::Error(INVALID_PARAMS, "missing uri"@),
        Some(uri) => if uri == "supermemory://projects"@ {
            MethodOutcomeView::Call(McpCallView::ReadProjects { uri })
        } else {
            match without_prefix(uri, "supermemory://profile/"@) {
                Some(raw) => match resolved_tag(Some(raw), None) {
                    Ok(tag) => MethodOutcomeView::Call(
                        McpCallView::ReadProfile { uri, actor_id: parsed_scope(tag).actor_id },
                    ),
                    Err(_) => MethodOutcomeView::Error(
                        INVALID_PARAMS,
                        "invalid containerTag in uri"@,
                    ),
                },
                None => MethodOutcomeView::Error(INVALID_PARAMS, "unknown resource: "@ + uri),
            }
        },
    }
}

/// Decides what is to be done to read a resource.
pub fn read_resource(params: Option<&Json>) -> (r: MethodOutcome)
    ensures
        r@ == resource_call(json_of(params)),
{
    let uri: Option<&str> = match params {
        Some(p) => p.get_text("uri"),
        None => None,
    };
    let uri: &str = match uri {
        Some(uri) => uri,
        None => {
            return invalid("missing uri");
        },
    };
    if same_text(uri, "supermemory://projects") {
        return MethodOutcome::Call(McpCall::ReadProjects { uri: uri.to_owned() });
    }
    match strip_prefix(uri, "supermemory://profile/") {
        Some(raw) => match resolve_container_tag(Some(raw.to_owned()), None) {
            Ok(tag) => {
                let scope: Scope = parse_container_tag(tag.as_str());
                MethodOutcome::Call(
                    McpCall::ReadProfile { uri: uri.to_owned(), actor_id: scope.actor_id },
                )
            },
            Err(_) => invalid("invalid containerTag in uri"),
        },
        None => invalid("unknown resource: ".to_owned().concat(uri).as_str()),
    }
}

/// What is to be done to give a prompt.
pub open spec fn prompt_call(params: Option<JsonView>) -> MethodOutcomeView {
    match params {
        None => MethodOutcomeView::Error(INVALID_PARAMS, "missing params"@),
        Some(p) => match p.get_text("name"@) {
            None => MethodOutcomeView::Error(INVALID_PARAMS, "missing prompt name"@),
            Some(name) => if name != "context"@ {
                MethodOutcomeView::Error(INVALID_PARAMS, "unknown prompt: "@ + name)
            } else {
                let raw = match p.get("arguments"@) {
                    Some(args) => args.get_text("containerTag"@),
                    None => None,
                };
                match raw {
                    None => MethodOutcomeView::Error(
                        INVALID_PARAMS,
                        "context requires a containerTag argument"@,
                    ),
                    Some(raw) => match resolved_tag(Some(raw), None) {
                        Ok(tag) => MethodOutcomeView::Call(
                            McpCallView::GivePrompt { actor_id: parsed_scope(tag).actor_id },
                        ),
                        Err(_) => MethodOutcomeView::Error(INVALID_PARAMS, "invalid containerTag"@),
                    },
                }
            },
        },
    }
}

/// Decides what is to be done to give a prompt.
pub fn get_prompt(params: Option<&Json>) -> (r: MethodOutcome)
    ensures
        r@ == prompt_call(json_of(params)),
{
    let params: &Json = match params {
        Some(p) => p,
        None => {
            return invalid("missing params");
        },
    };
    let name: &str = match params.get_text("name") {
        Some(name) => name,
        None => {
            return invalid("missing prompt name");
        },
    };
    if !same_text(name, "context") {
        return invalid("unknown prompt: ".to_owned().concat(name).as_str());
    }
    let raw: Option<&str> = match params.get("arguments") {
        Some(args) => args.get_text("containerTag"),
        None => None,
    };
    match raw {
        None => invalid("context requires a containerTag argument"),
        Some(raw) => match resolve_container_tag(Some(raw.to_owned()), None) {
            Ok(tag) => {
                let scope: Scope = parse_container_tag(tag.as_str());
                MethodOutcome::Call(McpCall::GivePrompt { actor_id: scope.actor_id })
            },
            Err(_) => invalid("invalid containerTag"),
        },
    }
}

/// What is to be done for a method.
pub open spec fn method_outcome(
    method: Seq<char>,
    params: Option<JsonView>,
    server_version: Seq<char>,
) -> MethodOutcomeView {
    if method == "initialize"@ {
        MethodOutcomeView::Result(greeting(params, server_version))
    } else if method == "tools/list"@ {
        MethodOutcomeView::Result(tools())
    } else if method == "ping"@ {
        MethodOutcomeView::Result(no_fields())
    } else if method == "tools/call"@ {
        tool_call(params)
    } else if method == "resources/list"@ {
        MethodOutcomeView::Result(resources())
    } else if method == "resources/templates/list"@ {
        MethodOutcomeView::Result(resource_templates())
    } else if method == "resources/read"@ {
        resource_call(params)
    } else if method == "prompts/list"@ {
        MethodOutcomeView::Result(prompts())
    } else if method == "prompts/get"@ {
        prompt_call(params)
    } else {
        MethodOutcomeView::Error(METHOD_NOT_FOUND, "method not found: "@ + method)
    }
}

fn dispatch(method: &str, params: Option<&Json>, server_version: &str) -> (r: MethodOutcome)
    ensures
        r@ == method_outcome(method@, json_of(params), server_version@),
{
    if same_text(method, "initialize") {
        MethodOutcome::Result(initialize_result(params, server_version))
    } else if same_text(method, "tools/list") {
        MethodOutcome::Result(tools_list())
    } else if same_text(method, "ping") {
        MethodOutcome::Result(Json::empty_object())
    } else if same_text(method, "tools/call") {
        call_tool(params)
    } else if same_text(method, "resources/list") {
        MethodOutcome::Result(resources_list())
    } else if same_text(method, "resources/templates/list") {
        MethodOutcome::Result(resource_templates_list())
    } else if same_text(method, "resources/read") {
        read_resource(params)
    } else if same_text(method, "prompts/list") {
        MethodOutcome::Result(prompts_list())
    } else if same_text(method, "prompts/get") {
        get_prompt(params)
    } else {
        MethodOutcome::Error(METHOD_NOT_FOUND, "method not found: ".to_owned().concat(method))
    }
}

/// What is to be done for a message.
#[derive(Debug)]
pub enum McpDecision {
    /// Answer with this.
    Reply(Json),
    /// Accept the message without an answer.
    Accepted,
    /// Make the call and answer to the identifier.
    Call { id: Json, call: McpCall },
}

/// What an [`McpDecision`] holds.
pub enum McpDecisionView {
    Reply(JsonView),
    Accepted,
    Call { id: JsonView, call: McpCallView },
}

impl View for McpDecision {
    type V = McpDecisionView;

    open spec fn view(&self) -> McpDecisionView {
        match self {
            McpDecision::Reply(json) => McpDecisionView::Reply(json@),
            McpDecision::Accepted => McpDecisionView::Accepted,
            McpDecision::Call { id, call } => McpDecisionView::Call { id: id@, call: call@ },
        }
    }
}

/// What is to be done for a message. One that is no single request is refused, and one that
/// carries no identifier is a notification, which is not answered.
pub open spec fn decision(msg: JsonView, server_version: Seq<char>) -> McpDecisionView {
    if !(msg is Object) {
        McpDecisionView::Reply(
            rpc_error(
                JsonView::Null,
                INVALID_REQUEST,
                "expected a single JSON-RPC request object"@,
            ),
        )
    } else {
        match msg.get("id"@) {
            None => McpDecisionView::Accepted,
            Some(id) => match method_outcome(
                argument_text(msg, "method"@, ""@),
                msg.get("params"@),
                server_version,
            ) {
                MethodOutcomeView::Result(result) => McpDecisionView::Reply(rpc_result(id, result)),
                MethodOutcomeView::Error(code, message) => McpDecisionView::Reply(
                    rpc_error(id, code, message),
                ),
                MethodOutcomeView::Call(call) => McpDecisionView::Call { id, call },
            },
        }
    }
}

/// Decides what is to be done for a message.
pub fn handle(msg: &Json, server_version: &str) -> (r: McpDecision)
    ensures
        r@ == decision(msg@, server_version@),
{
    match msg {
        Json::Object(_) => {},
        _ => {
            return McpDecision::Reply(
                fail(Json::Null, INVALID_REQUEST, "expected a single JSON-RPC request object"),
            );
        },
    }
    let id: Json = match msg.get("id") {
        Some(id) => id.copy(),
        None => {
            return McpDecision::Accepted;
        },
    };
    let method: &str = match msg.get_text("method") {
        Some(method) => method,
        None => "",
    };
    match dispatch(method, msg.get("params"), server_version) {
        MethodOutcome::Result(result) => McpDecision::Reply(succeed(id, result)),
        MethodOutcome::Error(code, message) => McpDecision::Reply(fail(id, code, message.as_str())),
        MethodOutcome::Call(call) => McpDecision::Call { id, call },
    }
}

// ---------------------------------------------------------------------------------------------
// What a call is answered with
// ---------------------------------------------------------------------------------------------

/// The answer to a call that the engine or the store could not carry out: a tool's result that
/// says so, or an error. Nothing of the cause is told.
pub open spec fn internal_failure(id: JsonView, call: McpCallView) -> JsonView {
    match call {
        McpCallView::ReadProjects { .. }
        | McpCallView::ReadProfile { .. }
        | McpCallView::GivePrompt { .. } => rpc_error(id, INTERNAL_ERROR, "internal error"@),
        _ => rpc_result(id, tool_error("internal error"@)),
    }
}

/// The answer to a call that the engine or the store could not carry out.
pub fn call_failed(id: Json, call: &McpCall) -> (r: Json)
    ensures
        r@ == internal_failure(id@, call@),
{
    match call {
        McpCall::ReadProjects { .. } | McpCall::ReadProfile { .. } | McpCall::GivePrompt { .. } => {
            fail(id, INTERNAL_ERROR, "internal error")
        },
        _ => succeed(id, tool_failure("internal error")),
    }
}

/// The call of the engine that a save makes: no metadata and no identifier of the caller's own go
/// with the text.
pub fn save_call(scope: Scope, content: String) -> (r: AddCall)
    ensures
        adds(r, scope@, content@, conversation_kind(), None, no_fields()),
        r.actor_id@ == scope.actor_id@,
        texts(r.container_tags@) == texts(scope.container_tags@),
        r.content@ == content@,
        r.kind@ == "conversation"@,
        r.custom_id is None,
        r.metadata@ == no_fields(),
{
    add_call(scope, content, "conversation", None, Json::empty_object())
}

/// The query of the engine that a recall makes: without a filter, over what is not forgotten,
/// and ranked anew.
pub fn recall_query(scope: &Scope, query: &str, limit: i64) -> (r: RecallQuery)
    ensures
        asks_for(r.scoped, scope@, query@, limit as int, None),
        r.scoped.actor_id@ == scope.actor_id@,
        texts(r.scoped.container_tags@) == texts(scope.container_tags@),
        r.scoped.query@ == query@,
        r.scoped.limit == limit,
        r.scoped.filter is None,
        !r.include_forgotten,
        r.rerank,
{
    RecallQuery {
        scoped: scoped_query(scope, query, limit, &None),
        include_forgotten: false,
        rerank: true,
    }
}

/// What a save is answered with.
pub open spec fn saved_text(source_id: u128, skipped: bool) -> Seq<char> {
    if skipped {
        "skipped"@
    } else {
        "saved "@ + id_text(source_id)
    }
}

/// The result of a save; `skipped` says that the text had been taken in before.
pub fn memory_saved(source_id: u128, skipped: bool) -> (r: Json)
    ensures
        r@ == tool_text(saved_text(source_id, skipped)),
        skipped ==> r@ == tool_text("skipped"@),
        !skipped ==> r@ == tool_text("saved "@ + id_text(source_id)),
{
    if skipped {
        tool_success("skipped")
    } else {
        tool_success("saved ".to_owned().concat(print_id(source_id).as_str()).as_str())
    }
}

/// The result once some memories were forgotten.
pub fn memories_forgotten(count: usize) -> (r: Json)
    ensures
        r@ == tool_text("forgot "@ + decimal(count as nat) + " memories"@),
{
    let mut text: String = "forgot ".to_owned();
    text.append(decimal_text(count as u64).as_str());
    text.append(" memories");
    tool_success(text.as_str())
}

/// A hit as the recall tool shows it.
pub open spec fn hit_entry(hit: RecallHit) -> JsonView {
    no_fields()
        .with("id"@, jtext(id_text(hit.id)))
        .with("memory"@, jopt(text_of(hit.content)))
        .with("similarity"@, hit.score@.shown)
        .with("updatedAt"@, jopt(rfc3339_of(time_of(hit.recorded_at))))
}

/// The hits as the recall tool shows them.
pub open spec fn hit_entries(hits: Seq<RecallHit>) -> Seq<JsonView> {
    Seq::new(hits.len(), |i: int| hit_entry(hits[i]))
}

/// A profile as the recall tool shows it.
pub open spec fn profile_entry(profile: Profile) -> JsonView {
    no_fields()
        .with("staticFacts"@, JsonView::Array(text_items(texts(profile.static_facts@))))
        .with("dynamicCtx"@, JsonView::Array(text_items(texts(profile.dynamic_ctx@))))
}

/// What the recall tool shows: the hits, and the profile where it came along.
pub open spec fn recall_payload(hits: Seq<RecallHit>, profile: Option<Profile>) -> JsonView {
    let results = no_fields().with("results"@, JsonView::Array(hit_entries(hits)));
    match profile {
        Some(profile) => results.with("profile"@, profile_entry(profile)),
        None => results,
    }
}

fn show_hit(hit: &RecallHit) -> (r: Json)
    ensures
        r@ == hit_entry(*hit),
{
    Json::empty_object()
        .with("id", Json::Text(print_id(hit.id)))
        .with("memory", optional(copy_opt(&hit.content)))
        .with("similarity", hit.score.shown())
        .with("updatedAt", optional(to_rfc3339_opt(&hit.recorded_at)))
}

/// What the recall tool shows.
pub fn recall_results(hits: &Vec<RecallHit>, profile: &Option<Profile>) -> (r: Json)
    ensures
        r@ == recall_payload(hits@, *profile),
{
    let ghost all = hit_entries(hits@);
    let mut entries: Json = Json::empty_array();
    let mut i: usize = 0;
    assert(all.take(0) =~= Seq::empty());
    while i < hits.len()
        invariant
            i <= hits@.len(),
            all == hit_entries(hits@),
            entries@ == JsonView::Array(all.take(i as int)),
        decreases hits@.len() - i,
    {
        entries = entries.item(show_hit(&hits[i]));
        i += 1;
        assert(all.take(i as int) =~= all.take(i - 1).push(all[i - 1]));
    }
    assert(all.take(i as int) =~= all);
    let results: Json = Json::empty_object().with("results", entries);
    match profile {
        Some(profile) => results.with(
            "profile",
            Json::empty_object().with("staticFacts", text_array(&profile.static_facts)).with(
                "dynamicCtx",
                text_array(&profile.dynamic_ctx),
            ),
        ),
        None => results,
    }
}

/// The result of the recall tool: what it shows, as a text.
pub fn recalled(hits: &Vec<RecallHit>, profile: &Option<Profile>) -> (r: Json)
    ensures
        r@ == tool_text(json_text(recall_payload(hits@, *profile))),
{
    tool_success(render(&recall_results(hits, profile)).as_str())
}

/// What the project tool shows.
pub open spec fn projects_payload(tags: Seq<Seq<char>>) -> JsonView {
    no_fields().with("projects"@, JsonView::Array(text_items(tags)))
}

/// The result of the project tool.
pub fn projects_listed(tags: &Vec<String>) -> (r: Json)
    ensures
        r@ == tool_text(json_text(projects_payload(texts(tags@)))),
{
    let payload: Json = Json::empty_object().with("projects", text_array(tags));
    tool_success(render(&payload).as_str())
}

/// What the tool that tells who is asking shows.
pub open spec fn identity_payload(external_id: Option<Seq<char>>) -> JsonView {
    no_fields()
        .with("userId"@, jtext(user_id_of(external_id)))
        .with("email"@, JsonView::Null)
        .with("name"@, JsonView::Null)
}

/// The result of the tool that tells who is asking.
pub fn identified(external_id: Option<String>) -> (r: Json)
    ensures
        r@ == tool_text(json_text(identity_payload(text_of(external_id)))),
{
    let payload: Json = Json::empty_object()
        .with("userId", Json::Text(user_id(external_id)))
        .with("email", Json::Null)
        .with("name", Json::Null);
    tool_success(render(&payload).as_str())
}

/// A document in the graph.
#[derive(Debug)]
pub struct GraphDocument {
    pub id: u128,
    pub title: Option<String>,
}

/// An entity in the graph, and how often it is mentioned.
#[derive(Debug)]
pub struct GraphEntity {
    pub surface: String,
    pub mentions: i64,
}

/// How many entities the graph tool shows at most.
pub const GRAPH_ENTITY_LIMIT: i64 = 50;

/// The documents as the graph tool shows them.
pub open spec fn document_entries(documents: Seq<GraphDocument>) -> Seq<JsonView> {
    Seq::new(
        documents.len(),
        |i: int|
            no_fields().with("id"@, jtext(id_text(documents[i].id))).with(
                "title"@,
                jopt(text_of(documents[i].title)),
            ),
    )
}

/// The entities as the graph tool shows them.
pub open spec fn entity_entries(entities: Seq<GraphEntity>) -> Seq<JsonView> {
    Seq::new(
        entities.len(),
        |i: int|
            no_fields().with("surface"@, jtext(entities[i].surface@)).with(
                "mentions"@,
                jint(entities[i].mentions),
            ),
    )
}

/// The graph in a line: how many documents and entities there are.
pub open spec fn graph_summary(documents: nat, entities: nat) -> Seq<char> {
    decimal(documents) + " document(s), "@ + decimal(entities) + " entit"@ + if entities == 1 {
        "y"@
    } else {
        "ies"@
    }
}

/// The result of the graph tool: a line of text, and the graph itself beside it.
pub open spec fn graph_result(
    documents: Seq<GraphDocument>,
    entities: Seq<GraphEntity>,
) -> JsonView {
    no_fields()
        .with("content"@, content_of(graph_summary(documents.len(), entities.len())))
        .with(
            "structuredContent"@,
            no_fields()
                .with("documents"@, JsonView::Array(document_entries(documents)))
                .with("totalCount"@, JsonView::Number(NumberView::Unsigned(documents.len() as u64)))
                .with("entities"@, JsonView::Array(entity_entries(entities))),
        )
}

/// The result of the graph tool.
pub fn graph_shown(documents: &Vec<GraphDocument>, entities: &Vec<GraphEntity>) -> (r: Json)
    ensures
        r@ == graph_result(documents@, entities@),
{
    let ghost all_documents = document_entries(documents@);
    let mut shown: Json = Json::empty_array();
    let mut i: usize = 0;
    assert(all_documents.take(0) =~= Seq::empty());
    while i < documents.len()
        invariant
            i <= documents@.len(),
            all_documents == document_entries(documents@),
            shown@ == JsonView::Array(all_documents.take(i as int)),
        decreases documents@.len() - i,
    {
        shown = shown.item(
            Json::empty_object().with("id", Json::Text(print_id(documents[i].id))).with(
                "title",
                optional(copy_opt(&documents[i].title)),
            ),
        );
        i += 1;
        assert(all_documents.take(i as int) =~= all_documents.take(i - 1).push(
            all_documents[i - 1],
        ));
    }
    assert(all_documents.take(i as int) =~= all_documents);
    let ghost all_entities = entity_entries(entities@);
    let mut named: Json = Json::empty_array();
    let mut j: usize = 0;
    assert(all_entities.take(0) =~= Seq::empty());
    while j < entities.len()
        invariant
            j <= entities@.len(),
            all_entities == entity_entries(entities@),
            named@ == JsonView::Array(all_entities.take(j as int)),
        decreases entities@.len() - j,
    {
        named = named.item(
            Json::empty_object().with("surface", Json::Text(entities[j].surface.clone())).with(
                "mentions",
                whole(entities[j].mentions),
            ),
        );
        j += 1;
        assert(all_entities.take(j as int) =~= all_entities.take(j - 1).push(all_entities[j - 1]));
    }
    assert(all_entities.take(j as int) =~= all_entities);
    let total: u64 = documents.len() as u64;
    let mut summary: String = decimal_text(total);
    summary.append(" document(s), ");
    summary.append(decimal_text(entities.len() as u64).as_str());
    summary.append(" entit");
    summary.append(
        if entities.len() == 1 {
            "y"
        } else {
            "ies"
        },
    );
    let structured: Json = Json::empty_object()
        .with("documents", shown)
        .with("totalCount", Json::Number(Number::Unsigned(total)))
        .with("entities", named);
    Json::empty_object()
        .with("content", content(summary.as_str()))
        .with("structuredContent", structured)
}

/// The contents of a resource.
pub open spec fn resource_contents(
    uri: Seq<char>,
    mime_type: Seq<char>,
    text: Seq<char>,
) -> JsonView {
    no_fields().with(
        "contents"@,
        no_items().item(
            no_fields()
                .with("uri"@, jtext(uri))
                .with("mimeType"@, jtext(mime_type))
                .with("text"@, jtext(text)),
        ),
    )
}

fn contents(uri: &str, mime_type: &str, text: &str) -> (r: Json)
    ensures
        r@ == resource_contents(uri@, mime_type@, text@),
{
    let entry: Json = Json::empty_object()
        .with_text("uri", uri)
        .with_text("mimeType", mime_type)
        .with_text("text", text);
    Json::empty_object().with("contents", Json::empty_array().item(entry))
}

/// The contents of the resource that lists the projects.
pub fn projects_read(uri: &str, tags: &Vec<String>) -> (r: Json)
    ensures
        r@ == resource_contents(
            uri@,
            "application/json"@,
            json_text(JsonView::Array(text_items(texts(tags@)))),
        ),
{
    contents(uri, "application/json", render(&text_array(tags)).as_str())
}

/// A list of texts under a heading, and nothing where there is none.
pub open spec fn markdown_section(heading: Seq<char>, list: Seq<Seq<char>>) -> Seq<char> {
    if list.len() == 0 {
        Seq::empty()
    } else {
        heading + markdown_items(list)
    }
}

/// A line for each text.
pub open spec fn markdown_items(list: Seq<Seq<char>>) -> Seq<char>
    decreases list.len(),
{
    if list.len() == 0 {
        Seq::empty()
    } else {
        markdown_items(list.drop_last()) + "- "@ + list.last() + seq!['\n']
    }
}

/// A profile as Markdown.
pub open spec fn markdown(profile: Profile) -> Seq<char> {
    "# Memory profile\n"@ + markdown_section(
        "\n## Durable facts\n"@,
        texts(profile.static_facts@),
    ) + markdown_section("\n## Recent context\n"@, texts(profile.dynamic_ctx@))
}

fn add_section(text: String, heading: &str, list: &Vec<String>) -> (r: String)
    ensures
        r@ == text@ + markdown_section(heading@, texts(list@)),
{
    let ghost all = texts(list@);
    let ghost start = text@;
    let mut out: String = text;
    if list.len() == 0 {
        assert(out@ =~= start + markdown_section(heading@, all));
        return out;
    }
    out.append(heading);
    let mut i: usize = 0;
    assert(out@ =~= start + heading@ + markdown_items(all.take(0)));
    while i < list.len()
        invariant
            i <= list@.len(),
            all == texts(list@),
            out@ == start + heading@ + markdown_items(all.take(i as int)),
        decreases list@.len() - i,
    {
        assert(all.take(i + 1).drop_last() =~= all.take(i as int));
        out.append("- ");
        out.append(list[i].as_str());
        out.push('\n');
        i += 1;
        assert(out@ =~= start + heading@ + markdown_items(all.take(i as int)));
    }
    assert(all.take(i as int) =~= all);
    assert(out@ =~= start + markdown_section(heading@, all));
    out
}

/// A profile as Markdown.
pub fn profile_markdown(profile: &Profile) -> (r: String)
    ensures
        r@ == markdown(*profile),
{
    let title: String = "# Memory profile\n".to_owned();
    let facts: String = add_section(title, "\n## Durable facts\n", &profile.static_facts);
    add_section(facts, "\n## Recent context\n", &profile.dynamic_ctx)
}

/// The contents of the resource that shows a profile.
pub fn profile_read(uri: &str, profile: &Profile) -> (r: Json)
    ensures
        r@ == resource_contents(uri@, "text/markdown"@, markdown(*profile)),
{
    contents(uri, "text/markdown", profile_markdown(profile).as_str())
}

/// A prompt that puts a profile before the model.
pub open spec fn prompt_result(text: Seq<char>) -> JsonView {
    no_fields()
        .with("description"@, jtext("The user's memory profile as context."@))
        .with(
            "messages"@,
            no_items().item(
                no_fields()
                    .with("role"@, jtext("user"@))
                    .with(
                        "content"@,
                        no_fields().with("type"@, jtext("text"@)).with("text"@, jtext(text)),
                    ),
            ),
        )
}

/// The prompt that puts a profile before the model.
pub fn prompt_given(profile: &Profile) -> (r: Json)
    ensures
        r@ == prompt_result(markdown(*profile)),
{
    let body: Json = Json::empty_object()
        .with_text("type", "text")
        .with_text("text", profile_markdown(profile).as_str());
    let message: Json = Json::empty_object().with_text("role", "user").with("content", body);
    Json::empty_object()
        .with_text("description", "The user's memory profile as context.")
        .with("messages", Json::empty_array().item(message))
}

// ---------------------------------------------------------------------------------------------
// Laws
// ---------------------------------------------------------------------------------------------

/// Every request is answered to its identifier, or leads to a call that will be; only a message
/// without one goes unanswered.
pub proof fn requests_are_answered(msg: JsonView, server_version: Seq<char>)
    requires
        msg is Object,
    ensures
        msg.get("id"@) is None <==> decision(msg, server_version) is Accepted,
        msg.get("id"@) is Some ==> match decision(msg, server_version) {
            McpDecisionView::Reply(reply) => reply.get("id"@) == msg.get("id"@),
            McpDecisionView::Call { id, .. } => Some(id) == msg.get("id"@),
            McpDecisionView::Accepted => false,
        },
{
    if msg.get("id"@) is Some {
        let id = msg.get("id"@)->0;
        match method_outcome(
            argument_text(msg, "method"@, ""@),
            msg.get("params"@),
            server_version,
        ) {
            MethodOutcomeView::Result(result) => {
                replies_carry_the_id(id, result, 0, ""@);
            },
            MethodOutcomeView::Error(code, message) => {
                replies_carry_the_id(id, JsonView::Null, code, message);
            },
            MethodOutcomeView::Call(_) => {},
        }
    }
}

/// An answer carries the identifier it answers to, and either a result or an error.
pub proof fn replies_carry_the_id(id: JsonView, result: JsonView, code: i64, message: Seq<char>)
    ensures
        rpc_result(id, result).get("id"@) == Some(id),
        rpc_result(id, result).get("result"@) == Some(result),
        rpc_result(id, result).get("error"@) is None,
        rpc_error(id, code, message).get("id"@) == Some(id),
        rpc_error(id, code, message).get("result"@) is None,
        rpc_error(id, code, message).get("error"@) is Some,
{
    reveal_strlit("jsonrpc");
    reveal_strlit("id");
    reveal_strlit("result");
    reveal_strlit("error");
    assert("jsonrpc"@.len() == 7);
    assert("id"@.len() == 2);
    assert("result"@.len() == 6);
    assert("error"@.len() == 5);
    reveal_with_fuel(crate::json::field_from, 4);
}

/// A failure of the engine or the store is answered in the same words for every cause, and to
/// the identifier of the request.
pub proof fn failures_are_scrubbed(id: JsonView, call: McpCallView)
    ensures
        internal_failure(id, call) == rpc_error(id, INTERNAL_ERROR, "internal error"@)
            || internal_failure(id, call) == rpc_result(id, tool_error("internal error"@)),
        internal_failure(id, call).get("id"@) == Some(id),
{
    replies_carry_the_id(id, tool_error("internal error"@), INTERNAL_ERROR, "internal error"@);
}

/// A tool that there is never fails as a call of the protocol: it is carried out, or its result
/// says why it could not be.
pub proof fn known_tools_are_answered_with_results(params: JsonView)
    requires
        params.get_text("name"@) == Some("memory"@) || params.get_text("name"@) == Some("recall"@)
            || params.get_text("name"@) == Some("listProjects"@) || params.get_text("name"@)
            == Some("whoAmI"@) || params.get_text("name"@) == Some("memory-graph"@),
    ensures
        !(tool_call(Some(params)) is Error),
{
}

/// Whatever version is asked for, one that is known is spoken, and a known one is kept.
pub proof fn a_known_version_is_spoken(params: Option<JsonView>)
    ensures
        ({
            let v = protocol_version(params);
            v == "2024-11-05"@ || v == "2025-03-26"@ || v == "2025-06-18"@
        }),
        params is Some && params->0.get_text("protocolVersion"@) == Some("2024-11-05"@)
            ==> protocol_version(params) == "2024-11-05"@,
        params is Some && params->0.get_text("protocolVersion"@) == Some("2025-03-26"@)
            ==> protocol_version(params) == "2025-03-26"@,
{
}

// ---------------------------------------------------------------------------------------------
// Laws of the tools
// ---------------------------------------------------------------------------------------------

/// The message asks for a tool with these arguments, and for an answer.
pub open spec fn asks_tool(msg: JsonView, name: Seq<char>, args: JsonView) -> bool {
    &&& msg is Object
    &&& msg.get("id"@) is Some
    &&& msg.get_text("method"@) == Some("tools/call"@)
    &&& msg.get("params"@) is Some
    &&& msg.get("params"@)->0.get_text("name"@) == Some(name)
    &&& msg.get("params"@)->0.get("arguments"@) == Some(args)
}

/// The decision is to answer that a tool could not do what it was asked, and why.
pub open spec fn tells_failure(
    decided: McpDecisionView,
    id: Option<JsonView>,
    message: Seq<char>,
) -> bool {
    &&& decided is Reply
    &&& decided->Reply_0.get("id"@) == id
    &&& decided->Reply_0.get("error"@) is None
    &&& decided->Reply_0.get("result"@) is Some
    &&& decided->Reply_0.get("result"@)->0.get("isError"@) == Some(JsonView::Bool(true))
    &&& shows_text(decided->Reply_0.get("result"@)->0, message)
}

/// The result of a tool shows the text and nothing else.
pub open spec fn shows_text(result: JsonView, text: Seq<char>) -> bool {
    &&& result.get("content"@) is Some
    &&& result.get("content"@)->0 is Array
    &&& result.get("content"@)->0->Array_0.len() == 1
    &&& result.get("content"@)->0->Array_0[0].get_text("type"@) == Some("text"@)
    &&& result.get("content"@)->0->Array_0[0].get_text("text"@) == Some(text)
}

proof fn tools_have_names_of_their_own()
    ensures
        "memory"@ != "recall"@,
        "memory"@ != "listProjects"@,
        "memory"@ != "whoAmI"@,
        "memory"@ != "memory-graph"@,
        "recall"@ != "listProjects"@,
        "recall"@ != "whoAmI"@,
        "recall"@ != "memory-graph"@,
        "listProjects"@ != "whoAmI"@,
        "listProjects"@ != "memory-graph"@,
        "whoAmI"@ != "memory-graph"@,
        "save"@ != "forget"@,
{
    reveal_strlit("memory");
    reveal_strlit("recall");
    reveal_strlit("listProjects");
    reveal_strlit("whoAmI");
    reveal_strlit("memory-graph");
    reveal_strlit("save");
    reveal_strlit("forget");
    assert("memory"@.len() == 6 && "memory"@[0] == 'm');
    assert("recall"@.len() == 6 && "recall"@[0] == 'r');
    assert("whoAmI"@.len() == 6 && "whoAmI"@[0] == 'w');
    assert("listProjects"@.len() == 12 && "listProjects"@[0] == 'l');
    assert("memory-graph"@.len() == 12 && "memory-graph"@[0] == 'm');
    assert("save"@.len() == 4);
    assert("forget"@.len() == 6);
}

proof fn methods_have_names_of_their_own()
    ensures
        "tools/call"@ != "initialize"@,
        "tools/call"@ != "tools/list"@,
        "tools/call"@ != "ping"@,
        "resources/read"@ != "initialize"@,
        "resources/read"@ != "tools/list"@,
        "resources/read"@ != "ping"@,
        "resources/read"@ != "tools/call"@,
        "resources/read"@ != "resources/list"@,
        "resources/read"@ != "resources/templates/list"@,
        "prompts/get"@ != "initialize"@,
        "prompts/get"@ != "tools/list"@,
        "prompts/get"@ != "ping"@,
        "prompts/get"@ != "tools/call"@,
        "prompts/get"@ != "resources/list"@,
        "prompts/get"@ != "resources/templates/list"@,
        "prompts/get"@ != "resources/read"@,
        "prompts/get"@ != "prompts/list"@,
        "ping"@ != "initialize"@,
        "ping"@ != "tools/list"@,
        "tools/list"@ != "initialize"@,
{
    reveal_strlit("initialize");
    reveal_strlit("tools/list");
    reveal_strlit("ping");
    reveal_strlit("tools/call");
    reveal_strlit("resources/list");
    reveal_strlit("resources/templates/list");
    reveal_strlit("resources/read");
    reveal_strlit("prompts/list");
    reveal_strlit("prompts/get");
    assert("initialize"@.len() == 10 && "initialize"@[0] == 'i');
    assert("tools/list"@.len() == 10 && "tools/list"@[0] == 't' && "tools/list"@[6] == 'l');
    assert("tools/call"@.len() == 10 && "tools/call"@[0] == 't' && "tools/call"@[6] == 'c');
    assert("ping"@.len() == 4);
    assert("resources/list"@.len() == 14 && "resources/list"@[10] == 'l');
    assert("resources/read"@.len() == 14 && "resources/read"@[10] == 'r');
    assert("resources/templates/list"@.len() == 24);
    assert("prompts/list"@.len() == 12);
    assert("prompts/get"@.len() == 11);
}

/// The result of a tool shows the text it is given, and says that it failed only where it did.
pub proof fn tools_show_their_text(text: Seq<char>)
    ensures
        shows_text(tool_text(text), text),
        tool_text(text).get("isError"@) is None,
        shows_text(tool_error(text), text),
        tool_error(text).get("isError"@) == Some(JsonView::Bool(true)),
{
    reveal_strlit("content");
    reveal_strlit("isError");
    reveal_strlit("type");
    reveal_strlit("text");
    assert("content"@.len() == 7 && "content"@[0] == 'c');
    assert("isError"@.len() == 7 && "isError"@[0] == 'i');
    assert("type"@.len() == 4 && "type"@[1] == 'y');
    assert("text"@.len() == 4 && "text"@[1] == 'e');
    reveal_with_fuel(crate::json::field_from, 3);
}

/// An error carries its code and its message.
pub proof fn errors_carry_code_and_message(id: JsonView, code: i64, message: Seq<char>)
    ensures
        rpc_error(id, code, message).get("error"@) matches Some(error) && {
            &&& error.get_text("message"@) == Some(message)
            &&& code < 0 ==> error.get("code"@) == Some(
                JsonView::Number(NumberView::Negative(code)),
            )
            &&& code >= 0 ==> error.get("code"@) == Some(
                JsonView::Number(NumberView::Unsigned(code as u64)),
            )
        },
        rpc_error(id, code, message).get_text("jsonrpc"@) == Some("2.0"@),
        rpc_result(id, JsonView::Null).get_text("jsonrpc"@) == Some("2.0"@),
{
    replies_carry_the_id(id, JsonView::Null, code, message);
    reveal_strlit("jsonrpc");
    reveal_strlit("id");
    reveal_strlit("result");
    reveal_strlit("error");
    reveal_strlit("code");
    reveal_strlit("message");
    assert("jsonrpc"@.len() == 7);
    assert("id"@.len() == 2);
    assert("result"@.len() == 6);
    assert("error"@.len() == 5);
    assert("code"@.len() == 4);
    assert("message"@.len() == 7);
    reveal_with_fuel(crate::json::field_from, 4);
}

proof fn tools_are_reached(msg: JsonView, version: Seq<char>, name: Seq<char>, args: JsonView)
    requires
        asks_tool(msg, name, args),
    ensures
        ({
            let id = msg.get("id"@)->0;
            let outcome = if name == "memory-graph"@ {
                graph_call(args)
            } else if name == "memory"@ {
                memory_call(args)
            } else if name == "recall"@ {
                recall_call(args)
            } else {
                tool_call(msg.get("params"@))
            };
            decision(msg, version) == match outcome {
                MethodOutcomeView::Result(result) => McpDecisionView::Reply(rpc_result(id, result)),
                MethodOutcomeView::Error(code, message) => McpDecisionView::Reply(
                    rpc_error(id, code, message),
                ),
                MethodOutcomeView::Call(call) => McpDecisionView::Call { id, call },
            }
        }),
{
    methods_have_names_of_their_own();
    tools_have_names_of_their_own();
}

proof fn failure_is_told(msg: JsonView, message: Seq<char>)
    requires
        msg.get("id"@) is Some,
    ensures
        tells_failure(
            McpDecisionView::Reply(rpc_result(msg.get("id"@)->0, tool_error(message))),
            msg.get("id"@),
            message,
        ),
{
    replies_carry_the_id(msg.get("id"@)->0, tool_error(message), 0, message);
    tools_show_their_text(message);
}

/// The container in a tool's arguments is the one under `containerTag`, where it is proper; and
/// where there is none, the only one under `containerTags`.
pub proof fn the_container_is_the_one_in_the_arguments(args: JsonView, tag: Seq<char>)
    requires
        tag_fault(tag) is None,
    ensures
        args.get_text("containerTag"@) == Some(tag) ==> argument_tag(args) == Ok::<
            Seq<char>,
            Seq<char>,
        >(tag),
        args.get_text("containerTag"@) is None && args.get("containerTags"@) == Some(
            JsonView::Array(seq![JsonView::Text(tag)]),
        ) ==> argument_tag(args) == Ok::<Seq<char>, Seq<char>>(tag),
        args.get_text("containerTag"@) is None && args.get("containerTags"@) is None
            ==> argument_tag(args) is Err,
{
    let list = text_list(args, "containerTags"@);
    the_tag_used_is_the_tag_sent(args.get_text("containerTag"@), list);
    proper_tags_by_their_codes(tag);
    let one = seq![JsonView::Text(tag)];
    reveal_with_fuel(texts_among, 2);
    assert(one.drop_last() =~= Seq::empty());
    assert(texts_among(one) =~= seq![tag]);
}

/// A recall looks in the container that its arguments name, for what they ask for: the tag can be
/// put together again from the scope. Up to a hundred hits come back, ten where no limit is given,
/// and the profile with them unless it is declined. Only a blank query keeps it from being carried
/// out.
pub proof fn recalls_look_in_the_named_container(
    msg: JsonView,
    version: Seq<char>,
    args: JsonView,
    tag: Seq<char>,
)
    requires
        asks_tool(msg, "recall"@, args),
        args.get_text("containerTag"@) == Some(tag),
        tag_fault(tag) is None,
    ensures
        args.get_text("query"@) matches Some(query) && !is_blank(query) ==> {
            let decided = decision(msg, version);
            &&& decided is Call
            &&& Some(decided->id) == msg.get("id"@)
            &&& decided->call is Recall
            &&& reconstructed_tag(decided->call->Recall_scope) == tag
            &&& decided->call->Recall_scope == parsed_scope(tag)
            &&& Some(decided->call->query) == args.get_text("query"@)
            &&& args.get_i64("limit"@) is None ==> decided->call->limit == 10
            &&& args.get_i64("limit"@) matches Some(n) ==> {
                &&& 1 <= n <= 100 ==> decided->call->limit == n
                &&& n < 1 ==> decided->call->limit == 1
                &&& n > 100 ==> decided->call->limit == 100
            }
            &&& decided->call->with_profile <==> args.get_bool("includeProfile"@) != Some(false)
        },
        args.get_text("query"@) is None || is_blank(args.get_text("query"@)->0) ==> tells_failure(
            decision(msg, version),
            msg.get("id"@),
            "query is empty"@,
        ),
{
    tools_are_reached(msg, version, "recall"@, args);
    tools_have_names_of_their_own();
    the_container_is_the_one_in_the_arguments(args, tag);
    tag_survives_parsing(tag);
    failure_is_told(msg, "query is empty"@);
    nothing_is_blank();
}

proof fn nothing_is_blank()
    ensures
        is_blank(""@),
{
    reveal_strlit("");
}

/// A save writes to the container that its arguments name, and a forget forgets of the actor of
/// that container, with the text that was sent. Without an action the text is saved; another
/// action, or a blank text, is answered with what is wrong.
pub proof fn saves_write_to_the_named_container(
    msg: JsonView,
    version: Seq<char>,
    args: JsonView,
    tag: Seq<char>,
)
    requires
        asks_tool(msg, "memory"@, args),
        args.get_text("containerTag"@) == Some(tag),
        tag_fault(tag) is None,
    ensures
        ({
            let decided = decision(msg, version);
            let action = args.get_text("action"@);
            let there = args.get_text("content"@) is Some && !is_blank(
                args.get_text("content"@)->0,
            );
            &&& there && (action is None || action == Some("save"@)) ==> {
                &&& decided is Call
                &&& Some(decided->id) == msg.get("id"@)
                &&& decided->call is Save
                &&& reconstructed_tag(decided->call->Save_scope) == tag
                &&& decided->call->Save_scope == parsed_scope(tag)
                &&& Some(decided->call->Save_content) == args.get_text("content"@)
            }
            &&& there && action == Some("forget"@) ==> {
                &&& decided is Call
                &&& Some(decided->id) == msg.get("id"@)
                &&& decided->call is Forget
                &&& decided->call->Forget_actor_id == parsed_scope(tag).actor_id
                &&& Some(decided->call->Forget_content) == args.get_text("content"@)
            }
            &&& there && action is Some && action != Some("save"@) && action != Some("forget"@)
                ==> tells_failure(decided, msg.get("id"@), "unknown action: "@ + action->0)
            &&& !there ==> tells_failure(decided, msg.get("id"@), "content is empty"@)
        }),
{
    tools_are_reached(msg, version, "memory"@, args);
    tools_have_names_of_their_own();
    the_container_is_the_one_in_the_arguments(args, tag);
    tag_survives_parsing(tag);
    failure_is_told(msg, "content is empty"@);
    if args.get_text("action"@) is Some {
        failure_is_told(msg, "unknown action: "@ + args.get_text("action"@)->0);
    }
    nothing_is_blank();
}

/// What is saved under a tag is looked for under it: a recall with the same tag runs in the scope
/// that the save wrote to.
pub proof fn recalls_look_where_saves_wrote(
    save: JsonView,
    recall: JsonView,
    version: Seq<char>,
    saved: JsonView,
    recalled: JsonView,
)
    requires
        asks_tool(save, "memory"@, saved),
        asks_tool(recall, "recall"@, recalled),
        decision(save, version) is Call,
        decision(save, version)->call is Save,
        decision(recall, version) is Call,
        decision(recall, version)->call is Recall,
        saved.get_text("containerTag"@) == recalled.get_text("containerTag"@),
        saved.get("containerTags"@) == recalled.get("containerTags"@),
    ensures
        decision(save, version)->call->Save_scope == decision(recall, version)->call->Recall_scope,
{
    tools_are_reached(save, version, "memory"@, saved);
    tools_are_reached(recall, version, "recall"@, recalled);
    tools_have_names_of_their_own();
}

/// Whatever a message says, a recall or a save that it leads to runs in the container that its
/// arguments name, and a forget or a graph is about the actor of that container.
pub proof fn calls_stay_in_the_named_container(msg: JsonView, version: Seq<char>)
    ensures
        decision(msg, version) matches McpDecisionView::Call { call, .. } ==> (call is Recall
            || call is Save || call is Forget || call is Graph ==> {
            let named = msg.get("params"@)->0.get("arguments"@);
            let args = if named is Some {
                named->0
            } else {
                no_fields()
            };
            &&& argument_tag(args) is Ok
            &&& call is Recall ==> reconstructed_tag(call->Recall_scope) == argument_tag(args)->Ok_0
            &&& call is Save ==> reconstructed_tag(call->Save_scope) == argument_tag(args)->Ok_0
            &&& call is Forget ==> call->Forget_actor_id == parsed_scope(
                argument_tag(args)->Ok_0,
            ).actor_id
            &&& call is Graph ==> call->Graph_actor_id == parsed_scope(
                argument_tag(args)->Ok_0,
            ).actor_id
        }),
{
    if let McpDecisionView::Call { id, call } = decision(msg, version) {
        if call is Recall || call is Save || call is Forget || call is Graph {
            let named = msg.get("params"@)->0.get("arguments"@);
            let args = if named is Some {
                named->0
            } else {
                no_fields()
            };
            tag_survives_parsing(argument_tag(args)->Ok_0);
        }
    }
}

/// The graph is about the actor of the container that the arguments name.
pub proof fn graphs_are_about_the_named_actor(
    msg: JsonView,
    version: Seq<char>,
    args: JsonView,
    tag: Seq<char>,
)
    requires
        asks_tool(msg, "memory-graph"@, args),
        args.get_text("containerTag"@) == Some(tag),
        tag_fault(tag) is None,
    ensures
        decision(msg, version) is Call,
        Some(decision(msg, version)->id) == msg.get("id"@),
        decision(msg, version)->call is Graph,
        decision(msg, version)->call->Graph_actor_id == parsed_scope(tag).actor_id,
{
    tools_are_reached(msg, version, "memory-graph"@, args);
    the_container_is_the_one_in_the_arguments(args, tag);
}

/// A tool that needs a container and is named none, or one that is not proper, says what is wrong
/// with it.
pub proof fn tools_need_a_container(
    msg: JsonView,
    version: Seq<char>,
    name: Seq<char>,
    args: JsonView,
)
    requires
        asks_tool(msg, name, args),
        argument_tag(args) is Err,
        name == "memory-graph"@ || name == "recall"@ && args.get_text("query"@) is Some
            && !is_blank(args.get_text("query"@)->0) || name == "memory"@ && args.get_text(
            "content"@,
        ) is Some && !is_blank(args.get_text("content"@)->0),
    ensures
        tells_failure(decision(msg, version), msg.get("id"@), argument_tag(args)->Err_0),
{
    tools_are_reached(msg, version, name, args);
    tools_have_names_of_their_own();
    failure_is_told(msg, argument_tag(args)->Err_0);
}

/// The two tools without a container are carried out whatever their arguments, and a tool that
/// there is not is an error in what the method was given.
pub proof fn other_tools_are_told_apart(
    msg: JsonView,
    version: Seq<char>,
    name: Seq<char>,
    args: JsonView,
)
    requires
        asks_tool(msg, name, args),
    ensures
        name == "listProjects"@ ==> decision(msg, version) == (McpDecisionView::Call {
            id: msg.get("id"@)->0,
            call: McpCallView::ListProjects,
        }),
        name == "whoAmI"@ ==> decision(msg, version) == (McpDecisionView::Call {
            id: msg.get("id"@)->0,
            call: McpCallView::WhoAmI,
        }),
        name != "listProjects"@ && name != "whoAmI"@ && name != "memory"@ && name != "recall"@
            && name != "memory-graph"@ ==> decision(msg, version) is Reply && {
            let reply = decision(msg, version)->Reply_0;
            &&& reply.get("id"@) == msg.get("id"@)
            &&& reply.get("result"@) is None
            &&& reply.get("error"@) is Some
            &&& reply.get("error"@)->0.get("code"@) == Some(
                JsonView::Number(NumberView::Negative((-32602) as i64)),
            )
            &&& reply.get("error"@)->0.get_text("message"@) == Some("unknown tool: "@ + name)
        },
{
    tools_are_reached(msg, version, name, args);
    tools_have_names_of_their_own();
    let id = msg.get("id"@)->0;
    errors_carry_code_and_message(id, (-32602) as i64, "unknown tool: "@ + name);
    replies_carry_the_id(id, JsonView::Null, (-32602) as i64, "unknown tool: "@ + name);
}

/// A method that there is not is answered with the error that says so.
pub proof fn unknown_methods_are_told(msg: JsonView, version: Seq<char>, method: Seq<char>)
    requires
        msg is Object,
        msg.get("id"@) is Some,
        msg.get_text("method"@) == Some(method),
        method != "initialize"@,
        method != "ping"@,
        method != "tools/list"@,
        method != "tools/call"@,
        method != "resources/list"@,
        method != "resources/templates/list"@,
        method != "resources/read"@,
        method != "prompts/list"@,
        method != "prompts/get"@,
    ensures
        decision(msg, version) is Reply,
        ({
            let reply = decision(msg, version)->Reply_0;
            &&& reply.get("id"@) == msg.get("id"@)
            &&& reply.get("result"@) is None
            &&& reply.get("error"@) is Some
            &&& reply.get("error"@)->0.get("code"@) == Some(
                JsonView::Number(NumberView::Negative((-32601) as i64)),
            )
            &&& reply.get("error"@)->0.get_text("message"@) == Some("method not found: "@ + method)
        }),
{
    let id = msg.get("id"@)->0;
    errors_carry_code_and_message(id, (-32601) as i64, "method not found: "@ + method);
    replies_carry_the_id(id, JsonView::Null, (-32601) as i64, "method not found: "@ + method);
}

/// A message that is no single request is refused, to no identifier.
pub proof fn only_single_requests_are_taken(msg: JsonView, version: Seq<char>)
    requires
        !(msg is Object),
    ensures
        decision(msg, version) is Reply,
        ({
            let reply = decision(msg, version)->Reply_0;
            &&& reply.get("id"@) == Some(JsonView::Null)
            &&& reply.get("result"@) is None
            &&& reply.get("error"@) is Some
            &&& reply.get("error"@)->0.get("code"@) == Some(
                JsonView::Number(NumberView::Negative((-32600) as i64)),
            )
        }),
{
    let message = "expected a single JSON-RPC request object"@;
    errors_carry_code_and_message(JsonView::Null, (-32600) as i64, message);
    replies_carry_the_id(JsonView::Null, JsonView::Null, (-32600) as i64, message);
}

/// A ping and a greeting are answered with a result, whatever comes with them.
pub proof fn greetings_are_answered(msg: JsonView, version: Seq<char>)
    requires
        msg is Object,
        msg.get("id"@) is Some,
    ensures
        msg.get_text("method"@) == Some("ping"@) ==> decision(msg, version) is Reply && decision(
            msg,
            version,
        )->Reply_0.get("result"@) == Some(no_fields()),
        msg.get_text("method"@) == Some("initialize"@) ==> decision(msg, version) is Reply && {
            let result = decision(msg, version)->Reply_0.get("result"@);
            &&& result is Some
            &&& result->0.get_text("protocolVersion"@) is Some
            &&& result->0.get("serverInfo"@) is Some
            &&& result->0.get("serverInfo"@)->0.get_text("name"@) == Some("mnestic"@)
            &&& result->0.get("serverInfo"@)->0.get_text("version"@) == Some(version)
            &&& result->0.get("capabilities"@) is Some
            &&& result->0.get("capabilities"@)->0.get("tools"@) is Some
            &&& result->0.get("capabilities"@)->0.get("resources"@) is Some
            &&& result->0.get("capabilities"@)->0.get("prompts"@) is Some
        },
        msg.get_text("method"@) == Some("initialize"@) && msg.get("params"@) is Some && msg.get(
            "params"@,
        )->0.get_text("protocolVersion"@) == Some("2024-11-05"@) ==> decision(
            msg,
            version,
        )->Reply_0.get("result"@)->0.get_text("protocolVersion"@) == Some("2024-11-05"@),
        msg.get_text("method"@) == Some("initialize"@) && msg.get("params"@) is Some && msg.get(
            "params"@,
        )->0.get_text("protocolVersion"@) == Some("2025-03-26"@) ==> decision(
            msg,
            version,
        )->Reply_0.get("result"@)->0.get_text("protocolVersion"@) == Some("2025-03-26"@),
        msg.get_text("method"@) == Some("initialize"@) && msg.get("params"@) is None ==> decision(
            msg,
            version,
        )->Reply_0.get("result"@)->0.get_text("protocolVersion"@) == Some("2025-06-18"@),
{
    methods_have_names_of_their_own();
    let id = msg.get("id"@)->0;
    let hello = greeting(msg.get("params"@), version);
    replies_carry_the_id(id, no_fields(), 0, ""@);
    replies_carry_the_id(id, hello, 0, ""@);
    reveal_strlit("protocolVersion");
    reveal_strlit("capabilities");
    reveal_strlit("serverInfo");
    reveal_strlit("name");
    reveal_strlit("version");
    reveal_strlit("tools");
    reveal_strlit("resources");
    reveal_strlit("prompts");
    assert("protocolVersion"@.len() == 15);
    assert("capabilities"@.len() == 12);
    assert("serverInfo"@.len() == 10);
    assert("name"@.len() == 4);
    assert("version"@.len() == 7);
    assert("tools"@.len() == 5);
    assert("resources"@.len() == 9);
    assert("prompts"@.len() == 7);
    reveal_with_fuel(crate::json::field_from, 4);
}

/// The profile of a container is read under its own address, and is that of the container's actor.
pub proof fn profiles_are_read_under_their_tag(msg: JsonView, version: Seq<char>, tag: Seq<char>)
    requires
        msg is Object,
        msg.get("id"@) is Some,
        msg.get_text("method"@) == Some("resources/read"@),
        msg.get("params"@) is Some,
        msg.get("params"@)->0.get_text("uri"@) == Some("supermemory://profile/"@ + tag),
        tag_fault(tag) is None,
    ensures
        decision(msg, version) == (McpDecisionView::Call {
            id: msg.get("id"@)->0,
            call: McpCallView::ReadProfile {
                uri: "supermemory://profile/"@ + tag,
                actor_id: parsed_scope(tag).actor_id,
            },
        }),
{
    methods_have_names_of_their_own();
    reveal_strlit("supermemory://profile/");
    reveal_strlit("supermemory://projects");
    let prefix = "supermemory://profile/"@;
    let uri = prefix + tag;
    assert(prefix.len() == 22);
    assert("supermemory://projects"@.len() == 22);
    assert(prefix[17] == 'f');
    assert(uri[17] == 'f');
    assert("supermemory://projects"@[17] == 'j');
    a_prefix_comes_off_and_goes_on(prefix, tag, uri);
    the_tag_used_is_the_tag_sent(Some(tag), None);
    proper_tags_by_their_codes(tag);
}

/// The prompt for a container is about the container's actor.
pub proof fn prompts_are_about_the_named_actor(
    msg: JsonView,
    version: Seq<char>,
    args: JsonView,
    tag: Seq<char>,
)
    requires
        msg is Object,
        msg.get("id"@) is Some,
        msg.get_text("method"@) == Some("prompts/get"@),
        msg.get("params"@) is Some,
        msg.get("params"@)->0.get_text("name"@) == Some("context"@),
        msg.get("params"@)->0.get("arguments"@) == Some(args),
        args.get_text("containerTag"@) == Some(tag),
        tag_fault(tag) is None,
    ensures
        decision(msg, version) == (McpDecisionView::Call {
            id: msg.get("id"@)->0,
            call: McpCallView::GivePrompt { actor_id: parsed_scope(tag).actor_id },
        }),
{
    methods_have_names_of_their_own();
    the_tag_used_is_the_tag_sent(Some(tag), None);
    proper_tags_by_their_codes(tag);
}

// ---------------------------------------------------------------------------------------------
// Laws of the answers
// ---------------------------------------------------------------------------------------------

/// What the recall tool shows is every hit in its place, with its text, score and time, and the
/// facts of the profile where it came along.
pub proof fn recalls_show_their_hits(hits: Seq<RecallHit>, profile: Option<Profile>)
    ensures
        ({
            let shown = recall_payload(hits, profile);
            &&& shown.get("results"@) matches Some(JsonView::Array(entries)) && entries.len()
                == hits.len() && forall|i: int|
                0 <= i < hits.len() ==> {
                    &&& (#[trigger] entries[i]).get_text("id"@) == Some(id_text(hits[i].id))
                    &&& hits[i].content is Some ==> entries[i].get_text("memory"@) == Some(
                        hits[i].content->0@,
                    )
                    &&& hits[i].content is None ==> entries[i].get("memory"@) == Some(
                        JsonView::Null,
                    )
                    &&& entries[i].get("similarity"@) == Some(hits[i].score@.shown)
                    &&& hits[i].recorded_at is None ==> entries[i].get("updatedAt"@) == Some(
                        JsonView::Null,
                    )
                    &&& hits[i].recorded_at is Some ==> entries[i].get_text("updatedAt"@) == Some(
                        rfc3339(hits[i].recorded_at->0@.0, hits[i].recorded_at->0@.1),
                    )
                }
            &&& shown.get("profile"@) is Some <==> profile is Some
            &&& profile is Some ==> {
                let facts = shown.get("profile"@)->0.get("staticFacts"@);
                let recent = shown.get("profile"@)->0.get("dynamicCtx"@);
                &&& facts is Some && facts->0 is Array
                &&& facts->0->Array_0.len() == profile->0.static_facts@.len()
                &&& forall|i: int|
                    0 <= i < profile->0.static_facts@.len() ==> #[trigger] facts->0->Array_0[i]
                        == JsonView::Text(profile->0.static_facts@[i]@)
                &&& recent is Some && recent->0 is Array
                &&& recent->0->Array_0.len() == profile->0.dynamic_ctx@.len()
                &&& forall|i: int|
                    0 <= i < profile->0.dynamic_ctx@.len() ==> #[trigger] recent->0->Array_0[i]
                        == JsonView::Text(profile->0.dynamic_ctx@[i]@)
            }
        }),
{
    reveal_strlit("results");
    reveal_strlit("profile");
    reveal_strlit("staticFacts");
    reveal_strlit("dynamicCtx");
    reveal_strlit("id");
    reveal_strlit("memory");
    reveal_strlit("similarity");
    reveal_strlit("updatedAt");
    assert("results"@.len() == 7 && "results"@[0] == 'r');
    assert("profile"@.len() == 7 && "profile"@[0] == 'p');
    assert("staticFacts"@.len() == 11);
    assert("dynamicCtx"@.len() == 10);
    assert("id"@.len() == 2);
    assert("memory"@.len() == 6);
    assert("similarity"@.len() == 10);
    assert("updatedAt"@.len() == 9);
    reveal_with_fuel(crate::json::field_from, 5);
}

/// What the graph tool shows is every document and every entity in its place, and how many
/// documents there are, beside a line that counts both.
pub proof fn graphs_show_what_there_is(documents: Seq<GraphDocument>, entities: Seq<GraphEntity>)
    requires
        documents.len() <= u64::MAX,
    ensures
        ({
            let shown = graph_result(documents, entities);
            let inner = shown.get("structuredContent"@);
            &&& shows_text(shown, graph_summary(documents.len(), entities.len()))
            &&& inner is Some
            &&& inner->0.get("totalCount"@) == Some(
                JsonView::Number(NumberView::Unsigned(documents.len() as u64)),
            )
            &&& inner->0.get("documents"@) matches Some(JsonView::Array(list)) && list.len()
                == documents.len() && forall|i: int|
                0 <= i < documents.len() ==> {
                    &&& (#[trigger] list[i]).get_text("id"@) == Some(id_text(documents[i].id))
                    &&& documents[i].title is Some ==> list[i].get_text("title"@) == Some(
                        documents[i].title->0@,
                    )
                    &&& documents[i].title is None ==> list[i].get("title"@) == Some(JsonView::Null)
                }
            &&& inner->0.get("entities"@) matches Some(JsonView::Array(list)) && list.len()
                == entities.len() && forall|i: int|
                0 <= i < entities.len() ==> {
                    &&& (#[trigger] list[i]).get_text("surface"@) == Some(entities[i].surface@)
                    &&& entities[i].mentions >= 0 ==> list[i].get("mentions"@) == Some(
                        JsonView::Number(NumberView::Unsigned(entities[i].mentions as u64)),
                    )
                    &&& entities[i].mentions < 0 ==> list[i].get("mentions"@) == Some(
                        JsonView::Number(NumberView::Negative(entities[i].mentions)),
                    )
                }
        }),
{
    reveal_strlit("content");
    reveal_strlit("structuredContent");
    reveal_strlit("documents");
    reveal_strlit("totalCount");
    reveal_strlit("entities");
    reveal_strlit("id");
    reveal_strlit("title");
    reveal_strlit("surface");
    reveal_strlit("mentions");
    reveal_strlit("type");
    reveal_strlit("text");
    assert("content"@.len() == 7);
    assert("structuredContent"@.len() == 17);
    assert("documents"@.len() == 9);
    assert("totalCount"@.len() == 10);
    assert("entities"@.len() == 8);
    assert("id"@.len() == 2);
    assert("title"@.len() == 5);
    assert("surface"@.len() == 7);
    assert("mentions"@.len() == 8);
    assert("type"@.len() == 4 && "type"@[1] == 'y');
    assert("text"@.len() == 4 && "text"@[1] == 'e');
    reveal_with_fuel(crate::json::field_from, 4);
}

/// The projects are shown as they are, who is asking by the identifier there is, a resource under
/// its address, and a profile as a message of the user.
pub proof fn answers_show_what_they_are_given(
    tags: Seq<Seq<char>>,
    external_id: Option<Seq<char>>,
    uri: Seq<char>,
    mime_type: Seq<char>,
    text: Seq<char>,
)
    ensures
        projects_payload(tags).get("projects"@) matches Some(JsonView::Array(list)) && list.len()
            == tags.len() && forall|i: int|
            0 <= i < tags.len() ==> #[trigger] list[i] == JsonView::Text(tags[i]),
        external_id is Some ==> identity_payload(external_id).get_text("userId"@) == external_id,
        external_id is None ==> identity_payload(external_id).get_text("userId"@) == Some(""@),
        identity_payload(external_id).get("email"@) == Some(JsonView::Null),
        identity_payload(external_id).get("name"@) == Some(JsonView::Null),
        resource_contents(uri, mime_type, text).get("contents"@) matches Some(
            JsonView::Array(list),
        ) && list.len() == 1 && {
            &&& list[0].get_text("uri"@) == Some(uri)
            &&& list[0].get_text("mimeType"@) == Some(mime_type)
            &&& list[0].get_text("text"@) == Some(text)
        },
        prompt_result(text).get_text("description"@) == Some(
            "The user's memory profile as context."@,
        ),
        prompt_result(text).get("messages"@) matches Some(JsonView::Array(list)) && list.len() == 1
            && {
            &&& list[0].get_text("role"@) == Some("user"@)
            &&& list[0].get("content"@) is Some
            &&& list[0].get("content"@)->0.get_text("type"@) == Some("text"@)
            &&& list[0].get("content"@)->0.get_text("text"@) == Some(text)
        },
{
    reveal_strlit("projects");
    reveal_strlit("userId");
    reveal_strlit("email");
    reveal_strlit("name");
    reveal_strlit("contents");
    reveal_strlit("uri");
    reveal_strlit("mimeType");
    reveal_strlit("text");
    reveal_strlit("description");
    reveal_strlit("messages");
    reveal_strlit("role");
    reveal_strlit("content");
    reveal_strlit("type");
    assert("projects"@.len() == 8);
    assert("userId"@.len() == 6);
    assert("email"@.len() == 5);
    assert("name"@.len() == 4);
    assert("contents"@.len() == 8);
    assert("uri"@.len() == 3);
    assert("mimeType"@.len() == 8);
    assert("text"@.len() == 4 && "text"@[1] == 'e');
    assert("description"@.len() == 11);
    assert("messages"@.len() == 8);
    assert("role"@.len() == 4);
    assert("content"@.len() == 7);
    assert("type"@.len() == 4 && "type"@[1] == 'y');
    reveal_with_fuel(crate::json::field_from, 4);
}

/// A profile as Markdown has a line for each fact, in order: the lines of two lists are those of
/// the one and then those of the other.
pub proof fn each_fact_is_a_line(a: Seq<Seq<char>>, b: Seq<Seq<char>>, fact: Seq<char>)
    ensures
        markdown_items(a + b) == markdown_items(a) + markdown_items(b),
        markdown_items(seq![fact]) == "- "@ + fact + "\n"@,
        markdown_items(Seq::<Seq<char>>::empty()).len() == 0,
    decreases b.len(),
{
    reveal_with_fuel(markdown_items, 2);
    reveal_strlit("\n");
    assert(seq![fact].drop_last() =~= Seq::empty());
    assert(markdown_items(seq![fact]) =~= "- "@ + fact + "\n"@);
    if b.len() == 0 {
        assert(a + b =~= a);
        assert(markdown_items(a) + markdown_items(b) =~= markdown_items(a));
    } else {
        each_fact_is_a_line(a, b.drop_last(), fact);
        assert((a + b).drop_last() =~= a + b.drop_last());
        assert((a + b).last() == b.last());
        assert(markdown_items(a + b) =~= markdown_items(a) + markdown_items(b));
    }
}

/// A profile as Markdown starts with its title, and then gives the lasting facts and the recent
/// ones, each list under its heading where there is any, and not even the heading where there is
/// none.
pub proof fn profiles_are_titled_lists(profile: Profile)
    ensures
        ({
            let text = markdown(profile);
            let facts = texts(profile.static_facts@);
            let recent = texts(profile.dynamic_ctx@);
            &&& facts.len() == 0 && recent.len() == 0 ==> text == "# Memory profile\n"@
            &&& facts.len() > 0 && recent.len() == 0 ==> text == "# Memory profile\n"@
                + "\n## Durable facts\n"@ + markdown_items(facts)
            &&& facts.len() == 0 && recent.len() > 0 ==> text == "# Memory profile\n"@
                + "\n## Recent context\n"@ + markdown_items(recent)
            &&& facts.len() > 0 && recent.len() > 0 ==> text == "# Memory profile\n"@
                + "\n## Durable facts\n"@ + markdown_items(facts) + "\n## Recent context\n"@
                + markdown_items(recent)
        }),
{
    let text = markdown(profile);
    let facts = texts(profile.static_facts@);
    let recent = texts(profile.dynamic_ctx@);
    let title = "# Memory profile\n"@;
    let durable = "\n## Durable facts\n"@;
    let late = "\n## Recent context\n"@;
    if facts.len() == 0 && recent.len() == 0 {
        assert(text =~= title);
    } else if recent.len() == 0 {
        assert(text =~= title + durable + markdown_items(facts));
    } else if facts.len() == 0 {
        assert(text =~= title + late + markdown_items(recent));
    } else {
        assert(text =~= title + durable + markdown_items(facts) + late + markdown_items(recent));
    }
}

/// Every tool that is listed is one that can be called, and the other way round.
pub proof fn the_tools_listed_are_the_tools_known(params: JsonView, name: Seq<char>)
    requires
        params.get_text("name"@) == Some(name),
    ensures
        tools().get("tools"@) matches Some(JsonView::Array(list)) && {
            let listed = exists|i: int|
                0 <= i < list.len() && #[trigger] list[i].get_text("name"@) == Some(name);
            listed <==> !(tool_call(Some(params)) is Error)
        },
{
    reveal_strlit("tools");
    reveal_strlit("name");
    reveal_strlit("description");
    reveal_strlit("inputSchema");
    assert("name"@.len() == 4);
    assert("description"@.len() == 11);
    assert("inputSchema"@.len() == 11 && "inputSchema"@[0] == 'i');
    assert("description"@[0] == 'd');
    reveal_with_fuel(crate::json::field_from, 4);
    let list = tools().get("tools"@)->0->Array_0;
    assert(list.len() == 5);
    assert(list[0].get_text("name"@) == Some("memory"@));
    assert(list[1].get_text("name"@) == Some("recall"@));
    assert(list[2].get_text("name"@) == Some("listProjects"@));
    assert(list[3].get_text("name"@) == Some("whoAmI"@));
    assert(list[4].get_text("name"@) == Some("memory-graph"@));
}

/// Of the texts under `containerTags` just one has to be there where `containerTag` is not, and a
/// tool says of a container what any other request is told of it.
pub proof fn tools_resolve_containers_as_requests_do(args: JsonView, items: Seq<JsonView>)
    ensures
        argument_tag(args) matches Err(message) ==> {
            let list = args.get("containerTags"@);
            resolved_tag(
                args.get_text("containerTag"@),
                if list is Some && list->0 is Array {
                    Some(texts_among(list->0->Array_0))
                } else {
                    None
                },
            ) == Err::<Seq<char>, ApiErrorView>(ApiErrorView::BadRequest(message))
        },
        args.get_text("containerTag"@) is None && args.get("containerTags"@) == Some(
            JsonView::Array(items),
        ) ==> {
            &&& argument_tag(args) is Ok <==> texts_among(items).len() == 1 && tag_fault(
                texts_among(items)[0],
            ) is None
            &&& argument_tag(args) matches Ok(tag) ==> texts_among(items) == seq![tag]
        },
{
    let list = text_list(args, "containerTags"@);
    the_tag_used_is_the_tag_sent(args.get_text("containerTag"@), list);
    if texts_among(items).len() == 1 {
        proper_tags_by_their_codes(texts_among(items)[0]);
    }
}

/// A tool that failed on the server's side is answered with a result that says so, and anything
/// else with an error; neither tells more than that.
pub proof fn failures_are_told_by_kind(id: JsonView, call: McpCallView)
    ensures
        ({
            let reply = internal_failure(id, call);
            let read = call is ReadProjects || call is ReadProfile || call is GivePrompt;
            &&& reply.get("id"@) == Some(id)
            &&& !read ==> {
                &&& reply.get("error"@) is None
                &&& reply.get("result"@) is Some
                &&& reply.get("result"@)->0.get("isError"@) == Some(JsonView::Bool(true))
                &&& shows_text(reply.get("result"@)->0, "internal error"@)
            }
            &&& read ==> {
                &&& reply.get("result"@) is None
                &&& reply.get("error"@) is Some
                &&& reply.get("error"@)->0.get_text("message"@) == Some("internal error"@)
                &&& reply.get("error"@)->0.get("code"@) == Some(
                    JsonView::Number(NumberView::Negative((-32603) as i64)),
                )
            }
        }),
{
    replies_carry_the_id(id, tool_error("internal error"@), INTERNAL_ERROR, "internal error"@);
    errors_carry_code_and_message(id, INTERNAL_ERROR, "internal error"@);
    tools_show_their_text("internal error"@);
}

/// The line of a graph counts the documents and then the entities, of which there is one or are
/// several.
pub proof fn graph_lines_count_both(documents: nat, entities: nat)
    ensures
        entities == 1 ==> graph_summary(documents, entities) == decimal(documents)
            + " document(s), "@ + decimal(1) + " entity"@,
        entities != 1 ==> graph_summary(documents, entities) == decimal(documents)
            + " document(s), "@ + decimal(entities) + " entities"@,
{
    reveal_strlit(" entit");
    reveal_strlit("y");
    reveal_strlit("ies");
    reveal_strlit(" entity");
    reveal_strlit(" entities");
    if entities == 1 {
        assert(" entit"@ + "y"@ =~= " entity"@);
        assert(graph_summary(documents, entities) =~= decimal(documents) + " document(s), "@
            + decimal(1) + (" entit"@ + "y"@));
    } else {
        assert(" entit"@ + "ies"@ =~= " entities"@);
        assert(graph_summary(documents, entities) =~= decimal(documents) + " document(s), "@
            + decimal(entities) + (" entit"@ + "ies"@));
    }
}

/// The resource that is listed can be read, and so can the profile of any proper tag put in the
/// place that the template leaves for it. The prompt that is listed can be given for any proper
/// tag under the argument that it asks for.
pub proof fn what_is_listed_can_be_had(
    params: JsonView,
    args: JsonView,
    uri: Seq<char>,
    name: Seq<char>,
    tag: Seq<char>,
)
    requires
        tag_fault(tag) is None,
    ensures
        resources().get("resources"@) matches Some(JsonView::Array(list)) && list.len() == 1 && (
        list[0].get_text("uri"@) == Some(uri) && params.get_text("uri"@) == Some(uri)
            ==> resource_call(Some(params)) == MethodOutcomeView::Call(
            McpCallView::ReadProjects { uri },
        )),
        resource_templates().get("resourceTemplates"@) matches Some(JsonView::Array(list))
            && list.len() == 1 && (list[0].get_text("uriTemplate"@) == Some(
            uri + "{containerTag}"@,
        ) && params.get_text("uri"@) == Some(uri + tag) ==> resource_call(Some(params))
            == MethodOutcomeView::Call(
            McpCallView::ReadProfile { uri: uri + tag, actor_id: parsed_scope(tag).actor_id },
        )),
        prompts().get("prompts"@) matches Some(JsonView::Array(list)) && list.len() == 1 && {
            let asked = list[0].get("arguments"@);
            &&& asked is Some && asked->0 is Array && asked->0->Array_0.len() == 1
            &&& list[0].get_text("name"@) == params.get_text("name"@) && params.get("arguments"@)
                == Some(args) && asked->0->Array_0[0].get_text("name"@) == Some(name)
                && args.get_text(name) == Some(tag) ==> prompt_call(Some(params))
                == MethodOutcomeView::Call(
                McpCallView::GivePrompt { actor_id: parsed_scope(tag).actor_id },
            )
        },
{
    reveal_strlit("resources");
    reveal_strlit("resourceTemplates");
    reveal_strlit("prompts");
    reveal_strlit("uri");
    reveal_strlit("uriTemplate");
    reveal_strlit("name");
    reveal_strlit("description");
    reveal_strlit("mimeType");
    reveal_strlit("arguments");
    reveal_strlit("required");
    assert("uri"@.len() == 3);
    assert("uriTemplate"@.len() == 11 && "uriTemplate"@[0] == 'u');
    assert("name"@.len() == 4);
    assert("description"@.len() == 11 && "description"@[0] == 'd');
    assert("mimeType"@.len() == 8 && "mimeType"@[0] == 'm');
    assert("arguments"@.len() == 9);
    assert("required"@.len() == 8 && "required"@[0] == 'r');
    reveal_with_fuel(crate::json::field_from, 5);
    the_tag_used_is_the_tag_sent(Some(tag), None);
    proper_tags_by_their_codes(tag);
    reveal_strlit("supermemory://profile/");
    reveal_strlit("supermemory://projects");
    reveal_strlit("supermemory://profile/{containerTag}");
    reveal_strlit("{containerTag}");
    let prefix = "supermemory://profile/"@;
    let hole = "{containerTag}"@;
    assert(prefix + hole =~= "supermemory://profile/{containerTag}"@);
    if uri + hole == prefix + hole {
        assert((uri + hole).len() == (prefix + hole).len());
        assert(uri =~= (uri + hole).take(uri.len() as int));
        assert(prefix =~= (prefix + hole).take(prefix.len() as int));
        assert(uri == prefix);
        let whole = prefix + tag;
        assert(prefix.len() == 22 && "supermemory://projects"@.len() == 22);
        assert(prefix[17] == 'f');
        assert(whole[17] == 'f');
        assert("supermemory://projects"@[17] == 'j');
        a_prefix_comes_off_and_goes_on(prefix, tag, whole);
    }
}

/// A tool's schema asks for what the tool cannot do without, names the arguments that the tool
/// reads, and bounds the limit as the tool does.
pub proof fn schemas_say_what_tools_take()
    ensures
        ({
            let schema = memory_tool_entry().get("inputSchema"@);
            let properties = schema->0.get("properties"@);
            &&& schema is Some && properties is Some
            &&& schema->0.get("required"@) == Some(
                JsonView::Array(seq![JsonView::Text("content"@)]),
            )
            &&& properties->0.get("content"@) is Some
            &&& properties->0.get("action"@) is Some
            &&& properties->0.get("action"@)->0.get("enum"@) == Some(
                JsonView::Array(seq![JsonView::Text("save"@), JsonView::Text("forget"@)]),
            )
            &&& properties->0.get("containerTag"@) is Some
        }),
        ({
            let schema = recall_tool_entry().get("inputSchema"@);
            let properties = schema->0.get("properties"@);
            &&& schema is Some && properties is Some
            &&& schema->0.get("required"@) == Some(JsonView::Array(seq![JsonView::Text("query"@)]))
            &&& properties->0.get("query"@) is Some
            &&& properties->0.get("includeProfile"@) is Some
            &&& properties->0.get("containerTag"@) is Some
            &&& properties->0.get("limit"@) is Some
            &&& properties->0.get("limit"@)->0.get("minimum"@) == Some(
                JsonView::Number(NumberView::Unsigned(1)),
            )
            &&& properties->0.get("limit"@)->0.get("maximum"@) == Some(
                JsonView::Number(NumberView::Unsigned(100)),
            )
        }),
{
    reveal_strlit("inputSchema");
    reveal_strlit("properties");
    reveal_strlit("required");
    reveal_strlit("name");
    reveal_strlit("description");
    reveal_strlit("type");
    reveal_strlit("content");
    reveal_strlit("action");
    reveal_strlit("enum");
    reveal_strlit("containerTag");
    reveal_strlit("query");
    reveal_strlit("includeProfile");
    reveal_strlit("limit");
    reveal_strlit("minimum");
    reveal_strlit("maximum");
    assert("inputSchema"@.len() == 11 && "inputSchema"@[0] == 'i');
    assert("description"@.len() == 11 && "description"@[0] == 'd');
    assert("properties"@.len() == 10);
    assert("required"@.len() == 8);
    assert("name"@.len() == 4 && "name"@[0] == 'n');
    assert("type"@.len() == 4 && "type"@[0] == 't');
    assert("enum"@.len() == 4 && "enum"@[0] == 'e');
    assert("content"@.len() == 7);
    assert("action"@.len() == 6);
    assert("containerTag"@.len() == 12);
    assert("query"@.len() == 5 && "query"@[0] == 'q');
    assert("includeProfile"@.len() == 14);
    assert("limit"@.len() == 5 && "limit"@[0] == 'l');
    assert("minimum"@.len() == 7 && "minimum"@[1] == 'i');
    assert("maximum"@.len() == 7 && "maximum"@[1] == 'a');
    reveal_with_fuel(crate::json::field_from, 5);
    assert(Seq::empty().push(JsonView::Text("content"@)) =~= seq![JsonView::Text("content"@)]);
    assert(Seq::empty().push(JsonView::Text("query"@)) =~= seq![JsonView::Text("query"@)]);
    assert(Seq::empty().push(JsonView::Text("save"@)).push(JsonView::Text("forget"@)) =~= seq![
        JsonView::Text("save"@),
        JsonView::Text("forget"@),
    ]);
}

/// The outcome is an error in what the method was given, with this message.
pub open spec fn refuses(outcome: MethodOutcomeView, message: Seq<char>) -> bool {
    outcome is Error && outcome->Error_0 == -32602 && outcome->Error_1 == message
}

/// A method that misses what it needs, or is given what there is not, says what that is.
pub proof fn methods_say_what_they_miss(params: JsonView, raw: Seq<char>, uri: Seq<char>)
    ensures
        refuses(tool_call(None), "missing params"@),
        params.get_text("name"@) is None ==> refuses(tool_call(Some(params)), "missing tool name"@),
        refuses(resource_call(None), "missing uri"@),
        params.get_text("uri"@) is None ==> refuses(resource_call(Some(params)), "missing uri"@),
        params.get_text("uri"@) == Some(uri) && uri != "supermemory://projects"@ && !(
        "supermemory://profile/"@.is_prefix_of(uri)) ==> refuses(
            resource_call(Some(params)),
            "unknown resource: "@ + uri,
        ),
        params.get_text("uri"@) == Some("supermemory://profile/"@ + raw) && tag_fault(raw) is Some
            ==> refuses(resource_call(Some(params)), "invalid containerTag in uri"@),
        refuses(prompt_call(None), "missing params"@),
        params.get_text("name"@) is None ==> refuses(
            prompt_call(Some(params)),
            "missing prompt name"@,
        ),
        params.get_text("name"@) matches Some(name) ==> (name != "context"@ ==> refuses(
            prompt_call(Some(params)),
            "unknown prompt: "@ + name,
        )),
        params.get_text("name"@) == Some("context"@) && (params.get("arguments"@) is None
            || params.get("arguments"@)->0.get_text("containerTag"@) is None) ==> refuses(
            prompt_call(Some(params)),
            "context requires a containerTag argument"@,
        ),
        params.get_text("name"@) == Some("context"@) && params.get("arguments"@) is Some
            && params.get("arguments"@)->0.get_text("containerTag"@) == Some(raw) && tag_fault(raw)
            is Some ==> refuses(prompt_call(Some(params)), "invalid containerTag"@),
{
    reveal_strlit("supermemory://profile/");
    reveal_strlit("supermemory://projects");
    let prefix = "supermemory://profile/"@;
    let whole = prefix + raw;
    assert(prefix.len() == 22 && "supermemory://projects"@.len() == 22);
    assert(prefix[17] == 'f');
    assert(whole[17] == 'f');
    assert("supermemory://projects"@[17] == 'j');
    a_prefix_comes_off_and_goes_on(prefix, raw, whole);
    the_tag_used_is_the_tag_sent(Some(raw), None);
}

/// A method that lists answers with the list of what it names, and with an entry in it.
pub proof fn lists_are_of_what_was_asked(msg: JsonView, version: Seq<char>, kind: Seq<char>)
    requires
        msg is Object,
        msg.get("id"@) is Some,
        kind == "tools"@ || kind == "resources"@ || kind == "prompts"@,
        msg.get_text("method"@) == Some(kind + "/list"@),
    ensures
        decision(msg, version) is Reply,
        decision(msg, version)->Reply_0.get("id"@) == msg.get("id"@),
        decision(msg, version)->Reply_0.get("result"@) matches Some(result) && (result.get(kind)
            matches Some(JsonView::Array(list)) && list.len() > 0),
{
    reveal_strlit("tools");
    reveal_strlit("resources");
    reveal_strlit("prompts");
    reveal_strlit("/list");
    reveal_strlit("initialize");
    reveal_strlit("ping");
    reveal_strlit("tools/list");
    reveal_strlit("tools/call");
    reveal_strlit("resources/list");
    reveal_strlit("resources/templates/list");
    reveal_strlit("resources/read");
    reveal_strlit("prompts/list");
    assert("tools"@ + "/list"@ =~= "tools/list"@);
    assert("resources"@ + "/list"@ =~= "resources/list"@);
    assert("prompts"@ + "/list"@ =~= "prompts/list"@);
    assert("initialize"@.len() == 10 && "initialize"@[0] == 'i');
    assert("ping"@.len() == 4);
    assert("tools/list"@.len() == 10 && "tools/list"@[0] == 't');
    assert("tools/call"@.len() == 10);
    assert("resources/list"@.len() == 14 && "resources/list"@[10] == 'l');
    assert("resources/read"@.len() == 14 && "resources/read"@[10] == 'r');
    assert("resources/templates/list"@.len() == 24);
    assert("prompts/list"@.len() == 12);
    reveal_with_fuel(crate::json::field_from, 2);
    let id = msg.get("id"@)->0;
    replies_carry_the_id(id, tools(), 0, ""@);
    replies_carry_the_id(id, resources(), 0, ""@);
    replies_carry_the_id(id, prompts(), 0, ""@);
}

} // verus!
