use mnestic::json::{render, Json, Number};
use mnestic::mcp::{
    call_failed, graph_shown, handle, identified, memories_forgotten, memory_saved,
    profile_markdown, profile_read, projects_listed, projects_read, prompt_given, recall_query,
    recall_results, recalled, save_call, succeed, tag_from_args, tool_success, GraphDocument,
    GraphEntity, McpCall, McpDecision,
};
use mnestic::parse_container_tag;
use mnestic::query::{Profile, RecallHit};
use mnestic::score::Score;
use serde_json::Value;

fn from_value(v: &Value) -> Json {
    match v {
        Value::Null => Json::Null,
        Value::Bool(b) => Json::Bool(*b),
        Value::Number(n) => Json::Number(match (n.as_u64(), n.as_i64()) {
            (Some(u), _) => Number::Unsigned(u),
            (None, Some(i)) => Number::Negative(i),
            (None, None) => Number::Float(n.to_string()),
        }),
        Value::String(s) => Json::Text(s.clone()),
        Value::Array(items) => Json::Array(items.iter().map(from_value).collect()),
        Value::Object(map) => Json::Object(map.iter().map(|(k, v)| (k.clone(), from_value(v))).collect()),
    }
}

fn decide(text: &str) -> McpDecision {
    handle(&from_value(&serde_json::from_str(text).expect("JSON")), "9.8.7")
}

fn value(json: &Json) -> Value {
    serde_json::from_str(&render(json)).expect("rendered JSON")
}

fn reply(text: &str) -> Value {
    match decide(text) {
        McpDecision::Reply(json) => value(&json),
        other => panic!("a reply, got {other:?}"),
    }
}

fn call(text: &str) -> McpCall {
    match decide(text) {
        McpDecision::Call { id, call } => {
            assert_eq!(value(&id), Value::from(1));
            call
        }
        other => panic!("a call, got {other:?}"),
    }
}

fn tool(name: &str, arguments: &str) -> String {
    format!(r#"{{"jsonrpc":"2.0","id":1,"method":"tools/call","params":{{"name":"{name}","arguments":{arguments}}}}}"#)
}

fn tool_complaint(name: &str, arguments: &str) -> String {
    let r = reply(&tool(name, arguments));
    assert_eq!(r["result"]["isError"], true);
    assert_eq!(r["id"], 1);
    r["result"]["content"][0]["text"].as_str().unwrap().to_string()
}

fn rpc_error(text: &str) -> (i64, String) {
    let r = reply(text);
    assert!(r.get("result").is_none());
    (r["error"]["code"].as_i64().unwrap(), r["error"]["message"].as_str().unwrap().to_string())
}

#[test]
fn greeting_settles_the_version() {
    let hello = |params: &str| reply(&format!(r#"{{"id":"a","method":"initialize"{params}}}"#));
    let r = hello("");
    assert_eq!(r["jsonrpc"], "2.0");
    assert_eq!(r["id"], "a");
    assert_eq!(r["result"]["protocolVersion"], "2025-06-18");
    assert_eq!(r["result"]["serverInfo"]["name"], "mnestic");
    assert_eq!(r["result"]["serverInfo"]["version"], "9.8.7");
    assert!(r["result"]["capabilities"]["tools"].is_object());
    assert!(r["result"]["capabilities"]["resources"].is_object());
    assert!(r["result"]["capabilities"]["prompts"].is_object());
    for known in ["2024-11-05", "2025-03-26", "2025-06-18"] {
        let r = hello(&format!(r#","params":{{"protocolVersion":"{known}"}}"#));
        assert_eq!(r["result"]["protocolVersion"], known);
    }
    let r = hello(r#","params":{"protocolVersion":"1999-01-01"}"#);
    assert_eq!(r["result"]["protocolVersion"], "2025-06-18");
}

#[test]
fn notifications_and_batches() {
    assert!(matches!(decide(r#"{"method":"notifications/initialized"}"#), McpDecision::Accepted));
    let r = reply("[]");
    assert_eq!(r["error"]["code"], -32600);
    assert_eq!(r["error"]["message"], "expected a single JSON-RPC request object");
    assert!(r["id"].is_null());
    // A null identifier is one.
    assert!(reply(r#"{"id":null,"method":"ping"}"#)["id"].is_null());
}

#[test]
fn listings() {
    let r = reply(r#"{"id":1,"method":"tools/list"}"#);
    let tools = r["result"]["tools"].as_array().unwrap();
    let names: Vec<&str> = tools.iter().map(|t| t["name"].as_str().unwrap()).collect();
    assert_eq!(names, vec!["memory", "recall", "listProjects", "whoAmI", "memory-graph"]);
    assert_eq!(tools[0]["inputSchema"]["required"][0], "content");
    assert_eq!(tools[0]["inputSchema"]["properties"]["action"]["enum"][1], "forget");
    assert_eq!(tools[1]["inputSchema"]["properties"]["limit"]["maximum"], 100);
    assert_eq!(tools[1]["inputSchema"]["properties"]["limit"]["minimum"], 1);
    assert!(tools[3]["inputSchema"]["properties"].as_object().unwrap().is_empty());
    assert_eq!(reply(r#"{"id":1,"method":"ping"}"#)["result"].as_object().unwrap().len(), 0);
    let r = reply(r#"{"id":1,"method":"resources/list"}"#);
    assert_eq!(r["result"]["resources"][0]["uri"], "supermemory://projects");
    let r = reply(r#"{"id":1,"method":"resources/templates/list"}"#);
    assert_eq!(r["result"]["resourceTemplates"][0]["uriTemplate"], "supermemory://profile/{containerTag}");
    let r = reply(r#"{"id":1,"method":"prompts/list"}"#);
    assert_eq!(r["result"]["prompts"][0]["arguments"][0]["required"], true);
}

#[test]
fn unknown_methods() {
    assert_eq!(rpc_error(r#"{"id":1,"method":"nope"}"#), (-32601, "method not found: nope".to_string()));
    assert_eq!(rpc_error(r#"{"id":1}"#), (-32601, "method not found: ".to_string()));
    assert_eq!(rpc_error(r#"{"id":1,"method":7}"#), (-32601, "method not found: ".to_string()));
}

#[test]
fn tool_calls_that_are_no_calls() {
    assert_eq!(rpc_error(r#"{"id":1,"method":"tools/call"}"#), (-32602, "missing params".to_string()));
    assert_eq!(
        rpc_error(r#"{"id":1,"method":"tools/call","params":{}}"#),
        (-32602, "missing tool name".to_string())
    );
    assert_eq!(rpc_error(&tool("nope", "{}")), (-32602, "unknown tool: nope".to_string()));
}

#[test]
fn memory_tool_calls() {
    match call(&tool("memory", r#"{"content":"likes tea","containerTag":"org:1:user:9"}"#)) {
        McpCall::Save { scope, content } => {
            assert_eq!(scope, parse_container_tag("org:1:user:9"));
            assert_eq!(content, "likes tea");
        }
        other => panic!("a save, got {other:?}"),
    }
    match call(&tool("memory", r#"{"content":"tea","action":"forget","containerTags":["user:9",3]}"#)) {
        McpCall::Forget { actor_id, content } => {
            assert_eq!((actor_id.as_str(), content.as_str()), ("user:9", "tea"));
        }
        other => panic!("a forget, got {other:?}"),
    }
    assert_eq!(tool_complaint("memory", r#"{"content":"  "}"#), "content is empty");
    assert_eq!(tool_complaint("memory", r#"{"content":"x"}"#), "containerTag is required");
    assert_eq!(
        tool_complaint("memory", r#"{"content":"x","containerTags":["a","b"]}"#),
        "multiple containerTags is not supported yet"
    );
    assert_eq!(
        tool_complaint("memory", r#"{"content":"x","containerTag":"a","action":"burn"}"#),
        "unknown action: burn"
    );
    // Without arguments there is no content either.
    let r = reply(r#"{"id":1,"method":"tools/call","params":{"name":"memory"}}"#);
    assert_eq!(r["result"]["content"][0]["text"], "content is empty");
}

#[test]
fn recall_tool_calls() {
    match call(&tool("recall", r#"{"query":"tea","containerTag":"org:1:user:9"}"#)) {
        McpCall::Recall { scope, query, limit, with_profile } => {
            assert_eq!((scope.actor_id.as_str(), query.as_str(), limit, with_profile), ("user:9", "tea", 10, true));
            let q = recall_query(&scope, &query, limit);
            assert_eq!((q.scoped.actor_id.as_str(), q.scoped.query.as_str(), q.scoped.limit), ("user:9", "tea", 10));
            assert!(q.scoped.filter.is_none() && !q.include_forgotten && q.rerank);
        }
        other => panic!("a recall, got {other:?}"),
    }
    match call(&tool("recall", r#"{"query":"tea","containerTag":"a","limit":500,"includeProfile":false}"#)) {
        McpCall::Recall { limit, with_profile, .. } => assert_eq!((limit, with_profile), (100, false)),
        other => panic!("a recall, got {other:?}"),
    }
    // A limit that is no whole number, or a flag that is no boolean, counts as absent.
    match call(&tool("recall", r#"{"query":"tea","containerTag":"a","limit":2.5,"includeProfile":"no"}"#)) {
        McpCall::Recall { limit, with_profile, .. } => assert_eq!((limit, with_profile), (10, true)),
        other => panic!("a recall, got {other:?}"),
    }
    assert_eq!(tool_complaint("recall", r#"{"containerTag":"a"}"#), "query is empty");
}

#[test]
fn other_tool_calls() {
    assert!(matches!(call(&tool("listProjects", "{}")), McpCall::ListProjects));
    assert!(matches!(call(&tool("whoAmI", "{}")), McpCall::WhoAmI));
    match call(&tool("memory-graph", r#"{"containerTag":"org:1:user:9"}"#)) {
        McpCall::Graph { actor_id } => assert_eq!(actor_id, "user:9"),
        other => panic!("a graph, got {other:?}"),
    }
    assert_eq!(tool_complaint("memory-graph", "{}"), "containerTag is required");
}

#[test]
fn resource_reads() {
    let read = |uri: &str| format!(r#"{{"id":1,"method":"resources/read","params":{{"uri":"{uri}"}}}}"#);
    match call(&read("supermemory://projects")) {
        McpCall::ReadProjects { uri } => assert_eq!(uri, "supermemory://projects"),
        other => panic!("projects, got {other:?}"),
    }
    match call(&read("supermemory://profile/org:1:user:9")) {
        McpCall::ReadProfile { uri, actor_id } => {
            assert_eq!((uri.as_str(), actor_id.as_str()), ("supermemory://profile/org:1:user:9", "user:9"));
        }
        other => panic!("a profile, got {other:?}"),
    }
    assert_eq!(rpc_error(&read("supermemory://profile/")), (-32602, "invalid containerTag in uri".to_string()));
    assert_eq!(rpc_error(&read("x://y")), (-32602, "unknown resource: x://y".to_string()));
    assert_eq!(rpc_error(r#"{"id":1,"method":"resources/read"}"#), (-32602, "missing uri".to_string()));
}

#[test]
fn prompt_requests() {
    let get = |params: &str| format!(r#"{{"id":1,"method":"prompts/get","params":{params}}}"#);
    match call(&get(r#"{"name":"context","arguments":{"containerTag":"user:9"}}"#)) {
        McpCall::GivePrompt { actor_id } => assert_eq!(actor_id, "user:9"),
        other => panic!("a prompt, got {other:?}"),
    }
    assert_eq!(rpc_error(r#"{"id":1,"method":"prompts/get"}"#), (-32602, "missing params".to_string()));
    assert_eq!(rpc_error(&get("{}")), (-32602, "missing prompt name".to_string()));
    assert_eq!(rpc_error(&get(r#"{"name":"x"}"#)), (-32602, "unknown prompt: x".to_string()));
    assert_eq!(
        rpc_error(&get(r#"{"name":"context"}"#)),
        (-32602, "context requires a containerTag argument".to_string())
    );
    assert_eq!(
        rpc_error(&get(r#"{"name":"context","arguments":{"containerTag":"a b"}}"#)),
        (-32602, "invalid containerTag".to_string())
    );
}

#[test]
fn tags_in_arguments() {
    let tag = |text: &str| tag_from_args(&from_value(&serde_json::from_str(text).unwrap()));
    assert_eq!(tag(r#"{"containerTag":"a"}"#), Ok("a".to_string()));
    assert_eq!(tag(r#"{"containerTag":3,"containerTags":[4,"b",null]}"#), Ok("b".to_string()));
    assert_eq!(tag(r#"{"containerTags":[4]}"#), Err("containerTag is required".to_string()));
    assert_eq!(tag("null"), Err("containerTag is required".to_string()));
}

fn hit(content: Option<&str>) -> RecallHit {
    RecallHit {
        id: 7,
        content: content.map(str::to_string),
        recorded_at: None,
        score: Score::finite("0.5".to_string()).expect("a score"),
        metadata: Json::Null,
        lineage: None,
    }
}

fn profile() -> Profile {
    Profile { static_facts: vec!["likes tea".to_string()], dynamic_ctx: vec!["in Oslo".to_string()] }
}

#[test]
fn answers_of_the_tools() {
    assert_eq!(value(&memory_saved(7, false))["content"][0]["text"], "saved 00000000-0000-0000-0000-000000000007");
    assert_eq!(value(&memory_saved(7, true))["content"][0]["text"], "skipped");
    assert_eq!(value(&memories_forgotten(12))["content"][0]["text"], "forgot 12 memories");
    assert_eq!(
        render(&recall_results(&vec![hit(Some("tea")), hit(None)], &None)),
        r#"{"results":[{"id":"00000000-0000-0000-0000-000000000007","memory":"tea","similarity":0.5,"updatedAt":null},{"id":"00000000-0000-0000-0000-000000000007","memory":null,"similarity":0.5,"updatedAt":null}]}"#
    );
    // A score is shown to its last digit.
    let mut fine = hit(None);
    fine.score = Score::finite("0.027868852459016394".to_string()).expect("a score");
    assert!(render(&recall_results(&vec![fine], &None)).contains(r#""similarity":0.027868852459016394,"#));
    let text = value(&recalled(&vec![], &Some(profile())))["content"][0]["text"].as_str().unwrap().to_string();
    assert_eq!(text, r#"{"profile":{"dynamicCtx":["in Oslo"],"staticFacts":["likes tea"]},"results":[]}"#);
    let tags = vec!["a".to_string(), "b\"".to_string()];
    assert_eq!(value(&projects_listed(&tags))["content"][0]["text"], r#"{"projects":["a","b\""]}"#);
    assert_eq!(
        value(&identified(Some("acme".to_string())))["content"][0]["text"],
        r#"{"email":null,"name":null,"userId":"acme"}"#
    );
    assert_eq!(value(&identified(None))["content"][0]["text"], r#"{"email":null,"name":null,"userId":""}"#);
    let call = save_call(parse_container_tag("org:1:user:9"), "tea".to_string());
    assert_eq!((call.actor_id.as_str(), call.kind.as_str(), call.custom_id), ("user:9", "conversation", None));
}

#[test]
fn answers_of_the_graph() {
    let documents = vec![
        GraphDocument { id: 1, title: Some("T".to_string()) },
        GraphDocument { id: 2, title: None },
    ];
    let entity = |surface: &str, mentions: i64| GraphEntity { surface: surface.to_string(), mentions };
    let r = value(&graph_shown(&documents, &vec![entity("Oslo", 3)]));
    assert_eq!(r["content"][0]["text"], "2 document(s), 1 entity");
    assert_eq!(r["structuredContent"]["totalCount"], 2);
    assert_eq!(r["structuredContent"]["documents"][0]["title"], "T");
    assert!(r["structuredContent"]["documents"][1]["title"].is_null());
    assert_eq!(r["structuredContent"]["entities"][0]["surface"], "Oslo");
    assert_eq!(r["structuredContent"]["entities"][0]["mentions"], 3);
    let r = value(&graph_shown(&vec![], &vec![entity("a", 1), entity("b", -1)]));
    assert_eq!(r["content"][0]["text"], "0 document(s), 2 entities");
    assert_eq!(r["structuredContent"]["entities"][1]["mentions"], -1);
}

#[test]
fn profiles_as_markdown() {
    assert_eq!(
        profile_markdown(&profile()),
        "# Memory profile\n\n## Durable facts\n- likes tea\n\n## Recent context\n- in Oslo\n"
    );
    assert_eq!(profile_markdown(&Profile { static_facts: vec![], dynamic_ctx: vec![] }), "# Memory profile\n");
    let r = value(&profile_read("supermemory://profile/a", &profile()));
    assert_eq!(r["contents"][0]["uri"], "supermemory://profile/a");
    assert_eq!(r["contents"][0]["mimeType"], "text/markdown");
    assert!(r["contents"][0]["text"].as_str().unwrap().contains("- in Oslo\n"));
    let r = value(&projects_read("supermemory://projects", &vec!["a".to_string()]));
    assert_eq!((&r["contents"][0]["mimeType"], &r["contents"][0]["text"]), (&Value::from("application/json"), &Value::from(r#"["a"]"#)));
    let r = value(&prompt_given(&profile()));
    assert_eq!(r["description"], "The user's memory profile as context.");
    assert_eq!(r["messages"][0]["role"], "user");
    assert!(r["messages"][0]["content"]["text"].as_str().unwrap().starts_with("# Memory profile"));
}

#[test]
fn failures_are_told_without_their_cause() {
    let r = value(&call_failed(Json::Bool(true), &McpCall::WhoAmI));
    assert_eq!((&r["id"], &r["result"]["isError"]), (&Value::from(true), &Value::from(true)));
    assert_eq!(r["result"]["content"][0]["text"], "internal error");
    for c in [
        McpCall::ReadProjects { uri: "u".to_string() },
        McpCall::ReadProfile { uri: "u".to_string(), actor_id: "a".to_string() },
        McpCall::GivePrompt { actor_id: "a".to_string() },
    ] {
        let r = value(&call_failed(Json::Null, &c));
        assert_eq!((&r["error"]["code"], &r["error"]["message"]), (&Value::from(-32603), &Value::from("internal error")));
    }
    let r = value(&succeed(Json::Text("x".to_string()), tool_success("done")));
    assert_eq!((&r["id"], &r["result"]["content"][0]["text"]), (&Value::from("x"), &Value::from("done")));
    assert!(r["result"].get("isError").is_none());
}
