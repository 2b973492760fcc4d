use mnestic::error::ApiError;
use mnestic::json::Json;
use mnestic::memories::{
    accept_id, conversation_ingested, conversation_text, decide_forget, decide_update, forgotten_by_content, forgotten_by_id,
    memory_added, memory_enqueued, memory_updated, plan_add, plan_conversation, plan_forget,
    plan_update, AddAction, AddMemoryRequest, ConversationRequest, ForgetPlan, ForgetRequest,
    Message, TemporalContext, UpdateMemoryRequest, UpdateReadings, UpdatedMemory,
};
use mnestic::memory_tool::{
    default_action, plan_tool, tool_forgot, tool_saved, unknown_action, MemoryToolRequest, ToolPlan,
};
use mnestic::time::{accept_time, Timestamp};

const ID: &str = "550e8400-e29b-41d4-a716-446655440000";
const ID_VALUE: u128 = 0x550e8400_e29b_41d4_a716_446655440000;

fn refusal<T>(r: Result<T, ApiError>) -> String {
    match r {
        Err(ApiError::BadRequest(m)) => m,
        _ => panic!("a refusal"),
    }
}

fn add(content: &str, dreaming: Option<&str>) -> AddMemoryRequest {
    AddMemoryRequest {
        content: content.to_string(),
        container_tag: Some("org:7:user:99".to_string()),
        container_tags: None,
        custom_id: Some("c".to_string()),
        dreaming: dreaming.map(str::to_string),
        metadata: Some(Json::Text("m".to_string())),
    }
}

#[test]
fn texts_are_added_or_queued() {
    for mode in [None, Some("instant"), Some("other")] {
        let plan = plan_add(add("a", mode)).unwrap();
        assert_eq!(plan.container_tag, "org:7:user:99");
        match plan.action {
            AddAction::Add(call) => {
                assert_eq!((call.actor_id.as_str(), call.kind.as_str()), ("user:99", "conversation"));
                assert_eq!(call.container_tags, vec!["org:7"]);
                assert_eq!((call.content.as_str(), call.custom_id.as_deref()), ("a", Some("c")));
                assert!(matches!(call.metadata, Json::Text(m) if m == "m"));
            }
            other => panic!("an add, got {other:?}"),
        }
    }
    match plan_add(add("a", Some("DYNAMIC"))).unwrap().action {
        AddAction::Enqueue(call) => {
            assert_eq!((call.actor_id.as_str(), call.kind.as_str()), ("user:99", "conversation"));
            assert_eq!((call.content.as_str(), call.custom_id.as_deref()), ("a", Some("c")));
        }
        other => panic!("a queued text, got {other:?}"),
    }
    assert_eq!(refusal(plan_add(add("   ", None))), "content is empty");
    let untagged = AddMemoryRequest { container_tag: None, ..add("a", None) };
    assert_eq!(refusal(plan_add(untagged)), "containerTag is required");
}

#[test]
fn answers_to_adding() {
    let r = memory_added("t".to_string(), ID_VALUE, false);
    assert_eq!((r.id.as_str(), r.container_tag.as_str(), r.status.as_str()), (ID, "t", "saved"));
    assert_eq!(memory_added("t".to_string(), 1, true).status, "skipped");
    assert_eq!(memory_enqueued("t".to_string(), 1, true).status, "queued");
    assert_eq!(memory_enqueued("t".to_string(), 1, false).status, "skipped");
}

fn forget(id: Option<&str>, content: Option<&str>) -> ForgetRequest {
    ForgetRequest {
        container_tag: Some("org:7:user:99".to_string()),
        container_tags: None,
        id: id.map(str::to_string),
        content: content.map(str::to_string),
        reason: Some("why".to_string()),
    }
}

#[test]
fn an_identifier_is_forgotten_before_a_text() {
    match plan_forget(forget(Some(&format!("  {ID} ")), Some("text"))).unwrap() {
        ForgetPlan::ById { actor_id, id, id_text, reason } => {
            assert_eq!((actor_id.as_str(), id, id_text.as_str()), ("user:99", ID_VALUE, ID));
            assert_eq!(reason.as_deref(), Some("why"));
        }
        other => panic!("by identifier, got {other:?}"),
    }
    for id in [None, Some(""), Some("  ")] {
        match plan_forget(forget(id, Some("  the dog "))).unwrap() {
            ForgetPlan::ByContent { actor_id, content } => {
                assert_eq!((actor_id.as_str(), content.as_str()), ("user:99", "the dog"));
            }
            other => panic!("by content, got {other:?}"),
        }
    }
    assert_eq!(refusal(plan_forget(forget(Some("nope"), Some("text")))), "id is not a valid memory id");
    assert_eq!(refusal(plan_forget(forget(None, Some("  ")))), "forget requires id or content");
    assert_eq!(refusal(plan_forget(forget(None, None))), "forget requires id or content");
}

#[test]
fn identifiers_in_all_their_forms() {
    for text in [
        ID.to_uppercase(),
        ID.replace('-', ""),
        format!("{{{ID}}}"),
        format!("urn:uuid:{ID}"),
    ] {
        match plan_forget(forget(Some(&text), None)).unwrap() {
            ForgetPlan::ById { id, id_text, .. } => {
                assert_eq!(id, ID_VALUE);
                assert_eq!(id_text, text);
            }
            other => panic!("by identifier, got {other:?}"),
        }
    }
    assert!(accept_id(None).is_err());
    assert!(matches!(accept_id(Some(3)), Ok(3)));
}

#[test]
fn an_identifier_that_was_shown_reads_back() {
    let shown = memory_added("t".to_string(), 0xabcdef, false).id;
    match plan_forget(forget(Some(&shown), None)).unwrap() {
        ForgetPlan::ById { id, .. } => assert_eq!(id, 0xabcdef),
        other => panic!("by identifier, got {other:?}"),
    }
}

#[test]
fn answers_to_forgetting() {
    let r = forgotten_by_id(ID.to_string(), true);
    assert_eq!((r.id.as_str(), r.forgotten), (ID, true));
    assert!(!forgotten_by_id(ID.to_string(), false).forgotten);
    let r = forgotten_by_content(&vec![ID_VALUE, 3]);
    assert_eq!((r.id.as_str(), r.forgotten), (ID, true));
    let r = forgotten_by_content(&vec![]);
    assert_eq!((r.id.as_str(), r.forgotten), ("", false));
}

fn update(new_content: &str, id: Option<&str>) -> UpdateMemoryRequest {
    UpdateMemoryRequest {
        container_tag: Some("org:7:user:99".to_string()),
        container_tags: None,
        new_content: new_content.to_string(),
        id: id.map(str::to_string),
        content: Some("unused".to_string()),
        forget_after: None,
        forget_reason: Some("later".to_string()),
        metadata: None,
        temporal_context: None,
    }
}

#[test]
fn edits_carry_their_dates() {
    let req = UpdateMemoryRequest {
        forget_after: Some("2030-01-02T03:04:05Z".to_string()),
        temporal_context: Some(TemporalContext {
            document_date: Some("1970-01-01T01:00:00+01:00".to_string()),
            event_date: Some(vec!["1970-01-01T00:00:01.5Z".to_string(), "not a date".to_string()]),
        }),
        ..update("  new text ", Some(ID))
    };
    let plan = plan_update(req).unwrap();
    assert_eq!((plan.actor_id.as_str(), plan.id, plan.new_content.as_str()), ("user:99", ID_VALUE, "new text"));
    assert_eq!(plan.forget_reason.as_deref(), Some("later"));
    assert!(matches!(plan.metadata, Json::Object(f) if f.is_empty()));
    assert_eq!(plan.forget_after.map(|t| t.to_rfc3339()), Some("2030-01-02T03:04:05+00:00".to_string()));
    assert_eq!(plan.document_date.map(|t| (t.secs(), t.nanos())), Some((0, 0)));
    assert_eq!(plan.event_date.map(|t| (t.secs(), t.nanos())), Some((1, 500_000_000)));
}

#[test]
fn edits_without_dates() {
    let plan = plan_update(update("x", Some(ID))).unwrap();
    assert!(plan.forget_after.is_none() && plan.document_date.is_none() && plan.event_date.is_none());
    let empty = UpdateMemoryRequest {
        temporal_context: Some(TemporalContext { document_date: None, event_date: Some(vec![]) }),
        ..update("x", Some(ID))
    };
    assert!(plan_update(empty).unwrap().event_date.is_none());
}

#[test]
fn refused_edits_in_order() {
    let bad_dates = |id: Option<&str>, content: &str, after: &str, doc: &str, event: &str| UpdateMemoryRequest {
        forget_after: Some(after.to_string()),
        temporal_context: Some(TemporalContext {
            document_date: Some(doc.to_string()),
            event_date: Some(vec![event.to_string()]),
        }),
        ..update(content, id)
    };
    let ok = "2020-01-01T00:00:00Z";
    assert_eq!(refusal(plan_update(bad_dates(None, " ", "x", "x", "x"))), "newContent is empty");
    assert_eq!(refusal(plan_update(bad_dates(Some(" "), "c", "x", "x", "x"))), "id is required");
    assert_eq!(refusal(plan_update(bad_dates(None, "c", "x", "x", "x"))), "id is required");
    assert_eq!(refusal(plan_update(bad_dates(Some("7"), "c", "x", "x", "x"))), "id is not a valid memory id");
    assert_eq!(
        refusal(plan_update(bad_dates(Some(ID), "c", "x", "x", "x"))),
        "forgetAfter is not a valid RFC3339 timestamp"
    );
    assert_eq!(
        refusal(plan_update(bad_dates(Some(ID), "c", ok, "x", "x"))),
        "temporalContext.documentDate is not a valid RFC3339 timestamp"
    );
    assert_eq!(
        refusal(plan_update(bad_dates(Some(ID), "c", ok, ok, "x"))),
        "temporalContext.eventDate is not a valid RFC3339 timestamp"
    );
    let untagged = UpdateMemoryRequest { container_tag: None, ..update(" ", None) };
    assert_eq!(refusal(plan_update(untagged)), "containerTag is required");
}

#[test]
fn dates_once_read() {
    let t = Timestamp::new(5, 6);
    assert!(matches!(accept_time(Some(t), "f"), Ok(Some(t)) if t.secs() == 5 && t.nanos() == 6));
    assert!(matches!(accept_time(Some(None), "f"), Ok(None)));
    assert_eq!(refusal(accept_time(None, "f")), "f is not a valid RFC3339 timestamp");
}

#[test]
fn edits_once_read() {
    let readings = |id: Option<u128>, event: Option<Option<Timestamp>>| UpdateReadings {
        id,
        forget_after: Some(None),
        document_date: Some(None),
        event_date: event,
    };
    let plan = decide_update(update("x", Some("any")), readings(Some(4), Some(Timestamp::new(9, 0)))).unwrap();
    assert_eq!((plan.id, plan.event_date.map(|t| t.secs())), (4, Some(9)));
    assert_eq!(refusal(decide_update(update("x", Some("any")), readings(None, None))), "id is not a valid memory id");
    assert_eq!(
        refusal(decide_update(update("x", Some("any")), readings(Some(4), None))),
        "temporalContext.eventDate is not a valid RFC3339 timestamp"
    );
    match decide_forget(forget(Some(" any "), None), Some(4)).unwrap() {
        ForgetPlan::ById { id, id_text, .. } => assert_eq!((id, id_text.as_str()), (4, "any")),
        other => panic!("by identifier, got {other:?}"),
    }
    assert_eq!(refusal(decide_forget(forget(Some("any"), Some("c")), None)), "id is not a valid memory id");
}

#[test]
fn answers_to_edits() {
    let version = UpdatedMemory {
        id: 2,
        created_at: Timestamp::new(0, 0).unwrap(),
        forget_after: Timestamp::new(1, 0),
        forget_reason: Some("r".to_string()),
        parent_memory_id: 1,
        root_memory_id: 1,
        version: 2,
    };
    let r = memory_updated("new".to_string(), Some(version)).unwrap();
    assert_eq!(r.id, "00000000-0000-0000-0000-000000000002");
    assert_eq!(r.created_at, "1970-01-01T00:00:00+00:00");
    assert_eq!(r.forget_after.as_deref(), Some("1970-01-01T00:00:01+00:00"));
    assert_eq!((r.forget_reason.as_deref(), r.memory.as_str(), r.version), (Some("r"), "new", 2));
    assert_eq!(r.parent_memory_id.as_deref(), Some("00000000-0000-0000-0000-000000000001"));
    assert_eq!(r.root_memory_id, r.parent_memory_id);
    assert!(matches!(memory_updated("new".to_string(), None), Err(ApiError::NotFound)));
}

fn message(role: &str, content: &str) -> Message {
    Message { role: role.to_string(), content: content.to_string() }
}

fn conversation(messages: Vec<Message>) -> ConversationRequest {
    ConversationRequest {
        conversation_id: "c-1".to_string(),
        messages,
        container_tag: Some("user:3".to_string()),
        container_tags: None,
        metadata: None,
    }
}

#[test]
fn conversations_become_one_text() {
    let messages = vec![message("user", "I moved"), message("assistant", "Where to?")];
    assert_eq!(conversation_text(&messages), "user: I moved\nassistant: Where to?");
    let call = plan_conversation(conversation(messages)).unwrap();
    assert_eq!(call.content, "user: I moved\nassistant: Where to?");
    assert_eq!((call.actor_id.as_str(), call.kind.as_str()), ("user:3", "conversation"));
    assert_eq!(call.custom_id.as_deref(), Some("c-1"));
    assert_eq!(refusal(plan_conversation(conversation(vec![]))), "messages have no content");
    // A message is content even where both its parts are blank.
    assert_eq!(plan_conversation(conversation(vec![message("", "")])).unwrap().content, ": ");
}

#[test]
fn answers_to_conversations() {
    let r = conversation_ingested("c-1".to_string(), ID_VALUE, false);
    assert_eq!((r.conversation_id.as_str(), r.id.as_str(), r.status.as_str()), ("c-1", ID, "ingested"));
    assert_eq!(conversation_ingested("c-1".to_string(), 1, true).status, "skipped");
}

fn tool(action: &str, custom_id: Option<&str>) -> MemoryToolRequest {
    MemoryToolRequest {
        action: action.to_string(),
        content: "likes tea".to_string(),
        container_tag: Some("user:7".to_string()),
        container_tags: None,
        custom_id: custom_id.map(str::to_string),
        metadata: None,
    }
}

#[test]
fn tool_saves_and_forgets() {
    assert_eq!(default_action(), "save");
    match plan_tool(tool("save", Some("c"))).unwrap() {
        ToolPlan::Save(call) => {
            assert_eq!((call.content.as_str(), call.custom_id.as_deref()), ("likes tea", Some("c")));
            assert_eq!(call.kind, "conversation");
        }
        other => panic!("a save, got {other:?}"),
    }
    match plan_tool(tool("forget", None)).unwrap() {
        ToolPlan::Forget { actor_id, content } => {
            assert_eq!((actor_id.as_str(), content.as_str()), ("user:7", "likes tea"));
        }
        other => panic!("a forget, got {other:?}"),
    }
    assert_eq!(refusal(plan_tool(tool("forget", Some("c")))), "customId is not used by forget");
    assert_eq!(
        refusal(plan_tool(tool("no\"pe", None))),
        r#"unknown action "no\"pe" (use save or forget)"#
    );
    assert_eq!(refusal(Err::<(), _>(unknown_action("X"))), "unknown action X (use save or forget)");
    let blank = MemoryToolRequest { content: " ".to_string(), ..tool("nope", None) };
    assert_eq!(refusal(plan_tool(blank)), "content is empty");
}

#[test]
fn answers_of_the_tool() {
    let r = tool_saved(ID_VALUE, false);
    assert_eq!((r.action.as_str(), r.status.as_str(), r.id.as_deref()), ("save", "saved", Some(ID)));
    assert!(r.forgotten.is_none());
    assert_eq!(tool_saved(1, true).status, "skipped");
    let r = tool_forgot(&vec![ID_VALUE]);
    assert_eq!((r.action.as_str(), r.status.as_str(), r.id), ("forget", "forgotten", None));
    assert_eq!(r.forgotten, Some(vec![ID.to_string()]));
}
