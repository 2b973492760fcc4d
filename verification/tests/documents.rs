use mnestic::documents::{
    document_ingested, finish_doc_search, group_by_document, memories_ingested, plan_doc_search,
    plan_ingest, DocSearchRequest, IngestPlan, IngestRequest,
};
use mnestic::error::ApiError;
use mnestic::json::Json;
use mnestic::query::ChunkHit;
use mnestic::score::Score;
use mnestic::time::Timestamp;

fn hit(document_id: u128, text: &str, x: f64) -> ChunkHit {
    ChunkHit {
        id: 1000 + document_id,
        document_id,
        content: text.to_string(),
        score: Score::finite(x.to_string()).or_else(|| Score::not_finite(x.to_bits())).expect("a score"),
        document_title: Some(format!("title of {text}")),
        document_metadata: Json::Text(text.to_string()),
        document_created_at: Timestamp::new(document_id as i64, 0),
    }
}

fn ingest(content: &str) -> IngestRequest {
    IngestRequest {
        content: content.to_string(),
        container_tag: Some("org:1:user:42".to_string()),
        container_tags: None,
        title: None,
        uri: None,
        custom_id: Some("c1".to_string()),
        task_type: None,
        metadata: None,
    }
}

fn refusal<T>(r: Result<T, ApiError>) -> String {
    match r {
        Err(ApiError::BadRequest(m)) => m,
        _ => panic!("a refusal"),
    }
}

#[test]
fn texts_are_extracted_unless_kept_as_chunks() {
    for task in [None, Some("memory"), Some("SuperRAG"), Some("other")] {
        let req = IngestRequest { task_type: task.map(str::to_string), ..ingest("a note") };
        match plan_ingest(req).unwrap() {
            IngestPlan::Memories(call) => {
                assert_eq!(call.actor_id, "user:42");
                assert_eq!(call.container_tags, vec!["org:1"]);
                assert_eq!(call.content, "a note");
                assert_eq!(call.kind, "document");
                assert_eq!(call.custom_id.as_deref(), Some("c1"));
                assert!(matches!(call.metadata, Json::Object(f) if f.is_empty()));
            }
            other => panic!("memories, got {other:?}"),
        }
    }
    let req = IngestRequest {
        task_type: Some("superrag".to_string()),
        title: Some("T".to_string()),
        uri: Some("u".to_string()),
        metadata: Some(Json::Null),
        ..ingest("a note")
    };
    match plan_ingest(req).unwrap() {
        IngestPlan::Document(call) => {
            assert_eq!((call.title.as_deref(), call.uri.as_deref()), (Some("T"), Some("u")));
            assert_eq!((call.actor_id.as_str(), call.content.as_str()), ("user:42", "a note"));
            assert!(matches!(call.metadata, Json::Object(f) if f.is_empty()));
        }
        other => panic!("a document, got {other:?}"),
    }
}

#[test]
fn refused_texts() {
    assert_eq!(refusal(plan_ingest(ingest("  "))), "content is empty");
    let titled = IngestRequest { title: Some("T".to_string()), ..ingest("x") };
    assert_eq!(refusal(plan_ingest(titled)), "title and uri require taskType=superrag");
    let linked = IngestRequest { uri: Some("u".to_string()), ..ingest("x") };
    assert_eq!(refusal(plan_ingest(linked)), "title and uri require taskType=superrag");
    // The tag is looked at before the title.
    let both = IngestRequest { title: Some("T".to_string()), container_tag: None, ..ingest("x") };
    assert_eq!(refusal(plan_ingest(both)), "containerTag is required");
}

#[test]
fn metadata_is_stored_as_given() {
    let req = IngestRequest { metadata: Some(Json::Bool(true)), ..ingest("x") };
    match plan_ingest(req).unwrap() {
        IngestPlan::Memories(call) => assert!(matches!(call.metadata, Json::Bool(true))),
        other => panic!("memories, got {other:?}"),
    }
}

#[test]
fn ingest_answers() {
    let r = document_ingested(16, false, 3);
    assert_eq!(r.id.as_deref(), Some("00000000-0000-0000-0000-000000000010"));
    assert_eq!((r.status.as_str(), r.chunks), ("ingested", 3));
    let r = document_ingested(16, true, 0);
    assert_eq!((r.status.as_str(), r.chunks), ("skipped", 0));
    let r = memories_ingested(255, false);
    assert_eq!(r.id.as_deref(), Some("00000000-0000-0000-0000-0000000000ff"));
    assert_eq!((r.status.as_str(), r.chunks), ("ingested", 0));
    assert_eq!(memories_ingested(255, true).status, "skipped");
}

#[test]
fn chunks_are_grouped_by_document() {
    let hits = vec![hit(2, "b1", 0.3), hit(1, "a1", 0.9), hit(2, "b2", 0.5), hit(2, "b3", 0.1)];
    let documents = group_by_document(&hits);
    assert_eq!(documents.len(), 2);
    let b = &documents[0];
    assert_eq!(b.document_id, "00000000-0000-0000-0000-000000000002");
    let texts: Vec<&str> = b.chunks.iter().map(|c| c.content.as_str()).collect();
    assert_eq!(texts, vec!["b1", "b2", "b3"]);
    assert!(b.chunks.iter().all(|c| c.is_relevant));
    assert_eq!(f64::from_bits(b.score.bits()), 0.5);
    // What is said of the document is said by its first chunk.
    assert_eq!(b.title.as_deref(), Some("title of b1"));
    assert!(matches!(&b.metadata, Json::Text(t) if t == "b1"));
    assert_eq!(b.doc_type, None);
    assert_eq!(b.created_at.as_deref(), Some("1970-01-01T00:00:02+00:00"));
    assert_eq!(b.updated_at, b.created_at);
    let a = &documents[1];
    assert_eq!((a.chunks.len(), f64::from_bits(a.score.bits())), (1, 0.9));
}

#[test]
fn no_chunk_is_lost_or_doubled() {
    let hits: Vec<ChunkHit> = (0..20).map(|i| hit(i % 3, &format!("c{i}"), 0.5)).collect();
    let documents = group_by_document(&hits);
    assert_eq!(documents.len(), 3);
    assert_eq!(documents.iter().map(|d| d.chunks.len()).sum::<usize>(), 20);
    assert!(group_by_document(&vec![]).is_empty());
}

#[test]
fn best_document_leads_ordered_hits() {
    let hits = vec![hit(1, "a", 0.9), hit(2, "b", 0.8), hit(1, "c", 0.7), hit(3, "d", 0.1)];
    let scores: Vec<f64> = group_by_document(&hits).iter().map(|d| f64::from_bits(d.score.bits())).collect();
    assert_eq!(scores, vec![0.9, 0.8, 0.1]);
}

#[test]
fn a_score_that_is_no_number_gives_way() {
    let hits = vec![hit(1, "a", f64::NAN), hit(1, "b", 0.2), hit(1, "c", f64::NAN)];
    assert_eq!(f64::from_bits(group_by_document(&hits)[0].score.bits()), 0.2);
}

fn doc_search(q: &str, limit: Option<i64>) -> DocSearchRequest {
    DocSearchRequest {
        q: q.to_string(),
        container_tag: Some("user:42".to_string()),
        container_tags: None,
        limit,
        filters: None,
    }
}

#[test]
fn document_searches_fetch_more_chunks_than_documents() {
    let plan = plan_doc_search(doc_search("knots", None)).unwrap();
    assert_eq!((plan.limit, plan.call.limit), (10, 80));
    assert_eq!((plan.call.actor_id.as_str(), plan.call.query.as_str()), ("user:42", "knots"));
    let plan = plan_doc_search(doc_search("knots", Some(1))).unwrap();
    assert_eq!((plan.limit, plan.call.limit), (1, 50));
    let plan = plan_doc_search(doc_search("knots", Some(1000))).unwrap();
    assert_eq!((plan.limit, plan.call.limit), (100, 200));
    assert_eq!(refusal(plan_doc_search(doc_search("", None))), "q is empty");
}

#[test]
fn document_searches_stop_at_the_limit() {
    let hits = vec![hit(1, "a", 0.9), hit(2, "b", 0.8), hit(3, "c", 0.7)];
    let response = finish_doc_search("user:42".to_string(), &hits, 2, 9);
    assert_eq!(response.container_tag, "user:42");
    assert_eq!((response.total, response.results.len(), response.timing), (2, 2, 9));
    let all = finish_doc_search("user:42".to_string(), &hits, 10, 9);
    assert_eq!(all.total, 3);
}
