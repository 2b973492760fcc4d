use mnestic::error::ApiError;
use mnestic::filter::{FilterNode, Leaf, MetaFilter};
use mnestic::json::Json;
use mnestic::query::{
    finish_search, merge_hits, plan_profile, plan_search, profile_response, top_score, ChunkHit,
    Include, Lineage, MemoryVersion, Profile, ProfileRequest, RecallHit, RelationEdge,
    SearchRequest, SearchResult, SourceRow,
};
use mnestic::score::Score;
use mnestic::time::Timestamp;

fn score(x: f64) -> Score {
    Score::finite(x.to_string()).or_else(|| Score::not_finite(x.to_bits())).expect("a score")
}

fn memory(id: u128, text: &str, x: f64) -> RecallHit {
    RecallHit {
        id,
        content: Some(text.to_string()),
        recorded_at: Timestamp::new(0, 0),
        score: score(x),
        metadata: Json::Object(vec![]),
        lineage: None,
    }
}

fn chunk(id: u128, text: &str, x: f64) -> ChunkHit {
    ChunkHit {
        id,
        document_id: 99,
        content: text.to_string(),
        score: score(x),
        document_title: None,
        document_metadata: Json::Object(vec![("k".to_string(), Json::Bool(true))]),
        document_created_at: None,
    }
}

fn request(q: &str) -> SearchRequest {
    SearchRequest {
        q: q.to_string(),
        container_tag: Some("org:7:user:99".to_string()),
        container_tags: None,
        limit: None,
        filters: None,
        search_mode: None,
        threshold: None,
        including: None,
        aggregate: None,
    }
}

fn leaf(key: &str) -> FilterNode {
    FilterNode::Leaf(Leaf {
        key: key.to_string(),
        value: "v".to_string(),
        filter_type: None,
        numeric_operator: None,
        negate: None,
        ignore_case: None,
    })
}

fn shares(results: &[SearchResult], top: u64) -> Vec<u64> {
    results.iter().map(|r| (f64::from_bits(r.similarity.bits()) / f64::from_bits(top)).to_bits()).collect()
}

fn search(results: Vec<SearchResult>, threshold: Option<f64>, limit: usize) -> Vec<String> {
    let top = top_score(&results);
    let shares = shares(&results, top);
    let response =
        finish_search("t".to_string(), results, &shares, threshold.map(f64::to_bits), limit, 12);
    assert_eq!(response.container_tag, "t");
    assert_eq!(response.timing, 12);
    assert_eq!(response.total, response.results.len());
    response.results.into_iter().map(|r| r.memory.or(r.chunk).unwrap_or_default()).collect()
}

#[test]
fn search_defaults_to_memories() {
    let plan = plan_search(request("climbing")).unwrap();
    assert_eq!(plan.container_tag, "org:7:user:99");
    assert!(plan.chunks.is_none());
    let call = plan.recall.unwrap();
    assert_eq!(call.scoped.actor_id, "user:99");
    assert_eq!(call.scoped.container_tags, vec!["org:7"]);
    assert_eq!(call.scoped.query, "climbing");
    assert_eq!(call.scoped.limit, 10);
    assert!(call.scoped.filter.is_none());
    assert!(!call.include_forgotten && !call.rerank);
    assert_eq!((plan.limit, plan.threshold, plan.aggregate), (10, None, false));
}

#[test]
fn search_modes_pick_the_corpus() {
    for (mode, memories, documents) in [
        ("documents", false, true),
        ("hybrid", true, true),
        ("memories", true, false),
        ("Documents", true, false),
        ("nonsense", true, false),
    ] {
        let plan = plan_search(SearchRequest { search_mode: Some(mode.to_string()), ..request("x") }).unwrap();
        assert_eq!((plan.recall.is_some(), plan.chunks.is_some()), (memories, documents), "{mode}");
    }
}

#[test]
fn search_options_reach_the_engine() {
    let plan = plan_search(SearchRequest {
        limit: Some(20),
        threshold: Some(0.5f64.to_bits()),
        filters: Some(leaf("team")),
        search_mode: Some("hybrid".to_string()),
        including: Some(Include { forgotten_memories: Some(true) }),
        aggregate: Some(true),
        ..request("x")
    })
    .unwrap();
    // A cutoff thins what comes back, so more is fetched than shown.
    assert_eq!(plan.limit, 20);
    let recall = plan.recall.unwrap();
    assert_eq!(recall.scoped.limit, 80);
    assert!(recall.include_forgotten);
    assert!(matches!(recall.scoped.filter, Some(MetaFilter::Leaf(l)) if l.key == "team"));
    let chunks = plan.chunks.unwrap();
    assert_eq!(chunks.limit, 80);
    assert!(matches!(chunks.filter, Some(MetaFilter::Leaf(l)) if l.key == "team"));
    assert!(plan.aggregate);
    assert_eq!(plan.threshold, Some(0.5f64.to_bits()));
}

#[test]
fn search_refusals() {
    assert!(matches!(plan_search(request(" \n ")), Err(ApiError::BadRequest(m)) if m == "q is empty"));
    let bad = SearchRequest { container_tag: Some("bad tag!".to_string()), ..request("x") };
    assert!(matches!(plan_search(bad), Err(ApiError::BadRequest(m)) if m.contains("allows only")));
    let clamped = plan_search(SearchRequest { limit: Some(-5), ..request("x") }).unwrap();
    assert_eq!(clamped.limit, 1);
}

#[test]
fn memories_come_before_chunks() {
    let results = merge_hits(
        &vec![memory(1, "m1", 0.1), memory(2, "m2", 0.2)],
        &vec![chunk(3, "c1", 0.9)],
        false,
    );
    let shown: Vec<(&str, Option<&str>, Option<&str>)> = results
        .iter()
        .map(|r| (r.id.as_str(), r.memory.as_deref(), r.chunk.as_deref()))
        .collect();
    assert_eq!(
        shown,
        vec![
            ("00000000-0000-0000-0000-000000000001", Some("m1"), None),
            ("00000000-0000-0000-0000-000000000002", Some("m2"), None),
            ("00000000-0000-0000-0000-000000000003", None, Some("c1")),
        ]
    );
    assert_eq!(results[0].updated_at.as_deref(), Some("1970-01-01T00:00:00+00:00"));
    assert_eq!(results[2].updated_at, None);
    assert!(matches!(&results[2].metadata, Json::Object(f) if f.len() == 1));
    assert!(results.iter().all(|r| r.aggregate.is_none()));
}

#[test]
fn threshold_keeps_what_reaches_a_share_of_the_best() {
    let hits = || merge_hits(&vec![memory(1, "a", 0.4), memory(2, "b", 0.8), memory(3, "c", 0.2)], &vec![], false);
    assert_eq!(search(hits(), None, 10), vec!["a", "b", "c"]);
    assert_eq!(search(hits(), Some(0.5), 10), vec!["a", "b"]);
    assert_eq!(search(hits(), Some(0.9), 10), vec!["b"]);
    assert_eq!(search(hits(), Some(0.0), 10), vec!["a", "b", "c"]);
    assert_eq!(search(hits(), Some(1.5), 10), Vec::<String>::new());
    assert_eq!(search(hits(), Some(f64::NAN), 10), Vec::<String>::new());
}

#[test]
fn threshold_without_a_positive_score_keeps_everything() {
    let hits = || merge_hits(&vec![memory(1, "a", 0.0), memory(2, "b", -1.0)], &vec![], false);
    assert_eq!(search(hits(), Some(0.9), 10), vec!["a", "b"]);
    assert_eq!(search(vec![], Some(0.9), 10), Vec::<String>::new());
}

#[test]
fn results_stop_at_the_limit() {
    let hits = merge_hits(&vec![memory(1, "a", 0.4), memory(2, "b", 0.8)], &vec![chunk(3, "c", 0.9)], false);
    assert_eq!(search(hits, None, 2), vec!["a", "b"]);
}

#[test]
fn top_score_ignores_what_is_no_number() {
    let results = merge_hits(
        &vec![memory(1, "a", f64::NAN), memory(2, "b", -3.0), memory(3, "c", 0.25), memory(4, "d", 0.125)],
        &vec![],
        false,
    );
    assert_eq!(f64::from_bits(top_score(&results)), 0.25);
    assert_eq!(f64::from_bits(top_score(&vec![])), 0.0);
}

#[test]
fn aggregate_shows_what_surrounds_a_memory() {
    let mut hit = memory(1, "v2", 0.5);
    hit.lineage = Some(Lineage {
        version: 2,
        versions: vec![
            MemoryVersion { version: 1, content: Some("v1".to_string()) },
            MemoryVersion { version: 2, content: Some("v2".to_string()) },
            MemoryVersion { version: 3, content: None },
        ],
        edges: vec![
            RelationEdge { outgoing: true, relation: "extends".to_string(), neighbour: Some("pet".to_string()) },
            RelationEdge { outgoing: false, relation: "derives".to_string(), neighbour: Some("dog".to_string()) },
        ],
        sources: vec![SourceRow { id: 5, kind: "conversation".to_string(), ingested_at: Timestamp::new(60, 0).unwrap() }],
    });
    let hits = vec![hit, memory(2, "other", 0.4)];
    let unasked = merge_hits(&hits, &vec![chunk(3, "c", 0.9)], false);
    assert!(unasked.iter().all(|r| r.aggregate.is_none()), "no context unless it is asked for");
    let results = merge_hits(&hits, &vec![chunk(3, "c", 0.9)], true);
    assert!(results[2].aggregate.is_none(), "chunks have no context");
    let bare = results[1].aggregate.as_ref().unwrap();
    assert!(bare.parents.is_empty() && bare.children.is_empty() && bare.documents.is_empty());
    let aggregate = results[0].aggregate.as_ref().unwrap();
    let pairs = |list: &Vec<mnestic::query::Relative>| -> Vec<(String, Option<String>)> {
        list.iter().map(|r| (r.relation.clone(), r.memory.clone())).collect()
    };
    assert_eq!(
        pairs(&aggregate.parents),
        vec![("updates".to_string(), Some("v1".to_string())), ("extends".to_string(), Some("pet".to_string()))]
    );
    assert_eq!(
        pairs(&aggregate.children),
        vec![("updates".to_string(), None), ("derives".to_string(), Some("dog".to_string()))]
    );
    assert_eq!(aggregate.documents.len(), 1);
    assert_eq!(aggregate.documents[0].kind, "conversation");
    assert_eq!(aggregate.documents[0].id, "00000000-0000-0000-0000-000000000005");
    assert_eq!(aggregate.documents[0].created_at, "1970-01-01T00:01:00+00:00");
    assert_eq!(aggregate.documents[0].updated_at, aggregate.documents[0].created_at);
}

fn profile_request(q: Option<&str>) -> ProfileRequest {
    ProfileRequest {
        container_tag: None,
        container_tags: Some(vec!["org:9:user:fil".to_string()]),
        q: q.map(str::to_string),
        limit: Some(500),
        filters: Some(leaf("team")),
    }
}

#[test]
fn profile_plans() {
    let plan = plan_profile(profile_request(Some("hiking"))).unwrap();
    assert_eq!(plan.container_tag, "org:9:user:fil");
    assert!(plan.has_query);
    assert_eq!(plan.call.actor_id, "user:fil");
    assert_eq!(plan.call.query, "hiking");
    assert_eq!(plan.call.limit, 100);
    assert!(plan.call.filter.is_some());
    assert!(!plan_profile(profile_request(None)).unwrap().has_query);
    let blank = plan_profile(profile_request(Some("  "))).unwrap();
    assert!(!blank.has_query);
    assert_eq!(blank.call.query, "  ");
    let missing = ProfileRequest { container_tags: None, ..profile_request(None) };
    assert!(matches!(plan_profile(missing), Err(ApiError::BadRequest(m)) if m == "containerTag is required"));
}

#[test]
fn profile_answers() {
    let profile = || Profile { static_facts: vec!["likes tea".to_string()], dynamic_ctx: vec![] };
    let with = profile_response("t".to_string(), true, profile(), &vec![memory(1, "m", 0.5)], 7);
    assert_eq!(with.container_tag, "t");
    assert_eq!(with.profile.static_facts, vec!["likes tea"]);
    assert!(with.profile.dynamic_ctx.is_empty());
    let found = with.search_results.unwrap();
    assert_eq!((found.timing, found.total, found.results.len()), (7, 1, 1));
    let without = profile_response("t".to_string(), false, profile(), &vec![memory(1, "m", 0.5)], 7);
    assert!(without.search_results.is_none());
}
