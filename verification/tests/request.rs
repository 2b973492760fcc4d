use mnestic::error::ApiError;
use mnestic::request::{
    chunk_budget, clamp_limit, filter_pool, resolve_container_tag, resolve_target,
    validate_container_tag, DEFAULT_LIMIT, MAX_LIMIT,
};

fn resolve(s: Option<&str>, p: Option<Vec<&str>>) -> Result<String, ApiError> {
    resolve_container_tag(
        s.map(str::to_string),
        p.map(|v| v.iter().map(|x| x.to_string()).collect()),
    )
}

fn message(r: Result<String, ApiError>) -> String {
    match r {
        Err(ApiError::BadRequest(m)) => m,
        other => panic!("a refusal, got {other:?}"),
    }
}

#[test]
fn resolve_accepts_singular_and_single_plural() {
    assert_eq!(resolve(Some("org:7:user:9"), None).unwrap(), "org:7:user:9");
    assert_eq!(resolve(None, Some(vec!["user:1"])).unwrap(), "user:1");
}

#[test]
fn resolve_rejects_missing_multi_and_malformed() {
    assert!(resolve(None, None).is_err(), "missing");
    assert!(resolve(None, Some(vec!["a", "b"])).is_err(), "multi-element");
    assert!(resolve(Some("has space"), None).is_err(), "invalid char");
    assert!(resolve(Some("a/b"), None).is_err(), "slash not allowed");
    assert!(resolve(Some(&"x".repeat(101)), None).is_err(), "too long");
    assert!(resolve(Some(""), None).is_err(), "empty");
}

#[test]
fn refusals_of_tags_say_why() {
    assert_eq!(message(resolve(None, None)), "containerTag is required");
    assert_eq!(message(resolve(Some(""), Some(vec![""]))), "containerTag is required");
    assert_eq!(message(resolve(None, Some(vec![]))), "containerTag is required");
    assert_eq!(
        message(resolve(Some(""), Some(vec!["a", "b"]))),
        "multiple containerTags is not supported yet"
    );
    assert_eq!(message(resolve(Some(&"x".repeat(101)), None)), "containerTag must be 1 to 100 characters");
    assert_eq!(
        message(resolve(Some("é"), None)),
        "containerTag allows only letters, digits, '_', ':', '-'"
    );
}

#[test]
fn singular_counts_before_plural() {
    assert_eq!(resolve(Some("a"), Some(vec!["b", "c"])).unwrap(), "a");
    assert_eq!(resolve(Some(""), Some(vec!["b"])).unwrap(), "b");
    // A malformed singular tag is not made up for by the plural one.
    assert!(resolve(Some("a b"), Some(vec!["c"])).is_err());
}

#[test]
fn tags_of_one_to_a_hundred_characters() {
    assert!(validate_container_tag("a").is_ok());
    assert!(validate_container_tag(&"x".repeat(100)).is_ok());
    assert!(validate_container_tag("Az09_:-").is_ok());
    assert!(validate_container_tag("").is_err());
}

#[test]
fn target_holds_tag_and_scope() {
    let target = resolve_target(Some("org:7:user:9".to_string()), None).unwrap();
    assert_eq!(target.container_tag, "org:7:user:9");
    assert_eq!(target.scope.actor_id, "user:9");
    assert_eq!(target.scope.container_tags, vec!["org:7"]);
}

#[test]
fn limits_are_clamped() {
    assert_eq!(clamp_limit(None), DEFAULT_LIMIT);
    assert_eq!(clamp_limit(Some(-5)), 1);
    assert_eq!(clamp_limit(Some(0)), 1);
    assert_eq!(clamp_limit(Some(37)), 37);
    assert_eq!(clamp_limit(Some(i64::MAX)), MAX_LIMIT);
    assert_eq!(clamp_limit(Some(i64::MIN)), 1);
}

#[test]
fn pools_are_bounded() {
    assert_eq!(filter_pool(10), 40);
    assert_eq!(filter_pool(50), 200);
    assert_eq!(filter_pool(100), 200);
    assert_eq!(filter_pool(i64::MAX), 200);
    assert_eq!(filter_pool(i64::MIN), i64::MIN);
    assert_eq!(chunk_budget(1), 50);
    assert_eq!(chunk_budget(10), 80);
    assert_eq!(chunk_budget(100), 200);
}
