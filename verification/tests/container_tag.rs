use mnestic::{parse_container_tag, reconstruct_container_tag, Scope};

#[test]
fn plain_tag_is_the_actor() {
    let s = parse_container_tag("alice");
    assert_eq!(s.actor_id, "alice");
    assert!(s.container_tags.is_empty());
}

#[test]
fn trailing_user_pair_is_the_actor() {
    let s = parse_container_tag("org:123:user:456");
    assert_eq!(s.actor_id, "user:456");
    assert_eq!(s.container_tags, vec!["org:123"]);
}

#[test]
fn leading_segments_group_into_pairs() {
    let s = parse_container_tag("org:123:project:9:user:456");
    assert_eq!(s.actor_id, "user:456");
    assert_eq!(s.container_tags, vec!["org:123", "project:9"]);
}

#[test]
fn user_only_tag() {
    let s = parse_container_tag("user:456");
    assert_eq!(s.actor_id, "user:456");
    assert!(s.container_tags.is_empty());
}

#[test]
fn non_user_hierarchy_uses_final_segment() {
    let s = parse_container_tag("org:123");
    assert_eq!(s.actor_id, "123");
    assert_eq!(s.container_tags, vec!["org"]);
}

#[test]
fn round_trips() {
    for tag in [
        "alice",
        "user:456",
        "org:123:user:456",
        "org:123",
        "org:123:project:9:user:456",
        "a:b:c",
        "team-7:user:u_42",
    ] {
        assert_eq!(reconstruct_container_tag(&parse_container_tag(tag)), tag, "round-trip {tag:?}");
    }
}

#[test]
fn odd_tags_round_trip() {
    for tag in ["", ":", "::", "user", "user:", ":user:", "user:user:user", "x:user:7", "a:b:c:user:9", "é:user:ß"] {
        assert_eq!(reconstruct_container_tag(&parse_container_tag(tag)), tag, "round-trip {tag:?}");
    }
}

#[test]
fn lone_leading_segment_stays_alone() {
    let s = parse_container_tag("org:1:team:user:9");
    assert_eq!(
        s,
        Scope { actor_id: "user:9".to_string(), container_tags: vec!["org:1".to_string(), "team".to_string()] }
    );
}

#[test]
fn different_tags_have_different_scopes() {
    assert_ne!(parse_container_tag("a:b"), parse_container_tag("a:b:c"));
    assert_ne!(parse_container_tag("user:1"), parse_container_tag("user:2"));
}
