use mnestic::directory::session;
use mnestic::keys::{
    generate_token, issue_report, key_listing, key_reference, no_keys_message, revocation_message,
    token_from_bytes, token_from_draw, IssuedKey, KeyInfo, KeyReference,
};
use mnestic::store::{
    no_tenant_message, purge_report, purge_statement, resolution_note, scan_setting, scope_note,
    scope_note_from, vec_literal, Purge, PurgeCounts, PurgeStep, Table, EMBEDDING_DIM,
};
use mnestic::time::Timestamp;

#[test]
fn tokens_are_prefixed_hex() {
    assert_eq!(token_from_bytes(&[0x00, 0xab, 0x1f]), "sm_00ab1f");
    assert_eq!(token_from_draw(Some(vec![0x0f, 0xf0])), Some("sm_0ff0".to_string()));
    assert_eq!(token_from_draw(None), None);
    let token = generate_token().expect("randomness");
    assert_eq!(token.len(), 3 + 48);
    assert!(token.starts_with("sm_"));
    assert!(token[3..].chars().all(|c| c.is_ascii_digit() || ('a'..='f').contains(&c)));
    assert_ne!(token, generate_token().expect("randomness"));
    assert_ne!(token, token_from_bytes(&[0; 24]));
}

#[test]
fn keys_are_named_by_token_or_digest() {
    assert_eq!(key_reference("sm_00ab"), KeyReference::Token);
    assert_eq!(key_reference("00ab"), KeyReference::Digest);
    assert_eq!(key_reference("SM_00ab"), KeyReference::Digest);
    assert_eq!(key_reference("sm"), KeyReference::Digest);
    assert_eq!(key_reference(&generate_token().expect("randomness")), KeyReference::Token);
}

#[test]
fn key_listings() {
    let key = KeyInfo {
        digest_hex: "ab12".to_string(),
        label: Some("laptop".to_string()),
        created_at: Timestamp::new(0, 0).unwrap(),
        revoked_at: None,
    };
    assert_eq!(key_listing(&key), "ab12  1970-01-01 00:00:00 UTC  active  laptop");
    let revoked = KeyInfo { revoked_at: Timestamp::new(60, 0), label: None, ..key };
    assert_eq!(key_listing(&revoked), "ab12  1970-01-01 00:00:00 UTC  revoked 1970-01-01 00:01:00 UTC  ");
    assert_eq!(no_keys_message("acme"), "no keys for tenant acme");
    assert_eq!(revocation_message(true), "revoked");
    assert_eq!(revocation_message(false), "no active key matched (already revoked or unknown)");
    let issued = IssuedKey { tenant_id: 5, token: "sm_1".to_string() };
    assert_eq!(
        issue_report("acme", &issued),
        vec![
            "tenant acme = 00000000-0000-0000-0000-000000000005".to_string(),
            "token (shown once, store it now): sm_1".to_string(),
        ]
    );
}

#[test]
fn sessions_show_the_external_identifier() {
    let s = session(Some("acme".to_string()));
    assert_eq!((s.user_id.as_str(), s.email, s.name), ("acme", None, None));
    assert_eq!(session(None).user_id, "");
}

#[test]
fn vectors_as_text() {
    assert_eq!(EMBEDDING_DIM, 1536);
    let parts = vec![Some("0.5".to_string()), None, Some("-1".to_string())];
    assert_eq!(vec_literal(&parts), "[0.5,0,-1]");
    assert_eq!(vec_literal(&vec![]), "[]");
    assert_eq!(
        scan_setting(&["a".to_string()]),
        Some("SET LOCAL hnsw.iterative_scan = 'relaxed_order'")
    );
    assert_eq!(scan_setting(&[]), None);
}

#[test]
fn an_erasure_takes_its_steps_in_order() {
    let mut purge = Purge::start();
    let mut steps = Vec::new();
    let mut rows = 10;
    while let Some(step) = purge.next() {
        assert!(purge_statement(step).ends_with("WHERE tenant_id = $1 AND actor_id = $2"));
        steps.push(step);
        purge.record(rows);
        rows += 1;
    }
    assert_eq!(
        steps,
        vec![
            PurgeStep::Detach,
            PurgeStep::Delete(Table::Memory),
            PurgeStep::Delete(Table::Chunk),
            PurgeStep::Delete(Table::Document),
            PurgeStep::Delete(Table::Source),
            PurgeStep::Delete(Table::Profile),
        ]
    );
    purge.record(99);
    let counts = purge.finish().expect("every step was taken");
    assert_eq!(counts, PurgeCounts { memories: 11, chunks: 12, documents: 13, sources: 14, profile: 15 });
    assert_eq!(
        purge_report("user:9", "acme", &counts),
        "purged actor user:9 (tenant acme): 11 memories, 12 chunks, 13 documents, 14 sources, 15 profile"
    );
    let mut early = Purge::start();
    early.record(1);
    assert_eq!(early.finish(), None);
}

#[test]
fn statements_of_an_erasure() {
    assert!(purge_statement(PurgeStep::Detach).starts_with("UPDATE mnestic_memory SET supersedes_id = NULL"));
    assert!(purge_statement(PurgeStep::Delete(Table::Chunk)).starts_with("DELETE FROM mnestic_chunk"));
    assert!(purge_statement(PurgeStep::Delete(Table::Profile)).starts_with("DELETE FROM mnestic_profile"));
}

#[test]
fn notes_for_operators() {
    assert_eq!(no_tenant_message("acme"), "no tenant with external id acme");
    assert_eq!(resolution_note("org:1:user:9", "user:9"), "resolved containerTag org:1:user:9 to actor user:9");
    let tags = vec!["org:1".to_string(), "a\"b".to_string()];
    assert_eq!(
        scope_note(&tags, true),
        Some(r#"note: container tags ["org:1", "a\"b"] do not scope erasure; the whole actor is purged"#.to_string())
    );
    assert_eq!(
        scope_note(&vec!["org:1".to_string()], false),
        Some(r#"note: container tags ["org:1"] do not scope the export; the whole actor is exported"#.to_string())
    );
    assert_eq!(scope_note(&vec![], true), None);
    assert_eq!(
        scope_note_from(&vec!["X".to_string(), "Y".to_string()], false),
        "note: container tags [X, Y] do not scope the export; the whole actor is exported"
    );
}
