use yunxi_agent::memory_vector::{plan_vector_sync, StoredVectorMetadata, VectorEntry};

fn metadata(revision: i64, content_hash: &str) -> StoredVectorMetadata {
    StoredVectorMetadata {
        revision,
        updated_at_millis: "1700000000000".to_string(),
        content_hash: content_hash.to_string(),
        embedding_model: "local-hash-v1".to_string(),
        dimensions: 64,
        status: "active".to_string(),
        scope: "global".to_string(),
        kind: "preference".to_string(),
        layer: "preference".to_string(),
        sensitivity: "low".to_string(),
    }
}

fn entry(id: &str, revision: i64, content_hash: &str) -> VectorEntry {
    VectorEntry {
        memory_id: id.to_string(),
        metadata: metadata(revision, content_hash),
    }
}

#[test]
fn sync_plan_removes_stale_keeps_unchanged_and_reindexes_changed() {
    let existing = vec![
        entry("mem-a", 1, "00000000000000aa"),
        entry("mem-b", 1, "00000000000000bb"),
        entry("mem-c", 1, "00000000000000cc"),
    ];
    let eligible = vec![
        entry("mem-a", 1, "00000000000000aa"),
        entry("mem-c", 2, "00000000000000cd"),
        entry("mem-d", 1, "00000000000000dd"),
    ];
    let plan = plan_vector_sync(&existing, &eligible, 5);
    assert_eq!(plan.removed_ids, vec!["mem-b".to_string()]);
    assert_eq!(plan.to_index, vec![1, 2]);
    assert_eq!(plan.unchanged, 1);
    assert_eq!(plan.excluded, 2);
}

#[test]
fn sync_plan_of_an_empty_store_indexes_every_record() {
    let eligible = vec![entry("mem-a", 1, "01"), entry("mem-b", 3, "02")];
    let plan = plan_vector_sync(&Vec::new(), &eligible, 2);
    assert!(plan.removed_ids.is_empty());
    assert_eq!(plan.to_index, vec![0, 1]);
    assert_eq!(plan.unchanged, 0);
    assert_eq!(plan.excluded, 0);
}

#[test]
fn sync_plan_with_a_changed_model_reindexes() {
    let existing = vec![entry("mem-a", 1, "01")];
    let mut record = entry("mem-a", 1, "01");
    record.metadata.embedding_model = "local-hash-v2".to_string();
    let plan = plan_vector_sync(&existing, &vec![record], 1);
    assert!(plan.removed_ids.is_empty());
    assert_eq!(plan.to_index, vec![0]);
}
