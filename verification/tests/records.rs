use vipune::errors::Error as StoreError;
use vipune::sqlite::embedding::blob_to_vec;
use vipune::sqlite::{
    check_updated, new_record, new_update, prepare_insert, prepare_insert_with_time,
    prepare_update, was_deleted, Error,
};

#[test]
fn a_record_is_framed_from_its_parts() {
    let embedding: Vec<u32> = (0..384).map(|i| (i as f32 / 384.0).to_bits()).collect();
    let row = new_record(
        "id-1",
        "proj",
        "Alice works at Microsoft",
        &embedding,
        Some("{\"k\": 1}"),
        "2024-05-01T10:00:00+00:00",
        "2024-05-02T11:00:00+00:00",
    )
    .unwrap();
    assert_eq!(row.memory.id, "id-1");
    assert_eq!(row.memory.project_id, "proj");
    assert_eq!(row.memory.content, "Alice works at Microsoft");
    assert_eq!(row.memory.metadata.as_deref(), Some("{\"k\": 1}"));
    assert_eq!(row.memory.similarity, None);
    assert_eq!(row.memory.created_at, "2024-05-01T10:00:00+00:00");
    assert_eq!(row.memory.updated_at, "2024-05-02T11:00:00+00:00");
    assert_eq!(blob_to_vec(&row.embedding).unwrap(), embedding);
    let bare = new_record("id-2", "p", "c", &embedding, None, "then", "now").unwrap();
    assert_eq!(bare.memory.metadata, None);
}

#[test]
fn a_record_needs_a_vector_of_the_stored_dimension() {
    let short = vec![0u32; 256];
    assert!(matches!(
        new_record("id", "p", "c", &short, None, "now", "now"),
        Err(Error::MismatchedDimensions { expected: 384, actual: 256 })
    ));
    assert!(matches!(
        new_update("c", &short, "now"),
        Err(Error::MismatchedDimensions { expected: 384, actual: 256 })
    ));
}

#[test]
fn an_update_writes_content_vector_and_time() {
    let embedding = vec![1.0f32.to_bits(); 384];
    let update = new_update("new content", &embedding, "2024-06-01T00:00:00+00:00").unwrap();
    assert_eq!(update.content, "new content");
    assert_eq!(update.updated_at, "2024-06-01T00:00:00+00:00");
    assert_eq!(blob_to_vec(&update.embedding).unwrap(), embedding);
}

#[test]
fn an_update_that_changed_nothing_found_no_memory() {
    assert!(check_updated(1, "abc").is_ok());
    assert!(check_updated(2, "abc").is_ok());
    let e = check_updated(0, "nonexistent").unwrap_err();
    assert_eq!(e.message(), "Database error: No memory found with id: nonexistent");
    match StoreError::from_sqlite(&e) {
        StoreError::NotFound(id) => assert_eq!(id, "nonexistent"),
        other => panic!("unexpected: {:?}", other),
    }
    match StoreError::from_sqlite(&check_updated(0, "  padded ").unwrap_err()) {
        StoreError::NotFound(id) => assert_eq!(id, "padded"),
        other => panic!("unexpected: {:?}", other),
    }
}

#[test]
fn a_deletion_removed_a_memory_if_it_removed_a_row() {
    assert!(!was_deleted(0));
    assert!(was_deleted(1));
    assert!(was_deleted(7));
}

#[test]
fn test_insert_invalid_embedding() {
    let embedding = vec![0.1f32.to_bits(); 256];
    let result = prepare_insert("proj1", "test", &embedding, None);
    assert!(result.is_err());
}

#[test]
fn mod_test_update_nonexistent() {
    let result = check_updated(0, "nonexistent");
    assert!(result.is_err());
}

#[test]
fn mod_test_delete_nonexistent() {
    let deleted = was_deleted(0);
    assert!(!deleted);
}

#[test]
fn a_new_memory_is_created_and_updated_at_the_same_time() {
    let embedding = vec![0.1f32.to_bits(); 384];
    let first = prepare_insert("proj1", "test content", &embedding, Some("meta")).unwrap();
    let second = prepare_insert("proj1", "test content", &embedding, None).unwrap();
    assert_eq!(first.memory.project_id, "proj1");
    assert_eq!(first.memory.content, "test content");
    assert_eq!(first.memory.metadata.as_deref(), Some("meta"));
    assert_eq!(second.memory.metadata, None);
    assert_eq!(first.memory.similarity, None);
    assert_eq!(first.memory.created_at, first.memory.updated_at);
    assert_eq!(blob_to_vec(&first.embedding).unwrap(), embedding);
    assert_eq!(first.memory.id.len(), 36);
    assert_ne!(first.memory.id, second.memory.id);
    assert!(first.memory.created_at.parse::<chrono::DateTime<chrono::Utc>>().is_ok());
    assert!(second.memory.created_at >= first.memory.created_at);
}

#[test]
fn a_memory_taken_over_keeps_its_times() {
    let embedding = vec![0.1f32.to_bits(); 384];
    let row = prepare_insert_with_time(
        "proj1",
        "first",
        &embedding,
        None,
        "2024-01-01T00:00:00Z",
        "2024-01-02T00:00:00Z",
    )
    .unwrap();
    assert_eq!(row.memory.created_at, "2024-01-01T00:00:00Z");
    assert_eq!(row.memory.updated_at, "2024-01-02T00:00:00Z");
    assert_eq!(row.memory.content, "first");
    assert!(!row.memory.id.is_empty());
    assert!(prepare_insert_with_time("p", "c", &embedding[..10], None, "a", "b").is_err());
}

#[test]
fn an_update_made_now_carries_the_present_time() {
    let embedding = vec![0.5f32.to_bits(); 384];
    let update = prepare_update("updated", &embedding).unwrap();
    assert_eq!(update.content, "updated");
    assert_eq!(blob_to_vec(&update.embedding).unwrap(), embedding);
    assert!(update.updated_at.parse::<chrono::DateTime<chrono::Utc>>().is_ok());
    assert!(prepare_update("updated", &embedding[..383]).is_err());
}
