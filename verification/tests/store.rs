use rm_personal_cloud::store::FileStore;

fn put_committed(store: &mut FileStore, id: &str, version: i64, bytes: &[u8], now: i64) {
    assert!(store.put_data(id.to_owned(), version, bytes, now));
    assert!(store
        .put_metadata(id.to_owned(), version, now, None, None, None, None, None)
        .is_some());
}

#[test]
fn upload_roundtrip_version_one() {
    let mut store = FileStore::new();
    assert!(store.put_data("doc".to_owned(), 1, b"bytes", 100));
    let meta = store
        .put_metadata(
            "doc".to_owned(),
            1,
            123,
            Some("DocumentType".to_owned()),
            Some("My Doc".to_owned()),
            Some(4),
            Some(true),
            None,
        )
        .expect("commit must succeed");
    assert_eq!(meta.version, 1);
    assert!(meta.committed);
    assert_eq!(meta.name, "My Doc");
    assert_eq!(meta.current_page, 4);
    assert!(meta.bookmarked);
    assert_eq!(meta.client_date_modified, 123);

    let latest = store.get_metadata_by_id("doc").expect("visible after commit");
    assert_eq!(latest.version, 1);
    assert!(latest.committed);
    assert_eq!(latest.deleted, 0);
    assert_eq!(store.get_data_by_id_version("doc", 1), Some(b"bytes".to_vec()));
}

#[test]
fn blob_version_acceptance() {
    let mut store = FileStore::new();
    put_committed(&mut store, "doc", 1, b"v1", 10);

    // Next version is accepted, a skipped version is not.
    assert!(!store.put_data("doc".to_owned(), 3, b"v3", 20));
    assert!(store.put_data("doc".to_owned(), 2, b"v2", 20));

    // An absent document accepts only version 1.
    assert!(!store.put_data("other".to_owned(), 2, b"v2", 20));
    assert!(store.put_data("other".to_owned(), 1, b"v1", 20));
}

#[test]
fn blob_upload_to_deleted_document_rejected() {
    let mut store = FileStore::new();
    put_committed(&mut store, "doc", 1, b"v1", 10);
    assert!(store.delete_file("doc", 1, 50).is_some());
    assert!(!store.put_data("doc".to_owned(), 2, b"v2", 60));
    assert!(store
        .put_metadata("doc".to_owned(), 2, 60, None, None, None, None, None)
        .is_none());
}

#[test]
fn uncommitted_revision_is_invisible_until_commit() {
    let mut store = FileStore::new();
    assert!(store.put_data("doc".to_owned(), 1, b"pending", 10));
    assert!(store.get_metadata_by_id("doc").is_none());
    assert!(store.list_metadata().is_empty());
    assert!(store.get_data_by_id_version("doc", 1).is_none());

    assert!(store
        .put_metadata("doc".to_owned(), 1, 11, None, None, None, None, None)
        .is_some());
    let listed = store.list_metadata();
    assert_eq!(listed.len(), 1);
    assert_eq!(listed[0].id, "doc");
    assert_eq!(listed[0].version, 1);
}

#[test]
fn pending_update_hides_new_version_only() {
    let mut store = FileStore::new();
    put_committed(&mut store, "doc", 1, b"v1", 10);
    assert!(store.put_data("doc".to_owned(), 2, b"v2", 20));
    // Version 2 is pending: readers still see version 1.
    let latest = store.get_metadata_by_id("doc").unwrap();
    assert_eq!(latest.version, 1);
    assert!(store
        .put_metadata("doc".to_owned(), 2, 21, None, None, None, None, None)
        .is_some());
    assert_eq!(store.get_metadata_by_id("doc").unwrap().version, 2);
}

#[test]
fn metadata_only_edit_preserves_blob() {
    let mut store = FileStore::new();
    put_committed(&mut store, "doc", 1, b"the blob", 10);
    let meta = store
        .put_metadata(
            "doc".to_owned(),
            2,
            30,
            None,
            Some("renamed".to_owned()),
            None,
            None,
            None,
        )
        .expect("metadata-only edit at the next version succeeds");
    assert_eq!(meta.version, 2);
    assert_eq!(meta.name, "renamed");
    // The new committed revision carries the prior version's bytes.
    assert_eq!(store.get_data_by_id_version("doc", 2), Some(b"the blob".to_vec()));
}

#[test]
fn omitted_fields_keep_prior_values() {
    let mut store = FileStore::new();
    assert!(store.put_data("doc".to_owned(), 1, b"b", 10));
    assert!(store
        .put_metadata(
            "doc".to_owned(),
            1,
            10,
            Some("DocumentType".to_owned()),
            Some("keep-me".to_owned()),
            Some(7),
            Some(true),
            Some("folder".to_owned()),
        )
        .is_some());
    let meta = store
        .put_metadata("doc".to_owned(), 2, 40, None, None, None, None, None)
        .expect("second version");
    assert_eq!(meta.name, "keep-me");
    assert_eq!(meta.file_type, "DocumentType");
    assert_eq!(meta.current_page, 7);
    assert!(meta.bookmarked);
    assert_eq!(meta.parent, "folder");
    assert_eq!(meta.client_date_modified, 40);
}

#[test]
fn delete_requires_exact_version() {
    let mut store = FileStore::new();
    put_committed(&mut store, "doc", 1, b"v1", 10);
    put_committed(&mut store, "doc", 2, b"v2", 20);

    // Wrong version: rejected, no tombstone.
    assert!(store.delete_file("doc", 1, 100).is_none());
    assert!(store.get_metadata_by_id("doc").is_some());

    // Right version: tombstoned without a new version; the pre-deletion
    // metadata comes back.
    let old = store.delete_file("doc", 2, 100).expect("exact version deletes");
    assert_eq!(old.version, 2);
    assert_eq!(old.deleted, 0);
    assert!(store.get_metadata_by_id("doc").is_none());
    assert!(store.list_metadata().is_empty());
}

#[test]
fn purge_respects_retention_window() {
    let retention = rm_personal_cloud::DELETED_FILE_EXPIRATION;
    let mut store = FileStore::new();
    put_committed(&mut store, "old", 1, b"a", 10);
    put_committed(&mut store, "recent", 1, b"b", 10);
    put_committed(&mut store, "alive", 1, b"c", 10);
    assert!(store.delete_file("old", 1, 100).is_some());
    let now = 100 + retention + 1;
    assert!(store.delete_file("recent", 1, now - 10).is_some());

    store.clean_deleted_files(now);

    // The long-dead document is fully gone: even version 1 is not reachable
    // and the id can start over from scratch.
    assert!(store.get_data_by_id_version("old", 1).is_none());
    assert!(store.put_data("old".to_owned(), 1, b"fresh", now));

    // The recently deleted document still occupies its id.
    assert!(!store.put_data("recent".to_owned(), 1, b"x", now));

    // A live document is untouched.
    assert_eq!(store.get_metadata_by_id("alive").unwrap().version, 1);
}

#[test]
fn purge_is_idempotent() {
    let retention = rm_personal_cloud::DELETED_FILE_EXPIRATION;
    let mut store = FileStore::new();
    put_committed(&mut store, "doc", 1, b"a", 10);
    assert!(store.delete_file("doc", 1, 50).is_some());
    let now = 50 + retention + 1;
    store.clean_deleted_files(now);
    store.clean_deleted_files(now);
    assert!(store.get_metadata_by_id("doc").is_none());
    assert_eq!(store.list_metadata().len(), 0);
}

#[test]
fn two_uploads_for_the_same_pending_version() {
    // Two writers race for version 2 of a document committed at version 1.
    // Serialized by the write transaction, the first upload creates the
    // pending revision and the second lands on the same pending slot as a
    // re-upload, overwriting the bytes in place: the document ends at a
    // single version-2 row with the last writer's bytes and no duplicates.
    let mut store = FileStore::new();
    put_committed(&mut store, "doc", 1, b"v1", 10);

    assert!(store.put_data("doc".to_owned(), 2, b"first writer", 20));
    assert!(store.put_data("doc".to_owned(), 2, b"second writer", 21));

    // Still invisible until commit, and version 3 is not open yet.
    assert_eq!(store.get_metadata_by_id("doc").unwrap().version, 1);
    assert!(!store.put_data("doc".to_owned(), 3, b"x", 22));

    assert!(store
        .put_metadata("doc".to_owned(), 2, 23, None, None, None, None, None)
        .is_some());
    assert_eq!(store.get_metadata_by_id("doc").unwrap().version, 2);
    assert_eq!(
        store.get_data_by_id_version("doc", 2),
        Some(b"second writer".to_vec())
    );
    // No duplicate rows: exactly one listing entry for the id.
    let listed = store.list_metadata();
    assert_eq!(listed.len(), 1);
}

#[test]
fn list_shows_one_row_per_visible_document() {
    let mut store = FileStore::new();
    put_committed(&mut store, "a", 1, b"1", 10);
    put_committed(&mut store, "b", 1, b"1", 10);
    put_committed(&mut store, "b", 2, b"2", 20);
    assert!(store.put_data("c".to_owned(), 1, b"pending", 30));

    let listed = store.list_metadata();
    assert_eq!(listed.len(), 2);
    assert_eq!(listed[0].id, "a");
    assert_eq!(listed[0].version, 1);
    assert_eq!(listed[1].id, "b");
    assert_eq!(listed[1].version, 2);
}

#[test]
fn metadata_create_without_blob() {
    // A collection is created by metadata alone: version 1 committed, no blob.
    let mut store = FileStore::new();
    let meta = store
        .put_metadata(
            "folder".to_owned(),
            1,
            10,
            None,
            Some("My Folder".to_owned()),
            None,
            None,
            None,
        )
        .expect("fresh metadata-only document");
    assert_eq!(meta.version, 1);
    assert_eq!(meta.file_type, "CollectionType");
    assert!(store.get_data_by_id_version("folder", 1).is_none());
    assert_eq!(store.get_metadata_by_id("folder").unwrap().name, "My Folder");
}
