use rm_personal_cloud::api::{
    delete, list, update_status, upload, upload_request, DeleteRequest, DownloadOutcome,
    ListOutcome, UpdateRequest, UploadOutcome, UploadRequest,
};
use rm_personal_cloud::api::download;
use rm_personal_cloud::config::ServerConfig;
use rm_personal_cloud::store::FileStore;

fn config() -> ServerConfig {
    ServerConfig {
        jwt_secret_key: (7u8..39).collect(),
        server_host: "h".to_owned(),
    }
}

fn update(id: &str, version: i64, name: Option<&str>) -> UpdateRequest {
    UpdateRequest {
        id: id.to_owned(),
        version,
        modified_client: 42,
        file_type: None,
        visible_name: name.map(|s| s.to_owned()),
        current_page: None,
        bookmarked: None,
        parent: None,
    }
}

#[test]
fn upload_request_gates_the_version() {
    let cfg = config();
    let store = FileStore::new();
    // An absent document accepts only version 1.
    let req1 = UploadRequest { id: "doc".to_owned(), version: 1 };
    assert!(upload_request(&store, &req1, 600, &cfg).is_some());
    let req2 = UploadRequest { id: "doc".to_owned(), version: 2 };
    assert!(upload_request(&store, &req2, 600, &cfg).is_none());
}

#[test]
fn upload_download_roundtrip_through_tokens() {
    let cfg = config();
    let mut store = FileStore::new();

    let req = UploadRequest { id: "doc".to_owned(), version: 1 };
    let put_token = upload_request(&store, &req, 600, &cfg).expect("version 1 of a new doc");

    match upload(&mut store, &put_token, b"payload", &cfg, 600, 10) {
        UploadOutcome::Done => {},
        _ => panic!("a granted upload is stored"),
    }

    // Commit so the blob becomes readable, then download through a token.
    let batch = vec![update("doc", 1, Some("Doc"))];
    let (oks, notes) = update_status(&mut store, &batch, "tablet", "dev");
    assert_eq!(oks, vec![true]);
    assert_eq!(notes.len(), 1);
    assert_eq!(notes[0].event, "DocAdded");
    assert_eq!(notes[0].name, "Doc");
    assert_eq!(notes[0].source_device_id, "dev");

    let entries = match list(&store, None, true, 700, &cfg) {
        ListOutcome::Entries(es) => es,
        ListOutcome::NotFound => panic!("the committed doc is listed"),
    };
    assert_eq!(entries.len(), 1);
    assert_eq!(entries[0].metadata.id, "doc");
    let get_token = entries[0].blob_token.clone().expect("tokens were requested");
    match download(&store, &get_token, &cfg, 700) {
        DownloadOutcome::Data(v) => assert_eq!(v, b"payload"),
        _ => panic!("a granted download returns the bytes"),
    }
}

#[test]
fn upload_with_stale_token_conflicts() {
    let cfg = config();
    let mut store = FileStore::new();
    let req = UploadRequest { id: "doc".to_owned(), version: 1 };
    let token = upload_request(&store, &req, 600, &cfg).unwrap();

    assert!(matches!(upload(&mut store, &token, b"a", &cfg, 0, 1), UploadOutcome::Done));
    let batch = vec![update("doc", 1, None)];
    update_status(&mut store, &batch, "t", "d");
    assert!(store.put_data("doc".to_owned(), 2, b"b", 2));
    let batch2 = vec![update("doc", 2, None)];
    update_status(&mut store, &batch2, "t", "d");

    // The old token still names version 1, which is long gone: a conflict,
    // not an error, and the store is past it.
    assert!(matches!(upload(&mut store, &token, b"late", &cfg, 0, 3), UploadOutcome::Conflict));
}

#[test]
fn upload_rejects_bad_tokens_untouched() {
    let cfg = config();
    let mut store = FileStore::new();
    assert!(matches!(
        upload(&mut store, "garbage", b"x", &cfg, 0, 1),
        UploadOutcome::Unauthorized(_)
    ));
    assert!(store.get_metadata_by_id("doc").is_none());

    // An expired token is refused even though its signature is sound.
    let req = UploadRequest { id: "doc".to_owned(), version: 1 };
    let token = upload_request(&store, &req, 100, &cfg).unwrap();
    assert!(matches!(
        upload(&mut store, &token, b"x", &cfg, 101, 1),
        UploadOutcome::Unauthorized(rm_personal_cloud::auth::AuthError::Expired)
    ));
}

#[test]
fn download_misses_and_bad_tokens() {
    let cfg = config();
    let store = FileStore::new();
    assert!(matches!(
        download(&store, "garbage", &cfg, 0),
        DownloadOutcome::Unauthorized(_)
    ));
    // A sound token for a version nothing committed is a miss, not an error.
    let token = rm_personal_cloud::auth::FileAccessClaims::new(100, "ghost".to_owned(), 1, &cfg);
    assert!(matches!(download(&store, &token, &cfg, 50), DownloadOutcome::NotFound));
}

#[test]
fn update_status_batch_is_element_wise() {
    let cfg = config();
    let mut store = FileStore::new();
    let req = UploadRequest { id: "a".to_owned(), version: 1 };
    let token = upload_request(&store, &req, 600, &cfg).unwrap();
    assert!(matches!(upload(&mut store, &token, b"a1", &cfg, 0, 1), UploadOutcome::Done));

    let batch = vec![
        update("a", 1, Some("A")),     // commits the pending upload
        update("b", 5, None),          // wrong version for an absent doc
        update("c", 1, Some("C")),     // creates a metadata-only doc
    ];
    let (oks, notes) = update_status(&mut store, &batch, "tablet", "dev");
    assert_eq!(oks, vec![true, false, true]);
    assert_eq!(notes.len(), 2);
    assert_eq!(notes[0].id, "a");
    assert_eq!(notes[1].id, "c");
    assert_eq!(store.get_metadata_by_id("a").unwrap().name, "A");
    assert!(store.get_metadata_by_id("b").is_none());
}

#[test]
fn delete_batch_reports_and_notifies() {
    let mut store = FileStore::new();
    assert!(store.put_data("a".to_owned(), 1, b"x", 1));
    let batch = vec![update("a", 1, None)];
    update_status(&mut store, &batch, "t", "d");

    let dels = vec![
        DeleteRequest { id: "a".to_owned(), version: 2 }, // wrong version
        DeleteRequest { id: "a".to_owned(), version: 1 }, // right version
        DeleteRequest { id: "missing".to_owned(), version: 1 },
    ];
    let (oks, notes) = delete(&mut store, &dels, "tablet", "dev", 500);
    assert_eq!(oks, vec![false, true, false]);
    assert_eq!(notes.len(), 1);
    assert_eq!(notes[0].event, "DocDeleted");
    assert_eq!(notes[0].id, "a");
    assert!(store.get_metadata_by_id("a").is_none());
}

#[test]
fn list_one_document_or_all() {
    let cfg = config();
    let mut store = FileStore::new();
    let batch = vec![update("a", 1, Some("A")), update("b", 1, Some("B"))];
    update_status(&mut store, &batch, "t", "d");

    let one = "a".to_owned();
    match list(&store, Some(&one), false, 600, &cfg) {
        ListOutcome::Entries(es) => {
            assert_eq!(es.len(), 1);
            assert_eq!(es[0].metadata.name, "A");
            assert!(es[0].blob_token.is_none());
        },
        ListOutcome::NotFound => panic!("a is visible"),
    }

    let missing = "zzz".to_owned();
    assert!(matches!(list(&store, Some(&missing), false, 600, &cfg), ListOutcome::NotFound));

    match list(&store, None, false, 600, &cfg) {
        ListOutcome::Entries(es) => assert_eq!(es.len(), 2),
        ListOutcome::NotFound => panic!("two docs are visible"),
    }
}
