//! The computational half of the document routes.
//!
//! Each route maps one-to-one (or batch-of-N-to-one) onto these functions:
//! they take plain request values, drive the store, the token hierarchy and
//! the notification records, and hand back plain results for the transport
//! layer to render. Batch elements are decided independently: one element's
//! rejection never aborts its siblings.

use vstd::prelude::*;
use crate::auth::{
    file_sub_spec, jwt_of, jwt_of_model, AuthError, FileAccessClaims, JwtClaimsModel,
};
use crate::config::ServerConfig;
use crate::notifications::{notification_of, Notification, NotificationModel};
use crate::store::{
    delete_spec, get_data_spec, get_metadata_spec, list_metadata_spec, opt_int_view, opt_str_view,
    put_data_spec, put_metadata_spec, store_wf, DbFileMetadata, DocumentModel, FileStore,
    MetadataModel,
};

verus! {

// ---------------------------------------------------------------------------
// Request shapes
// ---------------------------------------------------------------------------

/// One element of an upload-request batch.
pub struct UploadRequest {
    pub id: String,
    pub version: i64,
}

/// Mathematical model of one metadata update request.
#[verifier::ext_equal]
pub struct UpdateRequestModel {
    pub id: Seq<char>,
    pub version: int,
    pub modified_client: int,
    pub file_type: Option<Seq<char>>,
    pub visible_name: Option<Seq<char>>,
    pub current_page: Option<int>,
    pub bookmarked: Option<bool>,
    pub parent: Option<Seq<char>>,
}

/// One element of a metadata update batch; omitted optional fields keep the
/// prior revision's values.
pub struct UpdateRequest {
    pub id: String,
    pub version: i64,
    pub modified_client: i64,
    pub file_type: Option<String>,
    pub visible_name: Option<String>,
    pub current_page: Option<i64>,
    pub bookmarked: Option<bool>,
    pub parent: Option<String>,
}

impl View for UpdateRequest {
    type V = UpdateRequestModel;

    open spec fn view(&self) -> UpdateRequestModel {
        UpdateRequestModel {
            id: self.id@,
            version: self.version as int,
            modified_client: self.modified_client as int,
            file_type: opt_str_view(self.file_type),
            visible_name: opt_str_view(self.visible_name),
            current_page: opt_int_view(self.current_page),
            bookmarked: self.bookmarked,
            parent: opt_str_view(self.parent),
        }
    }
}

/// One element of a deletion batch.
pub struct DeleteRequest {
    pub id: String,
    pub version: i64,
}

/// A copy of an optional string.
fn clone_opt_string(o: &Option<String>) -> (r: Option<String>)
    ensures
        opt_str_view(r) == opt_str_view(*o),
{
    match o {
        Some(s) => Some(s.clone()),
        None => None,
    }
}

// ---------------------------------------------------------------------------
// Listing
// ---------------------------------------------------------------------------

/// One listed document: its newest visible metadata and, on request, a blob
/// access token for exactly that file and version.
pub struct ListEntry {
    pub metadata: DbFileMetadata,
    pub blob_token: Option<String>,
}

/// Whether a list entry's token slot is right: a token for exactly this
/// entry's file and version when blobs were requested, nothing otherwise.
pub open spec fn entry_token_ok(e: ListEntry, with_blob: bool, exp: int, key: Seq<u8>) -> bool {
    if with_blob {
        e.blob_token matches Some(t) && t@ == jwt_of(file_sub_spec(), Seq::empty(), Seq::empty(),
            exp as u64, e.metadata@.id, e.metadata.version, key)
    } else {
        e.blob_token is None
    }
}

/// What listing returns.
pub enum ListOutcome {
    /// The one requested document is not visible.
    NotFound,
    /// The visible documents, one entry each.
    Entries(Vec<ListEntry>),
}

/// List the newest visible revision of one document — or of every visible
/// document — optionally minting a short-lived blob access token per entry.
pub fn list(
    store: &FileStore,
    doc: Option<&String>,
    with_blob: bool,
    exp: i64,
    config: &ServerConfig,
) -> (r: ListOutcome)
    requires
        store_wf(store@),
        0 <= exp,
    ensures
        doc matches Some(id) ==> match get_metadata_spec(store@, id@) {
            Option::None => r is NotFound,
            Option::Some(m) => r matches ListOutcome::Entries(es) && es@.len() == 1
                && es@[0].metadata@ == m
                && entry_token_ok(es@[0], with_blob, exp as int, config.jwt_secret_key@),
        },
        doc is None ==> (r matches ListOutcome::Entries(es)
            && es@.map_values(|e: ListEntry| e.metadata@) == list_metadata_spec(store@)
            && forall|i: int| 0 <= i < es@.len()
                ==> entry_token_ok(#[trigger] es@[i], with_blob, exp as int, config.jwt_secret_key@)),
{
    let metas: Vec<DbFileMetadata> = match doc {
        Some(id) => {
            match store.get_metadata_by_id(id.as_str()) {
                None => {
                    return ListOutcome::NotFound;
                },
                Some(m) => {
                    let mut v: Vec<DbFileMetadata> = Vec::new();
                    v.push(m);
                    v
                },
            }
        },
        None => store.list_metadata(),
    };
    let ghost metas_model = metas@.map_values(|m: DbFileMetadata| m@);
    let mut entries: Vec<ListEntry> = Vec::new();
    let mut k: usize = 0;
    while k < metas.len()
        invariant
            k <= metas.len(),
            0 <= exp,
            metas_model == metas@.map_values(|m: DbFileMetadata| m@),
            entries@.len() == k,
            forall|i: int| 0 <= i < k ==> (#[trigger] entries@[i]).metadata@ == metas_model[i],
            forall|i: int| 0 <= i < k
                ==> entry_token_ok(#[trigger] entries@[i], with_blob, exp as int,
                    config.jwt_secret_key@),
        decreases metas.len() - k,
    {
        let m = &metas[k];
        let blob_token = if with_blob {
            Some(FileAccessClaims::new(exp, m.id.clone(), m.version, config))
        } else {
            None
        };
        entries.push(ListEntry {
            metadata: DbFileMetadata {
                id: m.id.clone(),
                version: m.version,
                client_date_modified: m.client_date_modified,
                file_type: m.file_type.clone(),
                name: m.name.clone(),
                current_page: m.current_page,
                bookmarked: m.bookmarked,
                parent: m.parent.clone(),
                committed: m.committed,
                deleted: m.deleted,
            },
            blob_token,
        });
        proof {
            assert(entries@[k as int].metadata@ =~= metas_model[k as int]);
        }
        k = k + 1;
    }
    proof {
        if doc is None {
            assert(entries@.map_values(|e: ListEntry| e.metadata@) =~= list_metadata_spec(store@));
        }
    }
    ListOutcome::Entries(entries)
}

// ---------------------------------------------------------------------------
// Upload requests
// ---------------------------------------------------------------------------

/// Decide one element of an upload-request batch: the requested version
/// must be exactly one above the newest visible version (or 1 for a
/// document that does not exist yet); an accepted element is answered with
/// a blob access token for exactly that file and version.
pub fn upload_request(
    store: &FileStore,
    req: &UploadRequest,
    exp: i64,
    config: &ServerConfig,
) -> (r: Option<String>)
    requires
        store_wf(store@),
        0 <= exp,
    ensures
        ({
            let server_version = match get_metadata_spec(store@, req.id@) {
                Option::Some(m) => m.version,
                Option::None => 0,
            };
            match r {
                Option::Some(t) => req.version == server_version + 1
                    && t@ == jwt_of(file_sub_spec(), Seq::empty(), Seq::empty(), exp as u64,
                        req.id@, req.version, config.jwt_secret_key@),
                Option::None => req.version != server_version + 1,
            }
        }),
{
    let server_version: i64 = match store.get_metadata_by_id(req.id.as_str()) {
        Some(m) => m.version,
        None => 0,
    };
    if req.version >= 1 && req.version - 1 == server_version {
        Some(FileAccessClaims::new(exp, req.id.clone(), req.version, config))
    } else {
        None
    }
}

// ---------------------------------------------------------------------------
// Blob upload and download
// ---------------------------------------------------------------------------

/// What storing an uploaded blob came to.
pub enum UploadOutcome {
    /// The access token did not validate.
    Unauthorized(AuthError),
    /// The token was sound but the version slot is gone: a normal
    /// concurrency rejection.
    Conflict,
    /// The blob is stored.
    Done,
}

/// How an upload outcome must relate to the claim set the access token was
/// signed over.
pub open spec fn upload_check_of(
    pre: Seq<DocumentModel>,
    post: Seq<DocumentModel>,
    r: UploadOutcome,
    c: JwtClaimsModel,
    body: Seq<u8>,
    now: int,
    now_wall: u64,
) -> bool {
    if c.sub != file_sub_spec() {
        (r matches UploadOutcome::Unauthorized(e) && e is KindMismatch) && post == pre
    } else if now_wall > c.exp {
        (r matches UploadOutcome::Unauthorized(e) && e is Expired) && post == pre
    } else {
        let (ok, p) = put_data_spec(pre, c.file_id, c.file_version as int, body, now);
        post == p && r == (if ok {
            UploadOutcome::Done
        } else {
            UploadOutcome::Conflict
        })
    }
}

/// Store one uploaded blob: validate the access token (signature, kind,
/// expiry against the wall clock), then apply the two-phase upload step for
/// exactly the file and version the token grants. A rejected version is a
/// conflict, not an error, and an invalid token changes nothing.
pub fn upload(
    store: &mut FileStore,
    access_token: &str,
    body: &[u8],
    config: &ServerConfig,
    now_wall: u64,
    now: i64,
) -> (r: UploadOutcome)
    requires
        store_wf(old(store)@),
    ensures
        store_wf(final(store)@),
        r matches UploadOutcome::Unauthorized(e) ==> final(store)@ == old(store)@,
        forall|c: JwtClaimsModel| access_token@ == jwt_of_model(c, config.jwt_secret_key@)
            ==> #[trigger] upload_check_of(old(store)@, final(store)@, r, c, body@, now as int,
                now_wall),
{
    let vr = FileAccessClaims::validate(access_token, config, now_wall);
    let ghost vr0 = vr;
    match vr {
        Err(e) => {
            let r = UploadOutcome::Unauthorized(e);
            proof {
                assert forall|c: JwtClaimsModel|
                    access_token@ == jwt_of_model(c, config.jwt_secret_key@)
                    implies #[trigger] upload_check_of(old(store)@, store@, r, c, body@,
                        now as int, now_wall) by {
                    assert(crate::auth::check_of(vr0, c, file_sub_spec(), true, now_wall));
                }
            }
            r
        },
        Ok(claims) => {
            let ghost cl = claims@;
            let ok = store.put_data(claims.file_id, claims.file_version, body, now);
            let r = if ok {
                UploadOutcome::Done
            } else {
                UploadOutcome::Conflict
            };
            proof {
                assert forall|c: JwtClaimsModel|
                    access_token@ == jwt_of_model(c, config.jwt_secret_key@)
                    implies #[trigger] upload_check_of(old(store)@, store@, r, c, body@,
                        now as int, now_wall) by {
                    assert(crate::auth::check_of(vr0, c, file_sub_spec(), true, now_wall));
                    assert(cl.file_id == c.file_id && cl.file_version == c.file_version);
                }
            }
            r
        },
    }
}

/// What serving a blob download came to.
pub enum DownloadOutcome {
    /// The access token did not validate.
    Unauthorized(AuthError),
    /// No committed, live revision sits at the granted file and version.
    NotFound,
    /// The blob bytes.
    Data(Vec<u8>),
}

/// How a download outcome must relate to the claim set the access token was
/// signed over.
pub open spec fn download_check_of(
    docs: Seq<DocumentModel>,
    r: DownloadOutcome,
    c: JwtClaimsModel,
    now_wall: u64,
) -> bool {
    if c.sub != file_sub_spec() {
        r matches DownloadOutcome::Unauthorized(e) && e is KindMismatch
    } else if now_wall > c.exp {
        r matches DownloadOutcome::Unauthorized(e) && e is Expired
    } else {
        match get_data_spec(docs, c.file_id, c.file_version as int) {
            Option::Some(b) => r matches DownloadOutcome::Data(v) && v@ == b,
            Option::None => r is NotFound,
        }
    }
}

/// Serve one blob download: validate the access token, then hand out the
/// bytes of exactly the committed revision the token grants.
pub fn download(
    store: &FileStore,
    access_token: &str,
    config: &ServerConfig,
    now_wall: u64,
) -> (r: DownloadOutcome)
    requires
        store_wf(store@),
    ensures
        forall|c: JwtClaimsModel| access_token@ == jwt_of_model(c, config.jwt_secret_key@)
            ==> #[trigger] download_check_of(store@, r, c, now_wall),
{
    let vr = FileAccessClaims::validate(access_token, config, now_wall);
    let ghost vr0 = vr;
    let r = match vr {
        Err(e) => DownloadOutcome::Unauthorized(e),
        Ok(claims) => {
            match store.get_data_by_id_version(claims.file_id.as_str(), claims.file_version) {
                Some(data) => DownloadOutcome::Data(data),
                None => DownloadOutcome::NotFound,
            }
        },
    };
    proof {
        assert forall|c: JwtClaimsModel|
            access_token@ == jwt_of_model(c, config.jwt_secret_key@)
            implies #[trigger] download_check_of(store@, r, c, now_wall) by {
            assert(crate::auth::check_of(vr0, c, file_sub_spec(), true, now_wall));
        }
    }
    r
}

// ---------------------------------------------------------------------------
// Metadata update batches
// ---------------------------------------------------------------------------

/// What a metadata update batch does: each element is committed (or
/// rejected) in order against the store state its predecessors left, every
/// element is answered, and every accepted element yields one change record
/// attributed to the updating device. All accepted changes carry the added
/// kind — updates and creations alike.
pub open spec fn update_status_spec(
    docs: Seq<DocumentModel>,
    reqs: Seq<UpdateRequestModel>,
    device_desc: Seq<char>,
    device_id: Seq<char>,
) -> (Seq<bool>, Seq<NotificationModel>, Seq<DocumentModel>)
    decreases reqs.len(),
{
    if reqs.len() == 0 {
        (Seq::empty(), Seq::empty(), docs)
    } else {
        let q = reqs[0];
        let (m, docs1) = put_metadata_spec(docs, q.id, q.version, q.modified_client, q.file_type,
            q.visible_name, q.current_page, q.bookmarked, q.parent);
        let (oks, notes, docs_final) = update_status_spec(docs1, reqs.drop_first(), device_desc,
            device_id);
        match m {
            Option::Some(meta) => (
                seq![true] + oks,
                seq![notification_of("DocAdded"@, meta, device_desc, device_id)] + notes,
                docs_final,
            ),
            Option::None => (seq![false] + oks, notes, docs_final),
        }
    }
}

/// Apply a metadata update batch, one element per store transition, and
/// collect the per-element outcomes and the change records to publish.
pub fn update_status(
    store: &mut FileStore,
    requests: &Vec<UpdateRequest>,
    device_desc: &str,
    device_id: &str,
) -> (r: (Vec<bool>, Vec<Notification>))
    requires
        store_wf(old(store)@),
    ensures
        store_wf(final(store)@),
        ({
            let (oks, notes, post) = update_status_spec(
                old(store)@, requests@.map_values(|q: UpdateRequest| q@), device_desc@, device_id@);
            &&& r.0@ == oks
            &&& r.1@.map_values(|n: Notification| n@) == notes
            &&& final(store)@ == post
        }),
{
    let ghost orig = store@;
    let ghost reqs_model = requests@.map_values(|q: UpdateRequest| q@);
    let mut oks: Vec<bool> = Vec::new();
    let mut notes: Vec<Notification> = Vec::new();
    let mut k: usize = 0;
    proof {
        assert(reqs_model.skip(0) =~= reqs_model);
        assert(notes@.map_values(|n: Notification| n@) =~= Seq::<NotificationModel>::empty());
    }
    while k < requests.len()
        invariant
            store_wf(store@),
            k <= requests.len(),
            reqs_model == requests@.map_values(|q: UpdateRequest| q@),
            ({
                let (foks, fnotes, fpost) = update_status_spec(store@, reqs_model.skip(k as int),
                    device_desc@, device_id@);
                let (aoks, anotes, apost) = update_status_spec(orig, reqs_model, device_desc@,
                    device_id@);
                &&& oks@ + foks =~= aoks
                &&& notes@.map_values(|n: Notification| n@) + fnotes =~= anotes
                &&& fpost =~= apost
            }),
        decreases requests.len() - k,
    {
        let ghost docs_pre = store@;
        let ghost rem = reqs_model.skip(k as int);
        let req = &requests[k];
        let m = store.put_metadata(
            req.id.clone(),
            req.version,
            req.modified_client,
            clone_opt_string(&req.file_type),
            clone_opt_string(&req.visible_name),
            req.current_page,
            req.bookmarked,
            clone_opt_string(&req.parent),
        );
        proof {
            assert(rem[0] =~= reqs_model[k as int]);
            assert(rem.drop_first() =~= reqs_model.skip(k + 1));
        }
        match m {
            Some(meta) => {
                let note = Notification::from_metadata("DocAdded", &meta, device_desc, device_id);
                oks.push(true);
                notes.push(note);
            },
            None => {
                oks.push(false);
            },
        }
        proof {
            let (foks, fnotes, fpost) = update_status_spec(docs_pre, rem, device_desc@, device_id@);
            let (goks, gnotes, gpost) = update_status_spec(store@, reqs_model.skip(k + 1),
                device_desc@, device_id@);
            assert(oks@ + goks =~= update_status_spec(orig, reqs_model, device_desc@, device_id@).0);
            assert(notes@.map_values(|n: Notification| n@) + gnotes
                =~= update_status_spec(orig, reqs_model, device_desc@, device_id@).1);
        }
        k = k + 1;
    }
    proof {
        assert(reqs_model.skip(requests@.len() as int) =~= Seq::<UpdateRequestModel>::empty());
    }
    (oks, notes)
}

// ---------------------------------------------------------------------------
// Deletion batches
// ---------------------------------------------------------------------------

/// What a deletion batch does: each element tombstones its document (or is
/// rejected) in order, every element is answered, and every accepted
/// element yields one deletion record attributed to the deleting device.
pub open spec fn delete_batch_spec(
    docs: Seq<DocumentModel>,
    reqs: Seq<(Seq<char>, int)>,
    device_desc: Seq<char>,
    device_id: Seq<char>,
    now: int,
) -> (Seq<bool>, Seq<NotificationModel>, Seq<DocumentModel>)
    decreases reqs.len(),
{
    if reqs.len() == 0 {
        (Seq::empty(), Seq::empty(), docs)
    } else {
        let (m, docs1) = delete_spec(docs, reqs[0].0, reqs[0].1, now);
        let (oks, notes, docs_final) = delete_batch_spec(docs1, reqs.drop_first(), device_desc,
            device_id, now);
        match m {
            Option::Some(meta) => (
                seq![true] + oks,
                seq![notification_of("DocDeleted"@, meta, device_desc, device_id)] + notes,
                docs_final,
            ),
            Option::None => (seq![false] + oks, notes, docs_final),
        }
    }
}

/// Apply a deletion batch, one element per store transition, and collect
/// the per-element outcomes and the change records to publish.
pub fn delete(
    store: &mut FileStore,
    requests: &Vec<DeleteRequest>,
    device_desc: &str,
    device_id: &str,
    now: i64,
) -> (r: (Vec<bool>, Vec<Notification>))
    requires
        store_wf(old(store)@),
        0 < now,
    ensures
        store_wf(final(store)@),
        ({
            let (oks, notes, post) = delete_batch_spec(
                old(store)@,
                requests@.map_values(|q: DeleteRequest| (q.id@, q.version as int)),
                device_desc@, device_id@, now as int);
            &&& r.0@ == oks
            &&& r.1@.map_values(|n: Notification| n@) == notes
            &&& final(store)@ == post
        }),
{
    let ghost orig = store@;
    let ghost reqs_model = requests@.map_values(|q: DeleteRequest| (q.id@, q.version as int));
    let mut oks: Vec<bool> = Vec::new();
    let mut notes: Vec<Notification> = Vec::new();
    let mut k: usize = 0;
    proof {
        assert(reqs_model.skip(0) =~= reqs_model);
        assert(notes@.map_values(|n: Notification| n@) =~= Seq::<NotificationModel>::empty());
    }
    while k < requests.len()
        invariant
            store_wf(store@),
            0 < now,
            k <= requests.len(),
            reqs_model == requests@.map_values(|q: DeleteRequest| (q.id@, q.version as int)),
            ({
                let (foks, fnotes, fpost) = delete_batch_spec(store@, reqs_model.skip(k as int),
                    device_desc@, device_id@, now as int);
                let (aoks, anotes, apost) = delete_batch_spec(orig, reqs_model, device_desc@,
                    device_id@, now as int);
                &&& oks@ + foks =~= aoks
                &&& notes@.map_values(|n: Notification| n@) + fnotes =~= anotes
                &&& fpost =~= apost
            }),
        decreases requests.len() - k,
    {
        let ghost docs_pre = store@;
        let ghost rem = reqs_model.skip(k as int);
        let req = &requests[k];
        let m = store.delete_file(req.id.as_str(), req.version, now);
        proof {
            assert(rem[0] =~= reqs_model[k as int]);
            assert(rem.drop_first() =~= reqs_model.skip(k + 1));
        }
        match m {
            Some(meta) => {
                let note = Notification::from_metadata("DocDeleted", &meta, device_desc, device_id);
                oks.push(true);
                notes.push(note);
            },
            None => {
                oks.push(false);
            },
        }
        proof {
            let (goks, gnotes, gpost) = delete_batch_spec(store@, reqs_model.skip(k + 1),
                device_desc@, device_id@, now as int);
            assert(oks@ + goks =~= delete_batch_spec(orig, reqs_model, device_desc@, device_id@,
                now as int).0);
            assert(notes@.map_values(|n: Notification| n@) + gnotes
                =~= delete_batch_spec(orig, reqs_model, device_desc@, device_id@, now as int).1);
        }
        k = k + 1;
    }
    proof {
        assert(reqs_model.skip(requests@.len() as int) =~= Seq::<(Seq<char>, int)>::empty());
    }
    (oks, notes)
}

} // verus!
