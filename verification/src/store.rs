//! The versioned document store.
//!
//! One logical document is a sequence of revisions, numbered from 1. Blob
//! upload and metadata finalization are two separate steps: `put_data` creates
//! (or re-fills) an uncommitted revision holding the blob bytes, and
//! `put_metadata` is the commit step that makes the revision visible. At most
//! one uncommitted revision exists per document, and it is always the newest
//! one. Deletion writes a tombstone timestamp on the whole document;
//! tombstoned documents are physically purged once the tombstone has aged past
//! a retention window.

use vstd::prelude::*;
use crate::DELETED_FILE_EXPIRATION;

verus! {

// ---------------------------------------------------------------------------
// Abstract models
// ---------------------------------------------------------------------------

/// Mathematical model of one revision of a document.
#[verifier::ext_equal]
pub struct RevisionModel {
    pub client_date_modified: int,
    pub file_type: Seq<char>,
    pub name: Seq<char>,
    pub current_page: int,
    pub bookmarked: bool,
    pub parent: Seq<char>,
    pub committed: bool,
    pub data: Option<Seq<u8>>,
}

/// Mathematical model of one logical document: its identity, its tombstone
/// (0 while the document is alive) and its revisions, where index `i` holds
/// revision number `i + 1`.
#[verifier::ext_equal]
pub struct DocumentModel {
    pub id: Seq<char>,
    pub deleted: int,
    pub revs: Seq<RevisionModel>,
}

/// Mathematical model of one row of revision metadata, as handed to readers.
#[verifier::ext_equal]
pub struct MetadataModel {
    pub id: Seq<char>,
    pub version: int,
    pub client_date_modified: int,
    pub file_type: Seq<char>,
    pub name: Seq<char>,
    pub current_page: int,
    pub bookmarked: bool,
    pub parent: Seq<char>,
    pub committed: bool,
    pub deleted: int,
}

/// The abstract contents of an optional blob.
pub open spec fn blob_view(d: Option<Vec<u8>>) -> Option<Seq<u8>> {
    match d {
        Option::Some(v) => Option::Some(v@),
        Option::None => Option::None,
    }
}

/// The abstract contents of an optional string.
pub open spec fn opt_str_view(s: Option<String>) -> Option<Seq<char>> {
    match s {
        Option::Some(v) => Option::Some(v@),
        Option::None => Option::None,
    }
}

/// The abstract contents of an optional integer.
pub open spec fn opt_int_view(s: Option<i64>) -> Option<int> {
    match s {
        Option::Some(v) => Option::Some(v as int),
        Option::None => Option::None,
    }
}

// ---------------------------------------------------------------------------
// Executable data
// ---------------------------------------------------------------------------

/// Metadata of one revision, as returned by the read operations and carried
/// by notifications.
pub struct DbFileMetadata {
    pub id: String,
    pub version: i64,
    pub client_date_modified: i64,
    pub file_type: String,
    pub name: String,
    pub current_page: i64,
    pub bookmarked: bool,
    pub parent: String,
    pub committed: bool,
    pub deleted: i64,
}

impl View for DbFileMetadata {
    type V = MetadataModel;

    open spec fn view(&self) -> MetadataModel {
        MetadataModel {
            id: self.id@,
            version: self.version as int,
            client_date_modified: self.client_date_modified as int,
            file_type: self.file_type@,
            name: self.name@,
            current_page: self.current_page as int,
            bookmarked: self.bookmarked,
            parent: self.parent@,
            committed: self.committed,
            deleted: self.deleted as int,
        }
    }
}

/// One stored revision.
pub struct Revision {
    pub client_date_modified: i64,
    pub file_type: String,
    pub name: String,
    pub current_page: i64,
    pub bookmarked: bool,
    pub parent: String,
    pub committed: bool,
    pub data: Option<Vec<u8>>,
}

impl View for Revision {
    type V = RevisionModel;

    open spec fn view(&self) -> RevisionModel {
        RevisionModel {
            client_date_modified: self.client_date_modified as int,
            file_type: self.file_type@,
            name: self.name@,
            current_page: self.current_page as int,
            bookmarked: self.bookmarked,
            parent: self.parent@,
            committed: self.committed,
            data: blob_view(self.data),
        }
    }
}

/// One stored document: all revisions of one id, plus the tombstone.
pub struct Document {
    pub id: String,
    pub deleted: i64,
    pub revs: Vec<Revision>,
}

impl View for Document {
    type V = DocumentModel;

    open spec fn view(&self) -> DocumentModel {
        DocumentModel {
            id: self.id@,
            deleted: self.deleted as int,
            revs: self.revs@.map_values(|r: Revision| r@),
        }
    }
}

/// The document table.
pub struct FileStore {
    docs: Vec<Document>,
}

impl View for FileStore {
    type V = Seq<DocumentModel>;

    closed spec fn view(&self) -> Seq<DocumentModel> {
        self.docs@.map_values(|d: Document| d@)
    }
}

// ---------------------------------------------------------------------------
// Well-formedness
// ---------------------------------------------------------------------------

/// A stored document is well formed when it has at least one revision, a
/// non-negative tombstone, a revision count that fits the version type, and
/// every revision but possibly the newest is committed — so at most one
/// uncommitted revision exists, and it is always the newest one.
pub open spec fn doc_wf(d: DocumentModel) -> bool {
    &&& 1 <= d.revs.len() <= i64::MAX
    &&& 0 <= d.deleted <= i64::MAX
    &&& forall|i: int| 0 <= i < d.revs.len() - 1 ==> (#[trigger] d.revs[i]).committed
}

/// The store is well formed when every document is and ids are distinct.
pub open spec fn store_wf(docs: Seq<DocumentModel>) -> bool {
    &&& forall|i: int| 0 <= i < docs.len() ==> doc_wf(#[trigger] docs[i])
    &&& forall|i: int, j: int| 0 <= i < j < docs.len() ==> docs[i].id != docs[j].id
}

// ---------------------------------------------------------------------------
// Queries over the model
// ---------------------------------------------------------------------------

/// Index of the first document with the given id, or -1 when there is none.
pub open spec fn find_doc(docs: Seq<DocumentModel>, id: Seq<char>) -> int
    decreases docs.len(),
{
    if docs.len() == 0 {
        -1
    } else if docs[0].id == id {
        0
    } else if find_doc(docs.drop_first(), id) == -1 {
        -1
    } else {
        find_doc(docs.drop_first(), id) + 1
    }
}

/// `find_doc` finds the first index holding the id, or reports that none does.
pub proof fn lemma_find_doc(docs: Seq<DocumentModel>, id: Seq<char>)
    ensures
        find_doc(docs, id) == -1 ==> forall|i: int| 0 <= i < docs.len() ==> (#[trigger] docs[i]).id != id,
        find_doc(docs, id) != -1 ==> {
            &&& 0 <= find_doc(docs, id) < docs.len()
            &&& docs[find_doc(docs, id)].id == id
            &&& forall|i: int| 0 <= i < find_doc(docs, id) ==> (#[trigger] docs[i]).id != id
        },
    decreases docs.len(),
{
    if docs.len() > 0 && docs[0].id != id {
        lemma_find_doc(docs.drop_first(), id);
        assert forall|i: int| 1 <= i < docs.len() implies docs.drop_first()[i - 1] == docs[i] by {}
    }
}

/// The version number visible to readers: the highest committed revision of a
/// live document, or 0 when the document is tombstoned or holds only a single
/// uncommitted revision.
pub open spec fn visible_version(d: DocumentModel) -> int {
    if d.deleted != 0 {
        0
    } else if d.revs.last().committed {
        d.revs.len() as int
    } else {
        d.revs.len() - 1
    }
}

/// Whether any revision of the document is visible to readers.
pub open spec fn is_visible(d: DocumentModel) -> bool {
    visible_version(d) >= 1
}

/// The metadata row of revision `v` (1-based) of a document.
pub open spec fn rev_meta(d: DocumentModel, v: int) -> MetadataModel {
    MetadataModel {
        id: d.id,
        version: v,
        client_date_modified: d.revs[v - 1].client_date_modified,
        file_type: d.revs[v - 1].file_type,
        name: d.revs[v - 1].name,
        current_page: d.revs[v - 1].current_page,
        bookmarked: d.revs[v - 1].bookmarked,
        parent: d.revs[v - 1].parent,
        committed: d.revs[v - 1].committed,
        deleted: d.deleted,
    }
}

/// What `get_metadata_by_id` returns: the newest visible revision of the
/// document, or nothing.
pub open spec fn get_metadata_spec(docs: Seq<DocumentModel>, id: Seq<char>) -> Option<MetadataModel> {
    let k = find_doc(docs, id);
    if k == -1 {
        Option::None
    } else if is_visible(docs[k]) {
        Option::Some(rev_meta(docs[k], visible_version(docs[k])))
    } else {
        Option::None
    }
}

// ---------------------------------------------------------------------------
// Transitions over the model
// ---------------------------------------------------------------------------

/// The value of an optional override, or the prior value when none was given.
pub open spec fn override_or<A>(prev: A, o: Option<A>) -> A {
    match o {
        Option::Some(v) => v,
        Option::None => prev,
    }
}

/// The first revision of a document created by a blob upload.
pub open spec fn fresh_blob_revision(data: Seq<u8>, now: int) -> RevisionModel {
    RevisionModel {
        client_date_modified: now,
        file_type: "DocumentType"@,
        name: Seq::empty(),
        current_page: 0,
        bookmarked: false,
        parent: Seq::empty(),
        committed: false,
        data: Option::Some(data),
    }
}

/// What `put_data` does: the acceptance decision and the store afterwards.
///
/// An upload is accepted only at the next version after a committed newest
/// revision (where it creates a new uncommitted revision carrying the bytes),
/// or at the same version as an uncommitted newest revision (where it
/// overwrites that revision's bytes in place); uploads to tombstoned
/// documents and all other versions are rejected and change nothing.
pub open spec fn put_data_spec(
    docs: Seq<DocumentModel>,
    id: Seq<char>,
    version: int,
    data: Seq<u8>,
    now: int,
) -> (bool, Seq<DocumentModel>) {
    let k = find_doc(docs, id);
    if k == -1 {
        if version == 1 {
            (true, docs.push(DocumentModel { id, deleted: 0, revs: seq![fresh_blob_revision(data, now)] }))
        } else {
            (false, docs)
        }
    } else if docs[k].deleted != 0 {
        (false, docs)
    } else if docs[k].revs.last().committed {
        if version == docs[k].revs.len() + 1 {
            (true, docs.update(k, DocumentModel {
                revs: docs[k].revs.push(RevisionModel {
                    client_date_modified: now,
                    committed: false,
                    data: Option::Some(data),
                    ..docs[k].revs.last()
                }),
                ..docs[k]
            }))
        } else {
            (false, docs)
        }
    } else {
        if version == docs[k].revs.len() {
            (true, docs.update(k, DocumentModel {
                revs: docs[k].revs.update(docs[k].revs.len() - 1, RevisionModel {
                    client_date_modified: now,
                    data: Option::Some(data),
                    ..docs[k].revs.last()
                }),
                ..docs[k]
            }))
        } else {
            (false, docs)
        }
    }
}

/// The committed revision that a metadata update builds: the supplied
/// modification time, each optional override applied over the prior value,
/// and the prior revision's blob carried over unchanged.
pub open spec fn committed_meta_revision(
    prev: RevisionModel,
    cdm: int,
    file_type: Option<Seq<char>>,
    name: Option<Seq<char>>,
    current_page: Option<int>,
    bookmarked: Option<bool>,
    parent: Option<Seq<char>>,
) -> RevisionModel {
    RevisionModel {
        client_date_modified: cdm,
        file_type: override_or(prev.file_type, file_type),
        name: override_or(prev.name, name),
        current_page: override_or(prev.current_page, current_page),
        bookmarked: override_or(prev.bookmarked, bookmarked),
        parent: override_or(prev.parent, parent),
        committed: true,
        data: prev.data,
    }
}

/// The stand-in for the revision before a document's first: no blob, default
/// metadata, and the collection document type.
pub open spec fn placeholder_revision() -> RevisionModel {
    RevisionModel {
        client_date_modified: 0,
        file_type: "CollectionType"@,
        name: Seq::empty(),
        current_page: 0,
        bookmarked: false,
        parent: Seq::empty(),
        committed: true,
        data: Option::None,
    }
}

/// What `put_metadata` does: the commit step of the two-phase upload.
///
/// The same version-acceptance rule as `put_data`, but on acceptance the
/// revision ends up committed: an uncommitted newest revision has its
/// metadata updated in place and flips to committed (this is the moment it
/// becomes visible); after a committed newest revision a new committed
/// revision is created whose blob is copied from it, so a metadata-only edit
/// never loses data. Tombstoned documents reject the update.
pub open spec fn put_metadata_spec(
    docs: Seq<DocumentModel>,
    id: Seq<char>,
    version: int,
    cdm: int,
    file_type: Option<Seq<char>>,
    name: Option<Seq<char>>,
    current_page: Option<int>,
    bookmarked: Option<bool>,
    parent: Option<Seq<char>>,
) -> (Option<MetadataModel>, Seq<DocumentModel>) {
    let k = find_doc(docs, id);
    if k == -1 {
        if version == 1 {
            let rev = committed_meta_revision(
                placeholder_revision(), cdm, file_type, name, current_page, bookmarked, parent);
            let doc = DocumentModel { id, deleted: 0, revs: seq![rev] };
            (Option::Some(rev_meta(doc, 1)), docs.push(doc))
        } else {
            (Option::None, docs)
        }
    } else if docs[k].deleted != 0 {
        (Option::None, docs)
    } else if docs[k].revs.last().committed {
        if version == docs[k].revs.len() + 1 {
            let rev = committed_meta_revision(
                docs[k].revs.last(), cdm, file_type, name, current_page, bookmarked, parent);
            let doc = DocumentModel { revs: docs[k].revs.push(rev), ..docs[k] };
            (Option::Some(rev_meta(doc, version)), docs.update(k, doc))
        } else {
            (Option::None, docs)
        }
    } else {
        if version == docs[k].revs.len() {
            let rev = committed_meta_revision(
                docs[k].revs.last(), cdm, file_type, name, current_page, bookmarked, parent);
            let doc = DocumentModel { revs: docs[k].revs.update(version - 1, rev), ..docs[k] };
            (Option::Some(rev_meta(doc, version)), docs.update(k, doc))
        } else {
            (Option::None, docs)
        }
    }
}

/// What `delete_file` does: soft deletion by tombstone.
///
/// Accepted only when the document's newest visible revision exists and its
/// version matches exactly; then every row of the document gets the tombstone
/// timestamp and no new version is created. The metadata returned is the
/// pre-deletion row. Any other request changes nothing.
pub open spec fn delete_spec(
    docs: Seq<DocumentModel>,
    id: Seq<char>,
    version: int,
    now: int,
) -> (Option<MetadataModel>, Seq<DocumentModel>) {
    let k = find_doc(docs, id);
    if k == -1 {
        (Option::None, docs)
    } else if is_visible(docs[k]) && version == visible_version(docs[k]) {
        (
            Option::Some(rev_meta(docs[k], visible_version(docs[k]))),
            docs.update(k, DocumentModel { deleted: now, ..docs[k] }),
        )
    } else {
        (Option::None, docs)
    }
}

/// Whether a document's tombstone has aged past the retention window.
pub open spec fn purgeable(d: DocumentModel, now: int) -> bool {
    d.deleted != 0 && d.deleted < now - DELETED_FILE_EXPIRATION
}

/// What `clean_deleted_files` does: every document whose tombstone age
/// exceeds the retention window is removed with all its rows, and every
/// other document is kept unchanged, in order.
pub open spec fn clean_spec(docs: Seq<DocumentModel>, now: int) -> Seq<DocumentModel>
    decreases docs.len(),
{
    if docs.len() == 0 {
        Seq::empty()
    } else if purgeable(docs[0], now) {
        clean_spec(docs.drop_first(), now)
    } else {
        seq![docs[0]] + clean_spec(docs.drop_first(), now)
    }
}

/// Purging keeps the store well formed: it only ever drops whole documents.
pub proof fn lemma_clean_wf(docs: Seq<DocumentModel>, now: int)
    requires
        store_wf(docs),
    ensures
        store_wf(clean_spec(docs, now)),
        forall|j: int| 0 <= j < clean_spec(docs, now).len()
            ==> exists|i: int| 0 <= i < docs.len() && #[trigger] clean_spec(docs, now)[j] == docs[i],
    decreases docs.len(),
{
    if docs.len() > 0 {
        let rest = docs.drop_first();
        assert(store_wf(rest)) by {
            assert forall|i: int| 0 <= i < rest.len() implies doc_wf(#[trigger] rest[i]) by {
                assert(rest[i] == docs[i + 1]);
            }
        }
        lemma_clean_wf(rest, now);
        let cleaned = clean_spec(docs, now);
        let crest = clean_spec(rest, now);
        assert forall|j: int| 0 <= j < cleaned.len()
            implies exists|i: int| 0 <= i < docs.len() && #[trigger] cleaned[j] == docs[i] by {
            if purgeable(docs[0], now) {
                let i0 = choose|i: int| 0 <= i < rest.len() && crest[j] == rest[i];
                assert(cleaned[j] == docs[i0 + 1]);
            } else if j == 0 {
                assert(cleaned[0] == docs[0]);
            } else {
                let i0 = choose|i: int| 0 <= i < rest.len() && crest[j - 1] == rest[i];
                assert(cleaned[j] == docs[i0 + 1]);
            }
        }
        assert forall|a: int, b: int| 0 <= a < b < cleaned.len()
            implies cleaned[a].id != cleaned[b].id by {
            if !purgeable(docs[0], now) && a == 0 {
                let ib = choose|i: int| 0 <= i < rest.len() && crest[b - 1] == rest[i];
                assert(cleaned[b] == docs[ib + 1]);
            }
        }
    }
}

/// What `list_metadata` does: the newest visible revision of every visible
/// document, one row per document, in store order.
pub open spec fn list_metadata_spec(docs: Seq<DocumentModel>) -> Seq<MetadataModel>
    decreases docs.len(),
{
    if docs.len() == 0 {
        Seq::empty()
    } else {
        let rest = list_metadata_spec(docs.drop_last());
        if is_visible(docs.last()) {
            rest.push(rev_meta(docs.last(), visible_version(docs.last())))
        } else {
            rest
        }
    }
}

/// What `get_data_by_id_version` returns: the blob bytes of one committed,
/// not tombstoned revision, or nothing.
pub open spec fn get_data_spec(docs: Seq<DocumentModel>, id: Seq<char>, version: int) -> Option<Seq<u8>> {
    let k = find_doc(docs, id);
    if k == -1 {
        Option::None
    } else if docs[k].deleted == 0 && 1 <= version <= docs[k].revs.len()
        && docs[k].revs[version - 1].committed {
        docs[k].revs[version - 1].data
    } else {
        Option::None
    }
}

// ---------------------------------------------------------------------------
// Laws
// ---------------------------------------------------------------------------

/// Law: in a well-formed store, at most one revision of any document is
/// uncommitted at any time, and it is always the one with the highest
/// version: every revision below the newest is committed.
pub proof fn lemma_at_most_one_uncommitted(docs: Seq<DocumentModel>, k: int, i: int)
    requires
        store_wf(docs),
        0 <= k < docs.len(),
        0 <= i < docs[k].revs.len() - 1,
    ensures
        docs[k].revs[i].committed,
{
    assert(doc_wf(docs[k]));
}

/// Law: when the newest revision is committed and the document is alive, a
/// blob upload at exactly the next version is accepted, and an upload at any
/// other version — or at any version of a tombstoned document — is rejected
/// and leaves the store unchanged.
pub proof fn lemma_put_data_acceptance(
    docs: Seq<DocumentModel>,
    id: Seq<char>,
    version: int,
    data: Seq<u8>,
    now: int,
)
    requires
        store_wf(docs),
        find_doc(docs, id) != -1,
    ensures
        ({
            let d = docs[find_doc(docs, id)];
            &&& (d.deleted == 0 && d.revs.last().committed && version == d.revs.len() + 1)
                ==> put_data_spec(docs, id, version, data, now).0
            &&& (d.deleted == 0 && d.revs.last().committed && version != d.revs.len() + 1)
                ==> !put_data_spec(docs, id, version, data, now).0
            &&& d.deleted != 0 ==> !put_data_spec(docs, id, version, data, now).0
            &&& !put_data_spec(docs, id, version, data, now).0
                ==> put_data_spec(docs, id, version, data, now).1 == docs
        }),
{
    lemma_find_doc(docs, id);
}

/// Law: deleting at the newest visible version writes the tombstone on the
/// document without creating a new version; deleting at any other version is
/// rejected and writes no tombstone.
pub proof fn lemma_delete_acceptance(
    docs: Seq<DocumentModel>,
    id: Seq<char>,
    version: int,
    now: int,
)
    requires
        store_wf(docs),
        find_doc(docs, id) != -1,
    ensures
        ({
            let k = find_doc(docs, id);
            let d = docs[k];
            let (m, post) = delete_spec(docs, id, version, now);
            &&& (is_visible(d) && version == visible_version(d)) ==> {
                &&& m == Option::Some(rev_meta(d, version))
                &&& post[k].deleted == now
                &&& post[k].revs == d.revs
                &&& post.len() == docs.len()
            }
            &&& !(is_visible(d) && version == visible_version(d)) ==> m is None && post == docs
        }),
{
    lemma_find_doc(docs, id);
}

/// Law: two uploads racing for the slot after the newest committed
/// revision, serialized by the write transaction, both land on that one
/// slot: the first creates the pending revision and the second overwrites
/// its bytes in place as a re-upload. The document gains exactly one
/// revision, no committed revision is touched, the pending revision stays
/// invisible, and the last writer's bytes win.
pub proof fn lemma_racing_uploads(
    docs: Seq<DocumentModel>,
    id: Seq<char>,
    first: Seq<u8>,
    second: Seq<u8>,
    t1: int,
    t2: int,
)
    requires
        store_wf(docs),
        find_doc(docs, id) != -1,
        docs[find_doc(docs, id)].deleted == 0,
        docs[find_doc(docs, id)].revs.last().committed,
    ensures
        ({
            let k = find_doc(docs, id);
            let n = docs[k].revs.len() as int;
            let (ok1, mid) = put_data_spec(docs, id, n + 1, first, t1);
            let (ok2, post) = put_data_spec(mid, id, n + 1, second, t2);
            &&& ok1
            &&& ok2
            &&& post.len() == docs.len()
            &&& post[k].revs.len() == n + 1
            &&& post[k].revs[n].data == Option::Some(second)
            &&& !post[k].revs[n].committed
            &&& forall|i: int| 0 <= i < n ==> post[k].revs[i] == docs[k].revs[i]
            &&& visible_version(post[k]) == visible_version(docs[k])
        }),
{
    lemma_find_doc(docs, id);
    let k = find_doc(docs, id);
    let n = docs[k].revs.len() as int;
    let (ok1, mid) = put_data_spec(docs, id, n + 1, first, t1);
    assert(find_doc(mid, id) == k) by {
        lemma_find_doc(mid, id);
        let f = find_doc(mid, id);
        assert(mid[k].id == id);
        assert(f != -1);
        if f < k {
            assert(mid[f] == docs[f]);
            assert(docs[f].id != id);
            assert(false);
        }
        if f > k {
            assert(mid[k].id != id);
            assert(false);
        }
    }
    let (ok2, post) = put_data_spec(mid, id, n + 1, second, t2);
    assert(post[k].revs =~= mid[k].revs.update(n, RevisionModel {
        client_date_modified: t2,
        data: Option::Some(second),
        ..mid[k].revs.last()
    }));
}

/// Law: a metadata-only edit on a committed newest revision carries that
/// revision's blob bytes unchanged into the new committed revision.
pub proof fn lemma_metadata_edit_preserves_blob(
    docs: Seq<DocumentModel>,
    id: Seq<char>,
    cdm: int,
    file_type: Option<Seq<char>>,
    name: Option<Seq<char>>,
    current_page: Option<int>,
    bookmarked: Option<bool>,
    parent: Option<Seq<char>>,
)
    requires
        store_wf(docs),
        find_doc(docs, id) != -1,
        docs[find_doc(docs, id)].deleted == 0,
        docs[find_doc(docs, id)].revs.last().committed,
    ensures
        ({
            let k = find_doc(docs, id);
            let n = docs[k].revs.len() as int;
            let (m, post) = put_metadata_spec(
                docs, id, n + 1, cdm, file_type, name, current_page, bookmarked, parent);
            &&& m is Some
            &&& post[k].revs.len() == n + 1
            &&& post[k].revs[n].data == docs[k].revs[n - 1].data
            &&& post[k].revs[n].committed
        }),
{
    lemma_find_doc(docs, id);
}

/// Nothing that has outlived the retention window survives a purge, and
/// every document within it is kept.
pub proof fn lemma_clean_complete(docs: Seq<DocumentModel>, now: int)
    ensures
        forall|j: int| 0 <= j < clean_spec(docs, now).len()
            ==> !purgeable(#[trigger] clean_spec(docs, now)[j], now),
        forall|i: int| 0 <= i < docs.len() && !purgeable(#[trigger] docs[i], now)
            ==> clean_spec(docs, now).contains(docs[i]),
    decreases docs.len(),
{
    if docs.len() > 0 {
        let rest = docs.drop_first();
        lemma_clean_complete(rest, now);
        let cleaned = clean_spec(docs, now);
        let crest = clean_spec(rest, now);
        assert forall|i: int| 0 <= i < docs.len() && !purgeable(#[trigger] docs[i], now)
            implies cleaned.contains(docs[i]) by {
            if i == 0 {
                assert(cleaned[0] == docs[0]);
            } else {
                assert(rest[i - 1] == docs[i]);
                assert(crest.contains(rest[i - 1]));
                let j = choose|j: int| 0 <= j < crest.len() && crest[j] == rest[i - 1];
                if purgeable(docs[0], now) {
                    assert(cleaned[j] == docs[i]);
                } else {
                    assert(cleaned[j + 1] == docs[i]);
                }
            }
        }
    }
}

/// Whether metadata row `m` is the newest visible revision of the document
/// at index `i`.
pub open spec fn listed_row_from(docs: Seq<DocumentModel>, m: MetadataModel, i: int) -> bool {
    &&& 0 <= i < docs.len()
    &&& is_visible(docs[i])
    &&& m == rev_meta(docs[i], visible_version(docs[i]))
}

/// The index of the document that listing row `j` came from.
pub open spec fn listed_source(docs: Seq<DocumentModel>, j: int) -> int {
    choose|i: int| listed_row_from(docs, list_metadata_spec(docs)[j], i)
}

/// Rows the listing shows and rows it hides: every listed row is the newest
/// visible revision of some visible document, and every visible document's
/// newest visible revision is listed.
pub proof fn lemma_list_metadata_complete(docs: Seq<DocumentModel>)
    ensures
        forall|j: int| 0 <= j < list_metadata_spec(docs).len()
            ==> #[trigger] listed_row_from(docs, list_metadata_spec(docs)[j], listed_source(docs, j)),
        forall|i: int| 0 <= i < docs.len() && is_visible(#[trigger] docs[i])
            ==> list_metadata_spec(docs).contains(rev_meta(docs[i], visible_version(docs[i]))),
    decreases docs.len(),
{
    if docs.len() > 0 {
        let head = docs.drop_last();
        lemma_list_metadata_complete(head);
        let listed = list_metadata_spec(docs);
        let lhead = list_metadata_spec(head);
        assert forall|j: int| 0 <= j < listed.len()
            implies #[trigger] listed_row_from(docs, list_metadata_spec(docs)[j], listed_source(docs, j)) by {
            if j < lhead.len() {
                assert(0 <= j < list_metadata_spec(head).len());
                assert(listed_row_from(head, list_metadata_spec(head)[j], listed_source(head, j)));
                let i0 = listed_source(head, j);
                assert(head[i0] == docs[i0]);
                assert(listed_row_from(docs, listed[j], i0));
            } else {
                assert(is_visible(docs.last()));
                assert(listed_row_from(docs, listed[j], docs.len() - 1));
            }
        }
        assert forall|i: int| 0 <= i < docs.len() && is_visible(#[trigger] docs[i])
            implies listed.contains(rev_meta(docs[i], visible_version(docs[i]))) by {
            if i < docs.len() - 1 {
                assert(head[i] == docs[i]);
                assert(lhead.contains(rev_meta(head[i], visible_version(head[i]))));
                let j = choose|j: int| 0 <= j < lhead.len()
                    && lhead[j] == rev_meta(head[i], visible_version(head[i]));
                assert(listed[j] == rev_meta(docs[i], visible_version(docs[i])));
            } else {
                assert(listed[listed.len() - 1] == rev_meta(docs[i], visible_version(docs[i])));
            }
        }
    } else {
        assert(list_metadata_spec(docs).len() == 0);
    }
}

/// Law: committing the metadata of an uncommitted newest revision makes
/// exactly that revision visible in the listing; before the commit that
/// revision appears nowhere in the listing.
pub proof fn lemma_commit_makes_visible(
    docs: Seq<DocumentModel>,
    id: Seq<char>,
    cdm: int,
    file_type: Option<Seq<char>>,
    name: Option<Seq<char>>,
    current_page: Option<int>,
    bookmarked: Option<bool>,
    parent: Option<Seq<char>>,
)
    requires
        store_wf(docs),
        find_doc(docs, id) != -1,
        docs[find_doc(docs, id)].deleted == 0,
        !docs[find_doc(docs, id)].revs.last().committed,
    ensures
        ({
            let k = find_doc(docs, id);
            let n = docs[k].revs.len() as int;
            let (m, post) = put_metadata_spec(
                docs, id, n, cdm, file_type, name, current_page, bookmarked, parent);
            &&& m is Some
            &&& m.unwrap().version == n
            &&& m.unwrap().committed
            &&& list_metadata_spec(post).contains(m.unwrap())
            &&& forall|j: int| 0 <= j < list_metadata_spec(docs).len()
                ==> #[trigger] list_metadata_spec(docs)[j].id != id
                    || list_metadata_spec(docs)[j].version != n
        }),
{
    lemma_find_doc(docs, id);
    let k = find_doc(docs, id);
    let n = docs[k].revs.len() as int;
    let (m, post) = put_metadata_spec(
        docs, id, n, cdm, file_type, name, current_page, bookmarked, parent);
    assert(doc_wf(docs[k]));
    assert(post[k].revs.last().committed);
    assert(visible_version(post[k]) == n);
    assert(rev_meta(post[k], n) =~= m.unwrap());
    lemma_list_metadata_complete(post);
    assert(is_visible(post[k]));
    lemma_list_metadata_complete(docs);
    assert forall|j: int| 0 <= j < list_metadata_spec(docs).len()
        implies #[trigger] list_metadata_spec(docs)[j].id != id
            || list_metadata_spec(docs)[j].version != n by {
        assert(listed_row_from(docs, list_metadata_spec(docs)[j], listed_source(docs, j)));
        let i0 = listed_source(docs, j);
        if i0 == k {
            assert(visible_version(docs[k]) == n - 1);
        } else {
            assert(docs[i0].id != id);
        }
    }
}

/// Law: uploading the first blob of a new document and then committing its
/// metadata yields a store whose newest visible revision for that id is
/// version 1, committed, holding exactly the uploaded bytes.
pub proof fn lemma_upload_roundtrip(
    docs: Seq<DocumentModel>,
    id: Seq<char>,
    data: Seq<u8>,
    now: int,
    cdm: int,
    file_type: Option<Seq<char>>,
    name: Option<Seq<char>>,
    current_page: Option<int>,
    bookmarked: Option<bool>,
    parent: Option<Seq<char>>,
)
    requires
        store_wf(docs),
        find_doc(docs, id) == -1,
    ensures
        ({
            let (ok, mid) = put_data_spec(docs, id, 1, data, now);
            let (m, post) = put_metadata_spec(
                mid, id, 1, cdm, file_type, name, current_page, bookmarked, parent);
            &&& ok
            &&& m is Some
            &&& m.unwrap().version == 1
            &&& m.unwrap().committed
            &&& get_metadata_spec(post, id) == Option::Some(m.unwrap())
            &&& get_data_spec(post, id, 1) == Option::Some(data)
        }),
{
    lemma_find_doc(docs, id);
    let (ok, mid) = put_data_spec(docs, id, 1, data, now);
    let len = docs.len() as int;
    assert(mid[len].id == id);
    lemma_find_doc(mid, id);
    assert(find_doc(mid, id) == len) by {
        let f = find_doc(mid, id);
        assert(f != -1);
        if f < len {
            assert(mid[f] == docs[f]);
            assert(false);
        }
    }
    let (m, post) = put_metadata_spec(
        mid, id, 1, cdm, file_type, name, current_page, bookmarked, parent);
    lemma_find_doc(post, id);
    assert(find_doc(post, id) == len) by {
        let f = find_doc(post, id);
        assert(post[len].id == id);
        assert(f != -1);
        if f < len {
            assert(post[f] == docs[f]);
            assert(false);
        }
    }
    assert(visible_version(post[len]) == 1);
    assert(get_metadata_spec(post, id) == Option::Some(rev_meta(post[len], 1)));
    assert(rev_meta(post[len], 1) =~= m.unwrap());
}

// ---------------------------------------------------------------------------
// Executable store operations
// ---------------------------------------------------------------------------

/// A copy of an optional blob.
fn clone_blob(d: &Option<Vec<u8>>) -> (r: Option<Vec<u8>>)
    ensures
        blob_view(r) == blob_view(*d),
{
    match d {
        Some(v) => {
            let c = v.clone();
            proof {
                assert(c@ =~= v@);
            }
            Some(c)
        },
        None => None,
    }
}

impl FileStore {
    /// A store holding no documents.
    pub fn new() -> (r: FileStore)
        ensures
            r@ =~= Seq::<DocumentModel>::empty(),
            store_wf(r@),
    {
        FileStore { docs: Vec::new() }
    }

    /// Index of the document with this id, if it is present.
    fn find(&self, id: &String) -> (r: Option<usize>)
        ensures
            match r {
                Option::Some(k) => k < self@.len() && find_doc(self@, id@) == k as int,
                Option::None => find_doc(self@, id@) == -1,
            },
    {
        let mut k: usize = 0;
        while k < self.docs.len()
            invariant
                k <= self.docs.len(),
                forall|i: int| 0 <= i < k ==> (#[trigger] self@[i]).id != id@,
            decreases self.docs.len() - k,
        {
            if self.docs[k].id.eq(id) {
                proof {
                    assert(self@[k as int].id == id@);
                    lemma_find_doc(self@, id@);
                    let m = find_doc(self@, id@);
                    assert(m != -1);
                    if m < k as int {
                        assert(self@[m].id != id@);
                        assert(false);
                    }
                    if m > k as int {
                        assert(self@[k as int].id != id@);
                        assert(false);
                    }
                }
                return Some(k);
            }
            k = k + 1;
        }
        proof {
            lemma_find_doc(self@, id@);
        }
        None
    }

    /// The newest visible (committed and not tombstoned) revision of the
    /// document, or nothing when the document is absent, tombstoned, or not
    /// yet committed.
    pub fn get_metadata_by_id(&self, id: &str) -> (r: Option<DbFileMetadata>)
        requires
            store_wf(self@),
        ensures
            match r {
                Option::Some(m) => get_metadata_spec(self@, id@) == Option::Some(m@),
                Option::None => get_metadata_spec(self@, id@) is None,
            },
    {
        let id_owned = id.to_owned();
        match self.find(&id_owned) {
            None => None,
            Some(k) => self.visible_metadata(k),
        }
    }

    /// Two-phase upload, first step: store blob bytes for the given version.
    ///
    /// Returns whether the upload was applied; a rejection is the normal
    /// concurrency outcome, not an error.
    pub fn put_data(&mut self, id: String, version: i64, data: &[u8], now: i64) -> (r: bool)
        requires
            store_wf(old(self)@),
        ensures
            r == put_data_spec(old(self)@, id@, version as int, data@, now as int).0,
            final(self)@ == put_data_spec(old(self)@, id@, version as int, data@, now as int).1,
            store_wf(final(self)@),
    {
        let ghost pre = self@;
        match self.find(&id) {
            None => {
                proof {
                    lemma_find_doc(pre, id@);
                }
                if version == 1 {
                    let mut revs: Vec<Revision> = Vec::new();
                    revs.push(Revision {
                        client_date_modified: now,
                        file_type: "DocumentType".to_owned(),
                        name: String::new(),
                        current_page: 0,
                        bookmarked: false,
                        parent: String::new(),
                        committed: false,
                        data: Some(vstd::slice::slice_to_vec(data)),
                    });
                    self.docs.push(Document { id, deleted: 0, revs });
                    proof {
                        assert(final(self)@ =~~= put_data_spec(pre, id@, version as int, data@, now as int).1);
                    }
                    true
                } else {
                    false
                }
            },
            Some(k) => {
                proof {
                    assert(doc_wf(pre[k as int]));
                }
                if self.docs[k].deleted != 0 {
                    return false;
                }
                let n = self.docs[k].revs.len();
                if self.docs[k].revs[n - 1].committed {
                    if version >= 1 && version - 1 == n as i64 {
                        let new_rev = {
                            let d = &self.docs[k];
                            let prev = &d.revs[n - 1];
                            Revision {
                                client_date_modified: now,
                                file_type: prev.file_type.clone(),
                                name: prev.name.clone(),
                                current_page: prev.current_page,
                                bookmarked: prev.bookmarked,
                                parent: prev.parent.clone(),
                                committed: false,
                                data: Some(vstd::slice::slice_to_vec(data)),
                            }
                        };
                        self.docs[k].revs.push(new_rev);
                        proof {
                            assert(final(self)@ =~~= put_data_spec(pre, id@, version as int, data@, now as int).1);
                        }
                        true
                    } else {
                        false
                    }
                } else {
                    if version == n as i64 {
                        let bytes = vstd::slice::slice_to_vec(data);
                        let rev = &mut self.docs[k].revs[n - 1];
                        rev.client_date_modified = now;
                        rev.data = Some(bytes);
                        proof {
                            assert(final(self)@ =~~= put_data_spec(pre, id@, version as int, data@, now as int).1);
                        }
                        true
                    } else {
                        false
                    }
                }
            },
        }
    }

    /// Two-phase upload, commit step: finalize a revision's metadata and make
    /// it visible.
    ///
    /// Returns the resulting full metadata row on success, or nothing on a
    /// version mismatch or deletion conflict.
    pub fn put_metadata(
        &mut self,
        id: String,
        version: i64,
        client_date_modified: i64,
        file_type: Option<String>,
        name: Option<String>,
        current_page: Option<i64>,
        bookmarked: Option<bool>,
        parent: Option<String>,
    ) -> (r: Option<DbFileMetadata>)
        requires
            store_wf(old(self)@),
        ensures
            ({
                let (m, post) = put_metadata_spec(
                    old(self)@, id@, version as int, client_date_modified as int,
                    opt_str_view(file_type), opt_str_view(name), opt_int_view(current_page),
                    bookmarked, opt_str_view(parent));
                &&& match r {
                    Option::Some(md) => m == Option::Some(md@),
                    Option::None => m is None,
                }
                &&& final(self)@ == post
                &&& store_wf(final(self)@)
            }),
    {
        let ghost pre = self@;
        let ghost m_spec = put_metadata_spec(
            pre, id@, version as int, client_date_modified as int,
            opt_str_view(file_type), opt_str_view(name), opt_int_view(current_page),
            bookmarked, opt_str_view(parent));
        match self.find(&id) {
            None => {
                proof {
                    lemma_find_doc(pre, id@);
                }
                if version == 1 {
                    let rev = Revision {
                        client_date_modified,
                        file_type: match file_type {
                            Some(v) => v,
                            None => "CollectionType".to_owned(),
                        },
                        name: match name {
                            Some(v) => v,
                            None => String::new(),
                        },
                        current_page: match current_page {
                            Some(v) => v,
                            None => 0,
                        },
                        bookmarked: match bookmarked {
                            Some(v) => v,
                            None => false,
                        },
                        parent: match parent {
                            Some(v) => v,
                            None => String::new(),
                        },
                        committed: true,
                        data: None,
                    };
                    let meta = DbFileMetadata {
                        id: id.clone(),
                        version: 1,
                        client_date_modified: rev.client_date_modified,
                        file_type: rev.file_type.clone(),
                        name: rev.name.clone(),
                        current_page: rev.current_page,
                        bookmarked: rev.bookmarked,
                        parent: rev.parent.clone(),
                        committed: true,
                        deleted: 0,
                    };
                    let mut revs: Vec<Revision> = Vec::new();
                    revs.push(rev);
                    self.docs.push(Document { id, deleted: 0, revs });
                    proof {
                        assert(final(self)@ =~~= m_spec.1);
                        assert(m_spec.0 == Option::Some(meta@)) by {
                            assert(meta@ =~~= m_spec.0.unwrap());
                        }
                    }
                    Some(meta)
                } else {
                    None
                }
            },
            Some(k) => {
                proof {
                    assert(doc_wf(pre[k as int]));
                }
                if self.docs[k].deleted != 0 {
                    return None;
                }
                let n = self.docs[k].revs.len();
                let last_committed = self.docs[k].revs[n - 1].committed;
                let accepted = if last_committed {
                    version >= 1 && version - 1 == n as i64
                } else {
                    version == n as i64
                };
                if !accepted {
                    return None;
                }
                let rev = {
                    let prev = &self.docs[k].revs[n - 1];
                    Revision {
                        client_date_modified,
                        file_type: match file_type {
                            Some(v) => v,
                            None => prev.file_type.clone(),
                        },
                        name: match name {
                            Some(v) => v,
                            None => prev.name.clone(),
                        },
                        current_page: match current_page {
                            Some(v) => v,
                            None => prev.current_page,
                        },
                        bookmarked: match bookmarked {
                            Some(v) => v,
                            None => prev.bookmarked,
                        },
                        parent: match parent {
                            Some(v) => v,
                            None => prev.parent.clone(),
                        },
                        committed: true,
                        data: clone_blob(&prev.data),
                    }
                };
                let meta = DbFileMetadata {
                    id: self.docs[k].id.clone(),
                    version,
                    client_date_modified: rev.client_date_modified,
                    file_type: rev.file_type.clone(),
                    name: rev.name.clone(),
                    current_page: rev.current_page,
                    bookmarked: rev.bookmarked,
                    parent: rev.parent.clone(),
                    committed: true,
                    deleted: 0,
                };
                if last_committed {
                    self.docs[k].revs.push(rev);
                } else {
                    let slot = &mut self.docs[k].revs[n - 1];
                    *slot = rev;
                }
                proof {
                    assert(final(self)@ =~~= m_spec.1);
                    assert(m_spec.0 == Option::Some(meta@)) by {
                        assert(meta@ =~~= m_spec.0.unwrap());
                    }
                }
                Some(meta)
            },
        }
    }

    /// Soft-delete a document by writing a tombstone timestamp on it.
    ///
    /// Succeeds only when `version` matches the newest visible revision
    /// exactly; then the pre-deletion metadata is returned. No new version is
    /// created, and a mismatch changes nothing.
    pub fn delete_file(&mut self, id: &str, version: i64, now: i64) -> (r: Option<DbFileMetadata>)
        requires
            store_wf(old(self)@),
            0 < now,
        ensures
            match r {
                Option::Some(m) => delete_spec(old(self)@, id@, version as int, now as int).0
                    == Option::Some(m@),
                Option::None => delete_spec(old(self)@, id@, version as int, now as int).0 is None,
            },
            final(self)@ == delete_spec(old(self)@, id@, version as int, now as int).1,
            store_wf(final(self)@),
    {
        let ghost pre = self@;
        let id_owned = id.to_owned();
        match self.find(&id_owned) {
            None => None,
            Some(k) => {
                match self.visible_metadata(k) {
                    None => None,
                    Some(meta) => {
                        if meta.version == version {
                            self.docs[k].deleted = now;
                            proof {
                                assert(final(self)@ =~~= delete_spec(pre, id@, version as int, now as int).1);
                            }
                            Some(meta)
                        } else {
                            None
                        }
                    },
                }
            },
        }
    }

    /// Physically remove every document whose tombstone age exceeds the
    /// retention window. Idempotent; never touches live or recently deleted
    /// documents.
    pub fn clean_deleted_files(&mut self, now: i64)
        requires
            store_wf(old(self)@),
            i64::MIN + DELETED_FILE_EXPIRATION <= now,
        ensures
            final(self)@ == clean_spec(old(self)@, now as int),
            store_wf(final(self)@),
    {
        let ghost orig = self@;
        let cutoff = now - DELETED_FILE_EXPIRATION;
        let mut rest: Vec<Document> = Vec::new();
        core::mem::swap(&mut self.docs, &mut rest);
        proof {
            assert(self@ =~~= Seq::<DocumentModel>::empty());
        }
        while rest.len() > 0
            invariant
                self@ + clean_spec(rest@.map_values(|d: Document| d@), now as int)
                    =~~= clean_spec(orig, now as int),
                cutoff == now - DELETED_FILE_EXPIRATION,
            decreases rest.len(),
        {
            let ghost rem_pre = rest@.map_values(|d: Document| d@);
            let d = rest.remove(0);
            proof {
                assert(rest@.map_values(|dd: Document| dd@) =~~= rem_pre.drop_first());
                assert(rem_pre[0] == d@);
            }
            if d.deleted != 0 && d.deleted < cutoff {
                proof {
                    assert(purgeable(d@, now as int));
                }
            } else {
                let ghost self_pre = self@;
                self.docs.push(d);
                proof {
                    assert(self@ =~~= self_pre.push(d@));
                    assert(self_pre.push(d@) + clean_spec(rem_pre.drop_first(), now as int)
                        =~~= self_pre + (seq![d@] + clean_spec(rem_pre.drop_first(), now as int)));
                }
            }
        }
        proof {
            assert(rest@.map_values(|d: Document| d@) =~~= Seq::<DocumentModel>::empty());
            assert(final(self)@ =~~= clean_spec(orig, now as int));
            lemma_clean_wf(orig, now as int);
        }
    }

    /// The newest visible revision of every visible document, one row per
    /// document, in store order.
    pub fn list_metadata(&self) -> (r: Vec<DbFileMetadata>)
        requires
            store_wf(self@),
        ensures
            r@.map_values(|m: DbFileMetadata| m@) == list_metadata_spec(self@),
    {
        let mut out: Vec<DbFileMetadata> = Vec::new();
        let mut k: usize = 0;
        while k < self.docs.len()
            invariant
                store_wf(self@),
                k <= self.docs.len(),
                out@.map_values(|m: DbFileMetadata| m@) == list_metadata_spec(self@.take(k as int)),
            decreases self.docs.len() - k,
        {
            let ghost out_pre = out@;
            match self.visible_metadata(k) {
                Some(m) => out.push(m),
                None => (),
            }
            proof {
                assert(self@.take(k + 1).drop_last() =~~= self@.take(k as int));
                assert(self@.take(k + 1).last() == self@[k as int]);
                assert(out@.map_values(|m: DbFileMetadata| m@)
                    =~~= list_metadata_spec(self@.take(k + 1)));
            }
            k = k + 1;
        }
        proof {
            assert(self@.take(self@.len() as int) =~~= self@);
        }
        out
    }

    /// The blob bytes of one committed, not tombstoned revision, or nothing.
    pub fn get_data_by_id_version(&self, id: &str, version: i64) -> (r: Option<Vec<u8>>)
        requires
            store_wf(self@),
        ensures
            match r {
                Option::Some(v) => get_data_spec(self@, id@, version as int) == Option::Some(v@),
                Option::None => get_data_spec(self@, id@, version as int) is None,
            },
    {
        let id_owned = id.to_owned();
        match self.find(&id_owned) {
            None => None,
            Some(k) => {
                proof {
                    assert(doc_wf(self@[k as int]));
                }
                let d = &self.docs[k];
                if d.deleted != 0 {
                    return None;
                }
                if version < 1 || version > d.revs.len() as i64 {
                    return None;
                }
                let idx: usize = (version - 1) as usize;
                let rev = &d.revs[idx];
                if !rev.committed {
                    return None;
                }
                match &rev.data {
                    Some(v) => {
                        let c = v.clone();
                        proof {
                            assert(c@ =~= v@);
                        }
                        Some(c)
                    },
                    None => None,
                }
            },
        }
    }

    /// Every stored document, in store order — the whole table, uncommitted
    /// revisions and tombstones included, for persistence.
    pub fn documents(&self) -> (r: &Vec<Document>)
        ensures
            r@.map_values(|d: Document| d@) == self@,
    {
        &self.docs
    }

    /// A store over previously persisted documents, validated: every
    /// document must have at least one revision, a non-negative tombstone
    /// and no uncommitted revision below its newest, and ids must be
    /// distinct. Rejects anything else rather than serve from a corrupt
    /// table.
    pub fn from_documents(docs: Vec<Document>) -> (r: Option<FileStore>)
        ensures
            r matches Some(s) ==> s@ == docs@.map_values(|d: Document| d@) && store_wf(s@),
    {
        let ghost model = docs@.map_values(|d: Document| d@);
        let mut k: usize = 0;
        while k < docs.len()
            invariant
                k <= docs.len(),
                model == docs@.map_values(|d: Document| d@),
                forall|i: int| 0 <= i < k ==> doc_wf(#[trigger] model[i]),
                forall|i: int, j: int| 0 <= i < j < k ==> model[i].id != model[j].id,
            decreases docs.len() - k,
        {
            let d = &docs[k];
            let n = d.revs.len();
            if n == 0 || n > (i64::MAX as usize) || d.deleted < 0 {
                return None;
            }
            let mut v: usize = 0;
            while v + 1 < n
                invariant
                    v < n,
                    n == d.revs@.len(),
                    d == docs@[k as int],
                    forall|i: int| 0 <= i < v ==> (#[trigger] d.revs@[i]).committed,
                decreases n - v,
            {
                if !d.revs[v].committed {
                    return None;
                }
                v = v + 1;
            }
            let mut j: usize = 0;
            while j < k
                invariant
                    j <= k,
                    k < docs.len(),
                    model == docs@.map_values(|d2: Document| d2@),
                    forall|i: int| 0 <= i < j ==> model[i].id != model[k as int].id,
                decreases k - j,
            {
                if docs[j].id.eq(&docs[k].id) {
                    return None;
                }
                j = j + 1;
            }
            proof {
                assert(doc_wf(model[k as int]));
            }
            k = k + 1;
        }
        Some(FileStore { docs })
    }

    /// The metadata row of the newest visible revision of document `k`, if any.
    fn visible_metadata(&self, k: usize) -> (r: Option<DbFileMetadata>)
        requires
            store_wf(self@),
            k < self@.len(),
        ensures
            match r {
                Option::Some(m) => is_visible(self@[k as int])
                    && m@ == rev_meta(self@[k as int], visible_version(self@[k as int])),
                Option::None => !is_visible(self@[k as int]),
            },
    {
        proof {
            assert(doc_wf(self@[k as int]));
        }
        let d = &self.docs[k];
        if d.deleted != 0 {
            return None;
        }
        let n = d.revs.len();
        let vis: usize = if d.revs[n - 1].committed {
            n
        } else {
            n - 1
        };
        if vis == 0 {
            return None;
        }
        let rev = &d.revs[vis - 1];
        Some(DbFileMetadata {
            id: d.id.clone(),
            version: vis as i64,
            client_date_modified: rev.client_date_modified,
            file_type: rev.file_type.clone(),
            name: rev.name.clone(),
            current_page: rev.current_page,
            bookmarked: rev.bookmarked,
            parent: rev.parent.clone(),
            committed: rev.committed,
            deleted: d.deleted,
        })
    }
}

} // verus!
