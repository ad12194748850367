//! Single steps of the handlers, with the answers of storage written out.

use providers::azure::AzureBlobAdapter;
use providers::clock::{Instant, Stamp};
use providers::codec::compute_etag;
use providers::gcs::GcsAdapter;
use providers::http::{AuthConfig, Context, HeaderText, Method, Request, Response};
use providers::store::{
    BlockSession, Blocks, BlocksSlot, Bucket, Deletion, Effect, ErrorKind, Object,
    ObjectCondition, Outcome, Page, SessionSlot, Step, StorageError, Tape, UploadSession,
    UploadSlot, Versions,
};
use providers::table::Table;

fn cx(method: Method, uri: &str, headers: &[(&str, &str)], body: &[u8]) -> Context {
    let (path, raw_query) = match uri.split_once('?') {
        Some((path, query)) => (path, Some(query.to_string())),
        None => (uri, None),
    };
    let mut query = Table::new();
    for part in raw_query.as_deref().unwrap_or("").split('&').filter(|part| !part.is_empty()) {
        let (name, value) = part.split_once('=').unwrap_or((part, ""));
        query.insert(name, value.to_string());
    }
    Context {
        stamp: Stamp::take(),
        auth: AuthConfig { access_key_id: None, secret_access_key: None, enforce_auth: false },
        req: Request {
            method,
            verb: "PUT".to_string(),
            path: path.to_string(),
            raw_query,
            query,
            headers: Table {
                entries: headers
                    .iter()
                    .map(|(name, value)| {
                        (name.to_string(), HeaderText::Text(value.to_string()))
                    })
                    .collect(),
            },
            scheme: None,
            origin: "http://localhost".to_string(),
            body: body.to_vec(),
        },
    }
}

fn object(key: &str, data: &[u8]) -> Object {
    Object {
        key: key.to_string(),
        data: data.to_vec(),
        size: data.len() as u64,
        etag: compute_etag(data),
        content_type: "text/plain".to_string(),
        last_modified: Stamp::take().now,
        metadata: Table::new(),
        provider_metadata: Table::new(),
        version_id: None,
    }
}

fn bucket(metadata: &[(&str, &str)]) -> Bucket {
    let mut table = Table::new();
    for (name, value) in metadata {
        table.insert(name, value.to_string());
    }
    Bucket {
        name: "box".to_string(),
        created_at: Stamp::take().now,
        versioning_enabled: false,
        metadata: table,
    }
}

fn missing(kind: ErrorKind) -> StorageError {
    StorageError { kind, message: "missing".to_string() }
}

fn azure(cx: &Context, tape: &[fn() -> Outcome]) -> Step {
    let outcomes: Vec<Outcome> = tape.iter().map(|outcome| outcome()).collect();
    AzureBlobAdapter::handle_request(cx, Tape::new(&outcomes))
}

fn gcs(cx: &Context, outcomes: Vec<Outcome>) -> Step {
    GcsAdapter::handle_request(cx, Tape::new(&outcomes))
}

fn reply(step: Step) -> Response {
    match step {
        Step::Reply(response) => response,
        Step::Perform(_) => panic!("a reply was due, not a question"),
        Step::Fail(message) => panic!("a reply was due, not a failure: {message}"),
    }
}

fn asked(step: Step) -> Effect {
    match step {
        Step::Perform(effect) => effect,
        Step::Reply(response) => panic!("a question was due, not status {}", response.status),
        Step::Fail(message) => panic!("a question was due, not a failure: {message}"),
    }
}

fn no_deletion() -> Outcome {
    Outcome::Deletion(Ok(Deletion { purge_after: None }))
}

fn plain_bucket() -> Outcome {
    Outcome::Bucket(Ok(bucket(&[])))
}

const BLOB: &str = "/account/box/blob";

const BLOCK_BLOB: (&str, &str) = ("x-ms-blob-type", "BlockBlob");

// ---------------------------------------------------------------------------
// Azure Blob

#[test]
fn should_ask_storage_one_question_after_another() {
    let put = cx(Method::Put, BLOB, &[BLOCK_BLOB, ("x-ms-meta-k", "v")], b"content");
    assert!(matches!(asked(azure(&put, &[])), Effect::LoadDeletion(name) if name == "box"));
    assert!(matches!(asked(azure(&put, &[no_deletion])), Effect::LoadDeletion(_)));
    let admitted: [fn() -> Outcome; 2] = [no_deletion, no_deletion];
    assert!(matches!(asked(azure(&put, &admitted)), Effect::GetBucket(name) if name == "box"));
    let none: fn() -> Outcome = || Outcome::Object(Err(missing(ErrorKind::KeyNotFound)));
    let before = [no_deletion, no_deletion, plain_bucket, plain_bucket, none];
    match asked(azure(&put, &before)) {
        Effect::PutObject(container, key, stored) => {
            assert_eq!((container.as_str(), key.as_str()), ("box", "blob"));
            assert_eq!(stored.data, b"content");
            assert_eq!(stored.size, 7);
            assert_eq!(stored.etag, compute_etag(b"content"));
            assert_eq!(stored.metadata.get("k").map(String::as_str), Some("v"));
            assert_eq!(AzureBlobAdapter::blob_type(&stored), "BlockBlob");
        }
        _ => panic!("the blob should be put"),
    }
}

#[test]
fn should_give_a_blob_back_as_storage_has_it() {
    let found: fn() -> Outcome = || Outcome::Object(Ok(object("blob", b"content")));
    let tape = [no_deletion, no_deletion, plain_bucket, plain_bucket, found, plain_bucket];
    let whole = reply(azure(&cx(Method::Get, BLOB, &[], b""), &tape));
    assert_eq!(whole.status, 200);
    assert_eq!(whole.body, b"content");
    assert_eq!(
        whole.headers.get("etag").cloned(),
        Some(format!("\"{}\"", compute_etag(b"content")))
    );
    let head = reply(azure(&cx(Method::Head, BLOB, &[], b""), &tape));
    assert!(head.body.is_empty());
    assert_eq!(head.headers.get("content-length").map(String::as_str), Some("7"));
    let beyond = cx(Method::Get, BLOB, &[("x-ms-range", "bytes=7-")], b"");
    assert_eq!(reply(azure(&beyond, &tape)).status, 416);
}

#[test]
fn should_send_the_condition_of_a_write_to_storage() {
    let put = cx(Method::Put, BLOB, &[BLOCK_BLOB, ("if-none-match", "*")], b"content");
    let none: fn() -> Outcome = || Outcome::Object(Err(missing(ErrorKind::KeyNotFound)));
    let before = [no_deletion, no_deletion, plain_bucket, plain_bucket, none];
    assert!(matches!(
        asked(azure(&put, &before)),
        Effect::PutObjectIf(_, _, _, ObjectCondition::Missing)
    ));
    let refused: fn() -> Outcome = || Outcome::Flag(Ok(false));
    let after = [no_deletion, no_deletion, plain_bucket, plain_bucket, none, refused];
    assert_eq!(reply(azure(&put, &after)).status, 412);
}

#[test]
fn should_refuse_to_touch_protected_blobs() {
    let held: fn() -> Outcome = || {
        let mut blob = object("blob", b"content");
        blob.provider_metadata.insert("azure_legal_hold", "true".to_string());
        Outcome::Object(Ok(blob))
    };
    let tape = [no_deletion, no_deletion, plain_bucket, plain_bucket, held, plain_bucket];
    let put = cx(Method::Put, BLOB, &[BLOCK_BLOB], b"other");
    assert_eq!(reply(azure(&put, &tape)).status, 409);
    let delete = cx(Method::Delete, BLOB, &[], b"");
    assert_eq!(reply(azure(&delete, &tape)).status, 409);
    let metadata = cx(Method::Put, "/account/box/blob?comp=metadata", &[], b"");
    assert_eq!(reply(azure(&metadata, &tape)).status, 409);
}

#[test]
fn should_ask_for_the_lease_of_a_leased_blob() {
    let leased: fn() -> Outcome = || {
        let mut blob = object("blob", b"content");
        AzureBlobAdapter::set_lease_state(
            &mut blob,
            Some("lease".to_string()),
            "leased",
            "locked",
            None,
        );
        Outcome::Object(Ok(blob))
    };
    let tape = [no_deletion, no_deletion, plain_bucket, plain_bucket, leased, plain_bucket];
    let put = |headers: &[(&str, &str)]| cx(Method::Put, BLOB, headers, b"other");
    assert_eq!(reply(azure(&put(&[BLOCK_BLOB]), &tape)).status, 412);
    assert_eq!(reply(azure(&put(&[BLOCK_BLOB, ("x-ms-lease-id", "no")]), &tape)).status, 412);
    match asked(azure(&put(&[BLOCK_BLOB, ("x-ms-lease-id", "lease")]), &tape)) {
        Effect::PutObject(_, _, stored) => {
            assert_eq!(AzureBlobAdapter::lease_id(&stored), Some("lease"));
            assert!(AzureBlobAdapter::has_active_lease(&stored));
        }
        _ => panic!("the blob should be put"),
    }
}

#[test]
fn should_leave_containers_of_other_front_doors_alone() {
    for owner in [
        ("s3_versioning_status", "Enabled"),
        ("s3_versioning_status", "Suspended"),
        ("s3_object_lock_enabled", "true"),
        ("gcs_soft_delete_seconds", "604800"),
        ("gcs_retention_seconds", "1"),
    ] {
        let put = cx(Method::Put, BLOB, &[BLOCK_BLOB], b"content");
        let outcomes = vec![
            no_deletion(),
            no_deletion(),
            Outcome::Bucket(Ok(bucket(&[owner]))),
            Outcome::Bucket(Ok(bucket(&[owner]))),
        ];
        let refused = reply(AzureBlobAdapter::handle_request(&put, Tape::new(&outcomes)));
        assert_eq!(refused.status, 409, "{owner:?}");
    }
}

#[test]
fn should_hold_the_name_of_a_container_that_is_being_deleted() {
    let later: fn() -> Outcome = || {
        let now = Stamp::take().now;
        let purge_after = Some(Instant { secs: now.secs + 60, nanos: 0 });
        Outcome::Deletion(Ok(Deletion { purge_after }))
    };
    let create = cx(Method::Put, "/account/box?restype=container", &[], b"");
    assert_eq!(reply(azure(&create, &[later, later])).status, 409);
    let read = cx(Method::Get, BLOB, &[], b"");
    assert_eq!(reply(azure(&read, &[later, later])).status, 404);
}

#[test]
fn should_give_up_a_deletion_that_would_reach_protected_blobs() {
    let due: fn() -> Outcome = || {
        Outcome::Deletion(Ok(Deletion { purge_after: Some(Instant { secs: 0, nanos: 0 }) }))
    };
    let read = cx(Method::Get, BLOB, &[], b"");
    let page = |held: bool| {
        let mut blob = object("blob", b"content");
        if held {
            blob.provider_metadata.insert("azure_legal_hold", "true".to_string());
        }
        Outcome::Page(Ok(Page {
            objects: vec![blob],
            prefixes: Vec::new(),
            truncated: false,
            next_marker: None,
        }))
    };
    let protected = vec![due(), page(true)];
    assert!(matches!(
        asked(AzureBlobAdapter::handle_request(&read, Tape::new(&protected))),
        Effect::DropDeletion(name) if name == "box"
    ));
    let free = vec![due(), page(false), Outcome::Versions(Ok(Versions { items: Vec::new() }))];
    assert!(matches!(
        asked(AzureBlobAdapter::handle_request(&read, Tape::new(&free))),
        Effect::SuspendVersioning(name) if name == "box"
    ));
}

#[test]
fn should_take_staged_blocks_only_once_the_blob_is_written() {
    let commit = cx(
        Method::Put,
        "/account/box/blob?comp=blocklist",
        &[],
        b"<BlockList><Latest>YQ==</Latest></BlockList>",
    );
    let session = || {
        let mut blocks = Table::new();
        blocks.insert("YQ==", b"first".to_vec());
        blocks.insert("Yg==", b"second".to_vec());
        let found = BlockSession { blocks, content_type: None, metadata: Table::new() };
        Outcome::Session(Ok(SessionSlot { found: Some(found) }))
    };
    let mut outcomes = vec![
        no_deletion(),
        no_deletion(),
        plain_bucket(),
        plain_bucket(),
        Outcome::Object(Err(missing(ErrorKind::KeyNotFound))),
        session(),
        Outcome::Session(Ok(SessionSlot { found: None })),
        Outcome::Blocks(Ok(BlocksSlot { found: Some(Blocks { items: Vec::new() }) })),
    ];
    match asked(AzureBlobAdapter::handle_request(&commit, Tape::new(&outcomes))) {
        Effect::PutObjectIf(_, _, stored, ObjectCondition::Missing) => {
            assert_eq!(stored.data, b"first")
        }
        _ => panic!("the blob should be put"),
    }
    outcomes.push(Outcome::Flag(Ok(true)));
    outcomes.push(Outcome::Done(Ok(())));
    outcomes.push(Outcome::Done(Ok(())));
    match asked(AzureBlobAdapter::handle_request(&commit, Tape::new(&outcomes))) {
        Effect::SaveSession(_, left) => {
            assert!(left.blocks.get("YQ==").is_none());
            assert_eq!(left.blocks.get("Yg=="), Some(&b"second".to_vec()));
        }
        _ => panic!("the block that was not used should stay staged"),
    }
}

#[test]
fn should_delete_a_container_whose_history_cannot_be_kept() {
    let create = cx(
        Method::Put,
        "/account/box?restype=container",
        &[("x-sqrzl-azure-versioning-enabled", "true")],
        b"",
    );
    let none: fn() -> Outcome = || Outcome::Bucket(Err(missing(ErrorKind::BucketNotFound)));
    let broken: fn() -> Outcome = || Outcome::Done(Err(missing(ErrorKind::Other)));
    let done: fn() -> Outcome = || Outcome::Done(Ok(()));
    let before = [no_deletion, no_deletion, none, plain_bucket, broken];
    assert!(matches!(
        asked(azure(&create, &before)),
        Effect::DeleteBucket(name) if name == "box"
    ));
    let after = [no_deletion, no_deletion, none, plain_bucket, broken, done];
    assert!(matches!(azure(&create, &after), Step::Fail(message) if message == "missing"));
    let twice = [no_deletion, no_deletion, none, plain_bucket, broken, broken];
    assert!(matches!(
        azure(&create, &twice),
        Step::Fail(message)
            if message == "missing; failed to roll back Azure container creation: missing"
    ));
}

#[test]
fn should_put_a_deletion_off_by_half_a_minute() {
    let delete = cx(Method::Delete, "/account/box?restype=container", &[], b"");
    let empty: fn() -> Outcome = || {
        Outcome::Page(Ok(Page {
            objects: Vec::new(),
            prefixes: Vec::new(),
            truncated: false,
            next_marker: None,
        }))
    };
    let no_versions: fn() -> Outcome = || Outcome::Versions(Ok(Versions { items: Vec::new() }));
    let tape = [no_deletion, no_deletion, plain_bucket, plain_bucket, empty, no_versions];
    match asked(azure(&delete, &tape)) {
        Effect::SaveDeletion(name, at) => {
            assert_eq!(name, "box");
            assert_eq!(at.secs, delete.stamp.now.secs + 30);
            assert_eq!(at.nanos, delete.stamp.now.nanos);
        }
        _ => panic!("the deletion should be recorded"),
    }
}

#[test]
fn should_keep_identity_while_leasing() {
    let lease = cx(
        Method::Put,
        "/account/box/blob?comp=lease",
        &[("x-ms-lease-action", "acquire"), ("x-ms-proposed-lease-id", "lease")],
        b"",
    );
    let found: fn() -> Outcome = || Outcome::Object(Ok(object("blob", b"content")));
    let tape = [no_deletion, no_deletion, plain_bucket, plain_bucket, found];
    match asked(azure(&lease, &tape)) {
        Effect::ReplaceMetadata(_, _, observed, updated) => {
            assert_eq!(updated.etag, observed.etag);
            assert_eq!(updated.data, observed.data);
            assert_eq!(updated.last_modified.secs, observed.last_modified.secs);
            assert_eq!(AzureBlobAdapter::lease_id(&updated), Some("lease"));
        }
        _ => panic!("the metadata should be replaced"),
    }
}

#[test]
fn should_refuse_what_is_not_signed() {
    let mut unsigned = cx(Method::Get, BLOB, &[], b"");
    unsigned.auth = AuthConfig {
        access_key_id: Some("account".to_string()),
        secret_access_key: Some("c2VjcmV0".to_string()),
        enforce_auth: true,
    };
    assert_eq!(reply(azure(&unsigned, &[])).status, 403);
    let mut anonymous = cx(Method::Get, "/storage/v1/b/box", &[], b"");
    anonymous.auth = AuthConfig {
        access_key_id: Some("id".to_string()),
        secret_access_key: Some("secret".to_string()),
        enforce_auth: true,
    };
    assert_eq!(reply(gcs(&anonymous, Vec::new())).status, 401);
    let mut bearer = cx(Method::Get, "/storage/v1/b/box", &[("authorization", "Bearer secret")], b"");
    bearer.auth = AuthConfig {
        access_key_id: Some("id".to_string()),
        secret_access_key: Some("secret".to_string()),
        enforce_auth: true,
    };
    assert!(matches!(asked(gcs(&bearer, Vec::new())), Effect::GetBucket(name) if name == "box"));
}

// ---------------------------------------------------------------------------
// Google Cloud Storage

const XML_HOST: (&str, &str) = ("host", "storage.googleapis.com");

#[test]
fn should_refuse_to_replace_retained_objects() {
    let owner = ("gcs_retention_seconds", "3600");
    let retained = || {
        vec![
            Outcome::Bucket(Ok(bucket(&[owner]))),
            Outcome::Bucket(Ok(bucket(&[owner]))),
            Outcome::Object(Ok(object("object", b"content"))),
            Outcome::Bucket(Ok(bucket(&[owner]))),
        ]
    };
    let put = cx(Method::Put, "/box/object", &[XML_HOST], b"other");
    assert_eq!(reply(gcs(&put, retained())).status, 403);
    let delete = cx(Method::Delete, "/box/object", &[XML_HOST], b"");
    assert_eq!(reply(gcs(&delete, retained())).status, 403);
    let upload = cx(
        Method::Post,
        "/upload/storage/v1/b/box/o?uploadType=media&name=object",
        &[],
        b"other",
    );
    assert_eq!(reply(gcs(&upload, retained())).status, 403);
}

#[test]
fn should_leave_buckets_of_other_front_doors_alone() {
    for owner in [
        ("s3_versioning_status", "Enabled"),
        ("s3_object_lock_enabled", "true"),
        ("azure_versioning_enabled", "true"),
        ("azure_soft_delete_days", "7"),
    ] {
        let found = || vec![Outcome::Bucket(Ok(bucket(&[owner])))];
        let put = cx(Method::Put, "/box/object", &[XML_HOST], b"content");
        assert_eq!(reply(gcs(&put, found())).status, 409, "{owner:?}");
        let read = cx(Method::Get, "/storage/v1/b/box/o/object", &[], b"");
        assert_eq!(reply(gcs(&read, found())).status, 409, "{owner:?}");
        let delete = cx(Method::Delete, "/storage/v1/b/box", &[], b"");
        assert_eq!(reply(gcs(&delete, found())).status, 409, "{owner:?}");
    }
}

#[test]
fn should_store_nothing_whose_checksum_is_wrong() {
    let upload = cx(
        Method::Post,
        "/upload/storage/v1/b/box/o?uploadType=media&name=object",
        &[("x-goog-hash", "crc32c=AAAAAQ==")],
        b"123456789",
    );
    let outcomes = vec![plain_bucket(), plain_bucket()];
    assert_eq!(reply(gcs(&upload, outcomes)).status, 400);
}

fn announced() -> Outcome {
    Outcome::Upload(Ok(UploadSlot {
        found: Some(UploadSession {
            bucket: "box".to_string(),
            key: "object".to_string(),
            content_type: "text/plain".to_string(),
            metadata: Table::new(),
            crc32c: Some(GcsAdapter::crc32c(b"payload")),
            if_generation_match: Some("0".to_string()),
            if_generation_not_match: None,
        }),
    }))
}

#[test]
fn should_end_an_upload_session_only_after_the_write() {
    let complete = cx(Method::Put, "/upload/resumable/id", &[], b"payload");
    let none = || Outcome::Object(Err(missing(ErrorKind::KeyNotFound)));
    let mut outcomes = vec![
        Outcome::Upload(Ok(UploadSlot { found: None })),
        announced(),
        plain_bucket(),
        none(),
        none(),
    ];
    match asked(GcsAdapter::handle_request(&complete, Tape::new(&outcomes))) {
        Effect::PutObjectIf(container, key, stored, ObjectCondition::Missing) => {
            assert_eq!((container.as_str(), key.as_str()), ("box", "object"));
            assert_eq!(stored.data, b"payload");
            assert_eq!(stored.content_type, "text/plain");
        }
        _ => panic!("the object should be put"),
    }
    outcomes.push(Outcome::Flag(Ok(true)));
    outcomes.push(Outcome::Object(Ok(object("object", b"payload"))));
    assert!(matches!(
        asked(GcsAdapter::handle_request(&complete, Tape::new(&outcomes))),
        Effect::DropUpload(id) if id == "id"
    ));
}

#[test]
fn should_keep_an_upload_session_whose_content_is_wrong() {
    let complete = cx(Method::Put, "/upload/resumable/id", &[], b"other");
    let outcomes = vec![Outcome::Upload(Ok(UploadSlot { found: None })), announced()];
    assert_eq!(reply(gcs(&complete, outcomes)).status, 400);
    let unknown = vec![
        Outcome::Upload(Ok(UploadSlot { found: None })),
        Outcome::Upload(Ok(UploadSlot { found: None })),
    ];
    assert_eq!(reply(gcs(&complete, unknown)).status, 404);
}

#[test]
fn should_keep_the_generation_when_metadata_changes() {
    let patch = cx(
        Method::Patch,
        "/storage/v1/b/box/o/object",
        &[],
        br#"{"metadata":{"a":"1","b":null}}"#,
    );
    let mut stored = object("object", b"content");
    stored.metadata.insert("__sqrzl_gcs_generation", "7".to_string());
    stored.metadata.insert("__sqrzl_gcs_metageneration", "3".to_string());
    stored.metadata.insert("b", "2".to_string());
    match asked(gcs(&patch, vec![plain_bucket(), Outcome::Object(Ok(stored))])) {
        Effect::ReplaceMetadata(_, _, observed, updated) => {
            assert_eq!(GcsAdapter::generation(&updated), "7");
            assert_eq!(GcsAdapter::metageneration(&updated), "4");
            assert_eq!(updated.data, observed.data);
            assert_eq!(updated.metadata.get("a").map(String::as_str), Some("1"));
            assert!(updated.metadata.get("b").is_none());
            assert_ne!(
                GcsAdapter::json_etag(&updated.metadata, ""),
                GcsAdapter::json_etag(&observed.metadata, "")
            );
        }
        _ => panic!("the metadata should be replaced"),
    }
}

#[test]
fn should_refuse_generations_that_are_not_current() {
    let mut stored = object("object", b"content");
    stored.metadata.insert("__sqrzl_gcs_generation", "7".to_string());
    let outcomes = vec![plain_bucket(), Outcome::Object(Ok(stored))];
    let read = |uri: &str| {
        let read = cx(Method::Get, uri, &[], b"");
        reply(GcsAdapter::handle_request(&read, Tape::new(&outcomes)))
    };
    assert_eq!(read("/storage/v1/b/box/o/object?alt=media&generation=7").body, b"content");
    assert_eq!(read("/storage/v1/b/box/o/object?generation=6").status, 501);
    assert_eq!(read("/storage/v1/b/box/o/object?generation=now").status, 400);
    assert_eq!(read("/storage/v1/b/box/o/object?ifGenerationMatch=6").status, 412);
    assert_eq!(read("/storage/v1/b/box/o/object?ifGenerationNotMatch=7").status, 304);
}

#[test]
fn should_go_on_with_listings_behind_the_last_object_that_was_shown() {
    let list = cx(Method::Get, "/box?list-type=2&max-keys=1", &[XML_HOST], b"");
    let page = Outcome::Page(Ok(Page {
        objects: vec![object("a", b"1"), object("b", b"2")],
        prefixes: Vec::new(),
        truncated: true,
        next_marker: Some("b".to_string()),
    }));
    let first = reply(gcs(&list, vec![plain_bucket(), page]));
    let body = String::from_utf8(first.body).unwrap();
    let token = GcsAdapter::encode_page_token("xml-objects", "a");
    assert!(body.contains(&format!("<NextContinuationToken>{token}</NextContinuationToken>")));
    assert!(body.contains("<Key>a</Key>") && !body.contains("<Key>b</Key>"));
    let uri = format!("/box?list-type=2&max-keys=1&continuation-token={token}");
    let next = cx(Method::Get, &uri, &[XML_HOST], b"");
    match asked(gcs(&next, vec![plain_bucket()])) {
        Effect::ListObjects(name, None, None, marker, 2) => {
            assert_eq!(name, "box");
            assert_eq!(marker.as_deref(), Some("a"));
        }
        _ => panic!("the rest should be listed"),
    }
}

#[test]
fn should_take_bucket_policies_inside_their_bounds_only() {
    let create = |policy: &str| {
        let body = format!(r#"{{"name":"box-1",{policy}}}"#);
        gcs(&cx(Method::Post, "/storage/v1/b?project=p", &[], body.as_bytes()), Vec::new())
    };
    for (policy, status) in [
        (r#""retentionPolicy":{"retentionPeriod":"0"}"#, 400),
        (r#""retentionPolicy":{"retentionPeriod":3155760000}"#, 400),
        (r#""retentionPolicy":{"retentionPeriod":"1","isLocked":true}"#, 501),
        (r#""softDeletePolicy":{"retentionDurationSeconds":"604799"}"#, 400),
        (r#""softDeletePolicy":{"retentionDurationSeconds":"7776000"}"#, 400),
        (r#""softDeletePolicy":{"retentionDurationSeconds":"0"}"#, 501),
        (r#""objectRetention":{}"#, 501),
    ] {
        assert_eq!(reply(create(policy)).status, status, "{policy}");
    }
    for policy in [
        r#""retentionPolicy":{"retentionPeriod":"3155759999"}"#,
        r#""softDeletePolicy":{"retentionDurationSeconds":604800}"#,
    ] {
        assert!(matches!(asked(create(policy)), Effect::CreateBucket(name) if name == "box-1"));
    }
}

#[test]
fn should_fail_when_storage_answers_another_question() {
    let read = cx(Method::Get, BLOB, &[], b"");
    assert!(matches!(azure(&read, &[plain_bucket]), Step::Fail(_)));
    let broken: fn() -> Outcome = || Outcome::Deletion(Err(missing(ErrorKind::Other)));
    assert!(matches!(azure(&read, &[broken]), Step::Fail(message) if message == "missing"));
}
