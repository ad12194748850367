//! Requests to the Google Cloud Storage front door, run against buckets in memory.

use providers::azure::basics::{GCS_RETENTION_SECONDS_KEY, GCS_SOFT_DELETE_SECONDS_KEY};
use base64::Engine;
use providers::gcs::basics::{GCS_GENERATION_KEY, GCS_METAGENERATION_KEY};
use providers::clock::{Instant, Stamp};
use providers::gcs::GcsAdapter;
use providers::http::{AuthConfig, Context, HeaderText, Method, Request};
use providers::registry::ProviderAdapter;
use providers::store::{
    Blocks, BlocksSlot, BlockSession, Bucket, Buckets, Deletion, Effect, ErrorKind, ObjectCondition, Outcome, Page,
    Payload, SessionSlot, Step, StorageError, Tape, UploadSession, UploadSlot, Versions,
};
use providers::table::{Copied, Table};
use std::cell::RefCell;
use std::collections::{BTreeMap, HashMap};

// ---------------------------------------------------------------------------
// Objects and buckets in memory

#[derive(Clone, Debug, PartialEq)]
struct Object {
    key: String,
    data: Vec<u8>,
    size: u64,
    etag: String,
    content_type: String,
    last_modified: (i64, u32),
    metadata: HashMap<String, String>,
    provider_metadata: HashMap<String, String>,
    version_id: Option<String>,
}

fn present() -> (i64, u32) {
    let now = chrono::Utc::now();
    (now.timestamp(), now.timestamp_subsec_nanos())
}

fn table(map: &HashMap<String, String>) -> Table<String> {
    let mut table = Table::new();
    for (key, value) in map {
        table.insert(key, value.clone());
    }
    table
}

fn map(table: &Table<String>) -> HashMap<String, String> {
    table.entries.iter().cloned().collect()
}

impl Object {
    fn new(key: String, data: Vec<u8>, content_type: String) -> Object {
        Object::new_with_metadata(key, data, content_type, HashMap::new())
    }

    fn new_with_metadata(
        key: String,
        data: Vec<u8>,
        content_type: String,
        metadata: HashMap<String, String>,
    ) -> Object {
        Object {
            key,
            size: data.len() as u64,
            etag: hex::encode(md5::compute(&data).0),
            data,
            content_type,
            last_modified: present(),
            metadata,
            provider_metadata: HashMap::new(),
            version_id: None,
        }
    }

    fn read(object: &providers::store::Object) -> Object {
        Object {
            key: object.key.clone(),
            data: object.data.clone(),
            size: object.size,
            etag: object.etag.clone(),
            content_type: object.content_type.clone(),
            last_modified: (object.last_modified.secs, object.last_modified.nanos),
            metadata: map(&object.metadata),
            provider_metadata: map(&object.provider_metadata),
            version_id: object.version_id.clone(),
        }
    }

    fn give(&self) -> providers::store::Object {
        providers::store::Object {
            key: self.key.clone(),
            data: self.data.clone(),
            size: self.size,
            etag: self.etag.clone(),
            content_type: self.content_type.clone(),
            last_modified: Instant { secs: self.last_modified.0, nanos: self.last_modified.1 },
            metadata: table(&self.metadata),
            provider_metadata: table(&self.provider_metadata),
            version_id: self.version_id.clone(),
        }
    }
}

#[derive(Clone, Debug, PartialEq)]
enum Failure {
    BucketNotFound,
    KeyNotFound,
    NoSuchVersion,
    BucketAlreadyExists,
    BucketNotEmpty,
}

fn error(failure: Failure) -> StorageError {
    let kind = match failure {
        Failure::BucketNotFound => ErrorKind::BucketNotFound,
        Failure::KeyNotFound => ErrorKind::KeyNotFound,
        Failure::NoSuchVersion => ErrorKind::NoSuchVersion,
        Failure::BucketAlreadyExists => ErrorKind::BucketAlreadyExists,
        Failure::BucketNotEmpty => ErrorKind::BucketNotEmpty,
    };
    StorageError { kind, message: format!("{failure:?}") }
}

#[derive(Clone, Debug)]
struct BucketState {
    created_at: (i64, u32),
    versioning_enabled: bool,
    metadata: HashMap<String, String>,
    objects: BTreeMap<String, Object>,
    versions: Vec<Object>,
}

struct Listing {
    objects: Vec<Object>,
    prefixes: Vec<String>,
    truncated: bool,
    next_marker: Option<String>,
}

#[derive(Default)]
struct State {
    buckets: BTreeMap<String, BucketState>,
    deletions: BTreeMap<String, (i64, u32)>,
    sessions: HashMap<String, BlockSession>,
    blocks: HashMap<String, Blocks>,
    uploads: HashMap<String, UploadSession>,
    next_version: u64,
}

#[derive(Default)]
struct Storage {
    state: RefCell<State>,
}

#[allow(dead_code)]
impl Storage {
    fn create_bucket(&self, name: String) -> Result<(), Failure> {
        let mut state = self.state.borrow_mut();
        if state.buckets.contains_key(&name) {
            return Err(Failure::BucketAlreadyExists);
        }
        state.buckets.insert(
            name,
            BucketState {
                created_at: present(),
                versioning_enabled: false,
                metadata: HashMap::new(),
                objects: BTreeMap::new(),
                versions: Vec::new(),
            },
        );
        Ok(())
    }

    fn get_bucket(&self, name: &str) -> Result<BucketState, Failure> {
        self.state.borrow().buckets.get(name).cloned().ok_or(Failure::BucketNotFound)
    }

    fn get_namespace(&self, name: &str) -> Result<BucketState, Failure> {
        self.get_bucket(name)
    }

    fn bucket_exists(&self, name: &str) -> Result<bool, Failure> {
        Ok(self.get_bucket(name).is_ok())
    }

    fn with_bucket<T>(
        &self,
        name: &str,
        change: impl FnOnce(&mut BucketState) -> Result<T, Failure>,
    ) -> Result<T, Failure> {
        let mut state = self.state.borrow_mut();
        change(state.buckets.get_mut(name).ok_or(Failure::BucketNotFound)?)
    }

    fn update_bucket_metadata(
        &self,
        name: &str,
        metadata: HashMap<String, String>,
    ) -> Result<(), Failure> {
        self.with_bucket(name, |bucket| {
            bucket.metadata = metadata;
            Ok(())
        })
    }

    fn set_versioning(&self, name: &str, enabled: bool) -> Result<(), Failure> {
        self.with_bucket(name, |bucket| {
            bucket.versioning_enabled = enabled;
            Ok(())
        })
    }

    fn enable_versioning(&self, name: &str) -> Result<(), Failure> {
        self.set_versioning(name, true)
    }

    fn delete_bucket(&self, name: &str) -> Result<(), Failure> {
        let mut state = self.state.borrow_mut();
        let bucket = state.buckets.get(name).ok_or(Failure::BucketNotFound)?;
        if !bucket.objects.is_empty() || !bucket.versions.is_empty() {
            return Err(Failure::BucketNotEmpty);
        }
        state.buckets.remove(name);
        Ok(())
    }

    fn get_object(&self, bucket: &str, key: &str) -> Result<Object, Failure> {
        self.get_bucket(bucket)?.objects.get(key).cloned().ok_or(Failure::KeyNotFound)
    }

    fn get_object_version(&self, bucket: &str, key: &str, version: &str) -> Result<Object, Failure> {
        self.list_object_versions_for_key(bucket, key)?
            .into_iter()
            .find(|object| object.version_id.as_deref() == Some(version))
            .ok_or(Failure::NoSuchVersion)
    }

    fn list_object_versions(&self, bucket: &str) -> Result<Vec<Object>, Failure> {
        let bucket = self.get_bucket(bucket)?;
        Ok(bucket
            .objects
            .values()
            .filter(|object| object.version_id.is_some())
            .chain(bucket.versions.iter())
            .cloned()
            .collect())
    }

    fn list_object_versions_for_key(&self, bucket: &str, key: &str) -> Result<Vec<Object>, Failure> {
        Ok(self
            .list_object_versions(bucket)?
            .into_iter()
            .filter(|object| object.key == key)
            .collect())
    }

    fn put_object(&self, bucket: &str, key: String, object: Object) -> Result<(), Failure> {
        let version = {
            let mut state = self.state.borrow_mut();
            state.next_version += 1;
            format!("version-{}", state.next_version)
        };
        self.with_bucket(bucket, |bucket| {
            let mut object = object;
            object.version_id = bucket.versioning_enabled.then_some(version);
            if let Some(old) = bucket.objects.insert(key, object) {
                if old.version_id.is_some() {
                    bucket.versions.push(old);
                }
            }
            Ok(())
        })
    }

    fn replace_object(&self, bucket: &str, key: &str, object: Object) -> Result<(), Failure> {
        self.with_bucket(bucket, |bucket| {
            bucket.objects.insert(key.to_string(), object);
            Ok(())
        })
    }

    fn delete_object(&self, bucket: &str, key: &str) -> Result<(), Failure> {
        self.with_bucket(bucket, |bucket| {
            let old = bucket.objects.remove(key).ok_or(Failure::KeyNotFound)?;
            if bucket.versioning_enabled && old.version_id.is_some() {
                bucket.versions.push(old);
            }
            Ok(())
        })
    }

    fn delete_object_version(&self, bucket: &str, key: &str, version: &str) -> Result<(), Failure> {
        self.get_object_version(bucket, key, version)?;
        self.with_bucket(bucket, |bucket| {
            let wanted = Some(version.to_string());
            bucket.versions.retain(|object| !(object.key == key && object.version_id == wanted));
            if bucket.objects.get(key).is_some_and(|object| object.version_id == wanted) {
                bucket.objects.remove(key);
            }
            Ok(())
        })
    }

    fn list_objects(
        &self,
        bucket: &str,
        prefix: Option<&str>,
        delimiter: Option<&str>,
        marker: Option<&str>,
        limit: usize,
    ) -> Result<Listing, Failure> {
        let bucket = self.get_bucket(bucket)?;
        let prefix = prefix.unwrap_or("");
        let mut listing =
            Listing { objects: Vec::new(), prefixes: Vec::new(), truncated: false, next_marker: None };
        let mut last = String::new();
        for (key, object) in &bucket.objects {
            if !key.starts_with(prefix) || marker.is_some_and(|marker| key.as_str() <= marker) {
                continue;
            }
            let common = delimiter.filter(|d| !d.is_empty()).and_then(|delimiter| {
                key[prefix.len()..]
                    .find(delimiter)
                    .map(|i| key[..prefix.len() + i + delimiter.len()].to_string())
            });
            if common.as_ref().is_some_and(|common| listing.prefixes.contains(common)) {
                last = key.clone();
                continue;
            }
            if listing.objects.len() + listing.prefixes.len() == limit {
                listing.truncated = true;
                listing.next_marker = Some(last);
                return Ok(listing);
            }
            match common {
                Some(common) => listing.prefixes.push(common),
                None => listing.objects.push(object.clone()),
            }
            last = key.clone();
        }
        Ok(listing)
    }

    fn holds(condition: &ObjectCondition, current: Option<&Object>) -> bool {
        let value = |key: &str| {
            current.and_then(|object| {
                object.metadata.get(key).or_else(|| object.provider_metadata.get(key)).cloned()
            })
        };
        match condition {
            ObjectCondition::Missing => current.is_none(),
            ObjectCondition::Etag(etag) => current.is_some_and(|object| object.etag == *etag),
            ObjectCondition::EtagNotIn(etags) => {
                current.is_some_and(|object| !etags.contains(&object.etag))
            }
            ObjectCondition::MissingOrEtagNotIn(etags) => {
                current.is_none_or(|object| !etags.contains(&object.etag))
            }
            ObjectCondition::Metadata(key, wanted) => value(key).as_ref() == Some(wanted),
            ObjectCondition::MetadataNot(key, unwanted) => {
                current.is_some() && value(key).as_ref() != Some(unwanted)
            }
            ObjectCondition::All(parts) => parts.iter().all(|part| Storage::holds(part, current)),
        }
    }

    fn bucket_given(name: &str, state: &BucketState) -> Bucket {
        Bucket {
            name: name.to_string(),
            created_at: Instant { secs: state.created_at.0, nanos: state.created_at.1 },
            versioning_enabled: state.versioning_enabled,
            metadata: table(&state.metadata),
        }
    }

    /// Does what a handler asks for and tells what came of it.
    fn perform(&self, effect: &Effect) -> Outcome {
        let done = |result: Result<(), Failure>| Outcome::Done(result.map_err(error));
        match effect {
            Effect::GetBucket(name) => Outcome::Bucket(
                self.get_bucket(name)
                    .map(|bucket| Storage::bucket_given(name, &bucket))
                    .map_err(error),
            ),
            Effect::ListBuckets => {
                let state = self.state.borrow();
                let items = state
                    .buckets
                    .iter()
                    .rev()
                    .map(|(name, bucket)| Storage::bucket_given(name, bucket))
                    .collect();
                Outcome::Buckets(Ok(Buckets { items }))
            }
            Effect::CreateBucket(name) => Outcome::Bucket(
                self.create_bucket(name.clone())
                    .and_then(|()| self.get_bucket(name))
                    .map(|bucket| Storage::bucket_given(name, &bucket))
                    .map_err(error),
            ),
            Effect::DeleteBucket(name) => done(self.delete_bucket(name)),
            Effect::EnableVersioning(name) => done(self.set_versioning(name, true)),
            Effect::SuspendVersioning(name) => done(self.set_versioning(name, false)),
            Effect::UpdateBucketMetadata(name, metadata) => {
                done(self.update_bucket_metadata(name, map(metadata)))
            }
            Effect::ListObjects(bucket, prefix, delimiter, marker, limit) => Outcome::Page(
                self.list_objects(
                    bucket,
                    prefix.as_deref(),
                    delimiter.as_deref(),
                    marker.as_deref(),
                    *limit,
                )
                .map(|listing| Page {
                    objects: listing.objects.iter().map(Object::give).collect(),
                    prefixes: listing.prefixes,
                    truncated: listing.truncated,
                    next_marker: listing.next_marker,
                })
                .map_err(error),
            ),
            Effect::ListVersions(bucket) => Outcome::Versions(
                self.list_object_versions(bucket)
                    .map(|versions| Versions { items: versions.iter().map(Object::give).collect() })
                    .map_err(error),
            ),
            Effect::GetObject(bucket, key) => {
                Outcome::Object(self.get_object(bucket, key).map(|o| o.give()).map_err(error))
            }
            Effect::GetVersion(bucket, key, version) => Outcome::Object(
                self.get_object_version(bucket, key, version).map(|o| o.give()).map_err(error),
            ),
            Effect::GetRange(bucket, key, start, end) => Outcome::Payload(
                self.get_object(bucket, key)
                    .map(|object| Payload {
                        data: object.data[*start as usize..=*end as usize].to_vec(),
                        object: object.give(),
                    })
                    .map_err(error),
            ),
            Effect::PutObject(bucket, key, object) => {
                done(self.put_object(bucket, key.clone(), Object::read(object)))
            }
            Effect::PutObjectIf(bucket, key, object, condition) => {
                let current = self.get_object(bucket, key).ok();
                if Storage::holds(condition, current.as_ref()) {
                    Outcome::Flag(
                        self.put_object(bucket, key.clone(), Object::read(object))
                            .map(|()| true)
                            .map_err(error),
                    )
                } else {
                    Outcome::Flag(Ok(false))
                }
            }
            Effect::ReplaceMetadata(bucket, key, observed, updated) => {
                let current = self.get_object(bucket, key);
                match current {
                    Ok(current) if current == Object::read(observed) => Outcome::Flag(
                        self.replace_object(bucket, key, Object::read(updated))
                            .map(|()| true)
                            .map_err(error),
                    ),
                    _ => Outcome::Flag(Ok(false)),
                }
            }
            Effect::DeleteObject(bucket, key) => done(self.delete_object(bucket, key)),
            Effect::DeleteObjectIf(bucket, key, condition) => {
                let current = self.get_object(bucket, key).ok();
                if Storage::holds(condition, current.as_ref()) {
                    Outcome::Flag(self.delete_object(bucket, key).map(|()| true).map_err(error))
                } else {
                    Outcome::Flag(Ok(false))
                }
            }
            Effect::DeleteVersion(bucket, key, version) => {
                done(self.delete_object_version(bucket, key, version))
            }
            Effect::LoadDeletion(container) => Outcome::Deletion(Ok(Deletion {
                purge_after: self
                    .state
                    .borrow()
                    .deletions
                    .get(container)
                    .map(|at| Instant { secs: at.0, nanos: at.1 }),
            })),
            Effect::SaveDeletion(container, at) => {
                let at = (at.secs, at.nanos);
                self.state.borrow_mut().deletions.insert(container.clone(), at);
                done(Ok(()))
            }
            Effect::DropDeletion(container) => {
                self.state.borrow_mut().deletions.remove(container);
                done(Ok(()))
            }
            Effect::LoadSession(key) => Outcome::Session(Ok(SessionSlot {
                found: self.state.borrow().sessions.get(key).map(|session| session.copied()),
            })),
            Effect::SaveSession(key, session) => {
                self.state.borrow_mut().sessions.insert(key.clone(), session.copied());
                done(Ok(()))
            }
            Effect::DropSession(key) => {
                self.state.borrow_mut().sessions.remove(key);
                done(Ok(()))
            }
            Effect::LoadBlocks(key) => Outcome::Blocks(Ok(BlocksSlot {
                found: self.state.borrow().blocks.get(key).map(|blocks| blocks.copied()),
            })),
            Effect::SaveBlocks(key, blocks) => {
                self.state.borrow_mut().blocks.insert(key.clone(), blocks.copied());
                done(Ok(()))
            }
            Effect::LoadUpload(id) => Outcome::Upload(Ok(UploadSlot {
                found: self.state.borrow().uploads.get(id).map(|session| session.copied()),
            })),
            Effect::SaveUpload(id, session) => {
                self.state.borrow_mut().uploads.insert(id.clone(), session.copied());
                done(Ok(()))
            }
            Effect::DropUpload(id) => {
                self.state.borrow_mut().uploads.remove(id);
                done(Ok(()))
            }
            _ => done(Ok(())),
        }
    }
}

fn temp_storage() -> Storage {
    Storage::default()
}

// ---------------------------------------------------------------------------
// Requests and responses

fn auth_disabled() -> AuthConfig {
    AuthConfig { access_key_id: None, secret_access_key: None, enforce_auth: false }
}

fn parsed_request(method: &str, uri: &str, headers: &[(&str, &str)], body: &[u8]) -> Request {
    let uri: http::Uri = uri.parse().expect("URI should parse");
    let mut entries = Vec::new();
    for (name, value) in headers {
        entries.push((
            name.to_ascii_lowercase(),
            HeaderText::Text(value.to_string()),
        ));
    }
    if matches!(method, "POST" | "PUT" | "PATCH")
        && !headers.iter().any(|(name, _)| name.eq_ignore_ascii_case("content-length"))
        && !headers.iter().any(|(name, _)| name.eq_ignore_ascii_case("transfer-encoding"))
    {
        entries.push((
            "content-length".to_string(),
            HeaderText::Text(body.len().to_string()),
        ));
    }
    request_with(method, &uri, entries, body)
}

fn request_with(
    method: &str,
    uri: &http::Uri,
    entries: Vec<(String, HeaderText)>,
    body: &[u8],
) -> Request {
    let mut query = Table::new();
    for part in uri.query().unwrap_or("").split('&').filter(|part| !part.is_empty()) {
        let (name, value) = part.split_once('=').unwrap_or((part, ""));
        let decode = |text: &str| match urlencoding::decode(text) {
            Ok(text) => text.into_owned(),
            Err(_) => text.to_string(),
        };
        query.insert(&decode(name), decode(value));
    }
    let host = entries
        .iter()
        .find(|(name, _)| name == "host")
        .and_then(|(_, value)| value.text().map(str::to_string))
        .or_else(|| uri.authority().map(|authority| authority.to_string()))
        .unwrap_or_else(|| "localhost".to_string());
    Request {
        method: match method {
            "GET" => Method::Get,
            "HEAD" => Method::Head,
            "PUT" => Method::Put,
            "POST" => Method::Post,
            "DELETE" => Method::Delete,
            "PATCH" => Method::Patch,
            _ => Method::Other,
        },
        verb: method.to_string(),
        path: uri.path().to_string(),
        raw_query: uri.query().map(str::to_string),
        query,
        headers: Table { entries },
        scheme: uri.scheme_str().map(str::to_string),
        origin: format!("http://{host}"),
        body: body.to_vec(),
    }
}

fn copied_request(req: &Request) -> Request {
    Request {
        method: req.method,
        verb: req.verb.clone(),
        path: req.path.clone(),
        raw_query: req.raw_query.clone(),
        query: req.query.copied(),
        headers: Table {
            entries: req
                .headers
                .entries
                .iter()
                .map(|(name, value)| (name.clone(), value.copied()))
                .collect(),
        },
        scheme: req.scheme.clone(),
        origin: req.origin.clone(),
        body: req.body.clone(),
    }
}

fn copied_auth(auth: &AuthConfig) -> AuthConfig {
    AuthConfig {
        access_key_id: auth.access_key_id.clone(),
        secret_access_key: auth.secret_access_key.clone(),
        enforce_auth: auth.enforce_auth,
    }
}

fn converted(response: providers::http::Response) -> http::Response<Vec<u8>> {
    let mut builder = http::Response::builder().status(response.status);
    for (name, value) in &response.headers.entries {
        builder = builder.header(name, value);
    }
    builder.body(response.body).expect("response should build")
}

fn read_test_body(response: http::Response<Vec<u8>>) -> Vec<u8> {
    response.into_body()
}

#[allow(dead_code)]
fn parse_json_body(response: http::Response<Vec<u8>>) -> serde_json::Value {
    serde_json::from_slice(&read_test_body(response)).expect("json should parse")
}

#[allow(dead_code)]
fn header_value<'a>(response: &'a http::Response<Vec<u8>>, name: &str) -> Option<&'a str> {
    response.headers().get(name).and_then(|value| value.to_str().ok())
}

/// Runs a request to its end.
fn serve(
    adapter: &dyn ProviderAdapter,
    memory: &mut dyn FnMut(&Effect) -> Option<Outcome>,
    storage: &Storage,
    auth: &AuthConfig,
    req: &Request,
) -> Result<http::Response<Vec<u8>>, String> {
    let cx = Context { stamp: Stamp::take(), auth: copied_auth(auth), req: copied_request(req) };
    let mut outcomes = Vec::new();
    loop {
        match adapter.handle(&cx, Tape::new(&outcomes)) {
            Step::Perform(effect) => {
                let outcome = memory(&effect).unwrap_or_else(|| storage.perform(&effect));
                outcomes.push(outcome);
            }
            Step::Reply(response) => return Ok(converted(response)),
            Step::Fail(message) => return Err(message),
        }
    }
}

// ---------------------------------------------------------------------------
// The adapter with its memory

struct Gcs {
    memory: RefCell<GcsAdapter>,
}

#[allow(dead_code)]
impl Gcs {
    fn new() -> Gcs {
        Gcs { memory: RefCell::new(GcsAdapter::new()) }
    }

    fn handle_request(
        &self,
        storage: &Storage,
        auth: &AuthConfig,
        req: &Request,
    ) -> Result<http::Response<Vec<u8>>, String> {
        serve(
            &GcsAdapter::new(),
            &mut |effect| self.memory.borrow_mut().remember(effect),
            storage,
            auth,
            req,
        )
    }

    fn matches(&self, req: &Request) -> bool {
        GcsAdapter::new().matches(req)
    }

    fn validate_request_framing(&self, req: &Request) -> Option<http::Response<Vec<u8>>> {
        GcsAdapter::new().validate_request_framing(&Stamp::take(), req).map(converted)
    }

    fn render_incomplete_body(&self, method: &str, uri: &http::Uri) -> http::Response<Vec<u8>> {
        let head = request_with(method, uri, Vec::new(), b"");
        converted(GcsAdapter::new().render_incomplete_body(&Stamp::take(), &head))
    }
}

/// What the JSON API tells of an object.
fn described(bucket: &str, object: &Object) -> serde_json::Value {
    let storage = temp_storage();
    storage.create_bucket(bucket.to_string()).unwrap();
    storage.replace_object(bucket, "object", object.clone()).unwrap();
    let response = Gcs::new()
        .handle_request(
            &storage,
            &auth_disabled(),
            &parsed_request(
                "GET",
                &format!("http://localhost/storage/v1/b/{bucket}/o/object"),
                &[],
                b"",
            ),
        )
        .expect("object should be described");
    parse_json_body(response)
}

#[test]
fn should_reject_invalid_gcs_bucket_name_without_mutation() {
    let adapter = Gcs::new();
    let storage = temp_storage();
    let request = parsed_request(
        "POST",
        "http://localhost/storage/v1/b?project=test-project",
        &[("content-type", "application/json")],
        br#"{"name":"A"}"#,
    )
    ;

    let response = adapter
        .handle_request(&storage, &auth_disabled(), &request)
        .expect("invalid bucket request should complete");

    assert_eq!(response.status(), http::StatusCode::BAD_REQUEST);
    assert!(storage.get_namespace("A").is_err());
}

fn gcs_auth() -> AuthConfig {
    AuthConfig {
        access_key_id: Some("test-access".to_string()),
        secret_access_key: Some(
            base64::engine::general_purpose::STANDARD.encode("gcs-secret"),
        ),
        enforce_auth: true,
    }
}

#[test]
fn should_sort_merge_and_filter_gcs_v2_extension_headers_in_string_to_sign() {
    // Arrange
    let request = parsed_request(
        "GET",
        "http://localhost/private/item.txt",
        &[
            ("x-goog-meta-editor", "jane"),
            ("X-Goog-Acl", "public-read"),
            ("x-goog-meta-editor", "john"),
            ("x-goog-encryption-key", "sensitive-key"),
            ("x-goog-encryption-key-sha256", "sensitive-key-hash"),
            ("x-unrelated", "ignored"),
        ],
        b"",
    )
    ;

    // Act
    let actual = GcsAdapter::string_to_sign(
        &request,
        "private",
        Some("item.txt"),
        "Tue, 11 Aug 2026 12:00:00 GMT",
    )
    .expect("string to sign should build");

    // Assert
    assert_eq!(
        actual,
        "GET\n\n\nTue, 11 Aug 2026 12:00:00 GMT\nx-goog-acl:public-read\nx-goog-meta-editor:jane,john\n/private/item.txt"
    );
}

#[test]
fn should_authorize_gcs_v2_hmac_request_with_canonicalized_extension_headers() {
    // Arrange
    let adapter = Gcs::new();
    let storage = temp_storage();
    storage.create_bucket("private".to_string()).unwrap();
    storage
        .put_object(
            "private",
            "item.txt".to_string(),
            Object::new(
                "item.txt".to_string(),
                b"authenticated".to_vec(),
                "text/plain".to_string(),
            ),
        )
        .unwrap();
    let date = "Tue, 11 Aug 2026 12:00:00 GMT";
    let canonical = format!(
        "GET\n\n\n{date}\nx-goog-acl:public-read\nx-goog-meta-editor:jane,john\n/private/item.txt"
    );
    let signature = GcsAdapter::sign(&gcs_auth(), &canonical).expect("signature should build");
    let authorization = format!("GOOG1 test-access:{signature}");
    let request = parsed_request(
        "GET",
        "http://localhost/private/item.txt",
        &[
            ("date", date),
            ("authorization", &authorization),
            ("x-goog-meta-editor", "jane"),
            ("x-goog-acl", "public-read"),
            ("x-goog-meta-editor", "john"),
            ("x-goog-encryption-key", "sensitive-key"),
            ("x-goog-encryption-key-sha256", "sensitive-key-hash"),
        ],
        b"",
    )
    ;

    // Act
    let response = adapter
        .handle_request(&storage, &gcs_auth(), &request)
        .expect("signed request should respond");

    // Assert
    assert_eq!(response.status(), http::StatusCode::OK);
    assert_eq!(read_test_body(response), b"authenticated");
}

#[test]
fn should_render_json_and_xml_auth_failures_with_their_native_envelopes() {
    // Arrange
    let adapter = Gcs::new();
    let storage = temp_storage();
    storage.create_bucket("private".to_string()).unwrap();
    let json_request = parsed_request(
        "GET",
        "http://localhost/storage/v1/b/private/o/object",
        &[],
        b"",
    )
    ;
    let xml_request = parsed_request(
        "GET",
        "http://localhost/private/object",
        &[("host", "storage.googleapis.com")],
        b"",
    )
    ;

    // Act
    let json = adapter
        .handle_request(&storage, &gcs_auth(), &json_request)
        .unwrap();
    let xml = adapter
        .handle_request(&storage, &gcs_auth(), &xml_request)
        .unwrap();

    // Assert
    assert_eq!(json.status(), http::StatusCode::UNAUTHORIZED);
    assert_eq!(json.headers()["content-type"], "application/json");
    assert_eq!(
        parse_json_body(json)["error"]["errors"][0]["reason"],
        "authError"
    );
    assert_eq!(xml.status(), http::StatusCode::FORBIDDEN);
    assert_eq!(xml.headers()["content-type"], "application/xml");
    assert!(String::from_utf8(read_test_body(xml))
        .unwrap()
        .contains("<Code>AccessDenied</Code>"));
}

#[test]
fn should_handle_gcs_bucket_and_object_crud() {
    let adapter = Gcs::new();
    let storage = temp_storage();

    adapter
        .handle_request(
            &storage,
            &auth_disabled(),
            &parsed_request(
                "PUT",
                "http://localhost/photos",
                &[("host", "storage.googleapis.com")],
                b"",
            )
            ,
        )
        .expect("bucket create should succeed");

    adapter
        .handle_request(
            &storage,
            &auth_disabled(),
            &parsed_request(
                "PUT",
                "http://localhost/photos/kitten.txt",
                &[
                    ("host", "storage.googleapis.com"),
                    ("content-type", "text/plain"),
                ],
                b"hello gcs",
            )
            ,
        )
        .expect("object put should succeed");

    let response = adapter
        .handle_request(
            &storage,
            &auth_disabled(),
            &parsed_request(
                "GET",
                "http://localhost/photos",
                &[("host", "storage.googleapis.com")],
                b"",
            )
            ,
        )
        .expect("list should succeed");
    let body = response
        .into_body();
    assert!(String::from_utf8(body.to_vec())
        .expect("xml")
        .contains("kitten.txt"));

    let response = adapter
        .handle_request(
            &storage,
            &auth_disabled(),
            &parsed_request(
                "GET",
                "http://localhost/photos/kitten.txt",
                &[("host", "storage.googleapis.com")],
                b"",
            )
            ,
        )
        .expect("get should succeed");
    let body = response
        .into_body();
    assert_eq!(body.as_slice(), b"hello gcs");
}

#[test]
fn should_decode_gcs_xml_object_paths_once_without_collapsing_key_components() {
    // Arrange
    let adapter = Gcs::new();
    let storage = temp_storage();
    storage.create_bucket("encoded-paths".to_string()).unwrap();
    let cases = [
        ("space%20name.txt", "space name.txt"),
        ("percent%25name.txt", "percent%name.txt"),
        ("nested%2Fname.txt", "nested/name.txt"),
        ("snowman-%E2%98%83.txt", "snowman-☃.txt"),
        ("literal%252Fescape.txt", "literal%2Fescape.txt"),
        ("dir/", "dir/"),
        ("a//b", "a//b"),
        ("/leading-slash", "/leading-slash"),
    ];

    // Act
    // Assert
    for (index, (encoded, expected)) in cases.into_iter().enumerate() {
        let payload = format!("payload-{index}");
        let response = adapter
            .handle_request(
                &storage,
                &auth_disabled(),
                &parsed_request(
                    "PUT",
                    &format!("http://localhost/encoded-paths/{encoded}"),
                    &[("host", "storage.googleapis.com")],
                    payload.as_bytes(),
                )
                ,
            )
            .expect("encoded object PUT should respond");

        assert_eq!(response.status(), http::StatusCode::OK, "encoded path {encoded}");
        assert_eq!(
            storage
                .get_object("encoded-paths", expected)
                .expect("decoded object should exist")
                .data,
            payload.as_bytes(),
            "encoded path {encoded}"
        );
    }
}

#[test]
fn should_paginate_gcs_xml_list_type_two_without_duplicates() {
    // Arrange
    let adapter = Gcs::new();
    let storage = temp_storage();
    storage.create_bucket("xml-v2".to_string()).unwrap();
    for key in ["alpha", "beta", "gamma"] {
        storage
            .put_object(
                "xml-v2",
                key.to_string(),
                Object::new(
                    key.to_string(),
                    b"x".to_vec(),
                    "text/plain".to_string(),
                ),
            )
            .unwrap();
    }

    // Act
    let first = adapter
        .handle_request(
            &storage,
            &auth_disabled(),
            &parsed_request(
                "GET",
                "http://localhost/xml-v2?list-type=2&max-keys=1&start-after=alpha",
                &[("host", "storage.googleapis.com"), ("content-length", "0")],
                b"",
            )
            ,
        )
        .expect("first XML v2 page should respond");
    let first = String::from_utf8(read_test_body(first)).expect("response should be XML");
    let token = first
        .split_once("<NextContinuationToken>")
        .and_then(|(_, rest)| rest.split_once("</NextContinuationToken>"))
        .map(|(token, _)| token.to_string())
        .expect("truncated page should include a continuation token");
    let second = adapter
        .handle_request(
            &storage,
            &auth_disabled(),
            &parsed_request(
                "GET",
                &format!(
                    "http://localhost/xml-v2?list-type=2&max-keys=1&continuation-token={token}"
                ),
                &[("host", "storage.googleapis.com"), ("content-length", "0")],
                b"",
            )
            ,
        )
        .expect("last XML v2 page should respond");
    let second =
        String::from_utf8(read_test_body(second)).expect("response should be XML");

    // Assert
    assert!(first.contains("<StartAfter>alpha</StartAfter>"));
    assert!(first.contains("<KeyCount>1</KeyCount>"));
    assert!(first.contains("<MaxKeys>1</MaxKeys>"));
    assert!(first.contains("<IsTruncated>true</IsTruncated>"));
    assert!(first.contains("<Key>beta</Key>"));
    assert!(!first.contains("<Key>alpha</Key>"));
    assert!(!first.contains("<Key>gamma</Key>"));
    assert!(second.contains(&format!("<ContinuationToken>{token}</ContinuationToken>")));
    assert!(second.contains("<KeyCount>1</KeyCount>"));
    assert!(second.contains("<IsTruncated>false</IsTruncated>"));
    assert!(!second.contains("<NextContinuationToken>"));
    assert!(second.contains("<Key>gamma</Key>"));
    assert!(!second.contains("<Key>beta</Key>"));
}

#[test]
fn should_reject_invalid_gcs_xml_list_pagination_arguments() {
    // Arrange
    let adapter = Gcs::new();
    let storage = temp_storage();
    storage
        .create_bucket("xml-invalid-list".to_string())
        .unwrap();

    // Act
    // Assert
    for max_keys in ["alpha", "-1", "184467440737095516160", "0"] {
        let response = adapter
            .handle_request(
                &storage,
                &auth_disabled(),
                &parsed_request(
                    "GET",
                    &format!(
                        "http://localhost/xml-invalid-list?list-type=2&max-keys={max_keys}"
                    ),
                    &[("host", "storage.googleapis.com"), ("content-length", "0")],
                    b"",
                )
                ,
            )
            .expect("invalid max-keys should respond");
        assert_eq!(response.status(), http::StatusCode::BAD_REQUEST, "{max_keys}");
        assert!(String::from_utf8(read_test_body(response))
            .expect("response should be XML")
            .contains("<Code>InvalidArgument</Code>"));
    }

    let response = adapter
        .handle_request(
            &storage,
            &auth_disabled(),
            &parsed_request(
                "GET",
                "http://localhost/xml-invalid-list?list-type=2&continuation-token=not-issued",
                &[("host", "storage.googleapis.com"), ("content-length", "0")],
                b"",
            )
            ,
        )
        .expect("invalid continuation token should respond");
    assert_eq!(response.status(), http::StatusCode::BAD_REQUEST);
    assert!(String::from_utf8(read_test_body(response))
        .expect("response should be XML")
        .contains("<Code>InvalidArgument</Code>"));
}

#[test]
fn should_reject_unsupported_gcs_history_operations_without_mutation() {
    // Arrange
    let adapter = Gcs::new();
    let storage = temp_storage();
    storage
        .create_bucket("unsupported-history".to_string())
        .unwrap();
    storage
        .put_object(
            "unsupported-history",
            "object".to_string(),
            Object::new_with_metadata(
                "object".to_string(),
                b"current bytes".to_vec(),
                "text/plain".to_string(),
                HashMap::from([
                    (GCS_GENERATION_KEY.to_string(), "2".to_string()),
                    (GCS_METAGENERATION_KEY.to_string(), "1".to_string()),
                ]),
            ),
        )
        .unwrap();
    let json_cases = [
        (
            "GET",
            "http://localhost/storage/v1/b/unsupported-history/o/object?generation=1",
            b"".as_slice(),
        ),
        (
            "PATCH",
            "http://localhost/storage/v1/b/unsupported-history/o/object?generation=1",
            br#"{"metadata":{"owner":"old"}}"#.as_slice(),
        ),
        (
            "DELETE",
            "http://localhost/storage/v1/b/unsupported-history/o/object?generation=1",
            b"".as_slice(),
        ),
        (
            "GET",
            "http://localhost/download/storage/v1/b/unsupported-history/o/object?generation=1",
            b"".as_slice(),
        ),
    ];
    let xml_cases = ["GET", "PATCH", "DELETE"];

    // Act
    // Assert
    for (method, uri, body) in json_cases {
        let response = adapter
            .handle_request(
                &storage,
                &auth_disabled(),
                &parsed_request(method, uri, &[], body),
            )
            .expect("generation-scoped JSON request should respond");
        assert_eq!(response.status(), http::StatusCode::NOT_IMPLEMENTED, "{method}");
        assert_eq!(
            parse_json_body(response)["error"]["errors"][0]["reason"],
            "notImplemented"
        );
    }
    for method in xml_cases {
        let response = adapter
            .handle_request(
                &storage,
                &auth_disabled(),
                &parsed_request(
                    method,
                    "http://localhost/unsupported-history/object?generation=1",
                    &[("host", "storage.googleapis.com"), ("content-length", "0")],
                    b"",
                )
                ,
            )
            .expect("generation-scoped XML request should respond");
        assert_eq!(response.status(), http::StatusCode::NOT_IMPLEMENTED, "{method}");
        assert!(String::from_utf8(read_test_body(response))
            .expect("response should be XML")
            .contains("<Code>NotImplemented</Code>"));
    }
    for parameter in ["softDeleted", "versions"] {
        let response = adapter
            .handle_request(
                &storage,
                &auth_disabled(),
                &parsed_request(
                    "GET",
                    &format!(
                        "http://localhost/storage/v1/b/unsupported-history/o?{parameter}=true"
                    ),
                    &[],
                    b"",
                )
                ,
            )
            .expect("unsupported JSON history listing should respond");
        assert_eq!(
            response.status(),
            http::StatusCode::NOT_IMPLEMENTED,
            "{parameter}"
        );
    }
    let versions = adapter
        .handle_request(
            &storage,
            &auth_disabled(),
            &parsed_request(
                "GET",
                "http://localhost/unsupported-history?versions",
                &[("host", "storage.googleapis.com"), ("content-length", "0")],
                b"",
            )
            ,
        )
        .expect("unsupported XML history listing should respond");
    assert_eq!(versions.status(), http::StatusCode::NOT_IMPLEMENTED);
    assert!(String::from_utf8(read_test_body(versions))
        .expect("response should be XML")
        .contains("<Code>NotImplemented</Code>"));
    let current = storage
        .get_object("unsupported-history", "object")
        .expect("current object must be preserved");
    assert_eq!(current.data, b"current bytes");
    assert_eq!(
        current.metadata.get(GCS_GENERATION_KEY),
        Some(&"2".to_string())
    );
    assert!(!current.metadata.contains_key("owner"));
}

#[test]
fn should_reject_gcs_xml_object_subresources_without_mutating_bytes() {
    // Arrange
    let adapter = Gcs::new();
    let storage = temp_storage();
    storage
        .create_bucket("xml-object-subresources".to_string())
        .unwrap();
    storage
        .put_object(
            "xml-object-subresources",
            "object".to_string(),
            Object::new(
                "object".to_string(),
                b"original".to_vec(),
                "text/plain".to_string(),
            ),
        )
        .unwrap();

    // Act
    // Assert
    for subresource in ["acl", "retention", "legal-hold", "tagging"] {
        for method in ["GET", "PUT", "DELETE"] {
            let payload = if method == "PUT" {
                b"must-not-overwrite".as_slice()
            } else {
                b"".as_slice()
            };
            let content_length = payload.len().to_string();
            let response = adapter
                .handle_request(
                    &storage,
                    &auth_disabled(),
                    &parsed_request(
                        method,
                        &format!(
                            "http://localhost/xml-object-subresources/object?{subresource}"
                        ),
                        &[
                            ("host", "storage.googleapis.com"),
                            ("content-length", content_length.as_str()),
                        ],
                        payload,
                    )
                    ,
                )
                .expect("unsupported XML object subresource should respond");
            assert_eq!(response.status(), http::StatusCode::NOT_IMPLEMENTED);
            assert!(String::from_utf8(read_test_body(response))
                .expect("response should be XML")
                .contains("<Code>NotImplemented</Code>"));
            assert_eq!(
                storage
                    .get_object("xml-object-subresources", "object")
                    .unwrap()
                    .data,
                b"original"
            );
        }
    }
}

#[test]
fn should_reject_gcs_xml_bucket_subresources_before_crud_dispatch() {
    // Arrange
    let adapter = Gcs::new();
    let storage = temp_storage();
    storage
        .create_bucket("xml-bucket-subresources".to_string())
        .unwrap();
    let subresources = [
        "acl",
        "cors",
        "lifecycle",
        "logging",
        "storageClass",
        "tagging",
        "versioning",
    ];

    // Act
    // Assert
    for subresource in subresources {
        let response = adapter
            .handle_request(
                &storage,
                &auth_disabled(),
                &parsed_request(
                    "GET",
                    &format!("http://localhost/xml-bucket-subresources?{subresource}"),
                    &[("host", "storage.googleapis.com"), ("content-length", "0")],
                    b"",
                )
                ,
            )
            .expect("unsupported XML bucket subresource should respond");
        assert_eq!(response.status(), http::StatusCode::NOT_IMPLEMENTED);
        assert!(String::from_utf8(read_test_body(response))
            .expect("response should be XML")
            .contains("<Code>NotImplemented</Code>"));
        assert!(storage.get_bucket("xml-bucket-subresources").is_ok());
    }
}

#[test]
fn should_reject_malformed_gcs_xml_object_path_without_mutation() {
    // Arrange
    let adapter = Gcs::new();
    let storage = temp_storage();
    storage.create_bucket("encoded-paths".to_string()).unwrap();
    let request = parsed_request(
        "PUT",
        "http://localhost/encoded-paths/bad%2",
        &[("host", "storage.googleapis.com")],
        b"must-not-commit",
    )
    ;

    // Act
    let response = adapter
        .handle_request(&storage, &auth_disabled(), &request)
        .expect("malformed path should respond");

    // Assert
    assert_eq!(response.status(), http::StatusCode::BAD_REQUEST);
    assert!(String::from_utf8(read_test_body(response))
        .expect("response should be XML")
        .contains("<Code>InvalidURI</Code>"));
    assert!(storage.get_object("encoded-paths", "bad%2").is_err());
    assert!(storage
        .list_object_versions_for_key("encoded-paths", "bad%2")
        .expect("version list should succeed")
        .is_empty());
}

#[test]
fn should_route_virtual_hosted_gcs_xml_object_crud_and_decode_the_key_once() {
    // Arrange
    let adapter = Gcs::new();
    let storage = temp_storage();
    storage.create_bucket("virtual.gcs".to_string()).unwrap();
    let host = "virtual.gcs.storage.googleapis.com";
    let uri = "http://localhost/dir%2Fitem%20%E2%98%83";
    let put = parsed_request("PUT", uri, &[("host", host)], b"virtual payload");

    // Act
    assert!(adapter.matches(&put));
    let created = adapter
        .handle_request(&storage, &auth_disabled(), &put)
        .expect("virtual-hosted PUT should respond");
    let get = adapter
        .handle_request(
            &storage,
            &auth_disabled(),
            &parsed_request("GET", uri, &[("host", host)], b""),
        )
        .expect("virtual-hosted GET should respond");
    let head = adapter
        .handle_request(
            &storage,
            &auth_disabled(),
            &parsed_request("HEAD", uri, &[("host", host)], b""),
        )
        .expect("virtual-hosted HEAD should respond");

    // Assert
    assert_eq!(created.status(), http::StatusCode::OK);
    assert_eq!(get.status(), http::StatusCode::OK);
    assert_eq!(read_test_body(get), b"virtual payload");
    assert_eq!(head.status(), http::StatusCode::OK);
    assert_eq!(header_value(&head, "content-length"), Some("15"));
    assert!(read_test_body(head).is_empty());
    assert_eq!(
        storage
            .get_object("virtual.gcs", "dir/item ☃")
            .expect("decoded virtual-hosted object should exist")
            .data,
        b"virtual payload"
    );

    let deleted = adapter
        .handle_request(
            &storage,
            &auth_disabled(),
            &parsed_request(
                "DELETE",
                uri,
                &[("host", host), ("content-length", "0")],
                b"",
            )
            ,
        )
        .expect("virtual-hosted DELETE should respond");
    assert_eq!(deleted.status(), http::StatusCode::NO_CONTENT);
    assert!(storage.get_object("virtual.gcs", "dir/item ☃").is_err());

    let reserved_uri = "http://localhost/storage/v1/key";
    let reserved_put =
        parsed_request("PUT", reserved_uri, &[("host", host)], b"xml, not json");
    assert!(adapter.validate_request_framing(&reserved_put).is_none());
    let reserved_created = adapter
        .handle_request(&storage, &auth_disabled(), &reserved_put)
        .expect("reserved-prefix XML key PUT should respond");
    assert_eq!(reserved_created.status(), http::StatusCode::OK);
    let reserved_get = parsed_request(
        "GET",
        reserved_uri,
        &[("host", host), ("content-length", "0")],
        b"",
    )
    ;
    assert!(adapter.validate_request_framing(&reserved_get).is_none());
    let reserved_read = adapter
        .handle_request(&storage, &auth_disabled(), &reserved_get)
        .expect("reserved-prefix XML key GET should respond");
    assert_eq!(reserved_read.status(), http::StatusCode::OK);
    assert_eq!(read_test_body(reserved_read), b"xml, not json");
    assert_eq!(
        storage
            .get_object("virtual.gcs", "storage/v1/key")
            .expect("reserved-prefix key should stay in virtual-host bucket")
            .data,
        b"xml, not json"
    );

    let malformed = parsed_request(
        "PUT",
        "http://localhost/bad%2",
        &[("host", host)],
        b"must-not-commit",
    )
    ;
    let response = adapter
        .handle_request(&storage, &auth_disabled(), &malformed)
        .expect("malformed virtual-hosted path should respond");
    assert_eq!(response.status(), http::StatusCode::BAD_REQUEST);
    assert!(String::from_utf8(read_test_body(response))
        .expect("response should be XML")
        .contains("<Code>InvalidURI</Code>"));
    assert!(storage.get_object("virtual.gcs", "bad%2").is_err());
}

#[test]
fn should_require_gcs_xml_delete_object_framing_before_mutation() {
    // Arrange
    let adapter = Gcs::new();
    let storage = temp_storage();
    storage.create_bucket("delete-framing".to_string()).unwrap();
    for key in ["path-style", "virtual-hosted", "chunked"] {
        storage
            .put_object(
                "delete-framing",
                key.to_string(),
                Object::new(
                    key.to_string(),
                    b"preserve until framed".to_vec(),
                    "text/plain".to_string(),
                ),
            )
            .unwrap();
    }
    let cases = [
        (
            "http://localhost/delete-framing/path-style",
            "storage.googleapis.com",
            "path-style",
        ),
        (
            "http://localhost/virtual-hosted",
            "delete-framing.storage.googleapis.com",
            "virtual-hosted",
        ),
    ];

    // Act
    // Assert
    for (uri, host, key) in cases {
        let missing = parsed_request("DELETE", uri, &[("host", host)], b"");
        let rejected = adapter
            .validate_request_framing(&missing)
            .expect("unframed XML DELETE Object should be rejected");
        assert_eq!(rejected.status(), http::StatusCode::LENGTH_REQUIRED);
        assert!(String::from_utf8(read_test_body(rejected))
            .expect("response should be XML")
            .contains("<Code>MissingContentLength</Code>"));
        assert!(storage.get_object("delete-framing", key).is_ok());

        let explicit = parsed_request(
            "DELETE",
            uri,
            &[("host", host), ("content-length", "0")],
            b"",
        )
        ;
        assert!(adapter.validate_request_framing(&explicit).is_none());
        let deleted = adapter
            .handle_request(&storage, &auth_disabled(), &explicit)
            .expect("framed XML DELETE Object should respond");
        assert_eq!(deleted.status(), http::StatusCode::NO_CONTENT);
        assert!(storage.get_object("delete-framing", key).is_err());
    }

    let chunked = parsed_request(
        "DELETE",
        "http://localhost/chunked",
        &[
            ("host", "delete-framing.storage.googleapis.com"),
            ("transfer-encoding", "chunked"),
        ],
        b"",
    )
    ;
    assert!(adapter.validate_request_framing(&chunked).is_none());
    let deleted = adapter
        .handle_request(&storage, &auth_disabled(), &chunked)
        .expect("chunked XML DELETE Object should respond");
    assert_eq!(deleted.status(), http::StatusCode::NO_CONTENT);
    assert!(storage.get_object("delete-framing", "chunked").is_err());
}

#[test]
fn should_return_xml_no_such_key_without_mutation_for_missing_object_get_and_delete() {
    // Arrange
    let adapter = Gcs::new();
    let storage = temp_storage();
    storage
        .create_bucket("missing-objects".to_string())
        .unwrap();

    // Act
    let get = adapter
        .handle_request(
            &storage,
            &auth_disabled(),
            &parsed_request(
                "GET",
                "http://localhost/missing-objects/absent.txt",
                &[("host", "storage.googleapis.com")],
                b"",
            )
            ,
        )
        .expect("missing GET should produce a response");
    let delete = adapter
        .handle_request(
            &storage,
            &auth_disabled(),
            &parsed_request(
                "DELETE",
                "http://localhost/missing-objects/absent.txt",
                &[("host", "storage.googleapis.com")],
                b"",
            )
            ,
        )
        .expect("missing DELETE should produce a response");

    // Assert
    assert_eq!(get.status(), http::StatusCode::NOT_FOUND);
    assert!(String::from_utf8(
        get.into_body(),
    )
    .expect("GET response should be XML")
    .contains("<Code>NoSuchKey</Code>"));
    assert_eq!(delete.status(), http::StatusCode::NOT_FOUND);
    assert!(String::from_utf8(
        delete
            .into_body(),
    )
    .expect("DELETE response should be XML")
    .contains("<Code>NoSuchKey</Code>"));
    assert!(matches!(
        storage.get_object("missing-objects", "absent.txt"),
        Err(Failure::KeyNotFound)
    ));
}

#[test]
fn should_render_json_incomplete_body_for_gcs_json_upload() {
    // Arrange
    let adapter = Gcs::new();
    let uri: http::Uri = "/upload/storage/v1/b/bucket/o?uploadType=media"
        .parse()
        .expect("URI should parse");

    // Act
    let response = adapter.render_incomplete_body("POST", &uri);

    // Assert
    assert_eq!(response.status(), http::StatusCode::BAD_REQUEST);
    assert_eq!(
        response
            .headers()
            .get("content-type")
            .and_then(|value| value.to_str().ok()),
        Some("application/json")
    );
    assert_eq!(parse_json_body(response)["error"]["code"], 400);
}

#[test]
fn should_render_xml_incomplete_body_for_gcs_xml_upload() {
    // Arrange
    let adapter = Gcs::new();
    let uri: http::Uri = "/bucket/object".parse().expect("URI should parse");

    // Act
    let response = adapter.render_incomplete_body("PUT", &uri);

    // Assert
    assert_eq!(response.status(), http::StatusCode::BAD_REQUEST);
    assert_eq!(
        response
            .headers()
            .get("content-type")
            .and_then(|value| value.to_str().ok()),
        Some("application/xml")
    );
    assert!(String::from_utf8(read_test_body(response))
        .expect("response should be XML")
        .contains("<Code>IncompleteBody</Code>"));
}

#[test]
fn should_reject_missing_or_invalid_gcs_upload_type_without_creating_session() {
    // Arrange
    let adapter = Gcs::new();
    let storage = temp_storage();
    storage.create_bucket("uploads".to_string()).unwrap();
    let requests = [
        (
            "http://localhost/upload/storage/v1/b/uploads/o?name=item.txt",
            "required",
        ),
        (
            "http://localhost/upload/storage/v1/b/uploads/o?uploadType=unknown&name=item.txt",
            "invalidArgument",
        ),
        (
            "http://localhost/upload/storage/v1/b/uploads/o?uploadType=resumable",
            "required",
        ),
    ];

    // Act
    // Assert
    for (uri, expected_reason) in requests {
        let response = adapter
            .handle_request(
                &storage,
                &auth_disabled(),
                &parsed_request("POST", uri, &[], b""),
            )
            .expect("invalid upload request should respond");
        assert_eq!(response.status(), http::StatusCode::BAD_REQUEST);
        assert_eq!(
            parse_json_body(response)["error"]["errors"][0]["reason"],
            expected_reason
        );
    }
    assert!(adapter.memory.borrow().resumable_sessions.is_empty());
    assert!(storage.get_object("uploads", "item.txt").is_err());
}

#[test]
fn should_shape_missing_bucket_malformed_multipart_and_unknown_session_errors() {
    // Arrange
    let adapter = Gcs::new();
    let storage = temp_storage();
    storage.create_bucket("uploads".to_string()).unwrap();
    let missing_bucket = parsed_request(
        "POST",
        "http://localhost/upload/storage/v1/b/absent/o?uploadType=media&name=item.txt",
        &[],
        b"data",
    )
    ;
    let malformed = parsed_request(
        "POST",
        "http://localhost/upload/storage/v1/b/uploads/o?uploadType=multipart",
        &[("content-type", "multipart/related; boundary=sqrzl")],
        b"not-a-multipart-document",
    )
    ;
    let unknown_session = parsed_request(
        "PUT",
        "http://localhost/upload/resumable/missing-session",
        &[],
        b"data",
    )
    ;

    // Act
    let missing_bucket = adapter
        .handle_request(&storage, &auth_disabled(), &missing_bucket)
        .expect("missing bucket upload should respond");
    let malformed = adapter
        .handle_request(&storage, &auth_disabled(), &malformed)
        .expect("malformed multipart upload should respond");
    let unknown_session = adapter
        .handle_request(&storage, &auth_disabled(), &unknown_session)
        .expect("unknown resumable session should respond");

    // Assert
    assert_eq!(missing_bucket.status(), http::StatusCode::NOT_FOUND);
    assert_eq!(malformed.status(), http::StatusCode::BAD_REQUEST);
    assert_eq!(unknown_session.status(), http::StatusCode::NOT_FOUND);
    for response in [missing_bucket, malformed, unknown_session] {
        assert_eq!(response.headers()["content-type"], "application/json");
        assert!(parse_json_body(response).get("error").is_some());
    }
    assert!(storage.get_object("uploads", "item.txt").is_err());
}

#[test]
fn should_support_gcs_resumable_uploads_and_signed_access() {
    let adapter = Gcs::new();
    let storage = temp_storage();
    storage.create_bucket("videos".to_string()).unwrap();

    let response = adapter
        .handle_request(
            &storage,
            &auth_disabled(),
            &parsed_request(
                "POST",
                "http://localhost/upload/storage/v1/b/videos/o?uploadType=resumable&name=movie.txt",
                &[
                    ("host", "storage.googleapis.com"),
                    ("x-upload-content-type", "text/plain"),
                ],
                b"",
            )
            ,)
        .expect("resumable init should succeed");
    let location = response
        .headers()
        .get("location")
        .and_then(|value| value.to_str().ok())
        .expect("location should exist")
        .to_string();

    adapter
        .handle_request(
            &storage,
            &auth_disabled(),
            &parsed_request(
                "PUT",
                &location,
                &[("host", "storage.googleapis.com")],
                b"chunked",
            )
            ,
        )
        .expect("resumable commit should succeed");

    let expires = "4102444800";
    let request = parsed_request(
        "GET",
        &format!(
            "http://localhost/videos/movie.txt?GoogleAccessId=test-access&Expires={expires}"
        ),
        &[("host", "storage.googleapis.com")],
        b"",
    )
    ;
    let signature = GcsAdapter::sign(
        &gcs_auth(),
        &GcsAdapter::string_to_sign(&request, "videos", Some("movie.txt"), expires)
            .expect("string to sign should build"),
    )
    .expect("signature should build");
    let signed_request = parsed_request(
        "GET",
        &format!(
            "http://localhost/videos/movie.txt?GoogleAccessId=test-access&Expires={}&Signature={}",
            expires,
            urlencoding::encode(&signature)
        ),
        &[("host", "storage.googleapis.com")],
        b"",
    )
    ;

    let response = adapter
        .handle_request(&storage, &gcs_auth(), &signed_request)
        .expect("signed get should succeed");
    let body = response
        .into_body();
    assert_eq!(body.as_slice(), b"chunked");
}

#[test]
fn should_preserve_binary_multipart_media_bytes_exactly() {
    // Arrange
    let adapter = Gcs::new();
    let storage = temp_storage();
    storage
        .create_bucket("multipart-binary".to_string())
        .unwrap();
    let media = b" \xff\x00 ";
    let mut body = b"--sqrzl-boundary\r\nContent-Type: application/json; charset=UTF-8\r\n\r\n{\"name\":\"binary.dat\",\"contentType\":\"application/x-sqrzl\",\"metadata\":{\"owner\":\"alice\"}}\r\n--sqrzl-boundary\r\nContent-Transfer-Encoding: binary\r\n\r\n".to_vec();
    body.extend_from_slice(media);
    body.extend_from_slice(b"\r\n--sqrzl-boundary--\r\n");
    let upload = parsed_request(
        "POST",
        "http://localhost/upload/storage/v1/b/multipart-binary/o?uploadType=multipart",
        &[
            ("host", "storage.googleapis.com"),
            ("content-type", "multipart/related; boundary=sqrzl-boundary"),
        ],
        &body,
    )
    ;

    // Act
    let response = adapter
        .handle_request(&storage, &auth_disabled(), &upload)
        .expect("binary multipart upload should respond");

    // Assert
    assert_eq!(response.status(), http::StatusCode::OK);
    let stored = storage
        .get_object("multipart-binary", "binary.dat")
        .expect("multipart object should be stored");
    assert_eq!(stored.data, media);
    assert_eq!(stored.content_type, "application/x-sqrzl");
    assert_eq!(
        stored.metadata.get("owner").map(String::as_str),
        Some("alice")
    );
}

#[test]
fn should_apply_resumable_json_metadata_and_body_name_without_silent_fields() {
    // Arrange
    let adapter = Gcs::new();
    let storage = temp_storage();
    storage
        .create_bucket("resumable-metadata".to_string())
        .unwrap();
    let initiate = parsed_request(
        "POST",
        "http://localhost/upload/storage/v1/b/resumable-metadata/o?uploadType=resumable",
        &[
            ("host", "storage.googleapis.com"),
            ("content-type", "application/json"),
        ],
        br#"{"name":"body-name.txt","contentType":"text/plain","metadata":{"owner":"alice"}}"#,
    )
    ;

    // Act
    let response = adapter
        .handle_request(&storage, &auth_disabled(), &initiate)
        .expect("resumable metadata initiation should respond");
    assert_eq!(response.status(), http::StatusCode::OK);
    let location = header_value(&response, "location")
        .expect("resumable session location should exist")
        .to_string();
    let completion = adapter
        .handle_request(
            &storage,
            &auth_disabled(),
            &parsed_request(
                "PUT",
                &location,
                &[
                    ("host", "storage.googleapis.com"),
                    ("x-goog-meta-stage", "complete"),
                ],
                b"payload",
            )
            ,
        )
        .expect("resumable metadata completion should respond");

    // Assert
    assert_eq!(completion.status(), http::StatusCode::OK);
    let stored = storage
        .get_object("resumable-metadata", "body-name.txt")
        .expect("resumable object should be stored");
    assert_eq!(stored.content_type, "text/plain");
    assert_eq!(
        stored.metadata.get("owner").map(String::as_str),
        Some("alice")
    );
    assert_eq!(
        stored.metadata.get("stage").map(String::as_str),
        Some("complete")
    );

    let unsupported = adapter
        .handle_request(
            &storage,
            &auth_disabled(),
            &parsed_request(
                "POST",
                "http://localhost/upload/storage/v1/b/resumable-metadata/o?uploadType=resumable&name=unsupported.txt",
                &[("content-type", "application/json")],
                br#"{"cacheControl":"no-cache"}"#,
            )
            ,
        )
        .expect("unsupported resumable metadata should respond");
    assert_eq!(unsupported.status(), http::StatusCode::NOT_IMPLEMENTED);
    assert!(storage
        .get_object("resumable-metadata", "unsupported.txt")
        .is_err());
}

#[test]
fn should_complete_resumable_upload_after_adapter_restart() {
    let adapter = Gcs::new();
    let storage = temp_storage();
    storage.create_bucket("videos".to_string()).unwrap();

    let response = adapter
        .handle_request(
            &storage,
            &auth_disabled(),
            &parsed_request(
                "POST",
                "http://localhost/upload/storage/v1/b/videos/o?uploadType=resumable&name=restart.txt",
                &[
                    ("host", "storage.googleapis.com"),
                    ("x-upload-content-type", "text/plain"),
                ],
                b"",
            )
            ,)
        .expect("resumable init should succeed");
    let location = response
        .headers()
        .get("location")
        .and_then(|value| value.to_str().ok())
        .expect("location should exist")
        .to_string();

    let restarted = Gcs::new();
    restarted
        .handle_request(
            &storage,
            &auth_disabled(),
            &parsed_request(
                "PUT",
                &location,
                &[("host", "storage.googleapis.com")],
                b"restart gcs",
            )
            ,
        )
        .expect("resumable commit after restart should succeed");

    let stored = storage
        .get_object("videos", "restart.txt")
        .expect("resumable object should persist");
    assert_eq!(stored.data.as_slice(), b"restart gcs");
}

#[test]
fn should_reject_resumable_etag_headers_without_consuming_the_session() {
    let adapter = Gcs::new();
    let storage = temp_storage();
    storage.create_bucket("videos".to_string()).unwrap();
    let initiated = adapter
        .handle_request(
            &storage,
            &auth_disabled(),
            &parsed_request(
                "POST",
                "http://localhost/upload/storage/v1/b/videos/o?uploadType=resumable&name=guarded.txt",
                &[("host", "storage.googleapis.com")],
                b"",
            )
            ,
        )
        .expect("resumable initiation should respond");
    let location = header_value(&initiated, "location")
        .expect("resumable session location should exist")
        .to_string();

    let rejected = adapter
        .handle_request(
            &storage,
            &auth_disabled(),
            &parsed_request(
                "PUT",
                &location,
                &[
                    ("host", "storage.googleapis.com"),
                    ("if-match", "\"unsupported\""),
                ],
                b"payload",
            )
            ,
        )
        .expect("unsupported header should respond");
    assert_eq!(rejected.status(), http::StatusCode::BAD_REQUEST);
    assert!(storage.get_object("videos", "guarded.txt").is_err());

    let retried = adapter
        .handle_request(
            &storage,
            &auth_disabled(),
            &parsed_request(
                "PUT",
                &location,
                &[("host", "storage.googleapis.com")],
                b"payload",
            )
            ,
        )
        .expect("the retained resumable session should still complete");
    assert_eq!(retried.status(), http::StatusCode::OK);
    assert_eq!(
        storage
            .get_object("videos", "guarded.txt")
            .expect("retry should commit the object")
            .data,
        b"payload"
    );
}

#[test]
fn should_return_generation_headers_and_support_ranges() {
    let adapter = Gcs::new();
    let storage = temp_storage();

    adapter
        .handle_request(
            &storage,
            &auth_disabled(),
            &parsed_request(
                "PUT",
                "http://localhost/docs",
                &[("host", "storage.googleapis.com")],
                b"",
            )
            ,
        )
        .expect("bucket create should succeed");

    let response = adapter
        .handle_request(
            &storage,
            &auth_disabled(),
            &parsed_request(
                "PUT",
                "http://localhost/docs/readme.txt",
                &[
                    ("host", "storage.googleapis.com"),
                    ("content-type", "text/plain"),
                    ("x-goog-meta-owner", "riley"),
                ],
                b"hello gcs range",
            )
            ,
        )
        .expect("object put should succeed");
    assert!(response.headers().get("x-goog-generation").is_some());

    let response = adapter
        .handle_request(
            &storage,
            &auth_disabled(),
            &parsed_request(
                "HEAD",
                "http://localhost/docs/readme.txt",
                &[("host", "storage.googleapis.com")],
                b"",
            )
            ,
        )
        .expect("head should succeed");
    assert!(response.headers().get("x-goog-generation").is_some());
    assert_eq!(
        response
            .headers()
            .get("accept-ranges")
            .and_then(|value| value.to_str().ok()),
        Some("bytes")
    );
    assert_eq!(
        response
            .headers()
            .get("x-goog-meta-owner")
            .and_then(|value| value.to_str().ok()),
        Some("riley")
    );

    let response = adapter
        .handle_request(
            &storage,
            &auth_disabled(),
            &parsed_request(
                "GET",
                "http://localhost/docs/readme.txt",
                &[("host", "storage.googleapis.com"), ("range", "bytes=6-8")],
                b"",
            )
            ,
        )
        .expect("range get should succeed");
    assert_eq!(response.status(), http::StatusCode::PARTIAL_CONTENT);
    assert_eq!(
        response
            .headers()
            .get("content-range")
            .and_then(|value| value.to_str().ok()),
        Some("bytes 6-8/15")
    );
    assert_eq!(
        response
            .headers()
            .get("x-goog-meta-owner")
            .and_then(|value| value.to_str().ok()),
        Some("riley")
    );
    let body = response
        .into_body();
    assert_eq!(body.as_slice(), b"gcs");
}

#[test]
fn should_support_gcs_json_api_bucket_and_media_flows() {
    let adapter = Gcs::new();
    let storage = temp_storage();

    create_gcs_json_bucket(&adapter, &storage);
    upload_gcs_json_object_resumably(&adapter, &storage);
    verify_gcs_json_object_metadata(&adapter, &storage);
    verify_gcs_json_media_downloads(&adapter, &storage);
}

#[test]
fn should_reject_gcs_json_object_head_with_json_error_without_mutation() {
    // Arrange
    let adapter = Gcs::new();
    let storage = temp_storage();
    storage.create_bucket("json-head".to_string()).unwrap();
    let upload = adapter
        .handle_request(
            &storage,
            &auth_disabled(),
            &parsed_request(
                "POST",
                "http://localhost/upload/storage/v1/b/json-head/o?uploadType=media&name=empty.txt",
                &[("host", "storage.googleapis.com"), ("content-length", "0")],
                b"",
            )
            ,
        )
        .expect("empty media upload should produce a response");
    assert_eq!(upload.status(), http::StatusCode::OK);

    // Act
    let response = adapter
        .handle_request(
            &storage,
            &auth_disabled(),
            &parsed_request(
                "HEAD",
                "http://localhost/storage/v1/b/json-head/o/empty.txt",
                &[("host", "storage.googleapis.com")],
                b"",
            )
            ,
        )
        .expect("JSON HEAD should produce a response");

    // Assert
    assert_eq!(response.status(), http::StatusCode::METHOD_NOT_ALLOWED);
    assert_eq!(
        response
            .headers()
            .get("content-type")
            .and_then(|value| value.to_str().ok()),
        Some("application/json")
    );
    let json: serde_json::Value = serde_json::from_slice(&read_test_body(response))
        .expect("JSON HEAD rejection should use a JSON error envelope");
    assert_eq!(json["error"]["code"], 405);
    assert_eq!(
        storage.get_object("json-head", "empty.txt").unwrap().size,
        0
    );
}

#[test]
fn should_support_gcs_json_api_multipart_uploads() {
    let adapter = Gcs::new();
    let storage = temp_storage();
    storage
        .create_bucket("multipart-bucket".to_string())
        .unwrap();

    let boundary = "sqrzl-boundary";
    let body = format!(
        "--{boundary}\r\nContent-Type: application/json; charset=UTF-8\r\n\r\n{{\"name\":\"multi.txt\",\"metadata\":{{\"owner\":\"sdk\"}}}}\r\n--{boundary}\r\nContent-Type: text/plain\r\n\r\nmultipart body\r\n--{boundary}--\r\n"
    );
    let response = adapter
        .handle_request(
            &storage,
            &auth_disabled(),
            &parsed_request(
                "POST",
                "http://localhost/upload/storage/v1/b/multipart-bucket/o?uploadType=multipart",
                &[
                    ("host", "storage.googleapis.com"),
                    ("content-type", "multipart/related; boundary=sqrzl-boundary"),
                ],
                body.as_bytes(),
            )
            ,
        )
        .expect("multipart upload should succeed");
    assert_eq!(response.status(), http::StatusCode::OK);

    let response = adapter
        .handle_request(
            &storage,
            &auth_disabled(),
            &parsed_request(
                "GET",
                "http://localhost/storage/v1/b/multipart-bucket/o/multi.txt",
                &[("host", "storage.googleapis.com")],
                b"",
            )
            ,
        )
        .expect("metadata fetch should succeed");
    let body = response
        .into_body();
    let json = String::from_utf8(body.to_vec()).expect("json");
    assert!(json.contains("\"name\":\"multi.txt\""));
    assert!(json.contains("\"owner\":\"sdk\""));
}

#[test]
fn should_validate_matching_gcs_json_multipart_crc32c() {
    // Arrange
    let adapter = Gcs::new();
    let storage = temp_storage();
    storage
        .create_bucket("multipart-crc32c".to_string())
        .unwrap();
    let boundary = "sqrzl-crc32c";
    let body = format!(
        "--{boundary}\r\nContent-Type: application/json; charset=UTF-8\r\n\r\n{{\"name\":\"checked.txt\",\"crc32c\":\"KGE25g==\"}}\r\n--{boundary}\r\nContent-Type: text/plain\r\n\r\nmultipart body\r\n--{boundary}--\r\n"
    );
    let request = parsed_request(
        "POST",
        "http://localhost/upload/storage/v1/b/multipart-crc32c/o?uploadType=multipart",
        &[
            ("host", "storage.googleapis.com"),
            ("content-type", "multipart/related; boundary=sqrzl-crc32c"),
        ],
        body.as_bytes(),
    )
    ;

    // Act
    let response = adapter
        .handle_request(&storage, &auth_disabled(), &request)
        .expect("matching CRC32C upload should respond");

    // Assert
    assert_eq!(response.status(), http::StatusCode::OK);
    let response_json: serde_json::Value =
        serde_json::from_slice(&read_test_body(response))
            .expect("upload response should contain JSON metadata");
    assert_eq!(response_json["crc32c"], "KGE25g==");
    assert_eq!(
        storage
            .get_object("multipart-crc32c", "checked.txt")
            .expect("matching CRC32C upload should persist")
            .data,
        b"multipart body"
    );
}

#[test]
fn should_reject_mismatched_gcs_json_multipart_crc32c_without_mutation() {
    // Arrange
    let adapter = Gcs::new();
    let storage = temp_storage();
    storage
        .create_bucket("multipart-crc32c".to_string())
        .unwrap();
    storage
        .put_object(
            "multipart-crc32c",
            "checked.txt".to_string(),
            Object::new(
                "checked.txt".to_string(),
                b"preserved".to_vec(),
                "text/plain".to_string(),
            ),
        )
        .unwrap();
    let before = storage
        .get_object("multipart-crc32c", "checked.txt")
        .unwrap();
    let boundary = "sqrzl-crc32c";
    let body = format!(
        "--{boundary}\r\nContent-Type: application/json; charset=UTF-8\r\n\r\n{{\"name\":\"checked.txt\",\"crc32c\":\"AAAAAA==\"}}\r\n--{boundary}\r\nContent-Type: text/plain\r\n\r\nmultipart body\r\n--{boundary}--\r\n"
    );
    let request = parsed_request(
        "POST",
        "http://localhost/upload/storage/v1/b/multipart-crc32c/o?uploadType=multipart",
        &[
            ("host", "storage.googleapis.com"),
            ("content-type", "multipart/related; boundary=sqrzl-crc32c"),
        ],
        body.as_bytes(),
    )
    ;

    // Act
    let response = adapter
        .handle_request(&storage, &auth_disabled(), &request)
        .expect("mismatched CRC32C upload should respond");

    // Assert
    assert_eq!(response.status(), http::StatusCode::BAD_REQUEST);
    let response_json: serde_json::Value =
        serde_json::from_slice(&read_test_body(response))
            .expect("checksum rejection should use the JSON error envelope");
    assert_eq!(response_json["error"]["code"], 400);
    assert_eq!(response_json["error"]["errors"][0]["reason"], "invalid");
    let after = storage
        .get_object("multipart-crc32c", "checked.txt")
        .expect("failed checksum must preserve the existing object");
    assert_eq!(after.data, before.data);
    assert_eq!(after.etag, before.etag);
}

#[test]
fn should_reject_mismatched_resumable_metadata_crc32c_without_mutation() {
    // Arrange
    let adapter = Gcs::new();
    let storage = temp_storage();
    storage
        .create_bucket("resumable-crc32c".to_string())
        .unwrap();
    let initiation = adapter
        .handle_request(
            &storage,
            &auth_disabled(),
            &parsed_request(
                "POST",
                "http://localhost/upload/storage/v1/b/resumable-crc32c/o?uploadType=resumable",
                &[("content-type", "application/json")],
                br#"{"name":"checked.txt","crc32c":"9ONpcA=="}"#,
            )
            ,
        )
        .expect("resumable checksum initiation should respond");
    let location = header_value(&initiation, "location")
        .expect("resumable checksum session should have a location")
        .to_string();

    // Act
    let response = adapter
        .handle_request(
            &storage,
            &auth_disabled(),
            &parsed_request("PUT", &location, &[], b"wrong"),
        )
        .expect("mismatched resumable checksum should respond");

    // Assert
    assert_eq!(response.status(), http::StatusCode::BAD_REQUEST);
    let response_json: serde_json::Value =
        serde_json::from_slice(&read_test_body(response))
            .expect("resumable checksum rejection should use JSON");
    assert_eq!(response_json["error"]["errors"][0]["reason"], "invalid");
    assert!(storage
        .get_object("resumable-crc32c", "checked.txt")
        .is_err());
}

#[test]
fn should_validate_matching_gcs_json_media_x_goog_hash_crc32c() {
    // Arrange
    let adapter = Gcs::new();
    let storage = temp_storage();
    storage.create_bucket("media-crc32c".to_string()).unwrap();
    let request = parsed_request(
        "POST",
        "http://localhost/upload/storage/v1/b/media-crc32c/o?uploadType=media&name=checked.txt",
        &[("x-goog-hash", "crc32c=9ONpcA==, crc32c=9ONpcA==")],
        b"payload",
    )
    ;

    // Act
    let response = adapter
        .handle_request(&storage, &auth_disabled(), &request)
        .expect("matching media checksum should respond");

    // Assert
    assert_eq!(response.status(), http::StatusCode::OK);
    let response_json: serde_json::Value =
        serde_json::from_slice(&read_test_body(response))
            .expect("matching media response should contain JSON metadata");
    assert_eq!(response_json["crc32c"], "9ONpcA==");
    assert_eq!(
        storage
            .get_object("media-crc32c", "checked.txt")
            .expect("matching media checksum should persist")
            .data,
        b"payload"
    );
}

#[test]
fn should_reject_invalid_gcs_json_media_x_goog_hash_without_mutation() {
    // Arrange
    let adapter = Gcs::new();
    let storage = temp_storage();
    storage.create_bucket("media-crc32c".to_string()).unwrap();
    storage
        .put_object(
            "media-crc32c",
            "checked.txt".to_string(),
            Object::new(
                "checked.txt".to_string(),
                b"preserved".to_vec(),
                "text/plain".to_string(),
            ),
        )
        .unwrap();
    let cases = [
        ("crc32c=AAAAAA==", http::StatusCode::BAD_REQUEST),
        ("crc32c=not-base64", http::StatusCode::BAD_REQUEST),
        ("crc32c", http::StatusCode::BAD_REQUEST),
        ("md5=XUFAKrxLKna5cZ2REBfFkg==", http::StatusCode::NOT_IMPLEMENTED),
    ];

    // Act
    // Assert
    for (hash, expected_status) in cases {
        let response = adapter
            .handle_request(
                &storage,
                &auth_disabled(),
                &parsed_request(
                    "POST",
                    "http://localhost/upload/storage/v1/b/media-crc32c/o?uploadType=media&name=checked.txt",
                    &[("x-goog-hash", hash)],
                    b"payload",
                )
                ,
            )
            .expect("invalid media hash should respond");
        assert_eq!(response.status(), expected_status, "{hash}");
        assert_eq!(
            storage
                .get_object("media-crc32c", "checked.txt")
                .expect("invalid media hash must preserve the object")
                .data,
            b"preserved",
            "{hash}"
        );
    }
}

#[test]
fn should_retain_resumable_session_after_x_goog_hash_crc32c_mismatch() {
    // Arrange
    let adapter = Gcs::new();
    let storage = temp_storage();
    storage
        .create_bucket("resumable-header-crc32c".to_string())
        .unwrap();
    let initiation = adapter
        .handle_request(
            &storage,
            &auth_disabled(),
            &parsed_request(
                "POST",
                "http://localhost/upload/storage/v1/b/resumable-header-crc32c/o?uploadType=resumable&name=checked.txt",
                &[],
                b"",
            )
            ,
        )
        .expect("resumable session initiation should respond");
    let location = header_value(&initiation, "location")
        .expect("resumable session should have a location")
        .to_string();

    // Act
    let rejected = adapter
        .handle_request(
            &storage,
            &auth_disabled(),
            &parsed_request(
                "PUT",
                &location,
                &[("x-goog-hash", "crc32c=AAAAAA==")],
                b"payload",
            )
            ,
        )
        .expect("mismatched resumable checksum should respond");
    let absent_after_rejection = storage
        .get_object("resumable-header-crc32c", "checked.txt")
        .is_err();
    let response = adapter
        .handle_request(
            &storage,
            &auth_disabled(),
            &parsed_request(
                "PUT",
                &location,
                &[("x-goog-hash", "crc32c=9ONpcA==")],
                b"payload",
            )
            ,
        )
        .expect("checksum retry should respond");

    // Assert
    assert_eq!(rejected.status(), http::StatusCode::BAD_REQUEST);
    assert!(absent_after_rejection);
    assert_eq!(response.status(), http::StatusCode::OK);
    assert_eq!(
        storage
            .get_object("resumable-header-crc32c", "checked.txt")
            .expect("checksum retry should persist the object")
            .data,
        b"payload"
    );
}

#[test]
fn should_persist_gcs_json_media_uploads_with_generation_preconditions() {
    let adapter = Gcs::new();
    let storage = temp_storage();
    storage.create_bucket("media-bucket".to_string()).unwrap();

    let create_uri = "http://localhost/upload/storage/v1/b/media-bucket/o?uploadType=media&name=wal%2Fpublication-catalog.v1.json&ifGenerationMatch=0";
    let response = upload_gcs_json_media(
        &adapter,
        &storage,
        create_uri,
        br#"{"version":1}"#,
        &[
            ("content-type", "application/json"),
            ("x-goog-meta-owner", "midge"),
        ],
    )
    ;
    assert_eq!(response.status(), http::StatusCode::OK);
    let created = parse_json_body(response);
    assert_eq!(created["name"], "wal/publication-catalog.v1.json");
    let generation = created["generation"]
        .as_str()
        .expect("generation should exist")
        .to_string();
    assert!(created["etag"]
        .as_str()
        .is_some_and(|etag| !etag.is_empty()));

    let metadata = adapter
        .handle_request(
            &storage,
            &auth_disabled(),
            &parsed_request(
                "GET",
                "http://localhost/storage/v1/b/media-bucket/o/wal%2Fpublication-catalog.v1.json",
                &[("host", "storage.googleapis.com")],
                b"",
            )
            ,
        )
        .expect("metadata read should succeed");
    assert_eq!(metadata.status(), http::StatusCode::OK);
    let metadata = parse_json_body(metadata);
    assert_eq!(metadata["generation"], generation);
    assert_eq!(metadata["metadata"]["owner"], "midge");

    let media = read_gcs_json_media(&adapter, &storage);
    assert_eq!(media.status(), http::StatusCode::OK);
    assert_eq!(read_test_body(media), br#"{"version":1}"#);

    let matching_uri = format!(
        "http://localhost/upload/storage/v1/b/media-bucket/o?uploadType=media&name=wal%2Fpublication-catalog.v1.json&ifGenerationMatch={generation}"
    );
    let overwritten =
        upload_gcs_json_media(&adapter, &storage, &matching_uri, br#"{"version":2}"#, &[])
            ;
    assert_eq!(overwritten.status(), http::StatusCode::OK);

    let stale =
        upload_gcs_json_media(&adapter, &storage, &matching_uri, br#"{"version":3}"#, &[])
            ;
    assert_eq!(stale.status(), http::StatusCode::PRECONDITION_FAILED);

    let media = read_gcs_json_media(&adapter, &storage);
    assert_eq!(read_test_body(media), br#"{"version":2}"#);
}

fn upload_gcs_json_media(
    adapter: &Gcs,
    storage: &Storage,
    uri: &str,
    body: &[u8],
    extra_headers: &[(&str, &str)],
) -> http::Response<Vec<u8>> {
    let mut headers = vec![("host", "storage.googleapis.com")];
    headers.extend_from_slice(extra_headers);
    adapter
        .handle_request(
            &storage,
            &auth_disabled(),
            &parsed_request("POST", uri, &headers, body),
        )
        .expect("media upload should return a response")
}

fn read_gcs_json_media(
    adapter: &Gcs,
    storage: &Storage,
) -> http::Response<Vec<u8>> {
    adapter
        .handle_request(
            &storage,
            &auth_disabled(),
            &parsed_request(
                "GET",
                "http://localhost/storage/v1/b/media-bucket/o/wal%2Fpublication-catalog.v1.json?alt=media",
                &[("host", "storage.googleapis.com")],
                b"",
            )
            ,
        )
        .expect("media read should return a response")
}

#[test]
fn should_increment_generation_on_overwrite_and_patch_metageneration() {
    let adapter = Gcs::new();
    let storage = temp_storage();
    storage.create_bucket("gens".to_string()).unwrap();

    let second_generation = verify_gcs_generation_increment(&adapter, &storage);
    verify_gcs_json_generation_metadata(&adapter, &storage, &second_generation);
    verify_gcs_metageneration_patch(&adapter, &storage, &second_generation);
}

#[test]
fn should_patch_protected_object_metadata_without_creating_a_new_version() {
    // Arrange
    let adapter = Gcs::new();
    let storage = temp_storage();
    let create = parsed_request(
        "POST",
        "http://localhost/storage/v1/b?project=test-project",
        &[
            ("host", "storage.googleapis.com"),
            ("content-type", "application/json"),
        ],
        br#"{"name":"protected-metadata","softDeletePolicy":{"retentionDurationSeconds":"604800"}}"#,
    )
    ;
    assert_eq!(
        adapter
            .handle_request(&storage, &auth_disabled(), &create)
            .unwrap()
            .status(),
        http::StatusCode::OK
    );
    let upload = parsed_request(
        "POST",
        "http://localhost/upload/storage/v1/b/protected-metadata/o?uploadType=media&name=object",
        &[("content-type", "text/plain")],
        b"preserved bytes",
    )
    ;
    assert_eq!(
        adapter
            .handle_request(&storage, &auth_disabled(), &upload)
            .unwrap()
            .status(),
        http::StatusCode::OK
    );
    let observed = storage.get_object("protected-metadata", "object").unwrap();
    let observed_metadata = described("protected-metadata", &observed);
    let generation = observed.metadata[GCS_GENERATION_KEY].clone();
    let versions_before = storage
        .list_object_versions_for_key("protected-metadata", "object")
        .unwrap();
    let patch = parsed_request(
        "PATCH",
        &format!(
            "http://localhost/storage/v1/b/protected-metadata/o/object?ifGenerationMatch={generation}&ifMetagenerationMatch=1"
        ),
        &[("content-type", "application/json")],
        br#"{"contentType":"application/sqrzl-test","metadata":{"owner":"gcs"}}"#,
    )
    ;

    // Act
    let response = adapter
        .handle_request(&storage, &auth_disabled(), &patch)
        .expect("metadata patch should respond");

    // Assert
    assert_eq!(response.status(), http::StatusCode::OK);
    let metadata_response = parse_json_body(response);
    assert_eq!(metadata_response["generation"], generation);
    assert_eq!(metadata_response["metageneration"], "2");
    assert_ne!(metadata_response["etag"], observed_metadata["etag"]);
    assert_ne!(metadata_response["updated"], observed_metadata["updated"]);
    let updated = storage.get_object("protected-metadata", "object").unwrap();
    assert_eq!(updated.data, observed.data);
    assert_eq!(updated.etag, observed.etag);
    assert_eq!(updated.last_modified, observed.last_modified);
    assert_eq!(updated.version_id, observed.version_id);
    assert_eq!(updated.metadata[GCS_GENERATION_KEY], generation);
    assert_eq!(updated.metadata[GCS_METAGENERATION_KEY], "2");
    assert_eq!(
        updated.metadata.get("owner").map(String::as_str),
        Some("gcs")
    );
    assert_eq!(updated.content_type, "application/sqrzl-test");
    let versions_after = storage
        .list_object_versions_for_key("protected-metadata", "object")
        .unwrap();
    assert_eq!(versions_after.len(), versions_before.len());
    assert_eq!(
        versions_after
            .iter()
            .map(|version| version.version_id.as_deref())
            .collect::<Vec<_>>(),
        versions_before
            .iter()
            .map(|version| version.version_id.as_deref())
            .collect::<Vec<_>>()
    );
}

fn create_gcs_json_bucket(adapter: &Gcs, storage: &Storage) {
    let response = adapter
        .handle_request(
            &storage,
            &auth_disabled(),
            &parsed_request(
                "POST",
                "http://localhost/storage/v1/b?project=test-project",
                &[
                    ("host", "storage.googleapis.com"),
                    ("content-type", "application/json"),
                ],
                br#"{"name":"json-bucket"}"#,
            )
            ,
        )
        .expect("json api create bucket should succeed");
    assert_eq!(response.status(), http::StatusCode::OK);
}

fn upload_gcs_json_object_resumably(adapter: &Gcs, storage: &Storage) {
    let response = adapter
        .handle_request(
            &storage,
            &auth_disabled(),
            &parsed_request(
                "POST",
                "http://localhost/upload/storage/v1/b/json-bucket/o?uploadType=resumable&name=hello.txt",
                &[
                    ("host", "storage.googleapis.com"),
                    ("x-upload-content-type", "text/plain"),
                    ("content-type", "application/json"),
                ],
                br#"{"metadata":{"owner":"jules"}}"#,
            )
            ,
        )
        .expect("resumable init should succeed");
    let location = header_value(&response, "location")
        .expect("location should exist")
        .to_string();

    adapter
        .handle_request(
            &storage,
            &auth_disabled(),
            &parsed_request(
                "PUT",
                &location,
                &[("host", "storage.googleapis.com")],
                b"json api",
            )
            ,
        )
        .expect("resumable upload should succeed");
}

fn verify_gcs_json_object_metadata(adapter: &Gcs, storage: &Storage) {
    let response = adapter
        .handle_request(
            &storage,
            &auth_disabled(),
            &parsed_request(
                "GET",
                "http://localhost/storage/v1/b/json-bucket/o/hello.txt",
                &[("host", "storage.googleapis.com")],
                b"",
            )
            ,
        )
        .expect("json object metadata should succeed");
    let json = String::from_utf8(read_test_body(response)).expect("json");
    assert!(json.contains("\"name\":\"hello.txt\""));
    assert!(json.contains("\"owner\":\"jules\""));
}

fn verify_gcs_json_media_downloads(adapter: &Gcs, storage: &Storage) {
    let response = adapter
        .handle_request(
            &storage,
            &auth_disabled(),
            &parsed_request(
                "GET",
                "http://localhost/download/storage/v1/b/json-bucket/o/hello.txt?alt=media",
                &[("host", "storage.googleapis.com")],
                b"",
            )
            ,
        )
        .expect("download should succeed");
    assert_eq!(read_test_body(response).as_slice(), b"json api");

    let response = adapter
        .handle_request(
            &storage,
            &auth_disabled(),
            &parsed_request(
                "GET",
                "http://localhost/download/storage/v1/b/json-bucket/o/hello.txt?alt=media",
                &[("host", "storage.googleapis.com"), ("range", "bytes=0-3")],
                b"",
            )
            ,
        )
        .expect("range download should succeed");
    assert_eq!(response.status(), http::StatusCode::PARTIAL_CONTENT);
    assert_eq!(read_test_body(response).as_slice(), b"json");
}

fn verify_gcs_generation_increment(
    adapter: &Gcs,
    storage: &Storage,
) -> String {
    let first_generation = put_gcs_generation_object(adapter, storage, b"v1");
    let second_generation = put_gcs_generation_object(adapter, storage, b"v2");
    assert_ne!(first_generation, second_generation);
    second_generation
}

fn put_gcs_generation_object(
    adapter: &Gcs,
    storage: &Storage,
    body: &[u8],
) -> String {
    let response = adapter
        .handle_request(
            &storage,
            &auth_disabled(),
            &parsed_request(
                "PUT",
                "http://localhost/gens/item.txt",
                &[
                    ("host", "storage.googleapis.com"),
                    ("content-type", "text/plain"),
                ],
                body,
            )
            ,
        )
        .expect("put should succeed");
    header_value(&response, "x-goog-generation")
        .expect("generation should exist")
        .to_string()
}

fn verify_gcs_json_generation_metadata(
    adapter: &Gcs,
    storage: &Storage,
    generation: &str,
) {
    let json = fetch_gcs_generation_metadata(adapter, storage);
    assert_eq!(
        json.get("generation").and_then(|value| value.as_str()),
        Some(generation)
    );
    assert_eq!(
        json.get("metageneration").and_then(|value| value.as_str()),
        Some("1")
    );
}

fn verify_gcs_metageneration_patch(
    adapter: &Gcs,
    storage: &Storage,
    generation: &str,
) {
    let response = adapter
        .handle_request(
            &storage,
            &auth_disabled(),
            &parsed_request(
                "PATCH",
                "http://localhost/storage/v1/b/gens/o/item.txt?ifMetagenerationMatch=1",
                &[
                    ("host", "storage.googleapis.com"),
                    ("content-type", "application/json"),
                ],
                br#"{"metadata":{"owner":"sdk"}}"#,
            )
            ,
        )
        .expect("patch should succeed");
    let json = parse_json_body(response);
    assert_eq!(
        json.get("generation").and_then(|value| value.as_str()),
        Some(generation)
    );
    assert_eq!(
        json.get("metageneration").and_then(|value| value.as_str()),
        Some("2")
    );
    assert_eq!(
        json.get("metadata")
            .and_then(|value| value.get("owner"))
            .and_then(|value| value.as_str()),
        Some("sdk")
    );
}

fn fetch_gcs_generation_metadata(
    adapter: &Gcs,
    storage: &Storage,
) -> serde_json::Value {
    let response = adapter
        .handle_request(
            &storage,
            &auth_disabled(),
            &parsed_request(
                "GET",
                "http://localhost/storage/v1/b/gens/o/item.txt",
                &[("host", "storage.googleapis.com")],
                b"",
            )
            ,
        )
        .expect("json metadata fetch should succeed");
    parse_json_body(response)
}

#[test]
fn should_enforce_gcs_generation_and_metageneration_preconditions() {
    let adapter = Gcs::new();
    let storage = temp_storage();
    storage.create_bucket("conds".to_string()).unwrap();

    adapter
        .handle_request(
            &storage,
            &auth_disabled(),
            &parsed_request(
                "PUT",
                "http://localhost/conds/check.txt",
                &[
                    ("host", "storage.googleapis.com"),
                    ("content-type", "text/plain"),
                ],
                b"check",
            )
            ,
        )
        .expect("put should succeed");

    let response = adapter
        .handle_request(
            &storage,
            &auth_disabled(),
            &parsed_request(
                "GET",
                "http://localhost/storage/v1/b/conds/o/check.txt",
                &[("host", "storage.googleapis.com")],
                b"",
            )
            ,
        )
        .expect("json fetch should succeed");
    let body = response
        .into_body();
    let json: serde_json::Value = serde_json::from_slice(&body).expect("json should parse");
    let generation = json
        .get("generation")
        .and_then(|value| value.as_str())
        .expect("generation should exist")
        .to_string();

    let response = adapter
        .handle_request(
            &storage,
            &auth_disabled(),
            &parsed_request(
                "GET",
                &format!(
                    "http://localhost/storage/v1/b/conds/o/check.txt?ifGenerationMatch={generation}"
                ),
                &[("host", "storage.googleapis.com")],
                b"",
            )
            ,)
        .expect("conditional get should complete");
    assert_eq!(response.status(), http::StatusCode::OK);

    let response = adapter
        .handle_request(
            &storage,
            &auth_disabled(),
            &parsed_request(
                "GET",
                "http://localhost/storage/v1/b/conds/o/check.txt?ifGenerationMatch=999999",
                &[("host", "storage.googleapis.com")],
                b"",
            )
            ,
        )
        .expect("failed conditional get should complete");
    assert_eq!(response.status(), http::StatusCode::PRECONDITION_FAILED);

    let response = adapter
        .handle_request(
            &storage,
            &auth_disabled(),
            &parsed_request(
                "PATCH",
                "http://localhost/storage/v1/b/conds/o/check.txt?ifMetagenerationMatch=999",
                &[
                    ("host", "storage.googleapis.com"),
                    ("content-type", "application/json"),
                ],
                br#"{"metadata":{"owner":"blocked"}}"#,
            )
            ,
        )
        .expect("failed patch should complete");
    assert_eq!(response.status(), http::StatusCode::PRECONDITION_FAILED);
}

#[test]
fn should_require_auth_and_project_for_json_bucket_collection() {
    // Arrange
    let adapter = Gcs::new();
    let storage = temp_storage();
    let missing_auth = parsed_request(
        "GET",
        "http://localhost/storage/v1/b?project=test-project",
        &[("host", "storage.googleapis.com")],
        b"",
    )
    ;
    let missing_project = parsed_request(
        "GET",
        "http://localhost/storage/v1/b",
        &[("host", "storage.googleapis.com")],
        b"",
    )
    ;

    // Act
    let unauthorized = adapter
        .handle_request(&storage, &gcs_auth(), &missing_auth)
        .expect("missing auth should produce a response");
    let invalid = adapter
        .handle_request(&storage, &auth_disabled(), &missing_project)
        .expect("missing project should produce a response");

    // Assert
    assert_eq!(unauthorized.status(), http::StatusCode::UNAUTHORIZED);
    let unauthorized_body = unauthorized
        .into_body();
    let unauthorized_body: serde_json::Value =
        serde_json::from_slice(&unauthorized_body).expect("authorization error should be JSON");
    assert_eq!(unauthorized_body["error"]["code"], 401);
    assert_eq!(
        unauthorized_body["error"]["errors"][0]["reason"],
        "authError"
    );
    assert_eq!(invalid.status(), http::StatusCode::BAD_REQUEST);
}

#[test]
fn should_return_prefixes_and_opaque_page_tokens_for_json_object_list() {
    // Arrange
    let adapter = Gcs::new();
    let storage = temp_storage();
    storage.create_bucket("listed".to_string()).unwrap();
    for key in ["docs/a.txt", "docs/archive/b.txt", "docs/z.txt"] {
        storage
            .put_object(
                "listed",
                key.to_string(),
                Object::new(
                    key.to_string(),
                    b"x".to_vec(),
                    "text/plain".to_string(),
                ),
            )
            .unwrap();
    }
    let request = parsed_request(
        "GET",
        "http://localhost/storage/v1/b/listed/o?prefix=docs%2F&delimiter=%2F&maxResults=2",
        &[("host", "storage.googleapis.com")],
        b"",
    )
    ;

    // Act
    let response = adapter
        .handle_request(&storage, &auth_disabled(), &request)
        .expect("object list should respond");
    let json = parse_json_body(response);

    // Assert
    assert_eq!(json["prefixes"][0], "docs/archive/");
    assert!(json["nextPageToken"]
        .as_str()
        .is_some_and(|token| token != "docs/a.txt"));
}

#[test]
fn should_only_include_gcs_json_next_page_tokens_on_truncated_lists() {
    // Arrange
    let adapter = Gcs::new();
    let storage = temp_storage();
    for bucket in ["page-a", "page-b"] {
        storage.create_bucket(bucket.to_string()).unwrap();
    }
    for key in ["a.txt", "b.txt"] {
        storage
            .put_object(
                "page-a",
                key.to_string(),
                Object::new(
                    key.to_string(),
                    b"x".to_vec(),
                    "text/plain".to_string(),
                ),
            )
            .unwrap();
    }

    // Act
    let bucket_first = adapter
        .handle_request(
            &storage,
            &auth_disabled(),
            &parsed_request(
                "GET",
                "http://localhost/storage/v1/b?project=test&maxResults=1",
                &[("host", "storage.googleapis.com")],
                b"",
            )
            ,
        )
        .expect("first bucket page should respond");
    let bucket_first = parse_json_body(bucket_first);
    let bucket_token = bucket_first["nextPageToken"]
        .as_str()
        .expect("truncated bucket page should contain a token");
    let bucket_last = adapter
        .handle_request(
            &storage,
            &auth_disabled(),
            &parsed_request(
                "GET",
                &format!(
                    "http://localhost/storage/v1/b?project=test&maxResults=1&pageToken={bucket_token}"
                ),
                &[("host", "storage.googleapis.com")],
                b"",
            )
            ,
        )
        .expect("last bucket page should respond");
    let bucket_last = parse_json_body(bucket_last);

    let object_first = adapter
        .handle_request(
            &storage,
            &auth_disabled(),
            &parsed_request(
                "GET",
                "http://localhost/storage/v1/b/page-a/o?maxResults=1",
                &[("host", "storage.googleapis.com")],
                b"",
            )
            ,
        )
        .expect("first object page should respond");
    let object_first = parse_json_body(object_first);
    let object_token = object_first["nextPageToken"]
        .as_str()
        .expect("truncated object page should contain a token");
    let object_last = adapter
        .handle_request(
            &storage,
            &auth_disabled(),
            &parsed_request(
                "GET",
                &format!(
                    "http://localhost/storage/v1/b/page-a/o?maxResults=1&pageToken={object_token}"
                ),
                &[("host", "storage.googleapis.com")],
                b"",
            )
            ,
        )
        .expect("last object page should respond");
    let object_last = parse_json_body(object_last);

    // Assert
    assert!(bucket_first.get("nextPageToken").is_some());
    assert_eq!(bucket_last["items"][0]["name"], "page-b");
    assert!(bucket_last.get("nextPageToken").is_none());
    assert!(object_first.get("nextPageToken").is_some());
    assert_eq!(object_last["items"][0]["name"], "b.txt");
    assert!(object_last.get("nextPageToken").is_none());
}

#[test]
fn should_preserve_first_gcs_object_after_zero_sized_page() {
    // Arrange
    let adapter = Gcs::new();
    let storage = temp_storage();
    storage.create_bucket("zero-page".to_string()).unwrap();
    storage
        .put_object(
            "zero-page",
            "first.txt".to_string(),
            Object::new(
                "first.txt".to_string(),
                b"x".to_vec(),
                "text/plain".to_string(),
            ),
        )
        .unwrap();

    // Act
    let empty_page = adapter
        .handle_request(
            &storage,
            &auth_disabled(),
            &parsed_request(
                "GET",
                "http://localhost/storage/v1/b/zero-page/o?maxResults=0",
                &[("host", "storage.googleapis.com")],
                b"",
            )
            ,
        )
        .expect("zero-sized page should respond");
    let empty_page = parse_json_body(empty_page);
    let token = empty_page["nextPageToken"]
        .as_str()
        .expect("nonempty listing should return a continuation token");
    let next_page = adapter
        .handle_request(
            &storage,
            &auth_disabled(),
            &parsed_request(
                "GET",
                &format!(
                    "http://localhost/storage/v1/b/zero-page/o?maxResults=1&pageToken={token}"
                ),
                &[("host", "storage.googleapis.com")],
                b"",
            )
            ,
        )
        .expect("continuation page should respond");
    // Assert
    assert!(empty_page["items"].as_array().is_some_and(Vec::is_empty));
    let next_page = parse_json_body(next_page);
    assert_eq!(next_page["items"][0]["name"], "first.txt");
}

#[test]
fn should_reject_nonnumeric_gcs_json_page_size() {
    // Arrange
    let adapter = Gcs::new();
    let storage = temp_storage();
    storage
        .create_bucket("invalid-page-size".to_string())
        .unwrap();

    // Act
    let response = adapter
        .handle_request(
            &storage,
            &auth_disabled(),
            &parsed_request(
                "GET",
                "http://localhost/storage/v1/b/invalid-page-size/o?maxResults=not-a-number",
                &[("host", "storage.googleapis.com")],
                b"",
            )
            ,
        )
        .expect("invalid page size should respond");

    // Assert
    assert_eq!(response.status(), http::StatusCode::BAD_REQUEST);
    assert_eq!(parse_json_body(response)["error"]["code"], 400);
}

#[test]
fn should_reject_retained_overwrite_and_invalid_generation_preconditions() {
    // Arrange
    let adapter = Gcs::new();
    let storage = temp_storage();
    let create = parsed_request(
        "POST",
        "http://localhost/storage/v1/b?project=test-project",
        &[
            ("host", "storage.googleapis.com"),
            ("content-type", "application/json"),
        ],
        br#"{"name":"retained","retentionPolicy":{"retentionPeriod":"3600"}}"#,
    )
    ;
    assert_eq!(
        adapter
            .handle_request(&storage, &auth_disabled(), &create)
            .expect("bucket create should respond")
            .status(),
        http::StatusCode::OK
    );
    let create_object = parsed_request(
        "POST",
        "http://localhost/upload/storage/v1/b/retained/o?uploadType=media&name=item.txt",
        &[("host", "storage.googleapis.com")],
        b"first",
    )
    ;
    assert_eq!(
        adapter
            .handle_request(&storage, &auth_disabled(), &create_object)
            .expect("initial upload should respond")
            .status(),
        http::StatusCode::OK
    );
    let overwrite = parsed_request(
        "POST",
        "http://localhost/upload/storage/v1/b/retained/o?uploadType=media&name=item.txt",
        &[("host", "storage.googleapis.com")],
        b"second",
    )
    ;
    let invalid = parsed_request(
        "POST",
        "http://localhost/upload/storage/v1/b/retained/o?uploadType=media&name=other.txt&ifGenerationMatch=0&ifGenerationNotMatch=1",
        &[("host", "storage.googleapis.com")],
        b"other",
    )
    ;
    let xml_delete = parsed_request(
        "DELETE",
        "http://localhost/retained/item.txt",
        &[("host", "storage.googleapis.com")],
        b"",
    )
    ;

    // Act
    let retained = adapter
        .handle_request(&storage, &auth_disabled(), &overwrite)
        .expect("retained overwrite should respond");
    let invalid = adapter
        .handle_request(&storage, &auth_disabled(), &invalid)
        .expect("invalid preconditions should respond");
    let xml_delete = adapter
        .handle_request(&storage, &auth_disabled(), &xml_delete)
        .expect("retained XML delete should respond");

    // Assert
    assert_eq!(retained.status(), http::StatusCode::FORBIDDEN);
    assert!(String::from_utf8_lossy(&read_test_body(retained))
        .contains("retentionPolicyNotMet"));
    assert_eq!(invalid.status(), http::StatusCode::BAD_REQUEST);
    assert_eq!(xml_delete.status(), http::StatusCode::FORBIDDEN);
    assert!(String::from_utf8_lossy(&read_test_body(xml_delete))
        .contains("<Code>RetentionPolicyNotMet</Code>"));
    assert_eq!(
        storage.get_object("retained", "item.txt").unwrap().data,
        b"first"
    );
}

#[test]
fn should_reject_unsupported_or_invalid_bucket_retention_configuration_without_mutation()
{
    // Arrange
    let adapter = Gcs::new();
    let storage = temp_storage();
    let invalid_soft_delete = parsed_request(
        "POST",
        "http://localhost/storage/v1/b?project=test-project",
        &[
            ("host", "storage.googleapis.com"),
            ("content-type", "application/json"),
        ],
        br#"{"name":"invalid-soft-delete","softDeletePolicy":{"retentionDurationSeconds":"604799"}}"#,
    )
    ;
    let locked_create = parsed_request(
        "POST",
        "http://localhost/storage/v1/b?project=test-project",
        &[
            ("host", "storage.googleapis.com"),
            ("content-type", "application/json"),
        ],
        br#"{"name":"locked-create","retentionPolicy":{"retentionPeriod":"3600","isLocked":true}}"#,
    )
    ;

    // Act
    let invalid_soft_delete = adapter
        .handle_request(&storage, &auth_disabled(), &invalid_soft_delete)
        .expect("invalid soft-delete policy should respond");
    let locked_create = adapter
        .handle_request(&storage, &auth_disabled(), &locked_create)
        .expect("unsupported locked policy should respond");

    // Assert
    assert_eq!(invalid_soft_delete.status(), http::StatusCode::BAD_REQUEST);
    assert_eq!(locked_create.status(), http::StatusCode::NOT_IMPLEMENTED);
    assert!(!storage.bucket_exists("invalid-soft-delete").unwrap());
    assert!(!storage.bucket_exists("locked-create").unwrap());
}

#[test]
fn should_reject_unsupported_retention_updates_without_changing_valid_configuration() {
    // Arrange
    let adapter = Gcs::new();
    let storage = temp_storage();
    let valid_create = parsed_request(
        "POST",
        "http://localhost/storage/v1/b?project=test-project",
        &[
            ("host", "storage.googleapis.com"),
            ("content-type", "application/json"),
        ],
        br#"{"name":"retention-config","retentionPolicy":{"retentionPeriod":"3600"}}"#,
    )
    ;
    assert_eq!(
        adapter
            .handle_request(&storage, &auth_disabled(), &valid_create)
            .expect("valid retention policy should respond")
            .status(),
        http::StatusCode::OK
    );
    let disable_soft_delete = parsed_request(
        "PATCH",
        "http://localhost/storage/v1/b/retention-config",
        &[
            ("host", "storage.googleapis.com"),
            ("content-type", "application/json"),
        ],
        br#"{"softDeletePolicy":{"retentionDurationSeconds":"0"}}"#,
    )
    ;
    let invalid_retention = parsed_request(
        "PATCH",
        "http://localhost/storage/v1/b/retention-config",
        &[
            ("host", "storage.googleapis.com"),
            ("content-type", "application/json"),
        ],
        br#"{"retentionPolicy":{"retentionPeriod":"3155760000"}}"#,
    )
    ;
    let lock = parsed_request(
        "POST",
        "http://localhost/storage/v1/b/retention-config/lockRetentionPolicy?ifMetagenerationMatch=1",
        &[("host", "storage.googleapis.com")],
        b"",
    )
    ;

    // Act and assert
    assert_eq!(
        adapter
            .handle_request(&storage, &auth_disabled(), &disable_soft_delete)
            .expect("unsupported soft-delete disable should respond")
            .status(),
        http::StatusCode::NOT_IMPLEMENTED
    );
    assert_eq!(
        adapter
            .handle_request(&storage, &auth_disabled(), &invalid_retention)
            .expect("invalid retention duration should respond")
            .status(),
        http::StatusCode::BAD_REQUEST
    );
    assert_eq!(
        adapter
            .handle_request(&storage, &auth_disabled(), &lock)
            .expect("unsupported retention lock should respond")
            .status(),
        http::StatusCode::NOT_IMPLEMENTED
    );
    let bucket = storage.get_bucket("retention-config").unwrap();
    assert_eq!(
        bucket.metadata.get(GCS_RETENTION_SECONDS_KEY),
        Some(&"3600".to_string())
    );
    assert!(!bucket.metadata.contains_key(GCS_SOFT_DELETE_SECONDS_KEY));
}

#[test]
fn should_reject_expired_v2_signed_url() {
    // Arrange
    let adapter = Gcs::new();
    let storage = temp_storage();
    storage.create_bucket("signed".to_string()).unwrap();
    storage
        .put_object(
            "signed",
            "item.txt".to_string(),
            Object::new(
                "item.txt".to_string(),
                b"secret".to_vec(),
                "text/plain".to_string(),
            ),
        )
        .unwrap();
    let unsigned = parsed_request(
        "GET",
        "http://localhost/signed/item.txt?GoogleAccessId=test-access&Expires=1",
        &[("host", "storage.googleapis.com")],
        b"",
    )
    ;
    let signature = GcsAdapter::sign(
        &gcs_auth(),
        &GcsAdapter::string_to_sign(&unsigned, "signed", Some("item.txt"), "1")
            .expect("string to sign should build"),
    )
    .expect("signature should build");
    let request = parsed_request(
        "GET",
        &format!(
            "http://localhost/signed/item.txt?GoogleAccessId=test-access&Expires=1&Signature={}",
            urlencoding::encode(&signature)
        ),
        &[("host", "storage.googleapis.com")],
        b"",
    )
    ;

    // Act
    let response = adapter
        .handle_request(&storage, &gcs_auth(), &request)
        .expect("expired request should respond");

    // Assert
    assert_eq!(response.status(), http::StatusCode::FORBIDDEN);
}

#[test]
fn should_reject_partial_resumable_chunk_without_consuming_session() {
    // Arrange
    let adapter = Gcs::new();
    let storage = temp_storage();
    storage.create_bucket("chunks".to_string()).unwrap();
    let init = parsed_request(
        "POST",
        "http://localhost/upload/storage/v1/b/chunks/o?uploadType=resumable&name=item.txt",
        &[("host", "storage.googleapis.com")],
        b"",
    )
    ;
    let init = adapter
        .handle_request(&storage, &auth_disabled(), &init)
        .expect("session create should respond");
    let location = header_value(&init, "location")
        .expect("session location should exist")
        .to_string();
    let chunk = parsed_request(
        "PUT",
        &location,
        &[
            ("host", "storage.googleapis.com"),
            ("content-range", "bytes 0-2/6"),
        ],
        b"abc",
    )
    ;

    // Act
    let response = adapter
        .handle_request(&storage, &auth_disabled(), &chunk)
        .expect("partial chunk should respond");

    // Assert
    assert_eq!(response.status(), http::StatusCode::NOT_IMPLEMENTED);
    assert!(storage.get_object("chunks", "item.txt").is_err());
}

#[test]
fn should_assign_distinct_generations_to_concurrent_json_and_xml_writes() {
    // Arrange
    const WRITES: usize = 12;
    let adapter = Gcs::new();
    let storage = temp_storage();
    storage.create_bucket("generation-race".to_string()).unwrap();

    // Act: the writers of one object take turns.
    let mut writes = Vec::new();
    for index in 0..WRITES {
        let payload = format!("writer-{index}");
        let json = index % 2 == 0;
        let uri = if json {
            "http://localhost/upload/storage/v1/b/generation-race/o?uploadType=media&name=object"
        } else {
            "http://localhost/generation-race/object"
        };
        let content_length = payload.len().to_string();
        let headers = if json {
            vec![("content-length", content_length.as_str())]
        } else {
            vec![
                ("host", "storage.googleapis.com"),
                ("content-length", content_length.as_str()),
            ]
        };
        let request =
            parsed_request(if json { "POST" } else { "PUT" }, uri, &headers, payload.as_bytes());
        let response = adapter
            .handle_request(&storage, &auth_disabled(), &request)
            .expect("concurrent write should respond");
        assert_eq!(response.status(), http::StatusCode::OK);
        let generation = if json {
            parse_json_body(response)["generation"]
                .as_str()
                .expect("JSON generation")
                .to_string()
        } else {
            header_value(&response, "x-goog-generation")
                .expect("XML generation")
                .to_string()
        };
        writes.push((payload.into_bytes(), generation));
    }

    // Assert
    let unique = writes
        .iter()
        .map(|(_, generation)| generation)
        .collect::<std::collections::HashSet<_>>();
    assert_eq!(unique.len(), WRITES);
    let current = storage.get_object("generation-race", "object").unwrap();
    let current_generation = current.metadata[GCS_GENERATION_KEY].as_str();
    assert!(writes.iter().any(|(payload, generation)| {
        payload == &current.data && generation == current_generation
    }));
}

#[test]
fn should_apply_retention_inside_the_serialized_json_write() {
    // Arrange
    let adapter = Gcs::new();
    let storage = temp_storage();
    storage.create_bucket("retention-race".to_string()).unwrap();
    storage
        .update_bucket_metadata(
            "retention-race",
            HashMap::from([(GCS_RETENTION_SECONDS_KEY.to_string(), "3600".to_string())]),
        )
        .unwrap();

    // Act: the writers of one object take turns.
    let mut statuses = Vec::new();
    for payload in [b"first".as_slice(), b"second".as_slice()] {
        let request = parsed_request(
            "POST",
            "http://localhost/upload/storage/v1/b/retention-race/o?uploadType=media&name=object",
            &[],
            payload,
        );
        statuses.push(
            adapter
                .handle_request(&storage, &auth_disabled(), &request)
                .expect("concurrent retained write should respond")
                .status(),
        );
    }

    // Assert
    assert_eq!(
        statuses.iter().filter(|status| **status == http::StatusCode::OK).count(),
        1
    );
    assert_eq!(
        statuses.iter().filter(|status| **status == http::StatusCode::FORBIDDEN).count(),
        1
    );
    assert!(matches!(
        storage.get_object("retention-race", "object").unwrap().data.as_slice(),
        b"first" | b"second"
    ));
}

#[test]
fn should_serialize_unconditional_json_patch_and_delete_without_spurious_412() {
    // Arrange
    const PATCHES: usize = 8;
    let adapter = Gcs::new();
    let storage = temp_storage();
    storage.create_bucket("mutation-race".to_string()).unwrap();
    adapter
        .handle_request(
            &storage,
            &auth_disabled(),
            &parsed_request(
                "POST",
                "http://localhost/upload/storage/v1/b/mutation-race/o?uploadType=media&name=object",
                &[("content-length", "7")],
                b"payload",
            ),
        )
        .unwrap();

    // Act: the writers of one object take turns.
    let mut metagenerations = std::collections::HashSet::new();
    for index in 0..PATCHES {
        let payload = format!(r#"{{"metadata":{{"writer":"{index}"}}}}"#);
        let request = parsed_request(
            "PATCH",
            "http://localhost/storage/v1/b/mutation-race/o/object",
            &[("content-type", "application/json")],
            payload.as_bytes(),
        );
        let response = adapter.handle_request(&storage, &auth_disabled(), &request).unwrap();
        assert_eq!(response.status(), http::StatusCode::OK);
        let metadata = parse_json_body(response);
        metagenerations
            .insert(metadata["metageneration"].as_str().expect("metageneration").to_string());
    }

    // Assert
    assert_eq!(metagenerations.len(), PATCHES);
    let mut statuses = Vec::new();
    for _ in 0..2 {
        let request = parsed_request(
            "DELETE",
            "http://localhost/storage/v1/b/mutation-race/o/object",
            &[],
            b"",
        );
        statuses.push(
            adapter.handle_request(&storage, &auth_disabled(), &request).unwrap().status(),
        );
    }
    assert!(statuses.contains(&http::StatusCode::NO_CONTENT));
    assert!(statuses.contains(&http::StatusCode::NOT_FOUND));
    assert!(!statuses.contains(&http::StatusCode::PRECONDITION_FAILED));
}

// ---------------------------------------------------------------------------
// Objects that came through another front door

fn send(
    adapter: &Gcs,
    storage: &Storage,
    method: &str,
    uri: &str,
    headers: &[(&str, &str)],
    body: &[u8],
) -> http::Response<Vec<u8>> {
    let uri = format!("http://localhost{uri}");
    adapter
        .handle_request(storage, &auth_disabled(), &parsed_request(method, &uri, headers, body))
        .expect("the request should be answered")
}

const XML_HOST: (&str, &str) = ("host", "storage.googleapis.com");

/// A bucket with one object that has no counters stored, and the generation that is reported.
fn with_foreign_object(key: &str) -> (Storage, String) {
    let storage = temp_storage();
    storage.create_bucket("box-1".to_string()).unwrap();
    let object = Object::new(key.to_string(), b"payload".to_vec(), "text/plain".to_string());
    storage.put_object("box-1", key.to_string(), object).unwrap();
    let read = send(
        &Gcs::new(),
        &storage,
        "GET",
        &format!("/storage/v1/b/box-1/o/{key}"),
        &[],
        b"",
    );
    let generation = parse_json_body(read)["generation"].as_str().unwrap().to_string();
    assert_ne!(generation, "0");
    (storage, generation)
}

#[test]
fn should_delete_objects_without_stored_counters() {
    let (storage, _) = with_foreign_object("a");
    let deleted = send(&Gcs::new(), &storage, "DELETE", "/storage/v1/b/box-1/o/a", &[], b"");
    assert_eq!(deleted.status(), http::StatusCode::NO_CONTENT);
    assert!(storage.get_object("box-1", "a").is_err());
}

#[test]
fn should_describe_objects_alike_wherever_they_are_told_of() {
    let (storage, generation) = with_foreign_object("a");
    let adapter = Gcs::new();
    let read = parse_json_body(send(&adapter, &storage, "GET", "/storage/v1/b/box-1/o/a", &[], b""));
    let list = parse_json_body(send(&adapter, &storage, "GET", "/storage/v1/b/box-1/o", &[], b""));
    assert_eq!(list["items"][0], read);
    assert_eq!(list["items"][0]["crc32c"], "9ONpcA==");
    assert_eq!(list["items"][0]["generation"], generation.as_str());
    assert_eq!(list["items"][0]["metageneration"], "1");
    let patched = send(
        &adapter,
        &storage,
        "PATCH",
        "/storage/v1/b/box-1/o/a",
        &[("content-type", "application/json")],
        br#"{"metadata":{"k":"v"}}"#,
    );
    assert_eq!(patched.status(), http::StatusCode::OK);
    let patched = parse_json_body(patched);
    let read = parse_json_body(send(&adapter, &storage, "GET", "/storage/v1/b/box-1/o/a", &[], b""));
    assert_eq!(patched, read);
    assert_eq!(patched["crc32c"], "9ONpcA==");
    assert_eq!(patched["generation"], generation.as_str());
    let stored = send(
        &adapter,
        &storage,
        "POST",
        "/upload/storage/v1/b/box-1/o?uploadType=media&name=b",
        &[],
        b"payload",
    );
    let stored = parse_json_body(stored);
    let read = parse_json_body(send(&adapter, &storage, "GET", "/storage/v1/b/box-1/o/b", &[], b""));
    assert_eq!(stored, read);
    assert_eq!(stored["crc32c"], "9ONpcA==");
}

#[test]
fn should_take_back_the_generation_that_is_reported() {
    // Uploads through the JSON API.
    let (storage, generation) = with_foreign_object("a");
    let upload = |condition: &str| {
        let uri = format!("/upload/storage/v1/b/box-1/o?uploadType=media&name=a&{condition}");
        send(&Gcs::new(), &storage, "POST", &uri, &[], b"new").status().as_u16()
    };
    assert_eq!(upload(&format!("ifGenerationMatch={generation}1")), 412);
    assert_eq!(upload("ifGenerationMatch=0"), 412);
    assert_eq!(upload(&format!("ifGenerationNotMatch={generation}")), 304);
    assert_eq!(storage.get_object("box-1", "a").unwrap().data, b"payload");
    assert_eq!(upload(&format!("ifGenerationMatch={generation}")), 200);
    assert_eq!(storage.get_object("box-1", "a").unwrap().data, b"new");
    assert_eq!(upload(&format!("ifGenerationMatch={generation}")), 412);
    // Deletion through the JSON API.
    let (storage, generation) = with_foreign_object("a");
    let delete = |condition: &str| {
        let uri = format!("/storage/v1/b/box-1/o/a?{condition}");
        send(&Gcs::new(), &storage, "DELETE", &uri, &[], b"").status().as_u16()
    };
    assert_eq!(delete(&format!("ifGenerationMatch={generation}1")), 412);
    assert_eq!(delete(&format!("ifGenerationMatch={generation}&ifMetagenerationMatch=2")), 412);
    assert_eq!(delete(&format!("ifGenerationMatch={generation}&ifMetagenerationMatch=1")), 204);
    // Writes and deletions through the XML API.
    let (storage, generation) = with_foreign_object("a");
    let xml = |method: &str, generation: &str, metageneration: &str| {
        let headers = [
            XML_HOST,
            ("content-length", if method == "PUT" { "3" } else { "0" }),
            ("x-goog-if-generation-match", generation),
            ("x-goog-if-metageneration-match", metageneration),
        ];
        let body: &[u8] = if method == "PUT" { b"new" } else { b"" };
        send(&Gcs::new(), &storage, method, "/box-1/a", &headers, body).status().as_u16()
    };
    assert_eq!(xml("DELETE", &format!("{generation}1"), "1"), 412);
    assert_eq!(xml("PUT", &generation, "2"), 412);
    assert_eq!(xml("PUT", &generation, "1"), 200);
    assert_eq!(storage.get_object("box-1", "a").unwrap().data, b"new");
    let (storage, generation) = with_foreign_object("a");
    let headers = [
        XML_HOST,
        ("content-length", "0"),
        ("x-goog-if-generation-match", generation.as_str()),
    ];
    let deleted = send(&Gcs::new(), &storage, "DELETE", "/box-1/a", &headers, b"");
    assert_eq!(deleted.status(), http::StatusCode::NO_CONTENT);
    assert!(storage.get_object("box-1", "a").is_err());
}

// ---------------------------------------------------------------------------
// Several requests

#[test]
fn should_show_each_object_once_over_all_pages() {
    let storage = temp_storage();
    storage.create_bucket("box-1".to_string()).unwrap();
    let adapter = Gcs::new();
    let list = |max: u32, token: Option<&str>| {
        let mut uri = format!("/storage/v1/b/box-1/o?maxResults={max}");
        if let Some(token) = token {
            uri.push_str(&format!("&pageToken={token}"));
        }
        let page = parse_json_body(send(&adapter, &storage, "GET", &uri, &[], b""));
        let names: Vec<String> = page["items"]
            .as_array()
            .unwrap()
            .iter()
            .map(|item| item["name"].as_str().unwrap().to_string())
            .collect();
        (names, page["nextPageToken"].as_str().map(str::to_string), page)
    };
    assert_eq!(list(0, None).1, None);
    for key in ["a", "b/c", "d", "e"] {
        let object = Object::new(key.to_string(), b"x".to_vec(), "text/plain".to_string());
        storage.put_object("box-1", key.to_string(), object).unwrap();
    }
    let (names, first, page) = list(0, None);
    assert!(names.is_empty());
    assert_eq!(page["prefixes"].as_array().map(Vec::len), Some(0));
    assert!(first.is_some());
    for max in [1, 2, 3, 4, 5] {
        for start in [None, first.clone()] {
            let mut shown = Vec::new();
            let mut token = start;
            let mut pages = 0;
            loop {
                let (names, next, _) = list(max, token.as_deref());
                shown.extend(names);
                pages += 1;
                token = next;
                if token.is_none() {
                    break;
                }
            }
            assert_eq!(shown, ["a", "b/c", "d", "e"], "{max}");
            assert_eq!(pages, 4u32.div_ceil(max), "{max}");
        }
    }
}

#[test]
fn should_keep_a_session_until_its_content_is_stored() {
    for (bad, body, status) in [
        (("if-match", "*"), "payload", 400),
        (("if-none-match", "*"), "payload", 400),
        (("content-range", "bytes 0-3/7"), "payl", 501),
        (("content-range", "bytes 0-6/*"), "payload", 501),
        (("x-goog-hash", "crc32c"), "payload", 400),
        (("x-goog-hash", "crc32c=AAAAAA=="), "payload", 400),
    ] {
        for anew in [false, true] {
            let mut adapter = Gcs::new();
            let storage = temp_storage();
            storage.create_bucket("box-1".to_string()).unwrap();
            let start = send(
                &adapter,
                &storage,
                "POST",
                "/upload/storage/v1/b/box-1/o?uploadType=resumable&name=a",
                &[],
                b"",
            );
            let location = header_value(&start, "location").unwrap();
            let place = location.strip_prefix("http://localhost").unwrap().to_string();
            let refused = send(&adapter, &storage, "PUT", &place, &[bad], body.as_bytes());
            assert_eq!(refused.status().as_u16(), status, "{bad:?}");
            assert!(storage.get_object("box-1", "a").is_err());
            if anew {
                adapter = Gcs::new();
            }
            let range = ("content-range", "bytes 0-6/7");
            let stored = send(&adapter, &storage, "PUT", &place, &[range], b"payload");
            assert_eq!(stored.status().as_u16(), 200, "{bad:?}");
            assert_eq!(storage.get_object("box-1", "a").unwrap().data, b"payload");
            let over = send(&adapter, &storage, "PUT", &place, &[], b"more");
            assert_eq!(over.status().as_u16(), 404, "{bad:?}");
            assert_eq!(storage.get_object("box-1", "a").unwrap().data, b"payload");
        }
    }
}
