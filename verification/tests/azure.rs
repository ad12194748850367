//! Requests to the Azure Blob front door, run against containers in memory.

use base64::Engine;
use providers::azure::basics::{
    AZURE_IMMUTABILITY_MODE_KEY,
    AZURE_IMMUTABILITY_UNTIL_KEY,
    AZURE_LEGAL_HOLD_KEY,
    AZURE_VERSION,
    AZURE_VERSIONING_KEY,
    S3_VERSIONING_STATUS_KEY,
};
use providers::codec::sign_hmac_base64;
use providers::azure::AzureBlobAdapter;
use providers::clock::{Instant, Stamp};
use providers::http::{AuthConfig, Context, HeaderText, Method, Request};
use providers::registry::ProviderAdapter;
use providers::store::{
    Blocks, BlocksSlot, BlockSession, Bucket, Buckets, Deletion, Effect, ErrorKind, ObjectCondition, Outcome, Page,
    Payload, SessionSlot, Step, StorageError, Tape, UploadSession, UploadSlot, Versions,
};
use providers::table::{Copied, Table};
use std::cell::RefCell;
use std::collections::{BTreeMap, HashMap};

// ---------------------------------------------------------------------------
// Objects and buckets in memory

#[derive(Clone, Debug, PartialEq)]
struct Object {
    key: String,
    data: Vec<u8>,
    size: u64,
    etag: String,
    content_type: String,
    last_modified: (i64, u32),
    metadata: HashMap<String, String>,
    provider_metadata: HashMap<String, String>,
    version_id: Option<String>,
}

fn present() -> (i64, u32) {
    let now = chrono::Utc::now();
    (now.timestamp(), now.timestamp_subsec_nanos())
}

fn table(map: &HashMap<String, String>) -> Table<String> {
    let mut table = Table::new();
    for (key, value) in map {
        table.insert(key, value.clone());
    }
    table
}

fn map(table: &Table<String>) -> HashMap<String, String> {
    table.entries.iter().cloned().collect()
}

impl Object {
    fn new(key: String, data: Vec<u8>, content_type: String) -> Object {
        Object::new_with_metadata(key, data, content_type, HashMap::new())
    }

    fn new_with_metadata(
        key: String,
        data: Vec<u8>,
        content_type: String,
        metadata: HashMap<String, String>,
    ) -> Object {
        Object {
            key,
            size: data.len() as u64,
            etag: hex::encode(md5::compute(&data).0),
            data,
            content_type,
            last_modified: present(),
            metadata,
            provider_metadata: HashMap::new(),
            version_id: None,
        }
    }

    fn read(object: &providers::store::Object) -> Object {
        Object {
            key: object.key.clone(),
            data: object.data.clone(),
            size: object.size,
            etag: object.etag.clone(),
            content_type: object.content_type.clone(),
            last_modified: (object.last_modified.secs, object.last_modified.nanos),
            metadata: map(&object.metadata),
            provider_metadata: map(&object.provider_metadata),
            version_id: object.version_id.clone(),
        }
    }

    fn give(&self) -> providers::store::Object {
        providers::store::Object {
            key: self.key.clone(),
            data: self.data.clone(),
            size: self.size,
            etag: self.etag.clone(),
            content_type: self.content_type.clone(),
            last_modified: Instant { secs: self.last_modified.0, nanos: self.last_modified.1 },
            metadata: table(&self.metadata),
            provider_metadata: table(&self.provider_metadata),
            version_id: self.version_id.clone(),
        }
    }
}

#[derive(Clone, Debug, PartialEq)]
enum Failure {
    BucketNotFound,
    KeyNotFound,
    NoSuchVersion,
    BucketAlreadyExists,
    BucketNotEmpty,
}

fn error(failure: Failure) -> StorageError {
    let kind = match failure {
        Failure::BucketNotFound => ErrorKind::BucketNotFound,
        Failure::KeyNotFound => ErrorKind::KeyNotFound,
        Failure::NoSuchVersion => ErrorKind::NoSuchVersion,
        Failure::BucketAlreadyExists => ErrorKind::BucketAlreadyExists,
        Failure::BucketNotEmpty => ErrorKind::BucketNotEmpty,
    };
    StorageError { kind, message: format!("{failure:?}") }
}

#[derive(Clone, Debug)]
struct BucketState {
    created_at: (i64, u32),
    versioning_enabled: bool,
    metadata: HashMap<String, String>,
    objects: BTreeMap<String, Object>,
    versions: Vec<Object>,
}

struct Listing {
    objects: Vec<Object>,
    prefixes: Vec<String>,
    truncated: bool,
    next_marker: Option<String>,
}

#[derive(Default)]
struct State {
    buckets: BTreeMap<String, BucketState>,
    deletions: BTreeMap<String, (i64, u32)>,
    sessions: HashMap<String, BlockSession>,
    blocks: HashMap<String, Blocks>,
    uploads: HashMap<String, UploadSession>,
    next_version: u64,
}

#[derive(Default)]
struct Storage {
    state: RefCell<State>,
}

#[allow(dead_code)]
impl Storage {
    fn create_bucket(&self, name: String) -> Result<(), Failure> {
        let mut state = self.state.borrow_mut();
        if state.buckets.contains_key(&name) {
            return Err(Failure::BucketAlreadyExists);
        }
        state.buckets.insert(
            name,
            BucketState {
                created_at: present(),
                versioning_enabled: false,
                metadata: HashMap::new(),
                objects: BTreeMap::new(),
                versions: Vec::new(),
            },
        );
        Ok(())
    }

    fn get_bucket(&self, name: &str) -> Result<BucketState, Failure> {
        self.state.borrow().buckets.get(name).cloned().ok_or(Failure::BucketNotFound)
    }

    fn get_namespace(&self, name: &str) -> Result<BucketState, Failure> {
        self.get_bucket(name)
    }

    fn bucket_exists(&self, name: &str) -> Result<bool, Failure> {
        Ok(self.get_bucket(name).is_ok())
    }

    fn with_bucket<T>(
        &self,
        name: &str,
        change: impl FnOnce(&mut BucketState) -> Result<T, Failure>,
    ) -> Result<T, Failure> {
        let mut state = self.state.borrow_mut();
        change(state.buckets.get_mut(name).ok_or(Failure::BucketNotFound)?)
    }

    fn update_bucket_metadata(
        &self,
        name: &str,
        metadata: HashMap<String, String>,
    ) -> Result<(), Failure> {
        self.with_bucket(name, |bucket| {
            bucket.metadata = metadata;
            Ok(())
        })
    }

    fn replace_object_metadata_if_unchanged(
        &self,
        bucket: &str,
        key: &str,
        observed: &Object,
        updated: &Object,
    ) -> Result<bool, Failure> {
        if self.get_object(bucket, key)? != *observed {
            return Ok(false);
        }
        self.replace_object(bucket, key, updated.clone())?;
        Ok(true)
    }

    fn set_versioning(&self, name: &str, enabled: bool) -> Result<(), Failure> {
        self.with_bucket(name, |bucket| {
            bucket.versioning_enabled = enabled;
            Ok(())
        })
    }

    fn enable_versioning(&self, name: &str) -> Result<(), Failure> {
        self.set_versioning(name, true)
    }

    fn delete_bucket(&self, name: &str) -> Result<(), Failure> {
        let mut state = self.state.borrow_mut();
        let bucket = state.buckets.get(name).ok_or(Failure::BucketNotFound)?;
        if !bucket.objects.is_empty() || !bucket.versions.is_empty() {
            return Err(Failure::BucketNotEmpty);
        }
        state.buckets.remove(name);
        Ok(())
    }

    fn get_object(&self, bucket: &str, key: &str) -> Result<Object, Failure> {
        self.get_bucket(bucket)?.objects.get(key).cloned().ok_or(Failure::KeyNotFound)
    }

    fn get_object_version(&self, bucket: &str, key: &str, version: &str) -> Result<Object, Failure> {
        self.list_object_versions_for_key(bucket, key)?
            .into_iter()
            .find(|object| object.version_id.as_deref() == Some(version))
            .ok_or(Failure::NoSuchVersion)
    }

    fn list_object_versions(&self, bucket: &str) -> Result<Vec<Object>, Failure> {
        let bucket = self.get_bucket(bucket)?;
        Ok(bucket
            .objects
            .values()
            .filter(|object| object.version_id.is_some())
            .chain(bucket.versions.iter())
            .cloned()
            .collect())
    }

    fn list_object_versions_for_key(&self, bucket: &str, key: &str) -> Result<Vec<Object>, Failure> {
        Ok(self
            .list_object_versions(bucket)?
            .into_iter()
            .filter(|object| object.key == key)
            .collect())
    }

    fn put_object(&self, bucket: &str, key: String, object: Object) -> Result<(), Failure> {
        let version = {
            let mut state = self.state.borrow_mut();
            state.next_version += 1;
            format!("version-{}", state.next_version)
        };
        self.with_bucket(bucket, |bucket| {
            let mut object = object;
            object.version_id = bucket.versioning_enabled.then_some(version);
            if let Some(old) = bucket.objects.insert(key, object) {
                if old.version_id.is_some() {
                    bucket.versions.push(old);
                }
            }
            Ok(())
        })
    }

    fn replace_object(&self, bucket: &str, key: &str, object: Object) -> Result<(), Failure> {
        self.with_bucket(bucket, |bucket| {
            bucket.objects.insert(key.to_string(), object);
            Ok(())
        })
    }

    fn delete_object(&self, bucket: &str, key: &str) -> Result<(), Failure> {
        self.with_bucket(bucket, |bucket| {
            let old = bucket.objects.remove(key).ok_or(Failure::KeyNotFound)?;
            if bucket.versioning_enabled && old.version_id.is_some() {
                bucket.versions.push(old);
            }
            Ok(())
        })
    }

    fn delete_object_version(&self, bucket: &str, key: &str, version: &str) -> Result<(), Failure> {
        self.get_object_version(bucket, key, version)?;
        self.with_bucket(bucket, |bucket| {
            let wanted = Some(version.to_string());
            bucket.versions.retain(|object| !(object.key == key && object.version_id == wanted));
            if bucket.objects.get(key).is_some_and(|object| object.version_id == wanted) {
                bucket.objects.remove(key);
            }
            Ok(())
        })
    }

    fn list_objects(
        &self,
        bucket: &str,
        prefix: Option<&str>,
        delimiter: Option<&str>,
        marker: Option<&str>,
        limit: usize,
    ) -> Result<Listing, Failure> {
        let bucket = self.get_bucket(bucket)?;
        let prefix = prefix.unwrap_or("");
        let mut listing =
            Listing { objects: Vec::new(), prefixes: Vec::new(), truncated: false, next_marker: None };
        let mut last = String::new();
        for (key, object) in &bucket.objects {
            if !key.starts_with(prefix) || marker.is_some_and(|marker| key.as_str() <= marker) {
                continue;
            }
            let common = delimiter.filter(|d| !d.is_empty()).and_then(|delimiter| {
                key[prefix.len()..]
                    .find(delimiter)
                    .map(|i| key[..prefix.len() + i + delimiter.len()].to_string())
            });
            if common.as_ref().is_some_and(|common| listing.prefixes.contains(common)) {
                last = key.clone();
                continue;
            }
            if listing.objects.len() + listing.prefixes.len() == limit {
                listing.truncated = true;
                listing.next_marker = Some(last);
                return Ok(listing);
            }
            match common {
                Some(common) => listing.prefixes.push(common),
                None => listing.objects.push(object.clone()),
            }
            last = key.clone();
        }
        Ok(listing)
    }

    fn holds(condition: &ObjectCondition, current: Option<&Object>) -> bool {
        let value = |key: &str| {
            current.and_then(|object| {
                object.metadata.get(key).or_else(|| object.provider_metadata.get(key)).cloned()
            })
        };
        match condition {
            ObjectCondition::Missing => current.is_none(),
            ObjectCondition::Etag(etag) => current.is_some_and(|object| object.etag == *etag),
            ObjectCondition::EtagNotIn(etags) => {
                current.is_some_and(|object| !etags.contains(&object.etag))
            }
            ObjectCondition::MissingOrEtagNotIn(etags) => {
                current.is_none_or(|object| !etags.contains(&object.etag))
            }
            ObjectCondition::Metadata(key, wanted) => value(key).as_ref() == Some(wanted),
            ObjectCondition::MetadataNot(key, unwanted) => {
                current.is_some() && value(key).as_ref() != Some(unwanted)
            }
            ObjectCondition::All(parts) => parts.iter().all(|part| Storage::holds(part, current)),
        }
    }

    fn bucket_given(name: &str, state: &BucketState) -> Bucket {
        Bucket {
            name: name.to_string(),
            created_at: Instant { secs: state.created_at.0, nanos: state.created_at.1 },
            versioning_enabled: state.versioning_enabled,
            metadata: table(&state.metadata),
        }
    }

    /// Does what a handler asks for and tells what came of it.
    fn perform(&self, effect: &Effect) -> Outcome {
        let done = |result: Result<(), Failure>| Outcome::Done(result.map_err(error));
        match effect {
            Effect::GetBucket(name) => Outcome::Bucket(
                self.get_bucket(name)
                    .map(|bucket| Storage::bucket_given(name, &bucket))
                    .map_err(error),
            ),
            Effect::ListBuckets => {
                let state = self.state.borrow();
                let items = state
                    .buckets
                    .iter()
                    .rev()
                    .map(|(name, bucket)| Storage::bucket_given(name, bucket))
                    .collect();
                Outcome::Buckets(Ok(Buckets { items }))
            }
            Effect::CreateBucket(name) => Outcome::Bucket(
                self.create_bucket(name.clone())
                    .and_then(|()| self.get_bucket(name))
                    .map(|bucket| Storage::bucket_given(name, &bucket))
                    .map_err(error),
            ),
            Effect::DeleteBucket(name) => done(self.delete_bucket(name)),
            Effect::EnableVersioning(name) => done(self.set_versioning(name, true)),
            Effect::SuspendVersioning(name) => done(self.set_versioning(name, false)),
            Effect::UpdateBucketMetadata(name, metadata) => {
                done(self.update_bucket_metadata(name, map(metadata)))
            }
            Effect::ListObjects(bucket, prefix, delimiter, marker, limit) => Outcome::Page(
                self.list_objects(
                    bucket,
                    prefix.as_deref(),
                    delimiter.as_deref(),
                    marker.as_deref(),
                    *limit,
                )
                .map(|listing| Page {
                    objects: listing.objects.iter().map(Object::give).collect(),
                    prefixes: listing.prefixes,
                    truncated: listing.truncated,
                    next_marker: listing.next_marker,
                })
                .map_err(error),
            ),
            Effect::ListVersions(bucket) => Outcome::Versions(
                self.list_object_versions(bucket)
                    .map(|versions| Versions { items: versions.iter().map(Object::give).collect() })
                    .map_err(error),
            ),
            Effect::GetObject(bucket, key) => {
                Outcome::Object(self.get_object(bucket, key).map(|o| o.give()).map_err(error))
            }
            Effect::GetVersion(bucket, key, version) => Outcome::Object(
                self.get_object_version(bucket, key, version).map(|o| o.give()).map_err(error),
            ),
            Effect::GetRange(bucket, key, start, end) => Outcome::Payload(
                self.get_object(bucket, key)
                    .map(|object| Payload {
                        data: object.data[*start as usize..=*end as usize].to_vec(),
                        object: object.give(),
                    })
                    .map_err(error),
            ),
            Effect::PutObject(bucket, key, object) => {
                done(self.put_object(bucket, key.clone(), Object::read(object)))
            }
            Effect::PutObjectIf(bucket, key, object, condition) => {
                let current = self.get_object(bucket, key).ok();
                if Storage::holds(condition, current.as_ref()) {
                    Outcome::Flag(
                        self.put_object(bucket, key.clone(), Object::read(object))
                            .map(|()| true)
                            .map_err(error),
                    )
                } else {
                    Outcome::Flag(Ok(false))
                }
            }
            Effect::ReplaceMetadata(bucket, key, observed, updated) => {
                let current = self.get_object(bucket, key);
                match current {
                    Ok(current) if current == Object::read(observed) => Outcome::Flag(
                        self.replace_object(bucket, key, Object::read(updated))
                            .map(|()| true)
                            .map_err(error),
                    ),
                    _ => Outcome::Flag(Ok(false)),
                }
            }
            Effect::DeleteObject(bucket, key) => done(self.delete_object(bucket, key)),
            Effect::DeleteObjectIf(bucket, key, condition) => {
                let current = self.get_object(bucket, key).ok();
                if Storage::holds(condition, current.as_ref()) {
                    Outcome::Flag(self.delete_object(bucket, key).map(|()| true).map_err(error))
                } else {
                    Outcome::Flag(Ok(false))
                }
            }
            Effect::DeleteVersion(bucket, key, version) => {
                done(self.delete_object_version(bucket, key, version))
            }
            Effect::LoadDeletion(container) => Outcome::Deletion(Ok(Deletion {
                purge_after: self
                    .state
                    .borrow()
                    .deletions
                    .get(container)
                    .map(|at| Instant { secs: at.0, nanos: at.1 }),
            })),
            Effect::SaveDeletion(container, at) => {
                let at = (at.secs, at.nanos);
                self.state.borrow_mut().deletions.insert(container.clone(), at);
                done(Ok(()))
            }
            Effect::DropDeletion(container) => {
                self.state.borrow_mut().deletions.remove(container);
                done(Ok(()))
            }
            Effect::LoadSession(key) => Outcome::Session(Ok(SessionSlot {
                found: self.state.borrow().sessions.get(key).map(|session| session.copied()),
            })),
            Effect::SaveSession(key, session) => {
                self.state.borrow_mut().sessions.insert(key.clone(), session.copied());
                done(Ok(()))
            }
            Effect::DropSession(key) => {
                self.state.borrow_mut().sessions.remove(key);
                done(Ok(()))
            }
            Effect::LoadBlocks(key) => Outcome::Blocks(Ok(BlocksSlot {
                found: self.state.borrow().blocks.get(key).map(|blocks| blocks.copied()),
            })),
            Effect::SaveBlocks(key, blocks) => {
                self.state.borrow_mut().blocks.insert(key.clone(), blocks.copied());
                done(Ok(()))
            }
            Effect::LoadUpload(id) => Outcome::Upload(Ok(UploadSlot {
                found: self.state.borrow().uploads.get(id).map(|session| session.copied()),
            })),
            Effect::SaveUpload(id, session) => {
                self.state.borrow_mut().uploads.insert(id.clone(), session.copied());
                done(Ok(()))
            }
            Effect::DropUpload(id) => {
                self.state.borrow_mut().uploads.remove(id);
                done(Ok(()))
            }
            _ => done(Ok(())),
        }
    }
}

fn temp_storage() -> Storage {
    Storage::default()
}

// ---------------------------------------------------------------------------
// Requests and responses

fn auth_disabled() -> AuthConfig {
    AuthConfig { access_key_id: None, secret_access_key: None, enforce_auth: false }
}

fn parsed_request(method: &str, uri: &str, headers: &[(&str, &str)], body: &[u8]) -> Request {
    let uri: http::Uri = uri.parse().expect("URI should parse");
    let mut entries = Vec::new();
    for (name, value) in headers {
        entries.push((
            name.to_ascii_lowercase(),
            HeaderText::Text(value.to_string()),
        ));
    }
    request_with(method, &uri, entries, body)
}

fn request_with(
    method: &str,
    uri: &http::Uri,
    entries: Vec<(String, HeaderText)>,
    body: &[u8],
) -> Request {
    let mut query = Table::new();
    for part in uri.query().unwrap_or("").split('&').filter(|part| !part.is_empty()) {
        let (name, value) = part.split_once('=').unwrap_or((part, ""));
        let decode = |text: &str| match urlencoding::decode(text) {
            Ok(text) => text.into_owned(),
            Err(_) => text.to_string(),
        };
        query.insert(&decode(name), decode(value));
    }
    let host = entries
        .iter()
        .find(|(name, _)| name == "host")
        .and_then(|(_, value)| value.text().map(str::to_string))
        .or_else(|| uri.authority().map(|authority| authority.to_string()))
        .unwrap_or_else(|| "localhost".to_string());
    Request {
        method: match method {
            "GET" => Method::Get,
            "HEAD" => Method::Head,
            "PUT" => Method::Put,
            "POST" => Method::Post,
            "DELETE" => Method::Delete,
            "PATCH" => Method::Patch,
            _ => Method::Other,
        },
        verb: method.to_string(),
        path: uri.path().to_string(),
        raw_query: uri.query().map(str::to_string),
        query,
        headers: Table { entries },
        scheme: uri.scheme_str().map(str::to_string),
        origin: format!("http://{host}"),
        body: body.to_vec(),
    }
}

fn copied_request(req: &Request) -> Request {
    Request {
        method: req.method,
        verb: req.verb.clone(),
        path: req.path.clone(),
        raw_query: req.raw_query.clone(),
        query: req.query.copied(),
        headers: Table {
            entries: req
                .headers
                .entries
                .iter()
                .map(|(name, value)| (name.clone(), value.copied()))
                .collect(),
        },
        scheme: req.scheme.clone(),
        origin: req.origin.clone(),
        body: req.body.clone(),
    }
}

fn copied_auth(auth: &AuthConfig) -> AuthConfig {
    AuthConfig {
        access_key_id: auth.access_key_id.clone(),
        secret_access_key: auth.secret_access_key.clone(),
        enforce_auth: auth.enforce_auth,
    }
}

fn converted(response: providers::http::Response) -> http::Response<Vec<u8>> {
    let mut builder = http::Response::builder().status(response.status);
    for (name, value) in &response.headers.entries {
        builder = builder.header(name, value);
    }
    builder.body(response.body).expect("response should build")
}

fn read_test_body(response: http::Response<Vec<u8>>) -> Vec<u8> {
    response.into_body()
}

#[allow(dead_code)]
fn parse_json_body(response: http::Response<Vec<u8>>) -> serde_json::Value {
    serde_json::from_slice(&read_test_body(response)).expect("json should parse")
}

#[allow(dead_code)]
fn header_value<'a>(response: &'a http::Response<Vec<u8>>, name: &str) -> Option<&'a str> {
    response.headers().get(name).and_then(|value| value.to_str().ok())
}

/// Runs a request to its end.
fn serve(
    adapter: &dyn ProviderAdapter,
    memory: &mut dyn FnMut(&Effect) -> Option<Outcome>,
    storage: &Storage,
    auth: &AuthConfig,
    req: &Request,
) -> Result<http::Response<Vec<u8>>, String> {
    let cx = Context { stamp: Stamp::take(), auth: copied_auth(auth), req: copied_request(req) };
    let mut outcomes = Vec::new();
    loop {
        match adapter.handle(&cx, Tape::new(&outcomes)) {
            Step::Perform(effect) => {
                let outcome = memory(&effect).unwrap_or_else(|| storage.perform(&effect));
                outcomes.push(outcome);
            }
            Step::Reply(response) => return Ok(converted(response)),
            Step::Fail(message) => return Err(message),
        }
    }
}

// ---------------------------------------------------------------------------
// The adapter with its memory

struct Azure {
    memory: RefCell<AzureBlobAdapter>,
}

struct Staged {
    blocks: HashMap<String, Vec<u8>>,
}

#[allow(dead_code)]
impl Azure {
    fn new() -> Azure {
        Azure { memory: RefCell::new(AzureBlobAdapter::new()) }
    }

    fn handle_request(
        &self,
        storage: &Storage,
        auth: &AuthConfig,
        req: &Request,
    ) -> Result<http::Response<Vec<u8>>, String> {
        serve(
            &AzureBlobAdapter::new(),
            &mut |effect| {
                let recalled = self.memory.borrow().recall(effect);
                recalled.or_else(|| self.memory.borrow_mut().remember(effect))
            },
            storage,
            auth,
            req,
        )
    }

    fn load_block_session(&self, storage: &Storage, key: &str) -> Result<Option<Staged>, String> {
        let memory = self.memory.borrow();
        let state = storage.state.borrow();
        let session = memory.block_sessions.get(key).or_else(|| state.sessions.get(key));
        Ok(session.map(|session| Staged {
            blocks: session.blocks.entries.iter().cloned().collect(),
        }))
    }

    fn render_incomplete_body(&self, head: &Request) -> http::Response<Vec<u8>> {
        converted(AzureBlobAdapter::new().render_incomplete_body(&Stamp::take(), head))
    }
}

fn set_blob_type(object: &mut Object, blob_type: &str) {
    let mut given = object.give();
    AzureBlobAdapter::set_blob_type(&mut given, blob_type);
    *object = Object::read(&given);
}

fn lease_id(object: &Object) -> Option<String> {
    AzureBlobAdapter::lease_id(&object.give()).map(str::to_string)
}

fn has_active_lease(object: &Object) -> bool {
    AzureBlobAdapter::has_active_lease(&object.give())
}

fn azure_auth() -> AuthConfig {
    AuthConfig {
        access_key_id: Some("devstoreaccount1".to_string()),
        secret_access_key: Some(
            base64::engine::general_purpose::STANDARD.encode("topsecretkey"),
        ),
        enforce_auth: true,
    }
}

fn signed_headers(req: &Request, config: &AuthConfig, account: &str) -> String {
    let string_to_sign = AzureBlobAdapter::shared_key_string_to_sign(req, account);
    let key = AzureBlobAdapter::shared_key_secret(config).expect("key should exist");
    format!("SharedKey {}:{}", account, sign_hmac_base64(&key, &string_to_sign))
}

#[test]
fn should_concatenate_azure_canonical_headers_and_resource_without_blank_line() {
    let request = parsed_request(
        "GET",
        "http://localhost/devstoreaccount1/container/blob?comp=metadata&foo=b&foo=a",
        &[
            ("x-ms-date", "Tue, 11 Aug 2026 12:00:00 +0000"),
            ("x-ms-meta-test", "one"),
            ("x-ms-meta-test", "two"),
            ("x-ms-version", AZURE_VERSION),
        ],
        b"",
    );

    let actual = AzureBlobAdapter::shared_key_string_to_sign(&request, "devstoreaccount1");
    let expected = "GET\n\n\n\n\n\n\n\n\n\n\n\nx-ms-date:Tue, 11 Aug 2026 12:00:00 +0000\nx-ms-meta-test:one,two\nx-ms-version:2023-11-03\n/devstoreaccount1/devstoreaccount1/container/blob\ncomp:metadata\nfoo:a,b";

    assert_eq!(actual, expected);
    assert!(!actual.contains("2023-11-03\n\n/devstoreaccount1"));

    let date_only_request = parsed_request(
        "GET",
        "http://localhost/devstoreaccount1/container/blob",
        &[("date", "Tue, 11 Aug 2026 12:00:00 +0000")],
        b"",
    );
    let date_only =
        AzureBlobAdapter::shared_key_string_to_sign(&date_only_request, "devstoreaccount1");
    assert!(date_only.contains("\nTue, 11 Aug 2026 12:00:00 +0000\n"));
}

#[test]
fn should_reject_invalid_azure_container_name_without_mutation() {
    let adapter = Azure::new();
    let storage = temp_storage();
    let request = parsed_request(
        "PUT",
        "http://localhost/devstoreaccount1/AA?restype=container",
        &[("x-ms-version", AZURE_VERSION)],
        b"",
    );

    let response = adapter
        .handle_request(&storage, &auth_disabled(), &request)
        .expect("invalid container request should complete");

    assert_eq!(response.status(), http::StatusCode::BAD_REQUEST);
    assert!(storage.get_namespace("AA").is_err());
}

fn sas_signature(
    resource: &str,
    config: &AuthConfig,
    permissions: &str,
    expires: &str,
) -> String {
    let key = AzureBlobAdapter::shared_key_secret(config).expect("key should exist");
    let payload = AzureBlobAdapter::sas_string_to_sign(
        resource,
        permissions,
        "",
        expires,
        "2023-11-03",
        "b",
    );
    sign_hmac_base64(&key, &payload)
}

#[test]
fn should_create_list_and_fetch_azure_blobs() {
    let adapter = Azure::new();
    let storage = temp_storage();

    let response = adapter
        .handle_request(
            &storage,
            &auth_disabled(),
            &parsed_request(
                "PUT",
                "http://localhost/devstoreaccount1/photos?restype=container",
                &[("x-ms-version", AZURE_VERSION)],
                b"",
            ),
        )
        .expect("container create should succeed");
    assert_eq!(response.status(), http::StatusCode::CREATED);

    let response = adapter
        .handle_request(
            &storage,
            &auth_disabled(),
            &parsed_request(
                "PUT",
                "http://localhost/devstoreaccount1/photos/kitten.txt",
                &[
                    ("x-ms-version", AZURE_VERSION),
                    ("x-ms-blob-type", "BlockBlob"),
                    ("x-ms-meta-owner", "alice"),
                    ("content-type", "text/plain"),
                ],
                b"hello azure",
            ),
        )
        .expect("put blob should succeed");
    assert_eq!(response.status(), http::StatusCode::CREATED);

    let response = adapter
        .handle_request(
            &storage,
            &auth_disabled(),
            &parsed_request(
                "GET",
                "http://localhost/devstoreaccount1/photos?restype=container&comp=list",
                &[("x-ms-version", AZURE_VERSION)],
                b"",
            ),
        )
        .expect("list blobs should succeed");
    let body = response
        .into_body();
    assert!(String::from_utf8(body.to_vec())
        .expect("xml")
        .contains("kitten.txt"));

    let response = adapter
        .handle_request(
            &storage,
            &auth_disabled(),
            &parsed_request(
                "GET",
                "http://localhost/devstoreaccount1/photos/kitten.txt",
                &[("x-ms-version", AZURE_VERSION)],
                b"",
            ),
        )
        .expect("get blob should succeed");
    let body = response
        .into_body();
    assert_eq!(body.as_slice(), b"hello azure");
}

#[test]
fn should_commit_block_blob_from_put_block_list() {
    let adapter = Azure::new();
    let storage = temp_storage();

    adapter
        .handle_request(
            &storage,
            &auth_disabled(),
            &parsed_request(
                "PUT",
                "http://localhost/devstoreaccount1/archive?restype=container",
                &[("x-ms-version", AZURE_VERSION)],
                b"",
            ),
        )
        .expect("container create should succeed");

    let block_one = base64::engine::general_purpose::STANDARD.encode("block-001");
    let block_two = base64::engine::general_purpose::STANDARD.encode("block-002");
    for (block_id, payload) in [
        (&block_one, b"abc".as_slice()),
        (&block_two, b"def".as_slice()),
    ] {
        let response = adapter
            .handle_request(
                &storage,
                &auth_disabled(),
                &parsed_request(
                    "PUT",
                    &format!(
                        "http://localhost/devstoreaccount1/archive/report.txt?comp=block&blockid={}",
                        urlencoding::encode(block_id)
                    ),
                    &[("x-ms-version", AZURE_VERSION)],
                    payload,
                ),)
            .expect("put block should succeed");
        assert_eq!(response.status(), http::StatusCode::CREATED);
    }

    let block_list = format!(
        "<?xml version=\"1.0\" encoding=\"utf-8\"?><BlockList><Latest>{block_one}</Latest><Latest>{block_two}</Latest></BlockList>"
    );
    adapter
        .handle_request(
            &storage,
            &auth_disabled(),
            &parsed_request(
                "PUT",
                "http://localhost/devstoreaccount1/archive/report.txt?comp=blocklist",
                &[
                    ("x-ms-version", AZURE_VERSION),
                    ("content-type", "application/xml"),
                ],
                block_list.as_bytes(),
            ),
        )
        .expect("put block list should succeed");

    let response = adapter
        .handle_request(
            &storage,
            &auth_disabled(),
            &parsed_request(
                "GET",
                "http://localhost/devstoreaccount1/archive/report.txt",
                &[("x-ms-version", AZURE_VERSION)],
                b"",
            ),
        )
        .expect("get blob should succeed");
    let body = response
        .into_body();
    assert_eq!(body.as_slice(), b"abcdef");
}

#[test]
fn should_preserve_azure_committed_and_uncommitted_block_selectors() {
    // Arrange
    let adapter = Azure::new();
    let storage = temp_storage();
    let container_uri = "http://localhost/devstoreaccount1/selectors?restype=container";
    let blob_uri = "http://localhost/devstoreaccount1/selectors/report.bin";
    adapter
        .handle_request(
            &storage,
            &auth_disabled(),
            &parsed_request(
                "PUT",
                container_uri,
                &[("x-ms-version", AZURE_VERSION)],
                b"",
            ),
        )
        .expect("container create should succeed");
    let block_id = base64::engine::general_purpose::STANDARD.encode("block-001");
    let encoded_block_id = urlencoding::encode(&block_id);
    let stage_uri = format!("{blob_uri}?comp=block&blockid={encoded_block_id}");
    let commit_uri = format!("{blob_uri}?comp=blocklist");
    let list_uri = format!("{blob_uri}?comp=blocklist&blocklisttype=all");
    let commit =
        |selector: &str| format!("<BlockList><{selector}>{block_id}</{selector}></BlockList>");
    adapter
        .handle_request(
            &storage,
            &auth_disabled(),
            &parsed_request(
                "PUT",
                &stage_uri,
                &[("x-ms-version", AZURE_VERSION)],
                b"old",
            ),
        )
        .expect("old block should stage");
    adapter
        .handle_request(
            &storage,
            &auth_disabled(),
            &parsed_request(
                "PUT",
                &commit_uri,
                &[("x-ms-version", AZURE_VERSION)],
                commit("Latest").as_bytes(),
            ),
        )
        .expect("old block should commit");
    adapter
        .handle_request(
            &storage,
            &auth_disabled(),
            &parsed_request(
                "PUT",
                &stage_uri,
                &[("x-ms-version", AZURE_VERSION)],
                b"newest",
            ),
        )
        .expect("replacement block should stage");

    // Act
    let all_blocks = adapter
        .handle_request(
            &storage,
            &auth_disabled(),
            &parsed_request("GET", &list_uri, &[("x-ms-version", AZURE_VERSION)], b""),
        )
        .expect("all block lists should load");
    let all_blocks = all_blocks
        .into_body();
    let all_blocks = String::from_utf8(all_blocks.to_vec()).expect("block list should be XML");
    let uncommitted_blocks = adapter
        .handle_request(
            &storage,
            &auth_disabled(),
            &parsed_request(
                "GET",
                &format!("{blob_uri}?comp=blocklist&blocklisttype=uncommitted"),
                &[("x-ms-version", AZURE_VERSION)],
                b"",
            ),
        )
        .expect("uncommitted block list should load")
        .into_body();
    let uncommitted_blocks =
        String::from_utf8(uncommitted_blocks.to_vec()).expect("block list should be XML");
    let committed_response = adapter
        .handle_request(
            &storage,
            &auth_disabled(),
            &parsed_request(
                "PUT",
                &commit_uri,
                &[("x-ms-version", AZURE_VERSION)],
                commit("Committed").as_bytes(),
            ),
        )
        .expect("committed selector should succeed");
    let committed_data = storage
        .get_object("selectors", "report.bin")
        .expect("committed blob should exist")
        .data;
    let latest_response = adapter
        .handle_request(
            &storage,
            &auth_disabled(),
            &parsed_request(
                "PUT",
                &commit_uri,
                &[("x-ms-version", AZURE_VERSION)],
                commit("Latest").as_bytes(),
            ),
        )
        .expect("latest selector should succeed");
    let latest_data = storage
        .get_object("selectors", "report.bin")
        .expect("updated blob should exist")
        .data;
    let recommit_response = adapter
        .handle_request(
            &storage,
            &auth_disabled(),
            &parsed_request(
                "PUT",
                &commit_uri,
                &[("x-ms-version", AZURE_VERSION)],
                commit("Committed").as_bytes(),
            ),
        )
        .expect("pure committed recommit should succeed");
    let invalid_selector = adapter
        .handle_request(
            &storage,
            &auth_disabled(),
            &parsed_request(
                "GET",
                &format!("{blob_uri}?comp=blocklist&blocklisttype=bogus"),
                &[("x-ms-version", AZURE_VERSION)],
                b"",
            ),
        )
        .expect("invalid selector should return a provider response");

    // Assert
    assert!(all_blocks.contains("<CommittedBlocks>"));
    assert!(all_blocks.contains("<Size>3</Size>"));
    assert!(all_blocks.contains("<UncommittedBlocks>"));
    assert!(all_blocks.contains("<Size>6</Size>"));
    assert!(!uncommitted_blocks.contains("<CommittedBlocks>"));
    assert!(uncommitted_blocks.contains("<UncommittedBlocks>"));
    assert!(uncommitted_blocks.contains("<Size>6</Size>"));
    assert_eq!(committed_response.status(), http::StatusCode::CREATED);
    assert_eq!(committed_data, b"old");
    assert_eq!(latest_response.status(), http::StatusCode::CREATED);
    assert_eq!(latest_data, b"newest");
    assert_eq!(recommit_response.status(), http::StatusCode::CREATED);
    assert_eq!(invalid_selector.status(), http::StatusCode::BAD_REQUEST);
    assert_eq!(
        invalid_selector
            .headers()
            .get("x-ms-error-code")
            .and_then(|value| value.to_str().ok()),
        Some("InvalidQueryParameterValue")
    );
}

#[test]
fn should_reject_invalid_azure_block_ids_without_staging_them() {
    let adapter = Azure::new();
    let storage = temp_storage();
    create_azure_container(&adapter, &storage, "invalid-blocks");

    for uri in [
        "http://localhost/devstoreaccount1/invalid-blocks/report.txt?comp=block",
        "http://localhost/devstoreaccount1/invalid-blocks/report.txt?comp=block&blockid=not_base64",
    ] {
        let response = adapter
            .handle_request(
                &storage,
                &auth_disabled(),
                &parsed_request(
                    "PUT",
                    uri,
                    &[("x-ms-version", AZURE_VERSION)],
                    b"must-not-stage",
                ),
            )
            .expect("invalid block ID should return an Azure response");
        assert_eq!(response.status(), http::StatusCode::BAD_REQUEST);
        assert_eq!(
            response
                .headers()
                .get("x-ms-error-code")
                .and_then(|value| value.to_str().ok()),
            Some("InvalidBlockId")
        );
    }
    assert!(adapter.memory.borrow().block_sessions.is_empty());

    let first_id = base64::engine::general_purpose::STANDARD.encode("one");
    let response = adapter
        .handle_request(
            &storage,
            &auth_disabled(),
            &parsed_request(
                "PUT",
                &format!(
                    "http://localhost/devstoreaccount1/invalid-blocks/report.txt?comp=block&blockid={}",
                    urlencoding::encode(&first_id)
                ),
                &[("x-ms-version", AZURE_VERSION)],
                b"kept",
            ),
        )
        .expect("first block should stage");
    assert_eq!(response.status(), http::StatusCode::CREATED);

    let different_length_id = base64::engine::general_purpose::STANDARD.encode("longer");
    let response = adapter
        .handle_request(
            &storage,
            &auth_disabled(),
            &parsed_request(
                "PUT",
                &format!(
                    "http://localhost/devstoreaccount1/invalid-blocks/report.txt?comp=block&blockid={}",
                    urlencoding::encode(&different_length_id)
                ),
                &[("x-ms-version", AZURE_VERSION)],
                b"must-not-stage",
            ),
        )
        .expect("different-length block ID should return an Azure response");
    assert_eq!(response.status(), http::StatusCode::BAD_REQUEST);
    assert_eq!(
        response
            .headers()
            .get("x-ms-error-code")
            .and_then(|value| value.to_str().ok()),
        Some("InvalidBlockId")
    );

    let session_key =
        AzureBlobAdapter::blob_state_key("devstoreaccount1", "invalid-blocks", "report.txt");
    let session = adapter
        .load_block_session(&storage, &session_key)
        .expect("block session should load")
        .expect("valid block should remain staged");
    assert_eq!(session.blocks.len(), 1);
    assert_eq!(session.blocks.get(&first_id), Some(&b"kept".to_vec()));
    assert!(matches!(
        storage.get_object("invalid-blocks", "report.txt"),
        Err(Failure::KeyNotFound)
    ));
}

#[test]
fn should_reject_malformed_azure_block_lists_without_committing() {
    let adapter = Azure::new();
    let storage = temp_storage();
    create_azure_container(&adapter, &storage, "invalid-block-list");

    let block_id = base64::engine::general_purpose::STANDARD.encode("block-001");
    let response = adapter
        .handle_request(
            &storage,
            &auth_disabled(),
            &parsed_request(
                "PUT",
                &format!(
                    "http://localhost/devstoreaccount1/invalid-block-list/report.txt?comp=block&blockid={}",
                    urlencoding::encode(&block_id)
                ),
                &[("x-ms-version", AZURE_VERSION)],
                b"staged",
            ),
        )
        .expect("valid block should stage");
    assert_eq!(response.status(), http::StatusCode::CREATED);

    for (body, error_code) in [
        (
            b"<BlockList><Latest>unterminated".as_slice(),
            "InvalidXmlDocument",
        ),
        (
            b"<NotBlockList><Latest>YmxvY2s=</Latest></NotBlockList>".as_slice(),
            "InvalidBlockList",
        ),
        (
            b"<BlockList><Latest>\xff</Latest></BlockList>".as_slice(),
            "InvalidXmlDocument",
        ),
    ] {
        let response = adapter
            .handle_request(
                &storage,
                &auth_disabled(),
                &parsed_request(
                    "PUT",
                    "http://localhost/devstoreaccount1/invalid-block-list/report.txt?comp=blocklist",
                    &[
                        ("x-ms-version", AZURE_VERSION),
                        ("content-type", "application/xml"),
                    ],
                    body,
                ),
            )
            .expect("invalid block list should return an Azure response");
        assert_eq!(response.status(), http::StatusCode::BAD_REQUEST);
        assert_eq!(
            response
                .headers()
                .get("x-ms-error-code")
                .and_then(|value| value.to_str().ok()),
            Some(error_code)
        );
        assert!(matches!(
            storage.get_object("invalid-block-list", "report.txt"),
            Err(Failure::KeyNotFound)
        ));
    }

    let session_key = AzureBlobAdapter::blob_state_key(
        "devstoreaccount1",
        "invalid-block-list",
        "report.txt",
    );
    let session = adapter
        .load_block_session(&storage, &session_key)
        .expect("block session should load")
        .expect("failed commits must preserve staged blocks");
    assert_eq!(session.blocks.get(&block_id), Some(&b"staged".to_vec()));
}

#[test]
fn should_reject_unsupported_azure_copy_variants_without_mutating() {
    let adapter = Azure::new();
    let storage = temp_storage();
    create_azure_container(&adapter, &storage, "copy-targets");
    storage
        .put_object(
            "copy-targets",
            "existing.txt".to_string(),
            Object::new(
                "existing.txt".to_string(),
                b"preserve".to_vec(),
                "text/plain".to_string(),
            ),
        )
        .expect("destination fixture should be written");

    for uri in [
        "http://localhost/devstoreaccount1/copy-targets/existing.txt",
        "http://localhost/devstoreaccount1/copy-targets/from-url.txt?comp=block&blockid=YmxvY2stMDAx",
    ] {
        let response = adapter
            .handle_request(
                &storage,
                &auth_disabled(),
                &parsed_request(
                    "PUT",
                    uri,
                    &[
                        ("x-ms-version", AZURE_VERSION),
                        (
                            "x-ms-copy-source",
                            "/devstoreaccount1/copy-targets/source.txt",
                        ),
                    ],
                    b"",
                ),
            )
            .expect("unsupported copy should return an Azure response");
        assert_eq!(response.status(), http::StatusCode::NOT_IMPLEMENTED);
        assert_eq!(
            response
                .headers()
                .get("x-ms-error-code")
                .and_then(|value| value.to_str().ok()),
            Some("FeatureNotSupported")
        );
    }

    assert_eq!(
        storage
            .get_object("copy-targets", "existing.txt")
            .expect("existing destination should remain")
            .data,
        b"preserve"
    );
    assert!(matches!(
        storage.get_object("copy-targets", "from-url.txt"),
        Err(Failure::KeyNotFound)
    ));
    assert!(adapter.memory.borrow().block_sessions.is_empty());
}

#[test]
fn should_commit_and_list_blocks_after_adapter_restart() {
    let adapter = Azure::new();
    let storage = temp_storage();

    adapter
        .handle_request(
            &storage,
            &auth_disabled(),
            &parsed_request(
                "PUT",
                "http://localhost/devstoreaccount1/restart?restype=container",
                &[("x-ms-version", AZURE_VERSION)],
                b"",
            ),
        )
        .expect("container create should succeed");

    let block_id = base64::engine::general_purpose::STANDARD.encode("restart-block");
    adapter
        .handle_request(
            &storage,
            &auth_disabled(),
            &parsed_request(
                "PUT",
                &format!(
                    "http://localhost/devstoreaccount1/restart/report.txt?comp=block&blockid={}",
                    urlencoding::encode(&block_id)
                ),
                &[("x-ms-version", AZURE_VERSION)],
                b"restart-safe",
            ),)
        .expect("put block should succeed");

    let restarted = Azure::new();
    let block_list = format!(
        "<?xml version=\"1.0\" encoding=\"utf-8\"?><BlockList><Latest>{block_id}</Latest></BlockList>"
    );
    let commit = restarted
        .handle_request(
            &storage,
            &auth_disabled(),
            &parsed_request(
                "PUT",
                "http://localhost/devstoreaccount1/restart/report.txt?comp=blocklist",
                &[
                    ("x-ms-version", AZURE_VERSION),
                    ("content-type", "application/xml"),
                ],
                block_list.as_bytes(),
            ),
        )
        .expect("put block list should succeed after restart");
    assert_eq!(commit.status(), http::StatusCode::CREATED);

    let block_list_response = Azure::new()
        .handle_request(
            &storage,
            &auth_disabled(),
            &parsed_request(
                "GET",
                "http://localhost/devstoreaccount1/restart/report.txt?comp=blocklist",
                &[("x-ms-version", AZURE_VERSION)],
                b"",
            ),
        )
        .expect("get block list should succeed after restart");
    let block_list_body = block_list_response
        .into_body();
    assert!(String::from_utf8(block_list_body.to_vec())
        .expect("xml")
        .contains(&block_id));

    let object = storage.get_object("restart", "report.txt").unwrap();
    assert_eq!(object.data, b"restart-safe".to_vec());
}

#[test]
fn should_validate_azure_shared_key_and_sas_authorization() {
    let adapter = Azure::new();
    let storage = temp_storage();
    storage.create_bucket("secure".to_string()).unwrap();
    storage
        .put_object(
            "secure",
            "blob.txt".to_string(),
            Object::new(
                "blob.txt".to_string(),
                b"secret".to_vec(),
                "text/plain".to_string(),
            ),
        )
        .unwrap();

    let mut shared_key_request = parsed_request(
        "GET",
        "http://localhost/devstoreaccount1?comp=list",
        &[
            ("x-ms-version", AZURE_VERSION),
            ("x-ms-date", &chrono::Utc::now().to_rfc2822()),
            ("host", "localhost:9000"),
        ],
        b"",
    );
    let auth = signed_headers(&shared_key_request, &azure_auth(), "devstoreaccount1");
    shared_key_request
        .headers
        .insert("authorization", HeaderText::Text(auth));

    let response = adapter
        .handle_request(&storage, &azure_auth(), &shared_key_request)
        .expect("shared key request should complete");
    assert_eq!(response.status(), http::StatusCode::OK);

    let mut stale_request = parsed_request(
        "GET",
        "http://localhost/devstoreaccount1?comp=list",
        &[
            ("x-ms-version", AZURE_VERSION),
            ("x-ms-date", "Sat, 01 Jan 2024 00:00:00 +0000"),
            ("host", "localhost:9000"),
        ],
        b"",
    );
    let stale_auth = signed_headers(&stale_request, &azure_auth(), "devstoreaccount1");
    stale_request.headers.insert(
        "authorization",
        HeaderText::Text(stale_auth),
    );
    let stale_response = adapter
        .handle_request(&storage, &azure_auth(), &stale_request)
        .expect("stale shared key request should complete");
    assert_eq!(stale_response.status(), http::StatusCode::FORBIDDEN);

    let expiry = "2035-01-01T00:00:00Z";
    let canonical_resource = "/blob/devstoreaccount1/secure/blob.txt";
    let sig = sas_signature(canonical_resource, &azure_auth(), "r", expiry);
    let response = adapter
        .handle_request(
            &storage,
            &azure_auth(),
            &parsed_request(
                "GET",
                &format!(
                    "http://localhost/devstoreaccount1/secure/blob.txt?sp=r&se={}&sv=2023-11-03&sr=b&sig={}",
                    urlencoding::encode(expiry),
                    urlencoding::encode(&sig)
                ),
                &[("x-ms-version", AZURE_VERSION)],
                b"",
            ),)
        .expect("sas request should complete");
    assert_eq!(response.status(), http::StatusCode::OK);
}

#[test]
fn should_update_metadata_return_block_list_and_support_ranges() {
    let adapter = Azure::new();
    let storage = temp_storage();

    create_azure_container(&adapter, &storage, "media");
    let (block_one, block_two) = commit_azure_block_blob(&adapter, &storage);
    verify_azure_block_list(&adapter, &storage, &block_one, &block_two);
    update_and_verify_azure_metadata(&adapter, &storage);
    verify_azure_range_read(&adapter, &storage);
}

#[test]
fn should_render_native_azure_incomplete_body_error() {
    let adapter = Azure::new();
    let response = adapter.render_incomplete_body(&parsed_request(
        "PUT",
        "http://localhost/devstoreaccount1/container/blob",
        &[("x-ms-version", AZURE_VERSION), ("x-ms-client-request-id", "azure-short-body")],
        b"",
    ));

    assert_eq!(response.status(), http::StatusCode::BAD_REQUEST);
    assert_eq!(
        response
            .headers()
            .get("x-ms-client-request-id")
            .and_then(|value| value.to_str().ok()),
        Some("azure-short-body")
    );
    assert!(String::from_utf8(read_test_body(response))
        .expect("error body should be utf8")
        .contains("<Code>InvalidHeaderValue</Code>"));
}

#[test]
#[allow(clippy::too_many_lines)] // Activation, read isolation, and no-mutation checks share one foreign bucket.
fn should_isolate_foreign_version_history_and_validate_local_mode_before_create() {
    let adapter = Azure::new();
    let storage = temp_storage();
    storage.create_bucket("foreign".to_string()).unwrap();
    storage.enable_versioning("foreign").unwrap();
    storage
        .update_bucket_metadata(
            "foreign",
            HashMap::from([(S3_VERSIONING_STATUS_KEY.to_string(), "Enabled".to_string())]),
        )
        .unwrap();
    storage
        .put_object(
            "foreign",
            "blob.txt".to_string(),
            Object::new(
                "blob.txt".to_string(),
                b"original".to_vec(),
                "text/plain".to_string(),
            ),
        )
        .unwrap();
    let stored = storage.get_object("foreign", "blob.txt").unwrap();
    let foreign_version_id = stored
        .version_id
        .clone()
        .expect("foreign mode should assign a version ID");

    let current = adapter
        .handle_request(
            &storage,
            &auth_disabled(),
            &parsed_request(
                "GET",
                "http://localhost/devstoreaccount1/foreign/blob.txt",
                &[("x-ms-version", AZURE_VERSION)],
                b"",
            ),
        )
        .expect("current Azure read should respond");
    assert_eq!(current.status(), http::StatusCode::OK);
    assert!(current.headers().get("x-ms-version-id").is_none());

    let activation = adapter
        .handle_request(
            &storage,
            &auth_disabled(),
            &parsed_request(
                "PUT",
                "http://localhost/devstoreaccount1/foreign?restype=container",
                &[
                    ("x-ms-version", AZURE_VERSION),
                    ("x-sqrzl-azure-versioning-enabled", "true"),
                ],
                b"",
            ),
        )
        .expect("foreign mode activation conflict should respond");
    assert_eq!(activation.status(), http::StatusCode::CONFLICT);
    assert!(String::from_utf8(read_test_body(activation))
        .expect("error body should be utf8")
        .contains("<Code>FeatureVersionMismatch</Code>"));
    let bucket = storage.get_bucket("foreign").unwrap();
    assert_eq!(
        bucket.metadata.get(S3_VERSIONING_STATUS_KEY),
        Some(&"Enabled".to_string())
    );
    assert!(!bucket.metadata.contains_key(AZURE_VERSIONING_KEY));

    for request in [
        parsed_request(
            "PUT",
            "http://localhost/devstoreaccount1/foreign/blob.txt",
            &[
                ("x-ms-version", AZURE_VERSION),
                ("x-ms-blob-type", "BlockBlob"),
            ],
            b"replacement",
        ),
        parsed_request(
            "GET",
            &format!(
                "http://localhost/devstoreaccount1/foreign/blob.txt?versionid={foreign_version_id}"
            ),
            &[("x-ms-version", AZURE_VERSION)],
            b"",
        ),
    ] {
        let response = adapter
            .handle_request(&storage, &auth_disabled(), &request)
            .expect("foreign history conflict should respond");
        assert_eq!(response.status(), http::StatusCode::CONFLICT);
        assert!(String::from_utf8(read_test_body(response))
            .expect("error body should be utf8")
            .contains("<Code>FeatureVersionMismatch</Code>"));
    }
    assert_eq!(
        storage.get_object("foreign", "blob.txt").unwrap().data,
        b"original"
    );

    let invalid_create = adapter
        .handle_request(
            &storage,
            &auth_disabled(),
            &parsed_request(
                "PUT",
                "http://localhost/devstoreaccount1/invalid-mode?restype=container",
                &[
                    ("x-ms-version", AZURE_VERSION),
                    ("x-sqrzl-azure-soft-delete-days", "0"),
                ],
                b"",
            ),
        )
        .expect("invalid mode should respond");
    assert_eq!(invalid_create.status(), http::StatusCode::BAD_REQUEST);
    assert!(matches!(
        storage.get_bucket("invalid-mode"),
        Err(Failure::BucketNotFound)
    ));
}

#[test]
fn should_support_append_and_page_blob_writes() {
    let adapter = Azure::new();
    let storage = temp_storage();

    create_azure_container(&adapter, &storage, "state");
    verify_append_blob_writes(&adapter, &storage);
    verify_page_blob_writes(&adapter, &storage);
}

#[test]
fn should_manage_leases_snapshots_and_immutability() {
    let adapter = Azure::new();
    let storage = temp_storage();

    create_azure_container(&adapter, &storage, "state");
    create_azure_lease_blob(&adapter, &storage);
    acquire_deny_and_release_azure_lease(&adapter, &storage);
    create_overwrite_and_read_azure_snapshot(&adapter, &storage);
    verify_azure_immutability_and_legal_hold(&adapter, &storage);
}

#[test]
#[allow(clippy::too_many_lines)] // Locked-policy and legal-hold fail-closed checks share one fixture.
fn should_preserve_azure_worm_state_on_invalid_mutations() {
    // Arrange
    let adapter = Azure::new();
    let storage = temp_storage();
    create_azure_container(&adapter, &storage, "worm");
    for (key, data) in [
        ("locked.txt", b"locked".as_slice()),
        ("held.txt", b"held".as_slice()),
    ] {
        storage
            .put_object(
                "worm",
                key.to_string(),
                Object::new(
                    key.to_string(),
                    data.to_vec(),
                    "text/plain".to_string(),
                ),
            )
            .unwrap();
    }
    let locked_until = (chrono::Utc::now() + chrono::Duration::days(3_650)).to_rfc2822();
    let shorter_until = (chrono::Utc::now() + chrono::Duration::days(365)).to_rfc2822();
    let extended_until = (chrono::Utc::now() + chrono::Duration::days(7_300)).to_rfc2822();
    let locked_uri =
        "http://localhost/devstoreaccount1/worm/locked.txt?comp=immutabilityPolicies";
    let set_locked = adapter
        .handle_request(
            &storage,
            &auth_disabled(),
            &parsed_request(
                "PUT",
                locked_uri,
                &[
                    ("x-ms-version", AZURE_VERSION),
                    ("x-ms-immutability-policy-until-date", &locked_until),
                    ("x-ms-immutability-policy-mode", "Locked"),
                ],
                b"",
            ),
        )
        .expect("locked policy should be created");
    assert_eq!(set_locked.status(), http::StatusCode::OK);

    // Act and assert: Locked can neither become Unlocked nor be shortened or deleted.
    for (mode, until) in [
        ("Unlocked", locked_until.as_str()),
        ("Locked", shorter_until.as_str()),
    ] {
        let response = adapter
            .handle_request(
                &storage,
                &auth_disabled(),
                &parsed_request(
                    "PUT",
                    locked_uri,
                    &[
                        ("x-ms-version", AZURE_VERSION),
                        ("x-ms-immutability-policy-until-date", until),
                        ("x-ms-immutability-policy-mode", mode),
                    ],
                    b"",
                ),
            )
            .expect("invalid locked-policy mutation should respond");
        assert_eq!(response.status(), http::StatusCode::CONFLICT);
        assert_eq!(
            header_value(&response, "x-ms-error-code"),
            Some("BlobImmutableDueToPolicy")
        );
    }
    let delete_policy = adapter
        .handle_request(
            &storage,
            &auth_disabled(),
            &parsed_request(
                "DELETE",
                locked_uri,
                &[("x-ms-version", AZURE_VERSION)],
                b"",
            ),
        )
        .expect("locked policy delete should respond");
    assert_eq!(delete_policy.status(), http::StatusCode::CONFLICT);

    // A legitimate extension remains supported.
    let extension = adapter
        .handle_request(
            &storage,
            &auth_disabled(),
            &parsed_request(
                "PUT",
                locked_uri,
                &[
                    ("x-ms-version", AZURE_VERSION),
                    ("x-ms-immutability-policy-until-date", &extended_until),
                    ("x-ms-immutability-policy-mode", "Locked"),
                ],
                b"",
            ),
        )
        .expect("locked policy extension should succeed");
    assert_eq!(extension.status(), http::StatusCode::OK);

    let held_uri = "http://localhost/devstoreaccount1/worm/held.txt?comp=legalhold";
    let set_hold = adapter
        .handle_request(
            &storage,
            &auth_disabled(),
            &parsed_request(
                "PUT",
                held_uri,
                &[("x-ms-version", AZURE_VERSION), ("x-ms-legal-hold", "true")],
                b"",
            ),
        )
        .expect("legal hold should be set");
    assert_eq!(set_hold.status(), http::StatusCode::OK);
    for request in [
        parsed_request(
            "PUT",
            held_uri,
            &[("x-ms-version", AZURE_VERSION)],
            b"<LegalHold>false</LegalHold>",
        ),
        parsed_request(
            "PUT",
            held_uri,
            &[("x-ms-version", AZURE_VERSION), ("x-ms-legal-hold", "typo")],
            b"",
        ),
    ] {
        let response = adapter
            .handle_request(&storage, &auth_disabled(), &request)
            .expect("invalid legal-hold mutation should respond");
        assert_eq!(response.status(), http::StatusCode::BAD_REQUEST);
    }

    let locked = storage.get_object("worm", "locked.txt").unwrap();
    assert_eq!(locked.data, b"locked");
    assert_eq!(
        locked.provider_metadata.get(AZURE_IMMUTABILITY_MODE_KEY),
        Some(&"Locked".to_string())
    );
    assert_eq!(
        locked.provider_metadata.get(AZURE_IMMUTABILITY_UNTIL_KEY),
        Some(&extended_until)
    );
    let held = storage.get_object("worm", "held.txt").unwrap();
    assert_eq!(held.data, b"held");
    assert_eq!(
        held.provider_metadata.get(AZURE_LEGAL_HOLD_KEY),
        Some(&"true".to_string())
    );
    for key in ["locked.txt", "held.txt"] {
        let response = adapter
            .handle_request(
                &storage,
                &auth_disabled(),
                &parsed_request(
                    "DELETE",
                    &format!("http://localhost/devstoreaccount1/worm/{key}"),
                    &[("x-ms-version", AZURE_VERSION)],
                    b"",
                ),
            )
            .expect("WORM-protected delete should respond");
        assert_eq!(response.status(), http::StatusCode::CONFLICT);
    }
}

#[test]
fn should_create_new_versions_when_overwriting_azure_worm_blobs() {
    // Arrange a versioned blob whose first version is protected by legal hold.
    let adapter = Azure::new();
    let storage = temp_storage();
    let versioned_container = "versioned-worm-overwrite";
    let key = "doc.txt";
    let versioned_uri =
        format!("http://localhost/devstoreaccount1/{versioned_container}/{key}");
    storage
        .create_bucket(versioned_container.to_string())
        .unwrap();
    storage.enable_versioning(versioned_container).unwrap();
    storage
        .update_bucket_metadata(
            versioned_container,
            HashMap::from([(AZURE_VERSIONING_KEY.to_string(), "true".to_string())]),
        )
        .unwrap();
    let mut held = Object::new(
        key.to_string(),
        b"held-version".to_vec(),
        "text/plain".to_string(),
    );
    set_blob_type(&mut held, "BlockBlob");
    held.provider_metadata
        .insert(AZURE_LEGAL_HOLD_KEY.to_string(), "true".to_string());
    storage
        .put_object(versioned_container, key.to_string(), held)
        .unwrap();
    let held_version_id = storage
        .get_object(versioned_container, key)
        .unwrap()
        .version_id
        .expect("held current blob should have a version ID");
    let initial_version_count = storage
        .list_object_versions_for_key(versioned_container, key)
        .unwrap()
        .len();

    // Put Blob is a documented WORM exception when it creates a new version.
    let put_blob = adapter
        .handle_request(
            &storage,
            &auth_disabled(),
            &parsed_request(
                "PUT",
                &versioned_uri,
                &[
                    ("x-ms-version", AZURE_VERSION),
                    ("x-ms-blob-type", "BlockBlob"),
                ],
                b"replacement",
            ),
        )
        .expect("versioned Put Blob should respond");
    assert_eq!(put_blob.status(), http::StatusCode::CREATED);
    let replacement_version_id = header_value(&put_blob, "x-ms-version-id")
        .expect("versioned Put Blob should identify the new version")
        .to_string();
    assert_ne!(replacement_version_id, held_version_id);
    assert_eq!(
        storage.get_object(versioned_container, key).unwrap().data,
        b"replacement"
    );
    let archived_held = storage
        .get_object_version(versioned_container, key, &held_version_id)
        .unwrap();
    assert_eq!(archived_held.data, b"held-version");
    assert_eq!(
        archived_held
            .provider_metadata
            .get(AZURE_LEGAL_HOLD_KEY)
            .map(String::as_str),
        Some("true")
    );
    assert_eq!(
        storage
            .list_object_versions_for_key(versioned_container, key)
            .unwrap()
            .len(),
        initial_version_count + 1
    );

    // Protect the new current version, then prove Put Block List also creates
    // a distinct current version while retaining the locked predecessor.
    let observed = storage.get_object(versioned_container, key).unwrap();
    let mut locked = observed.clone();
    let locked_until = (chrono::Utc::now() + chrono::Duration::days(365)).to_rfc2822();
    locked.provider_metadata.insert(
        AZURE_IMMUTABILITY_MODE_KEY.to_string(),
        "Locked".to_string(),
    );
    locked.provider_metadata.insert(
        AZURE_IMMUTABILITY_UNTIL_KEY.to_string(),
        locked_until.clone(),
    );
    assert!(storage
        .replace_object_metadata_if_unchanged(versioned_container, key, &observed, &locked)
        .unwrap());
    let locked_version_id = observed
        .version_id
        .expect("locked current blob should have a version ID");
    let block_id = base64::engine::general_purpose::STANDARD.encode("block-0001");
    let put_block = adapter
        .handle_request(
            &storage,
            &auth_disabled(),
            &parsed_request(
                "PUT",
                &format!(
                    "{versioned_uri}?comp=block&blockid={}",
                    urlencoding::encode(&block_id)
                ),
                &[("x-ms-version", AZURE_VERSION)],
                b"committed-block",
            ),
        )
        .expect("Put Block should respond");
    assert_eq!(put_block.status(), http::StatusCode::CREATED);
    let block_list = format!("<BlockList><Latest>{block_id}</Latest></BlockList>");
    let put_block_list = adapter
        .handle_request(
            &storage,
            &auth_disabled(),
            &parsed_request(
                "PUT",
                &format!("{versioned_uri}?comp=blocklist"),
                &[
                    ("x-ms-version", AZURE_VERSION),
                    ("content-type", "application/xml"),
                ],
                block_list.as_bytes(),
            ),
        )
        .expect("versioned Put Block List should respond");
    assert_eq!(put_block_list.status(), http::StatusCode::CREATED);
    let block_version_id = header_value(&put_block_list, "x-ms-version-id")
        .expect("versioned Put Block List should identify the new version")
        .to_string();
    assert_ne!(block_version_id, locked_version_id);
    assert_eq!(
        storage.get_object(versioned_container, key).unwrap().data,
        b"committed-block"
    );
    let archived_locked = storage
        .get_object_version(versioned_container, key, &locked_version_id)
        .unwrap();
    assert_eq!(archived_locked.data, b"replacement");
    assert_eq!(
        archived_locked
            .provider_metadata
            .get(AZURE_IMMUTABILITY_MODE_KEY)
            .map(String::as_str),
        Some("Locked")
    );
    assert_eq!(
        archived_locked
            .provider_metadata
            .get(AZURE_IMMUTABILITY_UNTIL_KEY),
        Some(&locked_until)
    );
    assert_eq!(
        storage
            .list_object_versions_for_key(versioned_container, key)
            .unwrap()
            .len(),
        initial_version_count + 2
    );

    // The same protected overwrites remain conflicts when Azure versioning
    // is disabled, and a failed block-list commit retains its staged block.
    let unversioned_container = "unversioned-worm-overwrite";
    let unversioned_uri =
        format!("http://localhost/devstoreaccount1/{unversioned_container}/{key}");
    storage
        .create_bucket(unversioned_container.to_string())
        .unwrap();
    let mut protected = Object::new(
        key.to_string(),
        b"must-remain".to_vec(),
        "text/plain".to_string(),
    );
    set_blob_type(&mut protected, "BlockBlob");
    protected
        .provider_metadata
        .insert(AZURE_LEGAL_HOLD_KEY.to_string(), "true".to_string());
    protected.provider_metadata.insert(
        AZURE_IMMUTABILITY_MODE_KEY.to_string(),
        "Locked".to_string(),
    );
    protected
        .provider_metadata
        .insert(AZURE_IMMUTABILITY_UNTIL_KEY.to_string(), locked_until);
    storage
        .put_object(unversioned_container, key.to_string(), protected)
        .unwrap();
    let rejected_put = adapter
        .handle_request(
            &storage,
            &auth_disabled(),
            &parsed_request(
                "PUT",
                &unversioned_uri,
                &[
                    ("x-ms-version", AZURE_VERSION),
                    ("x-ms-blob-type", "BlockBlob"),
                ],
                b"forbidden",
            ),
        )
        .expect("unversioned protected Put Blob should respond");
    assert_eq!(rejected_put.status(), http::StatusCode::CONFLICT);
    assert_eq!(
        header_value(&rejected_put, "x-ms-error-code"),
        Some("BlobImmutableDueToPolicy")
    );
    let stage = adapter
        .handle_request(
            &storage,
            &auth_disabled(),
            &parsed_request(
                "PUT",
                &format!(
                    "{unversioned_uri}?comp=block&blockid={}",
                    urlencoding::encode(&block_id)
                ),
                &[("x-ms-version", AZURE_VERSION)],
                b"forbidden-block",
            ),
        )
        .expect("unversioned Put Block should stage without changing the blob");
    assert_eq!(stage.status(), http::StatusCode::CREATED);
    let rejected_commit = adapter
        .handle_request(
            &storage,
            &auth_disabled(),
            &parsed_request(
                "PUT",
                &format!("{unversioned_uri}?comp=blocklist"),
                &[
                    ("x-ms-version", AZURE_VERSION),
                    ("content-type", "application/xml"),
                ],
                block_list.as_bytes(),
            ),
        )
        .expect("unversioned protected Put Block List should respond");
    assert_eq!(rejected_commit.status(), http::StatusCode::CONFLICT);
    assert_eq!(
        storage.get_object(unversioned_container, key).unwrap().data,
        b"must-remain"
    );
    let session_key =
        AzureBlobAdapter::blob_state_key("devstoreaccount1", unversioned_container, key);
    assert!(adapter
        .load_block_session(&storage, &session_key)
        .unwrap()
        .is_some_and(|session| session.blocks.contains_key(&block_id)));
}

#[test]
fn should_preserve_active_lease_across_azure_blob_overwrites() {
    // Arrange two versioned block blobs with independent active leases.
    let adapter = Azure::new();
    let storage = temp_storage();
    let container = "leased-overwrites";
    storage.create_bucket(container.to_string()).unwrap();
    storage.enable_versioning(container).unwrap();
    storage
        .update_bucket_metadata(
            container,
            HashMap::from([(AZURE_VERSIONING_KEY.to_string(), "true".to_string())]),
        )
        .unwrap();
    for key in ["put.txt", "blocks.txt"] {
        let mut object = Object::new(
            key.to_string(),
            b"initial".to_vec(),
            "text/plain".to_string(),
        );
        set_blob_type(&mut object, "BlockBlob");
        storage
            .put_object(container, key.to_string(), object)
            .unwrap();
    }
    let put_uri = format!("http://localhost/devstoreaccount1/{container}/put.txt");
    let block_uri = format!("http://localhost/devstoreaccount1/{container}/blocks.txt");
    let put_lease_id = "20e2a601-58ea-4312-b20c-bde31fc24124";
    let block_lease_id = "9f889ecb-a264-4a3e-8304-ac23fa12f7cc";
    acquire_azure_lease_for(&adapter, &storage, &put_uri, put_lease_id);
    acquire_azure_lease_for(&adapter, &storage, &block_uri, block_lease_id);

    // Put Blob accepts the matching lease and carries it onto the new version.
    let put = adapter
        .handle_request(
            &storage,
            &auth_disabled(),
            &parsed_request(
                "PUT",
                &put_uri,
                &[
                    ("x-ms-version", AZURE_VERSION),
                    ("x-ms-blob-type", "BlockBlob"),
                    ("x-ms-lease-id", put_lease_id),
                ],
                b"put replacement",
            ),
        )
        .expect("leased Put Blob should respond");
    assert_eq!(put.status(), http::StatusCode::CREATED);
    assert!(header_value(&put, "x-ms-version-id").is_some());
    let put_current = storage.get_object(container, "put.txt").unwrap();
    assert_eq!(put_current.data, b"put replacement");
    assert_eq!(lease_id(&put_current).as_deref(), Some(put_lease_id));
    assert!(has_active_lease(&put_current));
    assert_eq!(
        storage
            .list_object_versions_for_key(container, "put.txt")
            .unwrap()
            .len(),
        2
    );
    let denied_put = adapter
        .handle_request(
            &storage,
            &auth_disabled(),
            &parsed_request(
                "PUT",
                &put_uri,
                &[
                    ("x-ms-version", AZURE_VERSION),
                    ("x-ms-blob-type", "BlockBlob"),
                ],
                b"must not replace",
            ),
        )
        .expect("Put Blob without the retained lease ID should respond");
    assert_eq!(denied_put.status(), http::StatusCode::PRECONDITION_FAILED);
    assert_eq!(
        header_value(&denied_put, "x-ms-error-code"),
        Some("LeaseIdMissing")
    );
    assert_eq!(
        storage.get_object(container, "put.txt").unwrap().data,
        b"put replacement"
    );

    // Put Block List likewise preserves the lease after committing a new version.
    let block_id = base64::engine::general_purpose::STANDARD.encode("leased-block-001");
    let stage = adapter
        .handle_request(
            &storage,
            &auth_disabled(),
            &parsed_request(
                "PUT",
                &format!(
                    "{block_uri}?comp=block&blockid={}",
                    urlencoding::encode(&block_id)
                ),
                &[
                    ("x-ms-version", AZURE_VERSION),
                    ("x-ms-lease-id", block_lease_id),
                ],
                b"block replacement",
            ),
        )
        .expect("leased Put Block should respond");
    assert_eq!(stage.status(), http::StatusCode::CREATED);
    let block_list = format!("<BlockList><Latest>{block_id}</Latest></BlockList>");
    let commit = adapter
        .handle_request(
            &storage,
            &auth_disabled(),
            &parsed_request(
                "PUT",
                &format!("{block_uri}?comp=blocklist"),
                &[
                    ("x-ms-version", AZURE_VERSION),
                    ("x-ms-lease-id", block_lease_id),
                    ("content-type", "application/xml"),
                ],
                block_list.as_bytes(),
            ),
        )
        .expect("leased Put Block List should respond");
    assert_eq!(commit.status(), http::StatusCode::CREATED);
    assert!(header_value(&commit, "x-ms-version-id").is_some());
    let block_current = storage.get_object(container, "blocks.txt").unwrap();
    assert_eq!(block_current.data, b"block replacement");
    assert_eq!(
        lease_id(&block_current).as_deref(),
        Some(block_lease_id)
    );
    assert!(has_active_lease(&block_current));
    assert_eq!(
        storage
            .list_object_versions_for_key(container, "blocks.txt")
            .unwrap()
            .len(),
        2
    );
    let denied_commit = adapter
        .handle_request(
            &storage,
            &auth_disabled(),
            &parsed_request(
                "PUT",
                &format!("{block_uri}?comp=blocklist"),
                &[
                    ("x-ms-version", AZURE_VERSION),
                    ("content-type", "application/xml"),
                ],
                block_list.as_bytes(),
            ),
        )
        .expect("Put Block List without the retained lease ID should respond");
    assert_eq!(denied_commit.status(), http::StatusCode::PRECONDITION_FAILED);
    assert_eq!(
        header_value(&denied_commit, "x-ms-error-code"),
        Some("LeaseIdMissing")
    );
    assert_eq!(
        storage.get_object(container, "blocks.txt").unwrap().data,
        b"block replacement"
    );
}

#[test]
fn should_fail_closed_for_malformed_azure_worm_metadata() {
    // Arrange
    let adapter = Azure::new();
    let storage = temp_storage();
    storage.create_bucket("malformed-worm".to_string()).unwrap();
    for (key, provider_metadata) in [
        (
            "locked-without-until.txt",
            HashMap::from([(
                AZURE_IMMUTABILITY_MODE_KEY.to_string(),
                "Locked".to_string(),
            )]),
        ),
        (
            "locked-with-invalid-until.txt",
            HashMap::from([
                (
                    AZURE_IMMUTABILITY_MODE_KEY.to_string(),
                    "Locked".to_string(),
                ),
                (
                    AZURE_IMMUTABILITY_UNTIL_KEY.to_string(),
                    "not-a-date".to_string(),
                ),
            ]),
        ),
        (
            "invalid-legal-hold.txt",
            HashMap::from([(AZURE_LEGAL_HOLD_KEY.to_string(), "TRUE".to_string())]),
        ),
        (
            "orphan-until.txt",
            HashMap::from([(
                AZURE_IMMUTABILITY_UNTIL_KEY.to_string(),
                (chrono::Utc::now() - chrono::Duration::days(1)).to_rfc2822(),
            )]),
        ),
    ] {
        let mut object = Object::new(
            key.to_string(),
            b"protected".to_vec(),
            "text/plain".to_string(),
        );
        object.provider_metadata = provider_metadata;
        storage
            .put_object("malformed-worm", key.to_string(), object)
            .unwrap();
    }

    // Act and assert: corrupt durable protection state never becomes mutable.
    for key in [
        "locked-without-until.txt",
        "locked-with-invalid-until.txt",
        "invalid-legal-hold.txt",
        "orphan-until.txt",
    ] {
        for request in [
            parsed_request(
                "PUT",
                &format!("http://localhost/devstoreaccount1/malformed-worm/{key}"),
                &[
                    ("x-ms-version", AZURE_VERSION),
                    ("x-ms-blob-type", "BlockBlob"),
                ],
                b"replacement",
            ),
            parsed_request(
                "DELETE",
                &format!("http://localhost/devstoreaccount1/malformed-worm/{key}"),
                &[("x-ms-version", AZURE_VERSION)],
                b"",
            ),
        ] {
            let response = adapter
                .handle_request(&storage, &auth_disabled(), &request)
                .expect("malformed WORM mutation should respond");
            assert_eq!(response.status(), http::StatusCode::CONFLICT);
            assert_eq!(
                header_value(&response, "x-ms-error-code"),
                Some("BlobImmutableDueToPolicy")
            );
        }
        assert_eq!(
            storage.get_object("malformed-worm", key).unwrap().data,
            b"protected"
        );
    }

    // A well-formed inactive legal-hold marker remains a legitimate mutable state.
    let mut mutable = Object::new(
        "released.txt".to_string(),
        b"old".to_vec(),
        "text/plain".to_string(),
    );
    mutable
        .provider_metadata
        .insert(AZURE_LEGAL_HOLD_KEY.to_string(), "false".to_string());
    storage
        .put_object("malformed-worm", "released.txt".to_string(), mutable)
        .unwrap();
    let response = adapter
        .handle_request(
            &storage,
            &auth_disabled(),
            &parsed_request(
                "PUT",
                "http://localhost/devstoreaccount1/malformed-worm/released.txt",
                &[
                    ("x-ms-version", AZURE_VERSION),
                    ("x-ms-blob-type", "BlockBlob"),
                ],
                b"new",
            ),
        )
        .expect("released legal hold should remain mutable");
    assert_eq!(response.status(), http::StatusCode::CREATED);
    assert_eq!(
        storage
            .get_object("malformed-worm", "released.txt")
            .unwrap()
            .data,
        b"new"
    );
}

#[test]
fn should_not_schedule_or_purge_container_with_azure_worm_data() {
    // Arrange: leave the current object mutable while a protected historical
    // version and a protected snapshot exercise both hidden retention paths.
    let adapter = Azure::new();
    let storage = temp_storage();
    let container = "worm-version-container";
    let current_container = "worm-current-container";
    let snapshot_container = "worm-snapshot-container";
    storage.create_bucket(container.to_string()).unwrap();
    storage.enable_versioning(container).unwrap();
    storage
        .update_bucket_metadata(
            container,
            HashMap::from([(AZURE_VERSIONING_KEY.to_string(), "true".to_string())]),
        )
        .unwrap();
    let future = (chrono::Utc::now() + chrono::Duration::days(365)).to_rfc2822();
    let mut protected = Object::new(
        "doc.txt".to_string(),
        b"protected-version".to_vec(),
        "text/plain".to_string(),
    );
    protected.provider_metadata.insert(
        AZURE_IMMUTABILITY_MODE_KEY.to_string(),
        "Locked".to_string(),
    );
    protected
        .provider_metadata
        .insert(AZURE_IMMUTABILITY_UNTIL_KEY.to_string(), future.clone());
    storage
        .create_bucket(current_container.to_string())
        .unwrap();
    storage
        .put_object(current_container, "doc.txt".to_string(), protected.clone())
        .unwrap();
    storage
        .put_object(container, "doc.txt".to_string(), protected)
        .unwrap();
    storage
        .put_object(
            container,
            "doc.txt".to_string(),
            Object::new(
                "doc.txt".to_string(),
                b"current".to_vec(),
                "text/plain".to_string(),
            ),
        )
        .unwrap();
    storage
        .create_bucket(snapshot_container.to_string())
        .unwrap();
    storage
        .put_object(
            snapshot_container,
            "other.txt".to_string(),
            Object::new(
                "other.txt".to_string(),
                b"snapshot-current".to_vec(),
                "text/plain".to_string(),
            ),
        )
        .unwrap();
    let snapshot_key =
        AzureBlobAdapter::snapshot_storage_key("other.txt", "2026-08-10T12:00:00.0000000Z");
    let mut snapshot = Object::new(
        snapshot_key.clone(),
        b"protected-snapshot".to_vec(),
        "text/plain".to_string(),
    );
    snapshot
        .provider_metadata
        .insert(AZURE_LEGAL_HOLD_KEY.to_string(), "true".to_string());
    storage
        .put_object(snapshot_container, snapshot_key.clone(), snapshot)
        .unwrap();
    let versions_before = storage.list_object_versions(container).unwrap();

    // Act and assert: current, historical-version, and snapshot protection
    // each independently prevent a deletion marker from being scheduled.
    for protected_container in [current_container, container, snapshot_container] {
        let delete = adapter
            .handle_request(
                &storage,
                &auth_disabled(),
                &parsed_request(
                    "DELETE",
                    &format!(
                        "http://localhost/devstoreaccount1/{protected_container}?restype=container"
                    ),
                    &[
                        ("x-ms-version", AZURE_VERSION),
                        ("x-sqrzl-azure-delete-delay-ms", "0"),
                    ],
                    b"",
                ),
            )
            .expect("protected container delete should respond");
        assert_eq!(delete.status(), http::StatusCode::CONFLICT);
        assert_eq!(
            header_value(&delete, "x-ms-error-code"),
            Some("BlobImmutableDueToPolicy")
        );
        assert!(!storage.state.borrow().deletions.contains_key(protected_container));
    }

    // A deletion that became unsafe after scheduling must also abandon purge.
    let purge_after = chrono::Utc::now() - chrono::Duration::seconds(1);
    storage.state.borrow_mut().deletions.insert(
        container.to_string(),
        (purge_after.timestamp(), purge_after.timestamp_subsec_nanos()),
    );
    let list = adapter
        .handle_request(
            &storage,
            &auth_disabled(),
            &parsed_request(
                "GET",
                "http://localhost/devstoreaccount1?comp=list",
                &[("x-ms-version", AZURE_VERSION)],
                b"",
            ),
        )
        .expect("account listing should abandon a newly protected purge");
    assert_eq!(list.status(), http::StatusCode::OK);
    assert!(String::from_utf8(read_test_body(list))
        .expect("account listing should be utf8")
        .contains("<Name>worm-version-container</Name>"));
    let read = adapter
        .handle_request(
            &storage,
            &auth_disabled(),
            &parsed_request(
                "GET",
                "http://localhost/devstoreaccount1/worm-version-container/doc.txt",
                &[("x-ms-version", AZURE_VERSION)],
                b"",
            ),
        )
        .expect("abandoned protected purge should expose the intact container");
    assert_eq!(read.status(), http::StatusCode::OK);
    assert_eq!(read_test_body(read), b"current");
    assert_eq!(
        storage.list_object_versions(container).unwrap().len(),
        versions_before.len()
    );
    assert_eq!(
        storage
            .get_object(snapshot_container, &snapshot_key)
            .unwrap()
            .data,
        b"protected-snapshot"
    );
    assert!(!storage.state.borrow().deletions.contains_key(container));
}

#[test]
#[allow(clippy::too_many_lines)] // Every rejected selector is checked against one shared version-history fixture.
fn should_reject_unsafe_and_unsupported_azure_version_selectors_without_mutating() {
    // Arrange
    let adapter = Azure::new();
    let storage = temp_storage();
    storage.create_bucket("versions".to_string()).unwrap();
    storage.enable_versioning("versions").unwrap();
    storage
        .update_bucket_metadata(
            "versions",
            HashMap::from([(AZURE_VERSIONING_KEY.to_string(), "true".to_string())]),
        )
        .unwrap();
    storage
        .put_object(
            "versions",
            "doc.txt".to_string(),
            Object::new(
                "doc.txt".to_string(),
                b"first".to_vec(),
                "text/plain".to_string(),
            ),
        )
        .unwrap();
    let first_version_id = storage
        .get_object("versions", "doc.txt")
        .unwrap()
        .version_id
        .expect("first version id should exist");
    storage
        .put_object(
            "versions",
            "doc.txt".to_string(),
            Object::new(
                "doc.txt".to_string(),
                b"current".to_vec(),
                "text/plain".to_string(),
            ),
        )
        .unwrap();
    let version_count = storage
        .list_object_versions_for_key("versions", "doc.txt")
        .unwrap()
        .len();

    // Act and assert: an encoded parent component cannot alias the current object.
    for method in ["GET", "HEAD", "DELETE"] {
        let response = adapter
            .handle_request(
                &storage,
                &auth_disabled(),
                &parsed_request(
                    method,
                    "http://localhost/devstoreaccount1/versions/doc.txt?versionid=%2E%2E",
                    &[("x-ms-version", AZURE_VERSION)],
                    b"",
                ),
            )
            .expect("unsafe Azure version selector should respond");
        assert_eq!(response.status(), http::StatusCode::NOT_FOUND);
        assert_eq!(
            header_value(&response, "x-ms-error-code"),
            Some("BlobNotFound")
        );
    }

    let future = (chrono::Utc::now() + chrono::Duration::days(365)).to_rfc2822();
    for request in [
        parsed_request(
            "PUT",
            &format!(
                "http://localhost/devstoreaccount1/versions/doc.txt?comp=immutabilityPolicies&versionid={first_version_id}"
            ),
            &[
                ("x-ms-version", AZURE_VERSION),
                ("x-ms-immutability-policy-until-date", &future),
                ("x-ms-immutability-policy-mode", "Locked"),
            ],
            b"",
        ),
        parsed_request(
            "PUT",
            "http://localhost/devstoreaccount1/versions/doc.txt?comp=legalhold&snapshot=2026-01-01T00%3A00%3A00Z",
            &[
                ("x-ms-version", AZURE_VERSION),
                ("x-ms-legal-hold", "true"),
            ],
            b"",
        ),
    ] {
        let response = adapter
            .handle_request(&storage, &auth_disabled(), &request)
            .expect("unsupported scoped retention should respond");
        assert_eq!(response.status(), http::StatusCode::NOT_IMPLEMENTED);
        assert_eq!(
            header_value(&response, "x-ms-error-code"),
            Some("FeatureNotSupported")
        );
    }

    let current = storage.get_object("versions", "doc.txt").unwrap();
    assert_eq!(current.data, b"current");
    assert!(!current
        .provider_metadata
        .contains_key(AZURE_IMMUTABILITY_MODE_KEY));
    assert!(!current.provider_metadata.contains_key(AZURE_LEGAL_HOLD_KEY));
    assert_eq!(
        storage
            .get_object_version("versions", "doc.txt", &first_version_id)
            .unwrap()
            .data,
        b"first"
    );
    assert_eq!(
        storage
            .list_object_versions_for_key("versions", "doc.txt")
            .unwrap()
            .len(),
        version_count
    );
}

#[test]
fn should_reject_azure_selectors_on_unsupported_mutations_without_side_effects() {
    // Arrange
    let adapter = Azure::new();
    let storage = temp_storage();
    let container = "selector-mutations";
    let key = "doc.txt";
    storage.create_bucket(container.to_string()).unwrap();
    storage.enable_versioning(container).unwrap();
    storage
        .update_bucket_metadata(
            container,
            HashMap::from([(AZURE_VERSIONING_KEY.to_string(), "true".to_string())]),
        )
        .unwrap();
    let mut selected_version = None;
    for data in [b"first".as_slice(), b"current".as_slice()] {
        let mut object = Object::new(
            key.to_string(),
            data.to_vec(),
            "text/plain".to_string(),
        );
        set_blob_type(&mut object, "BlockBlob");
        storage
            .put_object(container, key.to_string(), object)
            .unwrap();
        selected_version.get_or_insert_with(|| {
            storage
                .get_object(container, key)
                .unwrap()
                .version_id
                .expect("first version ID should exist")
        });
    }
    let selected_version = selected_version.expect("historical version ID should exist");
    let observed = storage.get_object(container, key).unwrap();
    let versions_before = storage
        .list_object_versions_for_key(container, key)
        .unwrap()
        .len();
    let snapshot = "2026-08-10T12%3A00%3A00.0000000Z";
    let block_id = base64::engine::general_purpose::STANDARD.encode("block-0001");
    let base = format!("http://localhost/devstoreaccount1/{container}/{key}");

    // Act and assert: every unsupported selected-resource mutation is rejected
    // before parsing, staging, leasing, or changing the current object.
    let requests = [
        (
            parsed_request(
                "PUT",
                &format!("{base}?versionid={selected_version}"),
                &[
                    ("x-ms-version", AZURE_VERSION),
                    ("x-ms-blob-type", "BlockBlob"),
                ],
                b"replacement",
            ),
            http::StatusCode::BAD_REQUEST,
            "InvalidQueryParameterValue",
        ),
        (
            parsed_request(
                "PUT",
                &format!("{base}?snapshot={snapshot}"),
                &[
                    ("x-ms-version", AZURE_VERSION),
                    ("x-ms-blob-type", "BlockBlob"),
                ],
                b"replacement",
            ),
            http::StatusCode::BAD_REQUEST,
            "InvalidQueryParameterValue",
        ),
        (
            parsed_request(
                "PUT",
                &format!("{base}?comp=lease&versionid={selected_version}"),
                &[
                    ("x-ms-version", AZURE_VERSION),
                    ("x-ms-lease-action", "acquire"),
                    ("x-ms-lease-duration", "-1"),
                ],
                b"",
            ),
            http::StatusCode::NOT_IMPLEMENTED,
            "FeatureNotSupported",
        ),
        (
            parsed_request(
                "PUT",
                &format!("{base}?comp=metadata&snapshot={snapshot}"),
                &[
                    ("x-ms-version", AZURE_VERSION),
                    ("x-ms-meta-owner", "attacker"),
                ],
                b"",
            ),
            http::StatusCode::NOT_IMPLEMENTED,
            "FeatureNotSupported",
        ),
        (
            parsed_request(
                "PUT",
                &format!("{base}?comp=block&blockid={block_id}&versionid={selected_version}"),
                &[("x-ms-version", AZURE_VERSION)],
                b"staged",
            ),
            http::StatusCode::NOT_IMPLEMENTED,
            "FeatureNotSupported",
        ),
        (
            parsed_request(
                "PUT",
                &format!("{base}?comp=blocklist&snapshot={snapshot}"),
                &[("x-ms-version", AZURE_VERSION)],
                b"<BlockList><Latest>not-base64</Latest></BlockList>",
            ),
            http::StatusCode::NOT_IMPLEMENTED,
            "FeatureNotSupported",
        ),
        (
            parsed_request(
                "PUT",
                &format!("{base}?comp=appendblock&versionid={selected_version}"),
                &[("x-ms-version", AZURE_VERSION)],
                b"append",
            ),
            http::StatusCode::NOT_IMPLEMENTED,
            "FeatureNotSupported",
        ),
        (
            parsed_request(
                "PUT",
                &format!("{base}?comp=page&snapshot={snapshot}"),
                &[
                    ("x-ms-version", AZURE_VERSION),
                    ("x-ms-page-write", "clear"),
                    ("x-ms-range", "bytes=0-511"),
                ],
                b"",
            ),
            http::StatusCode::NOT_IMPLEMENTED,
            "FeatureNotSupported",
        ),
        (
            parsed_request(
                "PUT",
                &format!("{base}?comp=snapshot&versionid={selected_version}"),
                &[("x-ms-version", AZURE_VERSION)],
                b"",
            ),
            http::StatusCode::NOT_IMPLEMENTED,
            "FeatureNotSupported",
        ),
        (
            parsed_request(
                "PUT",
                &format!("{base}?versionid={selected_version}"),
                &[
                    ("x-ms-version", AZURE_VERSION),
                    ("x-ms-copy-source", "/source/blob.txt"),
                ],
                b"",
            ),
            http::StatusCode::BAD_REQUEST,
            "InvalidQueryParameterValue",
        ),
        (
            parsed_request(
                "DELETE",
                &format!("{base}?comp=lease&versionid={selected_version}"),
                &[("x-ms-version", AZURE_VERSION)],
                b"",
            ),
            http::StatusCode::NOT_IMPLEMENTED,
            "FeatureNotSupported",
        ),
    ];
    for (request, expected_status, expected_error_code) in requests {
        let response = adapter
            .handle_request(&storage, &auth_disabled(), &request)
            .expect("unsupported selected mutation should respond");
        assert_eq!(response.status(), expected_status);
        assert_eq!(
            header_value(&response, "x-ms-error-code"),
            Some(expected_error_code)
        );
    }

    let current = storage.get_object(container, key).unwrap();
    assert_eq!(current.data, observed.data);
    assert_eq!(current.etag, observed.etag);
    assert_eq!(current.last_modified, observed.last_modified);
    assert_eq!(current.version_id, observed.version_id);
    assert_eq!(current.metadata, observed.metadata);
    assert_eq!(current.provider_metadata, observed.provider_metadata);
    assert_eq!(
        storage
            .list_object_versions_for_key(container, key)
            .unwrap()
            .len(),
        versions_before
    );
    let session_key = AzureBlobAdapter::blob_state_key("devstoreaccount1", container, key);
    assert!(adapter
        .load_block_session(&storage, &session_key)
        .unwrap()
        .is_none());
}

#[test]
#[allow(clippy::too_many_lines)] // Every metadata-only Azure control operation must preserve one shared identity.
fn should_preserve_version_identity_for_azure_lease_and_worm_metadata() {
    // Arrange
    let adapter = Azure::new();
    let storage = temp_storage();
    storage.create_bucket("identity".to_string()).unwrap();
    storage.enable_versioning("identity").unwrap();
    storage
        .update_bucket_metadata(
            "identity",
            HashMap::from([(AZURE_VERSIONING_KEY.to_string(), "true".to_string())]),
        )
        .unwrap();
    storage
        .put_object(
            "identity",
            "doc.txt".to_string(),
            Object::new(
                "doc.txt".to_string(),
                b"preserve".to_vec(),
                "text/plain".to_string(),
            ),
        )
        .unwrap();
    let observed = storage.get_object("identity", "doc.txt").unwrap();
    let version_count = storage
        .list_object_versions_for_key("identity", "doc.txt")
        .unwrap()
        .len();
    let lease_id = "5f8dc9d6-7a92-4ee0-8c1a-a169952b6218";
    let blob_uri = "http://localhost/devstoreaccount1/identity/doc.txt";

    // Act: lease operations change only lease metadata.
    for (action, expected_status) in [
        ("acquire", http::StatusCode::CREATED),
        ("renew", http::StatusCode::OK),
        ("release", http::StatusCode::OK),
    ] {
        let mut headers = vec![
            ("x-ms-version", AZURE_VERSION),
            ("x-ms-lease-action", action),
        ];
        if action == "acquire" {
            headers.push(("x-ms-proposed-lease-id", lease_id));
            headers.push(("x-ms-lease-duration", "-1"));
        } else {
            headers.push(("x-ms-lease-id", lease_id));
        }
        let response = adapter
            .handle_request(
                &storage,
                &auth_disabled(),
                &parsed_request("PUT", &format!("{blob_uri}?comp=lease"), &headers, b""),
            )
            .expect("lease operation should respond");
        assert_eq!(response.status(), expected_status);
        assert!(response.headers().get("x-ms-version-id").is_none());
    }

    // Immutability and legal-hold changes target the same current version.
    let future = (chrono::Utc::now() + chrono::Duration::days(365))
        .format("%a, %d %b %Y %H:%M:%S GMT")
        .to_string();
    let policy_uri = format!("{blob_uri}?comp=immutabilityPolicies");
    for request in [
        parsed_request(
            "PUT",
            &policy_uri,
            &[
                ("x-ms-version", AZURE_VERSION),
                ("x-ms-immutability-policy-until-date", &future),
                ("x-ms-immutability-policy-mode", "Unlocked"),
            ],
            b"",
        ),
        parsed_request(
            "PUT",
            &format!("{blob_uri}?comp=legalhold"),
            &[("x-ms-version", AZURE_VERSION), ("x-ms-legal-hold", "true")],
            b"",
        ),
        parsed_request(
            "PUT",
            &format!("{blob_uri}?comp=legalhold"),
            &[
                ("x-ms-version", AZURE_VERSION),
                ("x-ms-legal-hold", "false"),
            ],
            b"",
        ),
        parsed_request(
            "DELETE",
            &policy_uri,
            &[("x-ms-version", AZURE_VERSION)],
            b"",
        ),
    ] {
        let response = adapter
            .handle_request(&storage, &auth_disabled(), &request)
            .expect("WORM metadata operation should respond");
        assert_eq!(response.status(), http::StatusCode::OK);
        assert!(response.headers().get("x-ms-version-id").is_none());
    }

    // Assert
    let current = storage.get_object("identity", "doc.txt").unwrap();
    assert_eq!(current.data, observed.data);
    assert_eq!(current.etag, observed.etag);
    assert_eq!(current.last_modified, observed.last_modified);
    assert_eq!(current.version_id, observed.version_id);
    assert_eq!(
        storage
            .list_object_versions_for_key("identity", "doc.txt")
            .unwrap()
            .len(),
        version_count
    );
}

fn create_azure_container(
    adapter: &Azure,
    storage: &Storage,
    container: &str,
) {
    adapter
        .handle_request(
            &storage,
            &auth_disabled(),
            &parsed_request(
                "PUT",
                &format!("http://localhost/devstoreaccount1/{container}?restype=container"),
                &[("x-ms-version", AZURE_VERSION)],
                b"",
            ),
        )
        .expect("container create should succeed");
}

fn acquire_azure_lease_for(
    adapter: &Azure,
    storage: &Storage,
    blob_uri: &str,
    lease_id: &str,
) {
    let response = adapter
        .handle_request(
            &storage,
            &auth_disabled(),
            &parsed_request(
                "PUT",
                &format!("{blob_uri}?comp=lease"),
                &[
                    ("x-ms-version", AZURE_VERSION),
                    ("x-ms-lease-action", "acquire"),
                    ("x-ms-lease-duration", "-1"),
                    ("x-ms-proposed-lease-id", lease_id),
                ],
                b"",
            ),
        )
        .expect("lease acquire should respond");
    assert_eq!(response.status(), http::StatusCode::CREATED);
    assert_eq!(header_value(&response, "x-ms-lease-id"), Some(lease_id));
}

fn commit_azure_block_blob(
    adapter: &Azure,
    storage: &Storage,
) -> (String, String) {
    let block_one = base64::engine::general_purpose::STANDARD.encode("block-a");
    let block_two = base64::engine::general_purpose::STANDARD.encode("block-b");
    for (block_id, payload) in [
        (&block_one, b"hello ".as_slice()),
        (&block_two, b"azure".as_slice()),
    ] {
        adapter
            .handle_request(
                &storage,
                &auth_disabled(),
                &parsed_request(
                    "PUT",
                    &format!(
                        "http://localhost/devstoreaccount1/media/greeting.txt?comp=block&blockid={}",
                        urlencoding::encode(block_id)
                    ),
                    &[("x-ms-version", AZURE_VERSION)],
                    payload,
                ),
            )
            .expect("put block should succeed");
    }

    let block_list = format!(
        "<?xml version=\"1.0\" encoding=\"utf-8\"?><BlockList><Latest>{block_one}</Latest><Latest>{block_two}</Latest></BlockList>"
    );
    adapter
        .handle_request(
            &storage,
            &auth_disabled(),
            &parsed_request(
                "PUT",
                "http://localhost/devstoreaccount1/media/greeting.txt?comp=blocklist",
                &[
                    ("x-ms-version", AZURE_VERSION),
                    ("content-type", "application/xml"),
                ],
                block_list.as_bytes(),
            ),
        )
        .expect("block list commit should succeed");
    (block_one, block_two)
}

fn verify_azure_block_list(
    adapter: &Azure,
    storage: &Storage,
    block_one: &str,
    block_two: &str,
) {
    let response = adapter
        .handle_request(
            &storage,
            &auth_disabled(),
            &parsed_request(
                "GET",
                "http://localhost/devstoreaccount1/media/greeting.txt?comp=blocklist",
                &[("x-ms-version", AZURE_VERSION)],
                b"",
            ),
        )
        .expect("block list fetch should succeed");
    let stored = storage
        .get_object("media", "greeting.txt")
        .expect("committed block blob should exist");
    let expected_etag = format!("\"{}\"", stored.etag);
    assert_eq!(response.status(), http::StatusCode::OK);
    assert_eq!(
        header_value(&response, "etag"),
        Some(expected_etag.as_str())
    );
    assert!(header_value(&response, "last-modified").is_some());
    assert_eq!(
        header_value(&response, "x-ms-blob-content-length"),
        Some("11")
    );
    let xml = String::from_utf8(read_test_body(response)).expect("xml");
    assert!(xml.contains(block_one));
    assert!(xml.contains(block_two));
    assert!(xml.contains("<Size>6</Size>"));
    assert!(xml.contains("<Size>5</Size>"));
    assert!(xml.contains("<CommittedBlocks>"));
    assert!(!xml.contains("<UncommittedBlocks>"));
}

fn update_and_verify_azure_metadata(
    adapter: &Azure,
    storage: &Storage,
) {
    let response = adapter
        .handle_request(
            &storage,
            &auth_disabled(),
            &parsed_request(
                "PUT",
                "http://localhost/devstoreaccount1/media/greeting.txt?comp=metadata",
                &[("x-ms-version", AZURE_VERSION), ("x-ms-meta-owner", "bob")],
                b"",
            ),
        )
        .expect("metadata update should succeed");
    assert_eq!(response.status(), http::StatusCode::OK);

    let response = adapter
        .handle_request(
            &storage,
            &auth_disabled(),
            &parsed_request(
                "HEAD",
                "http://localhost/devstoreaccount1/media/greeting.txt",
                &[("x-ms-version", AZURE_VERSION)],
                b"",
            ),
        )
        .expect("head should succeed");
    assert_eq!(header_value(&response, "x-ms-meta-owner"), Some("bob"));
}

fn verify_azure_range_read(adapter: &Azure, storage: &Storage) {
    let response = adapter
        .handle_request(
            &storage,
            &auth_disabled(),
            &parsed_request(
                "GET",
                "http://localhost/devstoreaccount1/media/greeting.txt",
                &[
                    ("x-ms-version", AZURE_VERSION),
                    ("x-ms-range", "bytes=6-10"),
                ],
                b"",
            ),
        )
        .expect("range get should succeed");
    assert_eq!(response.status(), http::StatusCode::PARTIAL_CONTENT);
    assert_eq!(
        header_value(&response, "content-range"),
        Some("bytes 6-10/11")
    );
    assert_eq!(header_value(&response, "x-ms-meta-owner"), Some("bob"));
    assert_eq!(read_test_body(response).as_slice(), b"azure");
}

fn verify_append_blob_writes(adapter: &Azure, storage: &Storage) {
    let response = adapter
        .handle_request(
            &storage,
            &auth_disabled(),
            &parsed_request(
                "PUT",
                "http://localhost/devstoreaccount1/state/events.log",
                &[
                    ("x-ms-version", AZURE_VERSION),
                    ("x-ms-blob-type", "AppendBlob"),
                ],
                b"",
            ),
        )
        .expect("append blob create should succeed");
    assert_eq!(response.status(), http::StatusCode::CREATED);
    assert_eq!(
        header_value(&response, "x-ms-blob-type"),
        Some("AppendBlob")
    );

    adapter
        .handle_request(
            &storage,
            &auth_disabled(),
            &parsed_request(
                "PUT",
                "http://localhost/devstoreaccount1/state/events.log?comp=appendblock",
                &[("x-ms-version", AZURE_VERSION)],
                b"hello",
            ),
        )
        .expect("first append block should succeed");

    adapter
        .handle_request(
            &storage,
            &auth_disabled(),
            &parsed_request(
                "PUT",
                "http://localhost/devstoreaccount1/state/events.log?comp=appendblock",
                &[("x-ms-version", AZURE_VERSION)],
                b" world",
            ),
        )
        .expect("append block should succeed");

    let response = adapter
        .handle_request(
            &storage,
            &auth_disabled(),
            &parsed_request(
                "GET",
                "http://localhost/devstoreaccount1/state/events.log",
                &[("x-ms-version", AZURE_VERSION)],
                b"",
            ),
        )
        .expect("append blob get should succeed");
    assert_eq!(read_test_body(response).as_slice(), b"hello world");
}

fn verify_page_blob_writes(adapter: &Azure, storage: &Storage) {
    let response = adapter
        .handle_request(
            &storage,
            &auth_disabled(),
            &parsed_request(
                "PUT",
                "http://localhost/devstoreaccount1/state/page.bin",
                &[
                    ("x-ms-version", AZURE_VERSION),
                    ("x-ms-blob-type", "PageBlob"),
                    ("x-ms-blob-content-length", "512"),
                ],
                b"",
            ),
        )
        .expect("page blob create should succeed");
    assert_eq!(response.status(), http::StatusCode::CREATED);
    assert_eq!(header_value(&response, "x-ms-blob-type"), Some("PageBlob"));

    adapter
        .handle_request(
            &storage,
            &auth_disabled(),
            &parsed_request(
                "PUT",
                "http://localhost/devstoreaccount1/state/page.bin?comp=page",
                &[
                    ("x-ms-version", AZURE_VERSION),
                    ("x-ms-range", "bytes=0-511"),
                    ("x-ms-page-write", "update"),
                ],
                &vec![b'a'; 512],
            ),
        )
        .expect("page write should succeed");

    let response = adapter
        .handle_request(
            &storage,
            &auth_disabled(),
            &parsed_request(
                "GET",
                "http://localhost/devstoreaccount1/state/page.bin",
                &[("x-ms-version", AZURE_VERSION), ("x-ms-range", "bytes=0-7")],
                b"",
            ),
        )
        .expect("page blob range get should succeed");
    assert_eq!(read_test_body(response).as_slice(), b"aaaaaaaa");
}

fn create_azure_lease_blob(adapter: &Azure, storage: &Storage) {
    adapter
        .handle_request(
            &storage,
            &auth_disabled(),
            &parsed_request(
                "PUT",
                "http://localhost/devstoreaccount1/state/lease.txt",
                &[
                    ("x-ms-version", AZURE_VERSION),
                    ("x-ms-blob-type", "BlockBlob"),
                ],
                b"initial",
            ),
        )
        .expect("blob create should succeed");
}

fn acquire_deny_and_release_azure_lease(
    adapter: &Azure,
    storage: &Storage,
) {
    let lease_response = adapter
        .handle_request(
            &storage,
            &auth_disabled(),
            &parsed_request(
                "PUT",
                "http://localhost/devstoreaccount1/state/lease.txt?comp=lease",
                &[
                    ("x-ms-version", AZURE_VERSION),
                    ("x-ms-lease-action", "acquire"),
                    ("x-ms-lease-duration", "-1"),
                ],
                b"",
            ),
        )
        .expect("lease acquire should succeed");
    assert_eq!(lease_response.status(), http::StatusCode::CREATED);
    let lease_id = header_value(&lease_response, "x-ms-lease-id")
        .expect("lease id")
        .to_string();

    let denied = adapter
        .handle_request(
            &storage,
            &auth_disabled(),
            &parsed_request(
                "DELETE",
                "http://localhost/devstoreaccount1/state/lease.txt",
                &[("x-ms-version", AZURE_VERSION)],
                b"",
            ),
        )
        .expect("delete should return a response");
    assert_eq!(denied.status(), http::StatusCode::PRECONDITION_FAILED);

    let release = adapter
        .handle_request(
            &storage,
            &auth_disabled(),
            &parsed_request(
                "PUT",
                "http://localhost/devstoreaccount1/state/lease.txt?comp=lease",
                &[
                    ("x-ms-version", AZURE_VERSION),
                    ("x-ms-lease-action", "release"),
                    ("x-ms-lease-id", &lease_id),
                ],
                b"",
            ),
        )
        .expect("lease release should succeed");
    assert_eq!(release.status(), http::StatusCode::OK);
}

fn create_overwrite_and_read_azure_snapshot(
    adapter: &Azure,
    storage: &Storage,
) {
    let snapshot = adapter
        .handle_request(
            &storage,
            &auth_disabled(),
            &parsed_request(
                "PUT",
                "http://localhost/devstoreaccount1/state/lease.txt?comp=snapshot",
                &[("x-ms-version", AZURE_VERSION)],
                b"",
            ),
        )
        .expect("snapshot create should succeed");
    assert_eq!(snapshot.status(), http::StatusCode::CREATED);
    let snapshot_id = header_value(&snapshot, "x-ms-snapshot")
        .expect("snapshot id")
        .to_string();

    adapter
        .handle_request(
            &storage,
            &auth_disabled(),
            &parsed_request(
                "PUT",
                "http://localhost/devstoreaccount1/state/lease.txt",
                &[
                    ("x-ms-version", AZURE_VERSION),
                    ("x-ms-blob-type", "BlockBlob"),
                ],
                b"updated",
            ),
        )
        .expect("overwrite should succeed");

    let snapshot_get = adapter
        .handle_request(
            &storage,
            &auth_disabled(),
            &parsed_request(
                "GET",
                &format!(
                    "http://localhost/devstoreaccount1/state/lease.txt?snapshot={snapshot_id}"
                ),
                &[("x-ms-version", AZURE_VERSION)],
                b"",
            ),
        )
        .expect("snapshot get should succeed");
    assert_eq!(read_test_body(snapshot_get).as_slice(), b"initial");
}

fn verify_azure_immutability_and_legal_hold(
    adapter: &Azure,
    storage: &Storage,
) {
    let retention_response = adapter
        .handle_request(
            &storage,
            &auth_disabled(),
            &parsed_request(
                "PUT",
                "http://localhost/devstoreaccount1/state/lease.txt?comp=immutabilityPolicies",
                &[
                    ("x-ms-version", AZURE_VERSION),
                    (
                        "x-ms-immutability-policy-until-date",
                        "Thu, 01 Jan 2099 00:00:00 GMT",
                    ),
                    ("x-ms-immutability-policy-mode", "Unlocked"),
                ],
                b"",
            ),
        )
        .expect("immutability policy should succeed");
    assert_eq!(retention_response.status(), http::StatusCode::OK);

    let legal_hold = adapter
        .handle_request(
            &storage,
            &auth_disabled(),
            &parsed_request(
                "PUT",
                "http://localhost/devstoreaccount1/state/lease.txt?comp=legalhold",
                &[("x-ms-version", AZURE_VERSION), ("x-ms-legal-hold", "true")],
                b"",
            ),
        )
        .expect("legal hold should succeed");
    assert_eq!(legal_hold.status(), http::StatusCode::OK);

    let immutable_delete = adapter
        .handle_request(
            &storage,
            &auth_disabled(),
            &parsed_request(
                "DELETE",
                "http://localhost/devstoreaccount1/state/lease.txt",
                &[("x-ms-version", AZURE_VERSION)],
                b"",
            ),
        )
        .expect("immutable delete should return a response");
    assert_eq!(immutable_delete.status(), http::StatusCode::CONFLICT);

    let head = adapter
        .handle_request(
            &storage,
            &auth_disabled(),
            &parsed_request(
                "HEAD",
                "http://localhost/devstoreaccount1/state/lease.txt",
                &[("x-ms-version", AZURE_VERSION)],
                b"",
            ),
        )
        .expect("head should succeed");
    assert_eq!(
        header_value(&head, "x-ms-immutability-policy-until-date"),
        Some("Thu, 01 Jan 2099 00:00:00 GMT")
    );
    assert_eq!(header_value(&head, "x-ms-legal-hold"), Some("true"));
}

// One integrated flow proves that decoding is identical across every Azure
// blob verb and that no path component is normalized between operations.
#[test]
fn should_decode_azure_blob_paths_once_and_preserve_empty_segments() {
    // Arrange
    let adapter = Azure::new();
    let storage = temp_storage();
    storage.create_bucket("encoded".to_string()).unwrap();
    let cases = [
        ("a%20b", "a b"),
        ("percent%25key", "percent%key"),
        ("unicode-%E2%98%83", "unicode-☃"),
        ("dir%2Fchild", "dir/child"),
        ("a//b", "a//b"),
        ("dir/", "dir/"),
        ("/leading", "/leading"),
    ];

    // Act
    for (encoded, decoded) in cases {
        let response = adapter
            .handle_request(
                &storage,
                &auth_disabled(),
                &parsed_request(
                    "PUT",
                    &format!("http://localhost/devstoreaccount1/encoded/{encoded}"),
                    &[
                        ("x-ms-version", AZURE_VERSION),
                        ("x-ms-blob-type", "BlockBlob"),
                        ("content-length", "7"),
                    ],
                    b"payload",
                ),
            )
            .expect("encoded blob PUT should respond");
        assert_eq!(response.status(), http::StatusCode::CREATED);
        assert_eq!(
            storage.get_object("encoded", decoded).unwrap().data,
            b"payload"
        );
    }
    let get = adapter
        .handle_request(
            &storage,
            &auth_disabled(),
            &parsed_request(
                "GET",
                "http://localhost/devstoreaccount1/encoded/a%20b",
                &[("x-ms-version", AZURE_VERSION)],
                b"",
            ),
        )
        .unwrap();
    let head = adapter
        .handle_request(
            &storage,
            &auth_disabled(),
            &parsed_request(
                "HEAD",
                "http://localhost/devstoreaccount1/encoded/a%20b",
                &[("x-ms-version", AZURE_VERSION)],
                b"",
            ),
        )
        .unwrap();
    let list = adapter
        .handle_request(
            &storage,
            &auth_disabled(),
            &parsed_request(
                "GET",
                "http://localhost/devstoreaccount1/encoded?restype=container&comp=list",
                &[("x-ms-version", AZURE_VERSION)],
                b"",
            ),
        )
        .unwrap();
    let delete = adapter
        .handle_request(
            &storage,
            &auth_disabled(),
            &parsed_request(
                "DELETE",
                "http://localhost/devstoreaccount1/encoded/a%20b",
                &[("x-ms-version", AZURE_VERSION)],
                b"",
            ),
        )
        .unwrap();
    let malformed = adapter
        .handle_request(
            &storage,
            &auth_disabled(),
            &parsed_request(
                "PUT",
                "http://localhost/devstoreaccount1/encoded/bad%ZZ",
                &[
                    ("x-ms-version", AZURE_VERSION),
                    ("x-ms-blob-type", "BlockBlob"),
                    ("content-length", "7"),
                ],
                b"payload",
            ),
        )
        .unwrap();

    // Assert
    assert_eq!(get.status(), http::StatusCode::OK);
    assert_eq!(read_test_body(get), b"payload");
    assert_eq!(head.status(), http::StatusCode::OK);
    assert_eq!(delete.status(), http::StatusCode::ACCEPTED);
    assert!(storage.get_object("encoded", "a b").is_err());
    assert!(String::from_utf8(read_test_body(list))
        .unwrap()
        .contains("<Name>a b</Name>"));
    assert_eq!(malformed.status(), http::StatusCode::BAD_REQUEST);
    assert_eq!(
        header_value(&malformed, "x-ms-error-code"),
        Some("InvalidUri")
    );
    assert!(storage.get_object("encoded", "bad%ZZ").is_err());
}

#[test]
fn should_return_container_not_found_for_every_missing_container_blob_verb() {
    // Arrange
    let adapter = Azure::new();
    let storage = temp_storage();

    // Act
    let mut responses = Vec::new();
    for method in ["GET", "HEAD", "PUT", "DELETE"] {
        let response = adapter
            .handle_request(
                &storage,
                &auth_disabled(),
                &parsed_request(
                    method,
                    "http://localhost/devstoreaccount1/absent/blob",
                    &[
                        ("x-ms-version", AZURE_VERSION),
                        ("x-ms-blob-type", "BlockBlob"),
                        ("content-length", "0"),
                    ],
                    b"",
                ),
            )
            .unwrap();
        responses.push((method, response));
    }

    // Assert
    for (method, response) in responses {
        assert_eq!(response.status(), http::StatusCode::NOT_FOUND);
        assert_eq!(
            header_value(&response, "x-ms-error-code"),
            Some("ContainerNotFound")
        );
        let body = read_test_body(response);
        if method == "HEAD" {
            assert!(body.is_empty());
        } else {
            assert!(String::from_utf8(body)
                .unwrap()
                .contains("<Code>ContainerNotFound</Code>"));
        }
    }
    assert!(storage.get_bucket("absent").is_err());
}

#[test]
fn should_reject_unsupported_azure_subresources_before_mutation() {
    // Arrange
    let adapter = Azure::new();
    let storage = temp_storage();
    storage.create_bucket("subresources".to_string()).unwrap();
    storage
        .put_object(
            "subresources",
            "blob".to_string(),
            Object::new(
                "blob".to_string(),
                b"original".to_vec(),
                "application/octet-stream".to_string(),
            ),
        )
        .unwrap();

    // Act
    let mut blobs = Vec::new();
    for (comp, body) in [
        ("tags", b"<Tags>new</Tags>".as_slice()),
        ("immutabilitypolicy", b"".as_slice()),
    ] {
        blobs.push(
            adapter
                .handle_request(
                    &storage,
                    &auth_disabled(),
                    &parsed_request(
                        "PUT",
                        &format!(
                            "http://localhost/devstoreaccount1/subresources/blob?comp={comp}"
                        ),
                        &[("x-ms-version", AZURE_VERSION)],
                        body,
                    ),
                )
                .unwrap(),
        );
    }
    let mut containers = Vec::new();
    for (method, comp) in [("PUT", "metadata"), ("DELETE", "lease"), ("GET", "acl")] {
        containers.push(
            adapter
                .handle_request(
                    &storage,
                    &auth_disabled(),
                    &parsed_request(
                        method,
                        &format!(
                            "http://localhost/devstoreaccount1/subresources?restype=container&comp={comp}"
                        ),
                        &[("x-ms-version", AZURE_VERSION)],
                        b"",
                    ),
                )
                .unwrap(),
        );
    }

    // Assert
    for response in blobs.into_iter().chain(containers) {
        assert_eq!(response.status(), http::StatusCode::NOT_IMPLEMENTED);
        assert_eq!(
            header_value(&response, "x-ms-error-code"),
            Some("FeatureNotSupported")
        );
    }
    assert_eq!(
        storage.get_object("subresources", "blob").unwrap().data,
        b"original"
    );
    assert!(storage.get_bucket("subresources").is_ok());
    assert!(!storage.state.borrow().deletions.contains_key("subresources"));
}