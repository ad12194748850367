//! Requests to both front doors through the registry.

use providers::azure::AzureBlobAdapter;
use providers::clock::{Instant, Stamp};
use providers::faults::{Cut, Delivery};
use providers::gcs::GcsAdapter;
use providers::http::{AuthConfig, Context, HeaderText, Method, Request, Response};
use providers::registry::{AdapterRegistry, FrontDoor, ProviderAdapter, Service};
use providers::store::{
    Blocks, BlocksSlot, BlockSession, Bucket, Buckets, Deletion, Effect, ErrorKind, ObjectCondition, Outcome, Page,
    Payload, SessionSlot, StorageError, Tape, UploadSession, UploadSlot, Versions,
};
use providers::table::{Copied, Table};
use std::cell::RefCell;
use std::collections::{BTreeMap, HashMap};

// ---------------------------------------------------------------------------
// Objects and buckets in memory

#[derive(Clone, Debug, PartialEq)]
struct Object {
    key: String,
    data: Vec<u8>,
    size: u64,
    etag: String,
    content_type: String,
    last_modified: (i64, u32),
    metadata: HashMap<String, String>,
    provider_metadata: HashMap<String, String>,
    version_id: Option<String>,
}

fn present() -> (i64, u32) {
    let now = chrono::Utc::now();
    (now.timestamp(), now.timestamp_subsec_nanos())
}

fn table(map: &HashMap<String, String>) -> Table<String> {
    let mut table = Table::new();
    for (key, value) in map {
        table.insert(key, value.clone());
    }
    table
}

fn map(table: &Table<String>) -> HashMap<String, String> {
    table.entries.iter().cloned().collect()
}

impl Object {
    fn new(key: String, data: Vec<u8>, content_type: String) -> Object {
        Object::new_with_metadata(key, data, content_type, HashMap::new())
    }

    fn new_with_metadata(
        key: String,
        data: Vec<u8>,
        content_type: String,
        metadata: HashMap<String, String>,
    ) -> Object {
        Object {
            key,
            size: data.len() as u64,
            etag: hex::encode(md5::compute(&data).0),
            data,
            content_type,
            last_modified: present(),
            metadata,
            provider_metadata: HashMap::new(),
            version_id: None,
        }
    }

    fn read(object: &providers::store::Object) -> Object {
        Object {
            key: object.key.clone(),
            data: object.data.clone(),
            size: object.size,
            etag: object.etag.clone(),
            content_type: object.content_type.clone(),
            last_modified: (object.last_modified.secs, object.last_modified.nanos),
            metadata: map(&object.metadata),
            provider_metadata: map(&object.provider_metadata),
            version_id: object.version_id.clone(),
        }
    }

    fn give(&self) -> providers::store::Object {
        providers::store::Object {
            key: self.key.clone(),
            data: self.data.clone(),
            size: self.size,
            etag: self.etag.clone(),
            content_type: self.content_type.clone(),
            last_modified: Instant { secs: self.last_modified.0, nanos: self.last_modified.1 },
            metadata: table(&self.metadata),
            provider_metadata: table(&self.provider_metadata),
            version_id: self.version_id.clone(),
        }
    }
}

#[derive(Clone, Debug, PartialEq)]
enum Failure {
    BucketNotFound,
    KeyNotFound,
    NoSuchVersion,
    BucketAlreadyExists,
    BucketNotEmpty,
}

fn error(failure: Failure) -> StorageError {
    let kind = match failure {
        Failure::BucketNotFound => ErrorKind::BucketNotFound,
        Failure::KeyNotFound => ErrorKind::KeyNotFound,
        Failure::NoSuchVersion => ErrorKind::NoSuchVersion,
        Failure::BucketAlreadyExists => ErrorKind::BucketAlreadyExists,
        Failure::BucketNotEmpty => ErrorKind::BucketNotEmpty,
    };
    StorageError { kind, message: format!("{failure:?}") }
}

#[derive(Clone, Debug)]
struct BucketState {
    created_at: (i64, u32),
    versioning_enabled: bool,
    metadata: HashMap<String, String>,
    objects: BTreeMap<String, Object>,
    versions: Vec<Object>,
}

struct Listing {
    objects: Vec<Object>,
    prefixes: Vec<String>,
    truncated: bool,
    next_marker: Option<String>,
}

#[derive(Default)]
struct State {
    buckets: BTreeMap<String, BucketState>,
    deletions: BTreeMap<String, (i64, u32)>,
    sessions: HashMap<String, BlockSession>,
    blocks: HashMap<String, Blocks>,
    uploads: HashMap<String, UploadSession>,
    next_version: u64,
}

#[derive(Default)]
struct Storage {
    state: RefCell<State>,
}

#[allow(dead_code)]
impl Storage {
    fn create_bucket(&self, name: String) -> Result<(), Failure> {
        let mut state = self.state.borrow_mut();
        if state.buckets.contains_key(&name) {
            return Err(Failure::BucketAlreadyExists);
        }
        state.buckets.insert(
            name,
            BucketState {
                created_at: present(),
                versioning_enabled: false,
                metadata: HashMap::new(),
                objects: BTreeMap::new(),
                versions: Vec::new(),
            },
        );
        Ok(())
    }

    fn get_bucket(&self, name: &str) -> Result<BucketState, Failure> {
        self.state.borrow().buckets.get(name).cloned().ok_or(Failure::BucketNotFound)
    }

    fn get_namespace(&self, name: &str) -> Result<BucketState, Failure> {
        self.get_bucket(name)
    }

    fn bucket_exists(&self, name: &str) -> Result<bool, Failure> {
        Ok(self.get_bucket(name).is_ok())
    }

    fn with_bucket<T>(
        &self,
        name: &str,
        change: impl FnOnce(&mut BucketState) -> Result<T, Failure>,
    ) -> Result<T, Failure> {
        let mut state = self.state.borrow_mut();
        change(state.buckets.get_mut(name).ok_or(Failure::BucketNotFound)?)
    }

    fn update_bucket_metadata(
        &self,
        name: &str,
        metadata: HashMap<String, String>,
    ) -> Result<(), Failure> {
        self.with_bucket(name, |bucket| {
            bucket.metadata = metadata;
            Ok(())
        })
    }

    fn set_versioning(&self, name: &str, enabled: bool) -> Result<(), Failure> {
        self.with_bucket(name, |bucket| {
            bucket.versioning_enabled = enabled;
            Ok(())
        })
    }

    fn enable_versioning(&self, name: &str) -> Result<(), Failure> {
        self.set_versioning(name, true)
    }

    fn delete_bucket(&self, name: &str) -> Result<(), Failure> {
        let mut state = self.state.borrow_mut();
        let bucket = state.buckets.get(name).ok_or(Failure::BucketNotFound)?;
        if !bucket.objects.is_empty() || !bucket.versions.is_empty() {
            return Err(Failure::BucketNotEmpty);
        }
        state.buckets.remove(name);
        Ok(())
    }

    fn get_object(&self, bucket: &str, key: &str) -> Result<Object, Failure> {
        self.get_bucket(bucket)?.objects.get(key).cloned().ok_or(Failure::KeyNotFound)
    }

    fn get_object_version(&self, bucket: &str, key: &str, version: &str) -> Result<Object, Failure> {
        self.list_object_versions_for_key(bucket, key)?
            .into_iter()
            .find(|object| object.version_id.as_deref() == Some(version))
            .ok_or(Failure::NoSuchVersion)
    }

    fn list_object_versions(&self, bucket: &str) -> Result<Vec<Object>, Failure> {
        let bucket = self.get_bucket(bucket)?;
        Ok(bucket
            .objects
            .values()
            .filter(|object| object.version_id.is_some())
            .chain(bucket.versions.iter())
            .cloned()
            .collect())
    }

    fn list_object_versions_for_key(&self, bucket: &str, key: &str) -> Result<Vec<Object>, Failure> {
        Ok(self
            .list_object_versions(bucket)?
            .into_iter()
            .filter(|object| object.key == key)
            .collect())
    }

    fn put_object(&self, bucket: &str, key: String, object: Object) -> Result<(), Failure> {
        let version = {
            let mut state = self.state.borrow_mut();
            state.next_version += 1;
            format!("version-{}", state.next_version)
        };
        self.with_bucket(bucket, |bucket| {
            let mut object = object;
            object.version_id = bucket.versioning_enabled.then_some(version);
            if let Some(old) = bucket.objects.insert(key, object) {
                if old.version_id.is_some() {
                    bucket.versions.push(old);
                }
            }
            Ok(())
        })
    }

    fn replace_object(&self, bucket: &str, key: &str, object: Object) -> Result<(), Failure> {
        self.with_bucket(bucket, |bucket| {
            bucket.objects.insert(key.to_string(), object);
            Ok(())
        })
    }

    fn delete_object(&self, bucket: &str, key: &str) -> Result<(), Failure> {
        self.with_bucket(bucket, |bucket| {
            let old = bucket.objects.remove(key).ok_or(Failure::KeyNotFound)?;
            if bucket.versioning_enabled && old.version_id.is_some() {
                bucket.versions.push(old);
            }
            Ok(())
        })
    }

    fn delete_object_version(&self, bucket: &str, key: &str, version: &str) -> Result<(), Failure> {
        self.get_object_version(bucket, key, version)?;
        self.with_bucket(bucket, |bucket| {
            let wanted = Some(version.to_string());
            bucket.versions.retain(|object| !(object.key == key && object.version_id == wanted));
            if bucket.objects.get(key).is_some_and(|object| object.version_id == wanted) {
                bucket.objects.remove(key);
            }
            Ok(())
        })
    }

    fn list_objects(
        &self,
        bucket: &str,
        prefix: Option<&str>,
        delimiter: Option<&str>,
        marker: Option<&str>,
        limit: usize,
    ) -> Result<Listing, Failure> {
        let bucket = self.get_bucket(bucket)?;
        let prefix = prefix.unwrap_or("");
        let mut listing =
            Listing { objects: Vec::new(), prefixes: Vec::new(), truncated: false, next_marker: None };
        let mut last = String::new();
        for (key, object) in &bucket.objects {
            if !key.starts_with(prefix) || marker.is_some_and(|marker| key.as_str() <= marker) {
                continue;
            }
            let common = delimiter.filter(|d| !d.is_empty()).and_then(|delimiter| {
                key[prefix.len()..]
                    .find(delimiter)
                    .map(|i| key[..prefix.len() + i + delimiter.len()].to_string())
            });
            if common.as_ref().is_some_and(|common| listing.prefixes.contains(common)) {
                last = key.clone();
                continue;
            }
            if listing.objects.len() + listing.prefixes.len() == limit {
                listing.truncated = true;
                listing.next_marker = Some(last);
                return Ok(listing);
            }
            match common {
                Some(common) => listing.prefixes.push(common),
                None => listing.objects.push(object.clone()),
            }
            last = key.clone();
        }
        Ok(listing)
    }

    fn holds(condition: &ObjectCondition, current: Option<&Object>) -> bool {
        let value = |key: &str| {
            current.and_then(|object| {
                object.metadata.get(key).or_else(|| object.provider_metadata.get(key)).cloned()
            })
        };
        match condition {
            ObjectCondition::Missing => current.is_none(),
            ObjectCondition::Etag(etag) => current.is_some_and(|object| object.etag == *etag),
            ObjectCondition::EtagNotIn(etags) => {
                current.is_some_and(|object| !etags.contains(&object.etag))
            }
            ObjectCondition::MissingOrEtagNotIn(etags) => {
                current.is_none_or(|object| !etags.contains(&object.etag))
            }
            ObjectCondition::Metadata(key, wanted) => value(key).as_ref() == Some(wanted),
            ObjectCondition::MetadataNot(key, unwanted) => {
                current.is_some() && value(key).as_ref() != Some(unwanted)
            }
            ObjectCondition::All(parts) => parts.iter().all(|part| Storage::holds(part, current)),
        }
    }

    fn bucket_given(name: &str, state: &BucketState) -> Bucket {
        Bucket {
            name: name.to_string(),
            created_at: Instant { secs: state.created_at.0, nanos: state.created_at.1 },
            versioning_enabled: state.versioning_enabled,
            metadata: table(&state.metadata),
        }
    }

    /// Does what a handler asks for and tells what came of it.
    fn perform(&self, effect: &Effect) -> Outcome {
        let done = |result: Result<(), Failure>| Outcome::Done(result.map_err(error));
        match effect {
            Effect::GetBucket(name) => Outcome::Bucket(
                self.get_bucket(name)
                    .map(|bucket| Storage::bucket_given(name, &bucket))
                    .map_err(error),
            ),
            Effect::ListBuckets => {
                let state = self.state.borrow();
                let items = state
                    .buckets
                    .iter()
                    .rev()
                    .map(|(name, bucket)| Storage::bucket_given(name, bucket))
                    .collect();
                Outcome::Buckets(Ok(Buckets { items }))
            }
            Effect::CreateBucket(name) => Outcome::Bucket(
                self.create_bucket(name.clone())
                    .and_then(|()| self.get_bucket(name))
                    .map(|bucket| Storage::bucket_given(name, &bucket))
                    .map_err(error),
            ),
            Effect::DeleteBucket(name) => done(self.delete_bucket(name)),
            Effect::EnableVersioning(name) => done(self.set_versioning(name, true)),
            Effect::SuspendVersioning(name) => done(self.set_versioning(name, false)),
            Effect::UpdateBucketMetadata(name, metadata) => {
                done(self.update_bucket_metadata(name, map(metadata)))
            }
            Effect::ListObjects(bucket, prefix, delimiter, marker, limit) => Outcome::Page(
                self.list_objects(
                    bucket,
                    prefix.as_deref(),
                    delimiter.as_deref(),
                    marker.as_deref(),
                    *limit,
                )
                .map(|listing| Page {
                    objects: listing.objects.iter().map(Object::give).collect(),
                    prefixes: listing.prefixes,
                    truncated: listing.truncated,
                    next_marker: listing.next_marker,
                })
                .map_err(error),
            ),
            Effect::ListVersions(bucket) => Outcome::Versions(
                self.list_object_versions(bucket)
                    .map(|versions| Versions { items: versions.iter().map(Object::give).collect() })
                    .map_err(error),
            ),
            Effect::GetObject(bucket, key) => {
                Outcome::Object(self.get_object(bucket, key).map(|o| o.give()).map_err(error))
            }
            Effect::GetVersion(bucket, key, version) => Outcome::Object(
                self.get_object_version(bucket, key, version).map(|o| o.give()).map_err(error),
            ),
            Effect::GetRange(bucket, key, start, end) => Outcome::Payload(
                self.get_object(bucket, key)
                    .map(|object| Payload {
                        data: object.data[*start as usize..=*end as usize].to_vec(),
                        object: object.give(),
                    })
                    .map_err(error),
            ),
            Effect::PutObject(bucket, key, object) => {
                done(self.put_object(bucket, key.clone(), Object::read(object)))
            }
            Effect::PutObjectIf(bucket, key, object, condition) => {
                let current = self.get_object(bucket, key).ok();
                if Storage::holds(condition, current.as_ref()) {
                    Outcome::Flag(
                        self.put_object(bucket, key.clone(), Object::read(object))
                            .map(|()| true)
                            .map_err(error),
                    )
                } else {
                    Outcome::Flag(Ok(false))
                }
            }
            Effect::ReplaceMetadata(bucket, key, observed, updated) => {
                let current = self.get_object(bucket, key);
                match current {
                    Ok(current) if current == Object::read(observed) => Outcome::Flag(
                        self.replace_object(bucket, key, Object::read(updated))
                            .map(|()| true)
                            .map_err(error),
                    ),
                    _ => Outcome::Flag(Ok(false)),
                }
            }
            Effect::DeleteObject(bucket, key) => done(self.delete_object(bucket, key)),
            Effect::DeleteObjectIf(bucket, key, condition) => {
                let current = self.get_object(bucket, key).ok();
                if Storage::holds(condition, current.as_ref()) {
                    Outcome::Flag(self.delete_object(bucket, key).map(|()| true).map_err(error))
                } else {
                    Outcome::Flag(Ok(false))
                }
            }
            Effect::DeleteVersion(bucket, key, version) => {
                done(self.delete_object_version(bucket, key, version))
            }
            Effect::LoadDeletion(container) => Outcome::Deletion(Ok(Deletion {
                purge_after: self
                    .state
                    .borrow()
                    .deletions
                    .get(container)
                    .map(|at| Instant { secs: at.0, nanos: at.1 }),
            })),
            Effect::SaveDeletion(container, at) => {
                let at = (at.secs, at.nanos);
                self.state.borrow_mut().deletions.insert(container.clone(), at);
                done(Ok(()))
            }
            Effect::DropDeletion(container) => {
                self.state.borrow_mut().deletions.remove(container);
                done(Ok(()))
            }
            Effect::LoadSession(key) => Outcome::Session(Ok(SessionSlot {
                found: self.state.borrow().sessions.get(key).map(|session| session.copied()),
            })),
            Effect::SaveSession(key, session) => {
                self.state.borrow_mut().sessions.insert(key.clone(), session.copied());
                done(Ok(()))
            }
            Effect::DropSession(key) => {
                self.state.borrow_mut().sessions.remove(key);
                done(Ok(()))
            }
            Effect::LoadBlocks(key) => Outcome::Blocks(Ok(BlocksSlot {
                found: self.state.borrow().blocks.get(key).map(|blocks| blocks.copied()),
            })),
            Effect::SaveBlocks(key, blocks) => {
                self.state.borrow_mut().blocks.insert(key.clone(), blocks.copied());
                done(Ok(()))
            }
            Effect::LoadUpload(id) => Outcome::Upload(Ok(UploadSlot {
                found: self.state.borrow().uploads.get(id).map(|session| session.copied()),
            })),
            Effect::SaveUpload(id, session) => {
                self.state.borrow_mut().uploads.insert(id.clone(), session.copied());
                done(Ok(()))
            }
            Effect::DropUpload(id) => {
                self.state.borrow_mut().uploads.remove(id);
                done(Ok(()))
            }
            _ => done(Ok(())),
        }
    }
}

fn temp_storage() -> Storage {
    Storage::default()
}

// ---------------------------------------------------------------------------
// Requests and responses

fn auth_disabled() -> AuthConfig {
    AuthConfig { access_key_id: None, secret_access_key: None, enforce_auth: false }
}

fn parsed_request(method: &str, uri: &str, headers: &[(&str, &str)], body: &[u8]) -> Request {
    let uri: http::Uri = uri.parse().expect("URI should parse");
    let mut entries = Vec::new();
    for (name, value) in headers {
        entries.push((
            name.to_ascii_lowercase(),
            HeaderText::Text(value.to_string()),
        ));
    }
    if matches!(method, "POST" | "PUT" | "PATCH")
        && !headers.iter().any(|(name, _)| name.eq_ignore_ascii_case("content-length"))
        && !headers.iter().any(|(name, _)| name.eq_ignore_ascii_case("transfer-encoding"))
    {
        entries.push((
            "content-length".to_string(),
            HeaderText::Text(body.len().to_string()),
        ));
    }
    request_with(method, &uri, entries, body)
}

fn request_with(
    method: &str,
    uri: &http::Uri,
    entries: Vec<(String, HeaderText)>,
    body: &[u8],
) -> Request {
    let mut query = Table::new();
    for part in uri.query().unwrap_or("").split('&').filter(|part| !part.is_empty()) {
        let (name, value) = part.split_once('=').unwrap_or((part, ""));
        let decode = |text: &str| match urlencoding::decode(text) {
            Ok(text) => text.into_owned(),
            Err(_) => text.to_string(),
        };
        query.insert(&decode(name), decode(value));
    }
    let host = entries
        .iter()
        .find(|(name, _)| name == "host")
        .and_then(|(_, value)| value.text().map(str::to_string))
        .or_else(|| uri.authority().map(|authority| authority.to_string()))
        .unwrap_or_else(|| "localhost".to_string());
    Request {
        method: match method {
            "GET" => Method::Get,
            "HEAD" => Method::Head,
            "PUT" => Method::Put,
            "POST" => Method::Post,
            "DELETE" => Method::Delete,
            "PATCH" => Method::Patch,
            _ => Method::Other,
        },
        verb: method.to_string(),
        path: uri.path().to_string(),
        raw_query: uri.query().map(str::to_string),
        query,
        headers: Table { entries },
        scheme: uri.scheme_str().map(str::to_string),
        origin: format!("http://{host}"),
        body: body.to_vec(),
    }
}

fn copied_request(req: &Request) -> Request {
    Request {
        method: req.method,
        verb: req.verb.clone(),
        path: req.path.clone(),
        raw_query: req.raw_query.clone(),
        query: req.query.copied(),
        headers: Table {
            entries: req
                .headers
                .entries
                .iter()
                .map(|(name, value)| (name.clone(), value.copied()))
                .collect(),
        },
        scheme: req.scheme.clone(),
        origin: req.origin.clone(),
        body: req.body.clone(),
    }
}

fn copied_auth(auth: &AuthConfig) -> AuthConfig {
    AuthConfig {
        access_key_id: auth.access_key_id.clone(),
        secret_access_key: auth.secret_access_key.clone(),
        enforce_auth: auth.enforce_auth,
    }
}

fn converted(response: providers::http::Response) -> http::Response<Vec<u8>> {
    let mut builder = http::Response::builder().status(response.status);
    for (name, value) in &response.headers.entries {
        builder = builder.header(name, value);
    }
    builder.body(response.body).expect("response should build")
}

#[allow(dead_code)]
fn header_value<'a>(response: &'a http::Response<Vec<u8>>, name: &str) -> Option<&'a str> {
    response.headers().get(name).and_then(|value| value.to_str().ok())
}

// ---------------------------------------------------------------------------
// The registry with the memory of its front doors

fn stand_in(code: u16, form: &str) -> Response {
    Response::new(code).header("x-form", form)
}

/// Adapters that take nothing the first two front doors leave stand in for the given ones.
type Doors = FrontDoor<GcsAdapter, AzureBlobAdapter>;

struct Server {
    registry: AdapterRegistry<Doors>,
    azure: RefCell<AzureBlobAdapter>,
    gcs: RefCell<GcsAdapter>,
    pauses: RefCell<Vec<u64>>,
}

impl Server {
    fn new() -> Server {
        Server {
            registry: AdapterRegistry::default(),
            azure: RefCell::new(AzureBlobAdapter::new()),
            gcs: RefCell::new(GcsAdapter::new()),
            pauses: RefCell::new(Vec::new()),
        }
    }

    fn memory(&self, effect: &Effect) -> Option<Outcome> {
        if let Effect::Sleep(millis) = effect {
            self.pauses.borrow_mut().push(*millis);
        }
        let recalled = self.azure.borrow().recall(effect);
        recalled
            .or_else(|| self.azure.borrow_mut().remember(effect))
            .or_else(|| self.gcs.borrow_mut().remember(effect))
    }

    fn deliver(&self, storage: &Storage, auth: &AuthConfig, req: &Request) -> Result<Delivery, String> {
        let cx = Context { stamp: Stamp::take(), auth: copied_auth(auth), req: copied_request(req) };
        let mut outcomes = Vec::new();
        loop {
            match self.registry.handle(&cx, Tape::new(&outcomes)) {
                Service::Perform(effect) => {
                    let outcome = self.memory(&effect).unwrap_or_else(|| storage.perform(&effect));
                    outcomes.push(outcome);
                }
                Service::Deliver(delivery) => return Ok(delivery),
                Service::Fail(message) => return Err(message),
            }
        }
    }

    fn handle(
        &self,
        storage: &Storage,
        auth: &AuthConfig,
        req: &Request,
    ) -> Result<http::Response<Vec<u8>>, String> {
        self.deliver(storage, auth, req).map(|delivery| converted(delivery.response))
    }
}

fn text_body(response: http::Response<Vec<u8>>) -> String {
    String::from_utf8(response.into_body()).expect("body should be utf8")
}

// ---------------------------------------------------------------------------
// Heads of requests

#[test]
fn should_render_azure_payload_too_large_from_request_head() {
    let registry = AdapterRegistry::<Doors>::default();
    let head = parsed_request(
        "PUT",
        "http://localhost/devstoreaccount1/container/blob",
        &[("x-ms-version", "2023-11-03")],
        b"",
    );

    let response = converted(registry.render_payload_too_large(
        &Stamp::take(),
        &head,
        12,
        stand_in(413, "s3"),
    ));

    assert_eq!(response.status(), http::StatusCode::PAYLOAD_TOO_LARGE);
    assert_eq!(header_value(&response, "x-ms-error-code"), Some("RequestBodyTooLarge"));
    assert!(text_body(response).contains("RequestBodyTooLarge"));
}

#[test]
fn should_render_gcs_payload_too_large_from_request_head() {
    let registry = AdapterRegistry::<Doors>::default();
    let head = parsed_request(
        "PUT",
        "http://storage.googleapis.com/bucket/object",
        &[("host", "storage.googleapis.com")],
        b"",
    );

    let response = converted(registry.render_payload_too_large(
        &Stamp::take(),
        &head,
        12,
        stand_in(413, "s3"),
    ));

    assert_eq!(response.status(), http::StatusCode::PAYLOAD_TOO_LARGE);
    assert_eq!(header_value(&response, "content-type"), Some("application/xml"));
    assert!(text_body(response).contains("EntityTooLarge"));
}

#[test]
fn should_have_four_front_doors_in_order() {
    let registry = AdapterRegistry::<Doors>::default();
    assert!(matches!(
        registry.adapters.as_slice(),
        [FrontDoor::Azure(_), FrontDoor::Gcs(_), FrontDoor::Oci(_), FrontDoor::S3(_)]
    ));
    let given = AdapterRegistry::front_doors(GcsAdapter::new(), AzureBlobAdapter::new());
    let names: Vec<&str> = given.adapters.iter().map(|door: &Doors| door.name()).collect();
    assert_eq!(names, ["azure-blob", "gcs", "gcs", "azure-blob"]);
}

#[test]
fn should_answer_heads_that_no_front_door_takes_as_given() {
    let registry = AdapterRegistry::<Doors>::default();
    let head = parsed_request("PUT", "http://localhost/bucket/key", &[], b"");
    let stamp = Stamp::take();
    let large = registry.render_payload_too_large(&stamp, &head, 12, stand_in(413, "s3"));
    assert_eq!(large.status, 413);
    assert_eq!(large.headers.get("x-form").map(String::as_str), Some("s3"));
    let early = registry.render_incomplete_body(&stamp, &head, stand_in(400, "s3"));
    assert_eq!(early.status, 400);
    assert_eq!(early.headers.get("x-form").map(String::as_str), Some("s3"));

    let refused = Server::new().handle(&temp_storage(), &auth_disabled(), &head);
    assert_eq!(refused.err().as_deref(), Some("No provider adapter matched the request"));
}

#[test]
fn should_serve_through_the_front_doors_that_are_given() {
    let registry = AdapterRegistry::<Doors>::new(vec![
        FrontDoor::Oci(GcsAdapter::new()),
        FrontDoor::S3(AzureBlobAdapter::new()),
    ]);
    let stamp = Stamp::take();
    let azure = parsed_request("PUT", "http://localhost/a/b/c", &[("x-ms-version", "1")], b"");
    let large = registry.render_payload_too_large(&stamp, &azure, 12, stand_in(413, "s3"));
    assert_eq!(
        large.headers.get("x-ms-error-code").map(String::as_str),
        Some("RequestBodyTooLarge")
    );
    let early = registry.render_incomplete_body(&stamp, &azure, stand_in(400, "s3"));
    assert_eq!(
        early.headers.get("x-ms-error-code").map(String::as_str),
        Some("InvalidHeaderValue")
    );
    let headers = [("host", "storage.googleapis.com"), ("content-length", "0")];
    let req = parsed_request("GET", "http://localhost/bucket/key", &headers, b"");
    let cx = Context { stamp, auth: auth_disabled(), req };
    let outcomes = Vec::new();
    assert!(matches!(
        registry.handle(&cx, Tape::new(&outcomes)),
        Service::Perform(Effect::GetBucket(name)) if name == "bucket"
    ));
}

// ---------------------------------------------------------------------------
// Whole requests

#[test]
fn should_route_local_gcs_resumable_session_uris_back_to_gcs() {
    // Arrange
    let storage = temp_storage();
    storage.create_bucket("resumable-local".to_string()).expect("test bucket should be created");
    let server = Server::new();
    let initiate = parsed_request(
        "POST",
        "http://localhost/upload/storage/v1/b/resumable-local/o?uploadType=resumable&name=object.txt",
        &[("content-length", "0")],
        b"",
    );
    let initiated = server
        .handle(&storage, &auth_disabled(), &initiate)
        .expect("initiation should route to GCS");
    let location = header_value(&initiated, "location")
        .expect("session location should exist")
        .to_string();
    let complete = parsed_request("PUT", &location, &[("content-length", "7")], b"payload");

    // Act
    let completed = server
        .handle(&storage, &auth_disabled(), &complete)
        .expect("local session URI should route to GCS");

    // Assert
    assert_eq!(completed.status(), http::StatusCode::OK);
    assert_eq!(
        storage
            .get_object("resumable-local", "object.txt")
            .expect("completed object should exist")
            .data,
        b"payload"
    );
}

#[derive(Clone, Copy, Debug)]
enum ProtectionClaim {
    Gcs,
    Azure,
}

fn protection_claim_request(claim: ProtectionClaim, bucket: &str) -> Request {
    match claim {
        ProtectionClaim::Gcs => parsed_request(
            "POST",
            "http://localhost/storage/v1/b?project=test-project",
            &[("host", "storage.googleapis.com"), ("content-type", "application/json")],
            format!(
                r#"{{"name":"{bucket}","softDeletePolicy":{{"retentionDurationSeconds":"604800"}}}}"#
            )
            .as_bytes(),
        ),
        ProtectionClaim::Azure => parsed_request(
            "PUT",
            &format!("http://localhost/devstoreaccount1/{bucket}?restype=container"),
            &[
                ("content-length", "0"),
                ("x-ms-version", "2023-11-03"),
                ("x-sqrzl-azure-versioning-enabled", "true"),
            ],
            b"",
        ),
    }
}

fn claim_succeeded(claim: ProtectionClaim, status: http::StatusCode) -> bool {
    match claim {
        ProtectionClaim::Gcs => status == http::StatusCode::OK,
        ProtectionClaim::Azure => status == http::StatusCode::CREATED,
    }
}

fn claim_owns_bucket(claim: ProtectionClaim, metadata: &HashMap<String, String>) -> bool {
    let (key, expected) = match claim {
        ProtectionClaim::Gcs => ("gcs_soft_delete_seconds", "604800"),
        ProtectionClaim::Azure => ("azure_versioning_enabled", "true"),
    };
    metadata.get(key).is_some_and(|value| value == expected)
}

fn assert_native_conflict(claim: ProtectionClaim, response: http::Response<Vec<u8>>) {
    assert_eq!(response.status(), http::StatusCode::CONFLICT, "{claim:?}");
    let body = text_body(response);
    let marker = match claim {
        ProtectionClaim::Gcs => "\"reason\":\"conflict\"",
        ProtectionClaim::Azure => "FeatureVersionMismatch",
    };
    assert!(
        body.contains(marker),
        "{claim:?} must return its native conflict envelope: {body}"
    );
}

#[test]
fn should_serialize_conflicting_azure_and_gcs_protection_creation() {
    let (left, right) = (ProtectionClaim::Azure, ProtectionClaim::Gcs);
    for iteration in 0..8 {
        let storage = temp_storage();
        let server = Server::new();
        let bucket = format!("protection-race-{iteration}");
        let left_request = protection_claim_request(left, &bucket);
        let right_request = protection_claim_request(right, &bucket);

        // The claims on one bucket take turns; either may come first.
        let claim = |request: &Request| {
            server
                .handle(&storage, &auth_disabled(), request)
                .expect("activation should respond")
        };
        let (left_response, right_response) = if iteration % 2 == 0 {
            let left_response = claim(&left_request);
            (left_response, claim(&right_request))
        } else {
            let right_response = claim(&right_request);
            (claim(&left_request), right_response)
        };
        let left_won = claim_succeeded(left, left_response.status());
        let right_won = claim_succeeded(right, right_response.status());
        assert_ne!(left_won, right_won, "exactly one provider must activate");
        if left_won {
            assert_native_conflict(right, right_response);
        } else {
            assert_native_conflict(left, left_response);
        }

        let metadata = storage.get_bucket(&bucket).unwrap().metadata;
        assert!(!metadata.contains_key("s3_object_lock_enabled"));
        let owner_count = [ProtectionClaim::Gcs, ProtectionClaim::Azure]
            .into_iter()
            .filter(|claim| claim_owns_bucket(*claim, &metadata))
            .count();
        assert_eq!(owner_count, 1, "bucket metadata must have one owner");
        assert_eq!(claim_owns_bucket(left, &metadata), left_won);
        assert_eq!(claim_owns_bucket(right, &metadata), right_won);
    }
}

#[test]
fn should_let_azure_serve_what_both_front_doors_match() {
    let storage = temp_storage();
    let response = Server::new()
        .handle(
            &storage,
            &auth_disabled(),
            &parsed_request(
                "PUT",
                "http://storage.googleapis.com/devstoreaccount1/shared?restype=container",
                &[
                    ("host", "storage.googleapis.com"),
                    ("x-ms-version", "2023-11-03"),
                    ("content-length", "0"),
                ],
                b"",
            ),
        )
        .expect("container create should respond");
    assert_eq!(response.status(), http::StatusCode::CREATED);
    assert_eq!(header_value(&response, "x-ms-version"), Some("2023-11-03"));
    assert!(storage.get_bucket("shared").is_ok());
}

#[test]
fn should_refuse_a_body_that_is_not_as_long_as_declared_before_storage_is_asked() {
    let storage = temp_storage();
    storage.create_bucket("framed".to_string()).unwrap();
    let server = Server::new();
    for (uri, headers, code) in [
        (
            "http://localhost/devstoreaccount1/framed/blob",
            vec![
                ("x-ms-version", "2023-11-03"),
                ("x-ms-blob-type", "BlockBlob"),
                ("content-length", "3"),
            ],
            "InvalidHeaderValue",
        ),
        (
            "http://localhost/framed/object",
            vec![("host", "storage.googleapis.com"), ("content-length", "3")],
            "IncompleteBody",
        ),
    ] {
        let response = server
            .handle(&storage, &auth_disabled(), &parsed_request("PUT", uri, &headers, b"four"))
            .expect("a wrong length should be answered");
        assert_eq!(response.status(), http::StatusCode::BAD_REQUEST);
        assert!(text_body(response).contains(code));
    }
    assert!(storage.get_bucket("framed").unwrap().objects.is_empty());
}

#[test]
fn should_ask_writes_for_their_length() {
    let storage = temp_storage();
    storage.create_bucket("framed".to_string()).unwrap();
    let server = Server::new();
    for (uri, headers) in [
        (
            "http://localhost/devstoreaccount1/framed/blob",
            vec![("x-ms-version", "2023-11-03"), ("x-ms-blob-type", "BlockBlob")],
        ),
        ("http://localhost/framed/object", vec![("host", "storage.googleapis.com")]),
    ] {
        let mut request = parsed_request("PUT", uri, &headers, b"four");
        request.headers.remove("content-length");
        let response = server
            .handle(&storage, &auth_disabled(), &request)
            .expect("a missing length should be answered");
        assert_eq!(response.status(), http::StatusCode::LENGTH_REQUIRED);
    }
    assert!(storage.get_bucket("framed").unwrap().objects.is_empty());
}

#[test]
fn should_repeat_the_identifier_of_the_client() {
    let storage = temp_storage();
    let response = Server::new()
        .handle(
            &storage,
            &auth_disabled(),
            &parsed_request(
                "GET",
                "http://localhost/devstoreaccount1/missing/blob",
                &[("x-ms-version", "2023-11-03"), ("x-ms-client-request-id", "client-1")],
                b"",
            ),
        )
        .expect("a missing container should be answered");
    assert_eq!(response.status(), http::StatusCode::NOT_FOUND);
    assert_eq!(header_value(&response, "x-ms-client-request-id"), Some("client-1"));
}

// ---------------------------------------------------------------------------
// Failures that a request asks for

fn put_with(failpoint: &str, extra: &[(&str, &str)]) -> Request {
    let mut headers = vec![
        ("host", "storage.googleapis.com"),
        ("content-length", "7"),
        ("x-sqrzl-failpoint", failpoint),
    ];
    headers.extend_from_slice(extra);
    parsed_request("PUT", "http://localhost/failures/object", &headers, b"payload")
}

#[test]
fn should_fail_before_anything_is_stored() {
    let storage = temp_storage();
    storage.create_bucket("failures".to_string()).unwrap();
    let server = Server::new();
    for (failpoint, status) in [
        ("throttle", 429),
        ("transient-500", 500),
        ("transient-502", 502),
        ("transient-503", 503),
        ("transient-504", 504),
        ("redirect-307", 307),
    ] {
        let response = server
            .handle(&storage, &auth_disabled(), &put_with(failpoint, &[]))
            .expect("failpoint should respond");
        assert_eq!(response.status().as_u16(), status, "{failpoint}");
        assert_eq!(header_value(&response, "x-sqrzl-failpoint-applied"), Some(failpoint));
    }
    assert!(storage.get_bucket("failures").unwrap().objects.is_empty());
}

#[test]
fn should_wait_before_a_commit_when_asked_to() {
    let storage = temp_storage();
    storage.create_bucket("failures".to_string()).unwrap();
    let server = Server::new();
    let response = server
        .handle(
            &storage,
            &auth_disabled(),
            &put_with("timeout-before-commit", &[("x-sqrzl-failpoint-delay-ms", "25")]),
        )
        .expect("write should respond");
    assert_eq!(response.status(), http::StatusCode::OK);
    assert_eq!(*server.pauses.borrow(), vec![25]);
    assert_eq!(storage.get_object("failures", "object").unwrap().data, b"payload");
}

#[test]
fn should_lose_the_reply_only_after_the_object_is_stored() {
    let storage = temp_storage();
    storage.create_bucket("failures".to_string()).unwrap();
    let server = Server::new();
    let delivery = server
        .deliver(&storage, &auth_disabled(), &put_with("response-loss-after-commit", &[]))
        .expect("write should respond");
    assert!(matches!(delivery.cut, Cut::Lost));
    assert_eq!(delivery.response.status, 200);
    assert_eq!(delivery.response.headers.get("content-length").map(String::as_str), Some("1"));
    assert_eq!(storage.get_object("failures", "object").unwrap().data, b"payload");

    let late = server
        .deliver(
            &storage,
            &auth_disabled(),
            &put_with("timeout-after-commit", &[("x-sqrzl-failpoint-delay-ms", "40")]),
        )
        .expect("write should respond");
    assert_eq!(late.pause, 40);
    assert!(matches!(late.cut, Cut::Whole));
}
