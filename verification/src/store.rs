//! What handlers ask of storage, and what storage answers.
//!
//! A handler never touches storage. It reads the answers that were given so far off a
//! tape, and where the tape ends it says what to ask next.

use vstd::prelude::*;
use crate::clock::Instant;
use crate::codec::{compute_etag, content_etag};
use crate::http::{Response, ResponseView};
use crate::order::Named;
use crate::table::{get, Copied, Table};
use crate::text::copy_bytes;
use crate::views::{each, seen, settled, Pairs, Text};

verus! {

/// Why storage could not do what it was asked.
#[derive(Clone, Copy, PartialEq, Eq, Structural, Debug)]
pub enum ErrorKind {
    BucketNotFound,
    KeyNotFound,
    NoSuchVersion,
    BucketAlreadyExists,
    BucketNotEmpty,
    Other,
}

/// A failure of storage, with its description.
pub struct StorageError {
    pub kind: ErrorKind,
    pub message: String,
}

/// A failure over characters.
pub struct StorageErrorView {
    pub kind: ErrorKind,
    pub message: Text,
}

impl View for StorageError {
    type V = StorageErrorView;

    open spec fn view(&self) -> StorageErrorView {
        StorageErrorView { kind: self.kind, message: self.message@ }
    }
}

impl StorageErrorView {
    /// Whether the object, or the bucket it would be in, does not exist.
    pub open spec fn no_object(self) -> bool {
        self.kind == ErrorKind::KeyNotFound || self.kind == ErrorKind::BucketNotFound
    }

    /// Whether the object, the version of it or the bucket does not exist.
    pub open spec fn no_version(self) -> bool {
        self.no_object() || self.kind == ErrorKind::NoSuchVersion
    }
}

impl StorageError {
    pub fn no_object(&self) -> (r: bool)
        ensures
            r == self@.no_object(),
    {
        self.kind == ErrorKind::KeyNotFound || self.kind == ErrorKind::BucketNotFound
    }

    pub fn no_version(&self) -> (r: bool)
        ensures
            r == self@.no_version(),
    {
        self.no_object() || self.kind == ErrorKind::NoSuchVersion
    }
}

/// A stored object. `metadata` is what clients set and see; `provider_metadata` is kept
/// for the front door that wrote the object.
pub struct Object {
    pub key: String,
    pub data: Vec<u8>,
    pub size: u64,
    pub etag: String,
    pub content_type: String,
    pub last_modified: Instant,
    pub metadata: Table<String>,
    pub provider_metadata: Table<String>,
    pub version_id: Option<String>,
}

/// An object over characters and bytes.
pub struct ObjectView {
    pub key: Text,
    pub data: Seq<u8>,
    pub size: u64,
    pub etag: Text,
    pub content_type: Text,
    pub last_modified: Instant,
    pub metadata: Pairs,
    pub provider_metadata: Pairs,
    pub version_id: Option<Text>,
}

impl View for Object {
    type V = ObjectView;

    open spec fn view(&self) -> ObjectView {
        ObjectView {
            key: self.key@,
            data: self.data@,
            size: self.size,
            etag: self.etag@,
            content_type: self.content_type@,
            last_modified: self.last_modified,
            metadata: self.metadata@,
            provider_metadata: self.provider_metadata@,
            version_id: seen(self.version_id),
        }
    }
}

impl Copied for Object {
    fn copied(&self) -> (r: Self) {
        Object {
            key: self.key.clone(),
            data: copy_bytes(self.data.as_slice()),
            size: self.size,
            etag: self.etag.clone(),
            content_type: self.content_type.clone(),
            last_modified: self.last_modified,
            metadata: self.metadata.copied(),
            provider_metadata: self.provider_metadata.copied(),
            version_id: match &self.version_id {
                Some(id) => Some(id.clone()),
                None => None,
            },
        }
    }
}

/// A new object: its size and tag are those of its content.
pub open spec fn new_object(
    key: Text,
    data: Seq<u8>,
    content_type: Text,
    metadata: Pairs,
    now: Instant,
) -> ObjectView {
    ObjectView {
        key,
        data,
        size: data.len() as u64,
        etag: content_etag(data),
        content_type,
        last_modified: now,
        metadata,
        provider_metadata: Seq::empty(),
        version_id: None,
    }
}

impl Object {
    pub fn new_with_metadata(
        key: String,
        data: Vec<u8>,
        content_type: String,
        metadata: Table<String>,
        now: Instant,
    ) -> (r: Object)
        ensures
            r@ == new_object(key@, data@, content_type@, metadata@, now),
    {
        let etag = compute_etag(data.as_slice());
        Object {
            key,
            size: data.len() as u64,
            data,
            etag,
            content_type,
            last_modified: now,
            metadata,
            provider_metadata: Table::new(),
            version_id: None,
        }
    }
}

impl Named for Object {
    open spec fn key(v: ObjectView) -> Text {
        v.key
    }

    fn name(&self) -> (r: &str) {
        self.key.as_str()
    }
}

/// A bucket, as far as handlers look at it.
pub struct Bucket {
    pub name: String,
    pub created_at: Instant,
    pub versioning_enabled: bool,
    pub metadata: Table<String>,
}

/// A bucket over characters.
pub struct BucketView {
    pub name: Text,
    pub created_at: Instant,
    pub versioning_enabled: bool,
    pub metadata: Pairs,
}

impl View for Bucket {
    type V = BucketView;

    open spec fn view(&self) -> BucketView {
        BucketView {
            name: self.name@,
            created_at: self.created_at,
            versioning_enabled: self.versioning_enabled,
            metadata: self.metadata@,
        }
    }
}

impl Copied for Bucket {
    fn copied(&self) -> (r: Self) {
        Bucket {
            name: self.name.clone(),
            created_at: self.created_at,
            versioning_enabled: self.versioning_enabled,
            metadata: self.metadata.copied(),
        }
    }
}

impl Named for Bucket {
    open spec fn key(v: BucketView) -> Text {
        v.name
    }

    fn name(&self) -> (r: &str) {
        self.name.as_str()
    }
}

/// All buckets.
pub struct Buckets {
    pub items: Vec<Bucket>,
}

impl View for Buckets {
    type V = Seq<BucketView>;

    open spec fn view(&self) -> Seq<BucketView> {
        each(self.items@)
    }
}

/// One page of a listing.
pub struct Page {
    pub objects: Vec<Object>,
    pub prefixes: Vec<String>,
    pub truncated: bool,
    pub next_marker: Option<String>,
}

/// A page over characters and bytes.
pub struct PageView {
    pub objects: Seq<ObjectView>,
    pub prefixes: Seq<Text>,
    pub truncated: bool,
    pub next_marker: Option<Text>,
}

impl View for Page {
    type V = PageView;

    open spec fn view(&self) -> PageView {
        PageView {
            objects: each(self.objects@),
            prefixes: each(self.prefixes@),
            truncated: self.truncated,
            next_marker: seen(self.next_marker),
        }
    }
}

/// Versions of objects.
pub struct Versions {
    pub items: Vec<Object>,
}

impl View for Versions {
    type V = Seq<ObjectView>;

    open spec fn view(&self) -> Seq<ObjectView> {
        each(self.items@)
    }
}

/// Part of an object's content, with the object it was read from.
pub struct Payload {
    pub object: Object,
    pub data: Vec<u8>,
}

/// A payload over characters and bytes.
pub struct PayloadView {
    pub object: ObjectView,
    pub data: Seq<u8>,
}

impl View for Payload {
    type V = PayloadView;

    open spec fn view(&self) -> PayloadView {
        PayloadView { object: self.object@, data: self.data@ }
    }
}

/// When a container that is being deleted is to be gone.
pub struct Deletion {
    pub purge_after: Option<Instant>,
}

impl View for Deletion {
    type V = Option<Instant>;

    open spec fn view(&self) -> Option<Instant> {
        self.purge_after
    }
}

/// The blocks that were uploaded for a blob and not committed yet.
pub struct BlockSession {
    pub blocks: Table<Vec<u8>>,
    pub content_type: Option<String>,
    pub metadata: Table<String>,
}

/// A block session over characters and bytes.
pub struct BlockSessionView {
    pub blocks: Seq<(Text, Seq<u8>)>,
    pub content_type: Option<Text>,
    pub metadata: Pairs,
}

impl View for BlockSession {
    type V = BlockSessionView;

    open spec fn view(&self) -> BlockSessionView {
        BlockSessionView {
            blocks: self.blocks@,
            content_type: seen(self.content_type),
            metadata: self.metadata@,
        }
    }
}

impl Copied for BlockSession {
    fn copied(&self) -> (r: Self) {
        BlockSession {
            blocks: self.blocks.copied(),
            content_type: match &self.content_type {
                Some(text) => Some(text.clone()),
                None => None,
            },
            metadata: self.metadata.copied(),
        }
    }
}

/// A session without blocks.
pub open spec fn no_blocks() -> BlockSessionView {
    BlockSessionView { blocks: Seq::empty(), content_type: None, metadata: Seq::empty() }
}

impl Default for BlockSession {
    fn default() -> (r: Self)
        ensures
            r@ == no_blocks(),
    {
        BlockSession { blocks: Table::new(), content_type: None, metadata: Table::new() }
    }
}

/// A block session, where there is one.
pub struct SessionSlot {
    pub found: Option<BlockSession>,
}

impl View for SessionSlot {
    type V = Option<BlockSessionView>;

    open spec fn view(&self) -> Option<BlockSessionView> {
        seen(self.found)
    }
}

/// The blocks that a blob was committed from, in order.
pub struct Blocks {
    pub items: Vec<(String, Vec<u8>)>,
}

impl View for Blocks {
    type V = Seq<(Text, Seq<u8>)>;

    open spec fn view(&self) -> Seq<(Text, Seq<u8>)> {
        each(self.items@)
    }
}

impl Copied for Blocks {
    fn copied(&self) -> (r: Self) {
        let mut items: Vec<(String, Vec<u8>)> = Vec::new();
        let mut i: usize = 0;
        while i < self.items.len()
            invariant
                i <= self.items.len(),
                items.len() == i,
                forall|k: int| 0 <= k < i ==> (#[trigger] items@[k])@ == self.items@[k]@,
            decreases self.items.len() - i,
        {
            let id = self.items[i].0.clone();
            let data = copy_bytes(self.items[i].1.as_slice());
            items.push((id, data));
            i += 1;
        }
        let r = Blocks { items };
        assert(r@ =~= self@);
        r
    }
}

/// Committed blocks, where any are recorded.
pub struct BlocksSlot {
    pub found: Option<Blocks>,
}

impl View for BlocksSlot {
    type V = Option<Seq<(Text, Seq<u8>)>>;

    open spec fn view(&self) -> Option<Seq<(Text, Seq<u8>)>> {
        seen(self.found)
    }
}

/// An upload that was announced and whose content is still to come.
pub struct UploadSession {
    pub bucket: String,
    pub key: String,
    pub content_type: String,
    pub metadata: Table<String>,
    pub crc32c: Option<u32>,
    pub if_generation_match: Option<String>,
    pub if_generation_not_match: Option<String>,
}

/// An upload session over characters.
pub struct UploadSessionView {
    pub bucket: Text,
    pub key: Text,
    pub content_type: Text,
    pub metadata: Pairs,
    pub crc32c: Option<u32>,
    pub if_generation_match: Option<Text>,
    pub if_generation_not_match: Option<Text>,
}

impl View for UploadSession {
    type V = UploadSessionView;

    open spec fn view(&self) -> UploadSessionView {
        UploadSessionView {
            bucket: self.bucket@,
            key: self.key@,
            content_type: self.content_type@,
            metadata: self.metadata@,
            crc32c: self.crc32c,
            if_generation_match: seen(self.if_generation_match),
            if_generation_not_match: seen(self.if_generation_not_match),
        }
    }
}

impl Copied for UploadSession {
    fn copied(&self) -> (r: Self) {
        UploadSession {
            bucket: self.bucket.clone(),
            key: self.key.clone(),
            content_type: self.content_type.clone(),
            metadata: self.metadata.copied(),
            crc32c: self.crc32c,
            if_generation_match: match &self.if_generation_match {
                Some(text) => Some(text.clone()),
                None => None,
            },
            if_generation_not_match: match &self.if_generation_not_match {
                Some(text) => Some(text.clone()),
                None => None,
            },
        }
    }
}

/// An upload session, where there is one.
pub struct UploadSlot {
    pub found: Option<UploadSession>,
}

impl View for UploadSlot {
    type V = Option<UploadSessionView>;

    open spec fn view(&self) -> Option<UploadSessionView> {
        seen(self.found)
    }
}

/// What must hold of the object in place for a write or a deletion to happen.
pub enum ObjectCondition {
    Missing,
    Etag(String),
    EtagNotIn(Vec<String>),
    MissingOrEtagNotIn(Vec<String>),
    Metadata(String, String),
    MetadataNot(String, String),
    All(Vec<ObjectCondition>),
}

/// A condition over characters.
pub enum ConditionView {
    Missing,
    Etag(Text),
    EtagNotIn(Seq<Text>),
    MissingOrEtagNotIn(Seq<Text>),
    Metadata(Text, Text),
    MetadataNot(Text, Text),
    All(Seq<ConditionView>),
}

impl View for ObjectCondition {
    type V = ConditionView;

    open spec fn view(&self) -> ConditionView
        decreases self,
    {
        match self {
            ObjectCondition::Missing => ConditionView::Missing,
            ObjectCondition::Etag(etag) => ConditionView::Etag(etag@),
            ObjectCondition::EtagNotIn(etags) => ConditionView::EtagNotIn(each(etags@)),
            ObjectCondition::MissingOrEtagNotIn(etags) => ConditionView::MissingOrEtagNotIn(
                each(etags@),
            ),
            ObjectCondition::Metadata(key, value) => ConditionView::Metadata(key@, value@),
            ObjectCondition::MetadataNot(key, value) => ConditionView::MetadataNot(key@, value@),
            ObjectCondition::All(parts) => ConditionView::All(
                Seq::new(
                    parts@.len(),
                    |i: int|
                        if 0 <= i < parts@.len() {
                            parts@[i]@
                        } else {
                            ConditionView::Missing
                        },
                ),
            ),
        }
    }
}

impl ConditionView {
    /// Whether the condition holds where an object, or none, is in place.
    pub open spec fn holds_of(self, current: Option<ObjectView>) -> bool
        decreases self,
    {
        match self {
            ConditionView::Missing => current is None,
            ConditionView::Etag(etag) => current matches Some(object) && object.etag == etag,
            ConditionView::EtagNotIn(etags) => current matches Some(object) && !etags.contains(
                object.etag,
            ),
            ConditionView::MissingOrEtagNotIn(etags) => current matches Some(object)
                ==> !etags.contains(object.etag),
            ConditionView::Metadata(key, value) => current matches Some(object) && get(
                object.metadata,
                key,
            ) == Some(value),
            ConditionView::MetadataNot(key, value) => current matches Some(object) && get(
                object.metadata,
                key,
            ) != Some(value),
            ConditionView::All(parts) => forall|i: int|
                0 <= i < parts.len() ==> (#[trigger] parts[i]).holds_of(current),
        }
    }
}

/// A condition of several parts, over views.
pub proof fn all_view(parts: Vec<ObjectCondition>)
    ensures
        ObjectCondition::All(parts)@ == ConditionView::All(each(parts@)),
{
    reveal_with_fuel(<ObjectCondition as View>::view, 2);
    assert(ObjectCondition::All(parts)@->All_0 =~= each(parts@));
}

/// Something to ask of storage, of the adapter's memory or of the clock.
pub enum Effect {
    /// Look up a bucket.
    GetBucket(String),
    /// List all buckets.
    ListBuckets,
    /// Create a bucket.
    CreateBucket(String),
    /// Delete an empty bucket.
    DeleteBucket(String),
    /// Keep versions of overwritten and deleted objects of a bucket from now on.
    EnableVersioning(String),
    /// Keep no further versions of objects of a bucket.
    SuspendVersioning(String),
    /// Replace the metadata of a bucket.
    UpdateBucketMetadata(String, Table<String>),
    /// List objects of a bucket, each as a read gives it: by prefix, by delimiter, after a
    /// marker, at most so many.
    ListObjects(String, Option<String>, Option<String>, Option<String>, usize),
    /// List all versions of the objects of a bucket.
    ListVersions(String),
    /// Read an object.
    GetObject(String, String),
    /// Read one version of an object.
    GetVersion(String, String, String),
    /// Read the bytes of an object from one place to another, both included.
    GetRange(String, String, u64, u64),
    /// Write an object.
    PutObject(String, String, Object),
    /// Write an object where a condition holds of the one in place.
    PutObjectIf(String, String, Object, ObjectCondition),
    /// Replace an object's metadata where it still is as observed.
    ReplaceMetadata(String, String, Object, Object),
    /// Delete an object.
    DeleteObject(String, String),
    /// Delete an object where a condition holds of it.
    DeleteObjectIf(String, String, ObjectCondition),
    /// Delete one version of an object.
    DeleteVersion(String, String, String),
    /// Read when a container that is being deleted is to be gone.
    LoadDeletion(String),
    /// Record when a container that is being deleted is to be gone.
    SaveDeletion(String, Instant),
    /// Forget that a container is being deleted.
    DropDeletion(String),
    /// Look up a block session in memory.
    RecallSession(String),
    /// Read a block session.
    LoadSession(String),
    /// Record a block session.
    SaveSession(String, BlockSession),
    /// Keep a block session in memory.
    RememberSession(String, BlockSession),
    /// Drop a block session from memory.
    ForgetSession(String),
    /// Forget a recorded block session.
    DropSession(String),
    /// Look up committed blocks in memory.
    RecallBlocks(String),
    /// Read the blocks that a blob was committed from.
    LoadBlocks(String),
    /// Record the blocks that a blob was committed from.
    SaveBlocks(String, Blocks),
    /// Keep committed blocks in memory.
    RememberBlocks(String, Blocks),
    /// Take an upload session out of memory.
    TakeUpload(String),
    /// Read an upload session.
    LoadUpload(String),
    /// Record an upload session.
    SaveUpload(String, UploadSession),
    /// Keep an upload session in memory.
    RememberUpload(String, UploadSession),
    /// Forget a recorded upload session.
    DropUpload(String),
    /// Wait for so many milliseconds.
    Sleep(u64),
}

/// An effect over characters and bytes.
pub enum EffectView {
    GetBucket(Text),
    ListBuckets,
    CreateBucket(Text),
    DeleteBucket(Text),
    EnableVersioning(Text),
    SuspendVersioning(Text),
    UpdateBucketMetadata(Text, Pairs),
    ListObjects(Text, Option<Text>, Option<Text>, Option<Text>, usize),
    ListVersions(Text),
    GetObject(Text, Text),
    GetVersion(Text, Text, Text),
    GetRange(Text, Text, u64, u64),
    PutObject(Text, Text, ObjectView),
    PutObjectIf(Text, Text, ObjectView, ConditionView),
    ReplaceMetadata(Text, Text, ObjectView, ObjectView),
    DeleteObject(Text, Text),
    DeleteObjectIf(Text, Text, ConditionView),
    DeleteVersion(Text, Text, Text),
    LoadDeletion(Text),
    SaveDeletion(Text, Instant),
    DropDeletion(Text),
    RecallSession(Text),
    LoadSession(Text),
    SaveSession(Text, BlockSessionView),
    RememberSession(Text, BlockSessionView),
    ForgetSession(Text),
    DropSession(Text),
    RecallBlocks(Text),
    LoadBlocks(Text),
    SaveBlocks(Text, Seq<(Text, Seq<u8>)>),
    RememberBlocks(Text, Seq<(Text, Seq<u8>)>),
    TakeUpload(Text),
    LoadUpload(Text),
    SaveUpload(Text, UploadSessionView),
    RememberUpload(Text, UploadSessionView),
    DropUpload(Text),
    Sleep(u64),
}

impl View for Effect {
    type V = EffectView;

    open spec fn view(&self) -> EffectView {
        match self {
            Effect::GetBucket(a) => EffectView::GetBucket(a@),
            Effect::ListBuckets => EffectView::ListBuckets,
            Effect::CreateBucket(a) => EffectView::CreateBucket(a@),
            Effect::DeleteBucket(a) => EffectView::DeleteBucket(a@),
            Effect::EnableVersioning(a) => EffectView::EnableVersioning(a@),
            Effect::SuspendVersioning(a) => EffectView::SuspendVersioning(a@),
            Effect::UpdateBucketMetadata(a, b) => EffectView::UpdateBucketMetadata(a@, b@),
            Effect::ListObjects(a, b, c, d, e) => EffectView::ListObjects(
                a@,
                seen(*b),
                seen(*c),
                seen(*d),
                *e,
            ),
            Effect::ListVersions(a) => EffectView::ListVersions(a@),
            Effect::GetObject(a, b) => EffectView::GetObject(a@, b@),
            Effect::GetVersion(a, b, c) => EffectView::GetVersion(a@, b@, c@),
            Effect::GetRange(a, b, c, d) => EffectView::GetRange(a@, b@, *c, *d),
            Effect::PutObject(a, b, c) => EffectView::PutObject(a@, b@, c@),
            Effect::PutObjectIf(a, b, c, d) => EffectView::PutObjectIf(a@, b@, c@, d@),
            Effect::ReplaceMetadata(a, b, c, d) => EffectView::ReplaceMetadata(a@, b@, c@, d@),
            Effect::DeleteObject(a, b) => EffectView::DeleteObject(a@, b@),
            Effect::DeleteObjectIf(a, b, c) => EffectView::DeleteObjectIf(a@, b@, c@),
            Effect::DeleteVersion(a, b, c) => EffectView::DeleteVersion(a@, b@, c@),
            Effect::LoadDeletion(a) => EffectView::LoadDeletion(a@),
            Effect::SaveDeletion(a, b) => EffectView::SaveDeletion(a@, *b),
            Effect::DropDeletion(a) => EffectView::DropDeletion(a@),
            Effect::RecallSession(a) => EffectView::RecallSession(a@),
            Effect::LoadSession(a) => EffectView::LoadSession(a@),
            Effect::SaveSession(a, b) => EffectView::SaveSession(a@, b@),
            Effect::RememberSession(a, b) => EffectView::RememberSession(a@, b@),
            Effect::ForgetSession(a) => EffectView::ForgetSession(a@),
            Effect::DropSession(a) => EffectView::DropSession(a@),
            Effect::RecallBlocks(a) => EffectView::RecallBlocks(a@),
            Effect::LoadBlocks(a) => EffectView::LoadBlocks(a@),
            Effect::SaveBlocks(a, b) => EffectView::SaveBlocks(a@, b@),
            Effect::RememberBlocks(a, b) => EffectView::RememberBlocks(a@, b@),
            Effect::TakeUpload(a) => EffectView::TakeUpload(a@),
            Effect::LoadUpload(a) => EffectView::LoadUpload(a@),
            Effect::SaveUpload(a, b) => EffectView::SaveUpload(a@, b@),
            Effect::RememberUpload(a, b) => EffectView::RememberUpload(a@, b@),
            Effect::DropUpload(a) => EffectView::DropUpload(a@),
            Effect::Sleep(a) => EffectView::Sleep(*a),
        }
    }
}

impl EffectView {
    /// Whether the effect changes buckets or objects.
    pub open spec fn mutates(self) -> bool {
        match self {
            EffectView::CreateBucket(_) => true,
            EffectView::DeleteBucket(_) => true,
            EffectView::EnableVersioning(_) => true,
            EffectView::SuspendVersioning(_) => true,
            EffectView::UpdateBucketMetadata(_, _) => true,
            EffectView::PutObject(_, _, _) => true,
            EffectView::PutObjectIf(_, _, _, _) => true,
            EffectView::ReplaceMetadata(_, _, _, _) => true,
            EffectView::DeleteObject(_, _) => true,
            EffectView::DeleteObjectIf(_, _, _) => true,
            EffectView::DeleteVersion(_, _, _) => true,
            _ => false,
        }
    }
}

/// What came of an effect.
pub enum Outcome {
    /// It was done.
    Done(Result<(), StorageError>),
    /// It was done, or the condition did not hold.
    Flag(Result<bool, StorageError>),
    /// A bucket.
    Bucket(Result<Bucket, StorageError>),
    /// All buckets.
    Buckets(Result<Buckets, StorageError>),
    /// A page of a listing.
    Page(Result<Page, StorageError>),
    /// Versions of objects.
    Versions(Result<Versions, StorageError>),
    /// An object.
    Object(Result<Object, StorageError>),
    /// Part of an object.
    Payload(Result<Payload, StorageError>),
    /// When a container is to be gone.
    Deletion(Result<Deletion, StorageError>),
    /// A block session, where there is one.
    Session(Result<SessionSlot, StorageError>),
    /// Committed blocks, where there are any.
    Blocks(Result<BlocksSlot, StorageError>),
    /// An upload session, where there is one.
    Upload(Result<UploadSlot, StorageError>),
}

/// An outcome over characters and bytes.
pub enum OutcomeView {
    Done(Result<(), StorageErrorView>),
    Flag(Result<bool, StorageErrorView>),
    Bucket(Result<BucketView, StorageErrorView>),
    Buckets(Result<Seq<BucketView>, StorageErrorView>),
    Page(Result<PageView, StorageErrorView>),
    Versions(Result<Seq<ObjectView>, StorageErrorView>),
    Object(Result<ObjectView, StorageErrorView>),
    Payload(Result<PayloadView, StorageErrorView>),
    Deletion(Result<Option<Instant>, StorageErrorView>),
    Session(Result<Option<BlockSessionView>, StorageErrorView>),
    Blocks(Result<Option<Seq<(Text, Seq<u8>)>>, StorageErrorView>),
    Upload(Result<Option<UploadSessionView>, StorageErrorView>),
}

impl View for Outcome {
    type V = OutcomeView;

    open spec fn view(&self) -> OutcomeView {
        match self {
            Outcome::Done(result) => OutcomeView::Done(settled(*result)),
            Outcome::Flag(result) => OutcomeView::Flag(settled(*result)),
            Outcome::Bucket(result) => OutcomeView::Bucket(settled(*result)),
            Outcome::Buckets(result) => OutcomeView::Buckets(settled(*result)),
            Outcome::Page(result) => OutcomeView::Page(settled(*result)),
            Outcome::Versions(result) => OutcomeView::Versions(settled(*result)),
            Outcome::Object(result) => OutcomeView::Object(settled(*result)),
            Outcome::Payload(result) => OutcomeView::Payload(settled(*result)),
            Outcome::Deletion(result) => OutcomeView::Deletion(settled(*result)),
            Outcome::Session(result) => OutcomeView::Session(settled(*result)),
            Outcome::Blocks(result) => OutcomeView::Blocks(settled(*result)),
            Outcome::Upload(result) => OutcomeView::Upload(settled(*result)),
        }
    }
}

/// What to do next about a request.
pub enum Step {
    /// Ask this, and put what came of it at the end of the tape.
    Perform(Effect),
    /// Answer with this.
    Reply(Response),
    /// Give up, with a description.
    Fail(String),
}

/// A step over characters and bytes.
pub enum StepView {
    Perform(EffectView),
    Reply(ResponseView),
    Fail(Text),
}

impl View for Step {
    type V = StepView;

    open spec fn view(&self) -> StepView {
        match self {
            Step::Perform(effect) => StepView::Perform(effect@),
            Step::Reply(response) => StepView::Reply(response@),
            Step::Fail(message) => StepView::Fail(message@),
        }
    }
}

impl StepView {
    /// Whether the step leaves buckets and objects as they are.
    pub open spec fn is_quiet(self) -> bool {
        self matches StepView::Perform(effect) ==> !effect.mutates()
    }

    /// Whether the step is the refusal of the request.
    pub open spec fn is_refusal(self) -> bool {
        self matches StepView::Reply(response) && response.status >= 400
    }
}

/// The outcomes of what was asked for a request, from some place on.
#[derive(Clone, Copy)]
pub struct Tape<'a> {
    pub outcomes: &'a Vec<Outcome>,
    pub at: usize,
}

/// A tape over characters and bytes.
pub type TapeView = Seq<OutcomeView>;

impl<'a> View for Tape<'a> {
    type V = Seq<OutcomeView>;

    open spec fn view(&self) -> Seq<OutcomeView> {
        if self.at <= self.outcomes@.len() {
            Seq::new(
                (self.outcomes@.len() - self.at) as nat,
                |i: int| self.outcomes@[self.at + i]@,
            )
        } else {
            Seq::empty()
        }
    }
}

impl<'a> Tape<'a> {
    /// The tape of all outcomes.
    pub fn new(outcomes: &'a Vec<Outcome>) -> (r: Tape<'a>)
        ensures
            r@ == each(outcomes@),
    {
        let r = Tape { outcomes, at: 0 };
        assert(r@ =~= each(outcomes@));
        r
    }

    /// The next outcome and the tape behind it.
    pub fn next(self) -> (r: Option<(&'a Outcome, Tape<'a>)>)
        ensures
            r is Some <==> self@.len() > 0,
            r matches Some(n) ==> n.0@ == self@[0] && n.1@ == self@.skip(1),
    {
        if self.at < self.outcomes.len() {
            let rest = Tape { outcomes: self.outcomes, at: self.at + 1 };
            assert(rest@ =~= self@.skip(1));
            Some((&self.outcomes[self.at], rest))
        } else {
            None
        }
    }
}

/// A type of answers.
pub trait Answer: View + Sized {
    spec fn answered(outcome: OutcomeView) -> Option<Result<Self::V, StorageErrorView>>;

    fn answer<'a>(outcome: &'a Outcome) -> (r: Option<&'a Result<Self, StorageError>>)
        ensures
            r is Some <==> Self::answered(outcome@) is Some,
            r matches Some(result) ==> Self::answered(outcome@) == Some(settled(*result)),
    ;
}

impl Answer for () {
    open spec fn answered(outcome: OutcomeView) -> Option<Result<(), StorageErrorView>> {
        match outcome {
            OutcomeView::Done(result) => Some(result),
            _ => None,
        }
    }

    fn answer<'a>(outcome: &'a Outcome) -> (r: Option<&'a Result<Self, StorageError>>) {
        match outcome {
            Outcome::Done(result) => Some(result),
            _ => None,
        }
    }
}

impl Answer for bool {
    open spec fn answered(outcome: OutcomeView) -> Option<Result<bool, StorageErrorView>> {
        match outcome {
            OutcomeView::Flag(result) => Some(result),
            _ => None,
        }
    }

    fn answer<'a>(outcome: &'a Outcome) -> (r: Option<&'a Result<Self, StorageError>>) {
        match outcome {
            Outcome::Flag(result) => Some(result),
            _ => None,
        }
    }
}

impl Answer for Bucket {
    open spec fn answered(outcome: OutcomeView) -> Option<Result<BucketView, StorageErrorView>> {
        match outcome {
            OutcomeView::Bucket(result) => Some(result),
            _ => None,
        }
    }

    fn answer<'a>(outcome: &'a Outcome) -> (r: Option<&'a Result<Self, StorageError>>) {
        match outcome {
            Outcome::Bucket(result) => Some(result),
            _ => None,
        }
    }
}

impl Answer for Buckets {
    open spec fn answered(outcome: OutcomeView) -> Option<Result<Seq<BucketView>, StorageErrorView>> {
        match outcome {
            OutcomeView::Buckets(result) => Some(result),
            _ => None,
        }
    }

    fn answer<'a>(outcome: &'a Outcome) -> (r: Option<&'a Result<Self, StorageError>>) {
        match outcome {
            Outcome::Buckets(result) => Some(result),
            _ => None,
        }
    }
}

impl Answer for Page {
    open spec fn answered(outcome: OutcomeView) -> Option<Result<PageView, StorageErrorView>> {
        match outcome {
            OutcomeView::Page(result) => Some(result),
            _ => None,
        }
    }

    fn answer<'a>(outcome: &'a Outcome) -> (r: Option<&'a Result<Self, StorageError>>) {
        match outcome {
            Outcome::Page(result) => Some(result),
            _ => None,
        }
    }
}

impl Answer for Versions {
    open spec fn answered(outcome: OutcomeView) -> Option<Result<Seq<ObjectView>, StorageErrorView>> {
        match outcome {
            OutcomeView::Versions(result) => Some(result),
            _ => None,
        }
    }

    fn answer<'a>(outcome: &'a Outcome) -> (r: Option<&'a Result<Self, StorageError>>) {
        match outcome {
            Outcome::Versions(result) => Some(result),
            _ => None,
        }
    }
}

impl Answer for Object {
    open spec fn answered(outcome: OutcomeView) -> Option<Result<ObjectView, StorageErrorView>> {
        match outcome {
            OutcomeView::Object(result) => Some(result),
            _ => None,
        }
    }

    fn answer<'a>(outcome: &'a Outcome) -> (r: Option<&'a Result<Self, StorageError>>) {
        match outcome {
            Outcome::Object(result) => Some(result),
            _ => None,
        }
    }
}

impl Answer for Payload {
    open spec fn answered(outcome: OutcomeView) -> Option<Result<PayloadView, StorageErrorView>> {
        match outcome {
            OutcomeView::Payload(result) => Some(result),
            _ => None,
        }
    }

    fn answer<'a>(outcome: &'a Outcome) -> (r: Option<&'a Result<Self, StorageError>>) {
        match outcome {
            Outcome::Payload(result) => Some(result),
            _ => None,
        }
    }
}

impl Answer for Deletion {
    open spec fn answered(outcome: OutcomeView) -> Option<Result<Option<Instant>, StorageErrorView>> {
        match outcome {
            OutcomeView::Deletion(result) => Some(result),
            _ => None,
        }
    }

    fn answer<'a>(outcome: &'a Outcome) -> (r: Option<&'a Result<Self, StorageError>>) {
        match outcome {
            Outcome::Deletion(result) => Some(result),
            _ => None,
        }
    }
}

impl Answer for SessionSlot {
    open spec fn answered(outcome: OutcomeView) -> Option<
        Result<Option<BlockSessionView>, StorageErrorView>,
    > {
        match outcome {
            OutcomeView::Session(result) => Some(result),
            _ => None,
        }
    }

    fn answer<'a>(outcome: &'a Outcome) -> (r: Option<&'a Result<Self, StorageError>>) {
        match outcome {
            Outcome::Session(result) => Some(result),
            _ => None,
        }
    }
}

impl Answer for BlocksSlot {
    open spec fn answered(outcome: OutcomeView) -> Option<
        Result<Option<Seq<(Text, Seq<u8>)>>, StorageErrorView>,
    > {
        match outcome {
            OutcomeView::Blocks(result) => Some(result),
            _ => None,
        }
    }

    fn answer<'a>(outcome: &'a Outcome) -> (r: Option<&'a Result<Self, StorageError>>) {
        match outcome {
            Outcome::Blocks(result) => Some(result),
            _ => None,
        }
    }
}

impl Answer for UploadSlot {
    open spec fn answered(outcome: OutcomeView) -> Option<
        Result<Option<UploadSessionView>, StorageErrorView>,
    > {
        match outcome {
            OutcomeView::Upload(result) => Some(result),
            _ => None,
        }
    }

    fn answer<'a>(outcome: &'a Outcome) -> (r: Option<&'a Result<Self, StorageError>>) {
        match outcome {
            Outcome::Upload(result) => Some(result),
            _ => None,
        }
    }
}

/// What became of a question: the handler has to stop here, or the answer is there.
pub enum Asked<'a, T> {
    Halt(Step),
    Got(&'a Result<T, StorageError>, Tape<'a>),
}

/// A question over views.
pub enum AskedView<V> {
    Halt(StepView),
    Got(Result<V, StorageErrorView>, Seq<OutcomeView>),
}

impl<'a, T: View> View for Asked<'a, T> {
    type V = AskedView<T::V>;

    open spec fn view(&self) -> AskedView<T::V> {
        match self {
            Asked::Halt(step) => AskedView::Halt(step@),
            Asked::Got(result, tape) => AskedView::Got(settled(**result), tape@),
        }
    }
}

/// The first answer on the tape. Where the tape has ended, the handler stops to have
/// the effect performed; an answer of another type fails the request.
pub open spec fn asked<T: Answer>(tape: Seq<OutcomeView>, effect: EffectView) -> AskedView<T::V> {
    if tape.len() == 0 {
        AskedView::Halt(StepView::Perform(effect))
    } else {
        match T::answered(tape[0]) {
            Some(result) => AskedView::Got(result, tape.skip(1)),
            None => AskedView::Halt(StepView::Fail("Storage answered another question"@)),
        }
    }
}

pub fn ask<'a, T: Answer>(tape: Tape<'a>, effect: Effect) -> (r: Asked<'a, T>)
    ensures
        r@ == asked::<T>(tape@, effect@),
{
    match tape.next() {
        None => Asked::Halt(Step::Perform(effect)),
        Some((outcome, rest)) => match T::answer(outcome) {
            Some(result) => Asked::Got(result, rest),
            None => Asked::Halt(Step::Fail("Storage answered another question".to_owned())),
        },
    }
}

/// What became of a question whose failure fails the request.
pub enum Known<'a, T> {
    Halt(Step),
    Got(&'a T, Tape<'a>),
}

/// Such a question over views.
pub enum KnownView<V> {
    Halt(StepView),
    Got(V, Seq<OutcomeView>),
}

impl<'a, T: View> View for Known<'a, T> {
    type V = KnownView<T::V>;

    open spec fn view(&self) -> KnownView<T::V> {
        match self {
            Known::Halt(step) => KnownView::Halt(step@),
            Known::Got(value, tape) => KnownView::Got(value@, tape@),
        }
    }
}

/// What became of a series of questions: the handler has to stop, or it has come to a value.
pub enum Gained<'a, T> {
    Halt(Step),
    Got(T, Tape<'a>),
}

impl<'a, T: View> View for Gained<'a, T> {
    type V = KnownView<T::V>;

    open spec fn view(&self) -> KnownView<T::V> {
        match self {
            Gained::Halt(step) => KnownView::Halt(step@),
            Gained::Got(value, tape) => KnownView::Got(value@, tape@),
        }
    }
}

/// The first answer on the tape, which must be no failure.
pub open spec fn known<T: Answer>(tape: Seq<OutcomeView>, effect: EffectView) -> KnownView<T::V> {
    match asked::<T>(tape, effect) {
        AskedView::Halt(step) => KnownView::Halt(step),
        AskedView::Got(Ok(value), rest) => KnownView::Got(value, rest),
        AskedView::Got(Err(error), rest) => KnownView::Halt(StepView::Fail(error.message)),
    }
}

pub fn require<'a, T: Answer>(tape: Tape<'a>, effect: Effect) -> (r: Known<'a, T>)
    ensures
        r@ == known::<T>(tape@, effect@),
{
    match ask::<T>(tape, effect) {
        Asked::Halt(step) => Known::Halt(step),
        Asked::Got(Ok(value), rest) => Known::Got(value, rest),
        Asked::Got(Err(error), rest) => Known::Halt(Step::Fail(error.message.clone())),
    }
}

/// An answer, where there is one.
pub struct Perhaps<'a, T> {
    pub value: Option<&'a T>,
}

impl<'a, T: View> View for Perhaps<'a, T> {
    type V = Option<T::V>;

    open spec fn view(&self) -> Option<T::V> {
        seen(self.value)
    }
}

/// The first answer on the tape, where a failure stands for having none.
pub open spec fn perhaps<T: Answer>(tape: Seq<OutcomeView>, effect: EffectView) -> KnownView<
    Option<T::V>,
> {
    match asked::<T>(tape, effect) {
        AskedView::Halt(step) => KnownView::Halt(step),
        AskedView::Got(Ok(value), rest) => KnownView::Got(Some(value), rest),
        AskedView::Got(Err(_), rest) => KnownView::Got(None, rest),
    }
}

pub fn try_ask<'a, T: Answer>(tape: Tape<'a>, effect: Effect) -> (r: Gained<'a, Perhaps<'a, T>>)
    ensures
        r@ == perhaps::<T>(tape@, effect@),
{
    match ask::<T>(tape, effect) {
        Asked::Halt(step) => Gained::Halt(step),
        Asked::Got(Ok(value), rest) => Gained::Got(Perhaps { value: Some(value) }, rest),
        Asked::Got(Err(_), rest) => Gained::Got(Perhaps { value: None }, rest),
    }
}

} // verus!
