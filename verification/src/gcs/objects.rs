//! Objects: how they are written, retained, read and described.

use vstd::prelude::*;
use vstd::string::*;
use crate::azure::AzureBlobAdapter;
use crate::azure::basics::range_of;
use crate::azure::blobs::content_range;
use crate::clock::{Instant, Stamp};
use crate::gcs::GcsAdapter;
use crate::gcs::basics::{
    error_response, gcs_updated, generation, is_retained, json_etag, json_reply, json_response,
    metadata_with_gcs_state, metageneration, next_generation, object_response, public_metadata,
    refuse, GCS_CRC32C_KEY, GCS_GENERATION_KEY,
};
use crate::gcs::checks::{encoded_crc32c, generation_condition};
use crate::http::{Context, ContextView, Response};
use crate::json::{Fields, Json, JsonView};
use crate::number::{decimal, show};
use crate::store::{
    known, new_object, perhaps, require, try_ask, Bucket, ConditionView, Effect, EffectView, Gained,
    Known, KnownView, Object, ObjectCondition, ObjectView, Payload, Step, StepView, Tape, TapeView,
};
use crate::table::{get, get_text, with, Table};
use crate::text::{copy_bytes, or_text, same};
use crate::views::{seen, Pairs, Text};

verus! {

// ---------------------------------------------------------------------------
// Retention

/// Whether an object of a bucket is too young to be replaced or deleted.
pub open spec fn object_retained(now: Instant, bucket: Text, blob: ObjectView, tape: TapeView)
    -> KnownView<bool> {
    match perhaps::<Bucket>(tape, EffectView::GetBucket(bucket)) {
        KnownView::Halt(step) => KnownView::Halt(step),
        KnownView::Got(found, tape) => KnownView::Got(is_retained(now, found, blob), tape),
    }
}

/// Whether the object of a name is too young to be replaced or deleted.
pub open spec fn existing_retained(now: Instant, bucket: Text, key: Text, tape: TapeView)
    -> KnownView<bool> {
    match perhaps::<Object>(tape, EffectView::GetObject(bucket, key)) {
        KnownView::Halt(step) => KnownView::Halt(step),
        KnownView::Got(None, tape) => KnownView::Got(false, tape),
        KnownView::Got(Some(blob), tape) => object_retained(now, bucket, blob, tape),
    }
}

// ---------------------------------------------------------------------------
// Writing

/// What is to be written, and which generation must or must not be in place.
pub struct BlobWrite {
    pub data: Vec<u8>,
    pub content_type: String,
    pub metadata: Table<String>,
    pub expected: Option<String>,
    pub rejected: Option<String>,
}

/// A write over characters and bytes.
pub struct BlobWriteView {
    pub data: Seq<u8>,
    pub content_type: Text,
    pub metadata: Pairs,
    pub expected: Option<Text>,
    pub rejected: Option<Text>,
}

impl View for BlobWrite {
    type V = BlobWriteView;

    open spec fn view(&self) -> BlobWriteView {
        BlobWriteView {
            data: self.data@,
            content_type: self.content_type@,
            metadata: self.metadata@,
            expected: seen(self.expected),
            rejected: seen(self.rejected),
        }
    }
}

/// What became of a write.
pub enum BlobWriteOutcome<'a> {
    Stored(&'a Object),
    PreconditionFailed,
    RetentionPolicyNotMet,
}

/// What became of a write, over characters and bytes.
pub enum WrittenView {
    Stored(ObjectView),
    PreconditionFailed,
    RetentionPolicyNotMet,
}

impl<'a> View for BlobWriteOutcome<'a> {
    type V = WrittenView;

    open spec fn view(&self) -> WrittenView {
        match self {
            BlobWriteOutcome::Stored(object) => WrittenView::Stored(object@),
            BlobWriteOutcome::PreconditionFailed => WrittenView::PreconditionFailed,
            BlobWriteOutcome::RetentionPolicyNotMet => WrittenView::RetentionPolicyNotMet,
        }
    }
}

/// The object that a write makes in place of another, if any.
pub open spec fn written_object(
    now: Instant,
    key: Text,
    data: Seq<u8>,
    content_type: Text,
    metadata: Pairs,
    existing: Option<ObjectView>,
) -> ObjectView {
    let object = new_object(
        key,
        data,
        content_type,
        metadata_with_gcs_state(metadata, next_generation(now, existing), "1"@, now, None),
        now,
    );
    ObjectView {
        provider_metadata: with(object.provider_metadata, GCS_CRC32C_KEY@, encoded_crc32c(data)),
        ..object
    }
}

/// Under which condition a write over another object, if any, happens: none where it always
/// does; an empty result where it never can.
pub open spec fn write_condition(
    expected: Option<Text>,
    rejected: Option<Text>,
    existing: Option<ObjectView>,
) -> Option<Option<ConditionView>> {
    match (expected, rejected) {
        (None, None) => Some(None),
        (Some(expected), None) => Some(Some(generation_condition(existing, expected))),
        (None, Some(rejected)) => match existing {
            Some(blob) => if get(blob.metadata, GCS_GENERATION_KEY@) is None && rejected
                == generation(blob) {
                None
            } else {
                Some(Some(ConditionView::MetadataNot(GCS_GENERATION_KEY@, rejected)))
            },
            None => None,
        },
        (Some(_), Some(_)) => None,
    }
}

/// Writes an object where its preconditions hold and no retention forbids it.
pub open spec fn put_blob_with_generation_match(
    now: Instant,
    bucket: Text,
    key: Text,
    write: BlobWriteView,
    tape: TapeView,
) -> KnownView<WrittenView> {
    match perhaps::<Object>(tape, EffectView::GetObject(bucket, key)) {
        KnownView::Halt(step) => KnownView::Halt(step),
        KnownView::Got(None, tape) => put_blob_over(now, bucket, key, write, None, tape),
        KnownView::Got(Some(existing), tape) => match object_retained(
            now,
            bucket,
            existing,
            tape,
        ) {
            KnownView::Halt(step) => KnownView::Halt(step),
            KnownView::Got(true, tape) => KnownView::Got(WrittenView::RetentionPolicyNotMet, tape),
            KnownView::Got(false, tape) => put_blob_over(
                now,
                bucket,
                key,
                write,
                Some(existing),
                tape,
            ),
        },
    }
}

/// Writes an object over another, if any, where its preconditions hold.
pub open spec fn put_blob_over(
    now: Instant,
    bucket: Text,
    key: Text,
    write: BlobWriteView,
    existing: Option<ObjectView>,
    tape: TapeView,
) -> KnownView<WrittenView> {
    let object = written_object(
        now,
        key,
        write.data,
        write.content_type,
        write.metadata,
        existing,
    );
    match write_condition(write.expected, write.rejected, existing) {
        None => KnownView::Got(WrittenView::PreconditionFailed, tape),
        Some(None) => match known::<()>(tape, EffectView::PutObject(bucket, key, object)) {
            KnownView::Halt(step) => KnownView::Halt(step),
            KnownView::Got(_, tape) => stored_object(bucket, key, tape),
        },
        Some(Some(condition)) => match known::<bool>(
            tape,
            EffectView::PutObjectIf(bucket, key, object, condition),
        ) {
            KnownView::Halt(step) => KnownView::Halt(step),
            KnownView::Got(false, tape) => KnownView::Got(WrittenView::PreconditionFailed, tape),
            KnownView::Got(true, tape) => stored_object(bucket, key, tape),
        },
    }
}

pub open spec fn stored_object(bucket: Text, key: Text, tape: TapeView) -> KnownView<WrittenView> {
    match known::<Object>(tape, EffectView::GetObject(bucket, key)) {
        KnownView::Halt(step) => KnownView::Halt(step),
        KnownView::Got(stored, tape) => KnownView::Got(WrittenView::Stored(stored), tape),
    }
}

// ---------------------------------------------------------------------------
// Reading

/// The reply with the content of an object, or with part of it.
pub open spec fn media_response(
    cx: ContextView,
    bucket: Text,
    key: Text,
    blob: ObjectView,
    tape: TapeView,
) -> StepView {
    match cx.req.header("range"@) {
        Some(range) => match range_of(range, blob.size as int) {
            Some((start, end)) if end <= usize::MAX => match known::<Payload>(
                tape,
                EffectView::GetRange(bucket, key, start as u64, end as u64),
            ) {
                KnownView::Halt(step) => step,
                KnownView::Got(payload, _) => StepView::Reply(
                    object_response(
                        cx.stamp,
                        206,
                        payload.object,
                        payload.data.len() as int,
                        Some(content_range(start, end, blob.size as int)),
                    ).bytes(payload.data),
                ),
            },
            _ => StepView::Reply(
                error_response(
                    cx.stamp,
                    416,
                    "InvalidRange"@,
                    "The requested range is not satisfiable"@,
                ),
            ),
        },
        None => if blob.size > usize::MAX {
            StepView::Fail("GCS object is too large for this platform"@)
        } else {
            StepView::Reply(
                object_response(cx.stamp, 200, blob, blob.size as int, None).bytes(blob.data),
            )
        },
    }
}

// ---------------------------------------------------------------------------
// Describing

/// A table of texts as an object.
pub open spec fn pairs_json(pairs: Pairs) -> JsonView {
    JsonView::Object(Seq::new(pairs.len(), |i: int| (pairs[i].0, JsonView::Text(pairs[i].1))))
}

/// What the JSON API tells of an object, in a listing as after a read or a write.
pub open spec fn json_object_metadata(bucket: Text, blob: ObjectView) -> JsonView {
    JsonView::Object(
        seq![
            ("kind"@, JsonView::Text("storage#object"@)),
            ("name"@, JsonView::Text(blob.key)),
            ("bucket"@, JsonView::Text(bucket)),
            ("size"@, JsonView::Text(decimal(blob.size as int))),
            ("crc32c"@, JsonView::Text(object_crc32c(blob))),
            ("etag"@, JsonView::Text(json_etag(blob.metadata, blob.etag))),
            ("generation"@, JsonView::Text(generation(blob))),
            ("metageneration"@, JsonView::Text(metageneration(blob))),
            ("updated"@, JsonView::Text(gcs_updated(blob.metadata, blob.last_modified))),
            ("contentType"@, JsonView::Text(blob.content_type)),
            ("metadata"@, pairs_json(public_metadata(blob.metadata))),
        ],
    )
}

/// The checksum of an object: the one that is stored with it, or else that of its content.
pub open spec fn object_crc32c(blob: ObjectView) -> Text {
    or_text(get(blob.provider_metadata, GCS_CRC32C_KEY@), encoded_crc32c(blob.data))
}

impl GcsAdapter {
    pub fn retained<'a>(now: &Instant, bucket: &str, blob: &Object, tape: Tape<'a>) -> (r: Gained<
        'a,
        bool,
    >)
        ensures
            r@ == object_retained(*now, bucket@, blob@, tape@),
    {
        match try_ask::<Bucket>(tape, Effect::GetBucket(bucket.to_owned())) {
            Gained::Halt(step) => Gained::Halt(step),
            Gained::Got(found, tape) => Gained::Got(
                Self::object_is_retained(now, found.value, blob),
                tape,
            ),
        }
    }

    pub fn existing_object_is_retained<'a>(now: &Instant, bucket: &str, key: &str, tape: Tape<'a>)
        -> (r: Gained<'a, bool>)
        ensures
            r@ == existing_retained(*now, bucket@, key@, tape@),
    {
        let (found, tape) = match try_ask::<Object>(
            tape,
            Effect::GetObject(bucket.to_owned(), key.to_owned()),
        ) {
            Gained::Halt(step) => return Gained::Halt(step),
            Gained::Got(found, tape) => (found.value, tape),
        };
        match found {
            None => Gained::Got(false, tape),
            Some(blob) => Self::retained(now, bucket, blob, tape),
        }
    }

    /// The object that a write makes in place of another, if any.
    pub fn written_object(
        now: &Instant,
        key: &str,
        data: Vec<u8>,
        content_type: String,
        metadata: &Table<String>,
        existing: Option<&Object>,
    ) -> (r: Object)
        ensures
            r@ == written_object(
                *now,
                key@,
                data@,
                content_type@,
                metadata@,
                seen(existing),
            ),
    {
        let state = Self::metadata_with_gcs_state(
            metadata,
            Self::next_generation(now, existing),
            "1".to_owned(),
            now,
            None,
        );
        let crc = Self::encoded_crc32c(data.as_slice());
        let mut object = Object::new_with_metadata(
            key.to_owned(),
            data,
            content_type,
            state,
            *now,
        );
        object.provider_metadata.insert(GCS_CRC32C_KEY, crc);
        object
    }

    /// Under which condition a write over another object, if any, happens.
    pub fn write_condition(
        expected: &Option<String>,
        rejected: &Option<String>,
        existing: Option<&Object>,
    ) -> (r: Option<Option<ObjectCondition>>)
        ensures
            match (r, write_condition(seen(*expected), seen(*rejected), seen(existing))) {
                (None, None) => true,
                (Some(condition), Some(wanted)) => seen(condition) == wanted,
                _ => false,
            },
    {
        match (expected, rejected) {
            (None, None) => Some(None),
            (Some(expected), None) => Some(Some(Self::generation_condition(existing, expected))),
            (None, Some(rejected)) => match existing {
                Some(blob) => if !blob.metadata.has(GCS_GENERATION_KEY) && same(
                    rejected,
                    &Self::generation(blob),
                ) {
                    None
                } else {
                    Some(
                        Some(
                            ObjectCondition::MetadataNot(
                                GCS_GENERATION_KEY.to_owned(),
                                rejected.clone(),
                            ),
                        ),
                    )
                },
                None => None,
            },
            (Some(_), Some(_)) => None,
        }
    }

    pub fn put_blob_with_generation_match<'a>(
        now: &Instant,
        bucket: &str,
        key: &str,
        write: &BlobWrite,
        tape: Tape<'a>,
    ) -> (r: Gained<'a, BlobWriteOutcome<'a>>)
        ensures
            r@ == put_blob_with_generation_match(*now, bucket@, key@, write@, tape@),
    {
        let (existing, tape) = match try_ask::<Object>(
            tape,
            Effect::GetObject(bucket.to_owned(), key.to_owned()),
        ) {
            Gained::Halt(step) => return Gained::Halt(step),
            Gained::Got(found, tape) => (found.value, tape),
        };
        let tape = match existing {
            None => tape,
            Some(blob) => match Self::retained(now, bucket, blob, tape) {
                Gained::Halt(step) => return Gained::Halt(step),
                Gained::Got(retained, tape) => {
                    if retained {
                        return Gained::Got(BlobWriteOutcome::RetentionPolicyNotMet, tape);
                    }
                    tape
                },
            },
        };
        let object = Self::written_object(
            now,
            key,
            copy_bytes(write.data.as_slice()),
            write.content_type.clone(),
            &write.metadata,
            existing,
        );
        let condition = match Self::write_condition(&write.expected, &write.rejected, existing) {
            Some(condition) => condition,
            None => return Gained::Got(BlobWriteOutcome::PreconditionFailed, tape),
        };
        let tape = match condition {
            None => match require::<()>(
                tape,
                Effect::PutObject(bucket.to_owned(), key.to_owned(), object),
            ) {
                Known::Halt(step) => return Gained::Halt(step),
                Known::Got(_, tape) => tape,
            },
            Some(condition) => match require::<bool>(
                tape,
                Effect::PutObjectIf(bucket.to_owned(), key.to_owned(), object, condition),
            ) {
                Known::Halt(step) => return Gained::Halt(step),
                Known::Got(written, tape) => {
                    if !*written {
                        return Gained::Got(BlobWriteOutcome::PreconditionFailed, tape);
                    }
                    tape
                },
            },
        };
        match require::<Object>(tape, Effect::GetObject(bucket.to_owned(), key.to_owned())) {
            Known::Halt(step) => Gained::Halt(step),
            Known::Got(stored, tape) => Gained::Got(BlobWriteOutcome::Stored(stored), tape),
        }
    }

    pub fn object_media_response_for_blob(
        cx: &Context,
        bucket: &str,
        key: &str,
        blob: &Object,
        tape: Tape<'_>,
    ) -> (r: Step)
        ensures
            r@ == media_response(cx@, bucket@, key@, blob@, tape@),
    {
        let range = match cx.req.header("range") {
            Some(range) => range,
            None => {
                return match AzureBlobAdapter::response_body_len(blob.size) {
                    Some(length) => Step::Reply(
                        Self::object_response(&cx.stamp, 200, blob, length, None).bytes(
                            copy_bytes(blob.data.as_slice()),
                        ),
                    ),
                    None => Step::Fail("GCS object is too large for this platform".to_owned()),
                };
            },
        };
        let (start, end) = match Self::parse_range_header(range, blob.size) {
            Some(span) => span,
            None => return Step::Reply(
                refuse(
                    &cx.stamp,
                    416,
                    "InvalidRange",
                    "The requested range is not satisfiable",
                ),
            ),
        };
        let effect = Effect::GetRange(
            bucket.to_owned(),
            key.to_owned(),
            start as u64,
            end as u64,
        );
        match require::<Payload>(tape, effect) {
            Known::Halt(step) => step,
            Known::Got(payload, _) => {
                let shown = AzureBlobAdapter::content_range(start, end, blob.size);
                Step::Reply(
                    Self::object_response(
                        &cx.stamp,
                        206,
                        &payload.object,
                        payload.data.len(),
                        Some(shown.as_str()),
                    ).bytes(copy_bytes(payload.data.as_slice())),
                )
            },
        }
    }

    fn pairs_json(pairs: &Table<String>) -> (r: Json)
        ensures
            r@ == pairs_json(pairs@),
    {
        let mut fields = Fields::new();
        let mut i: usize = 0;
        while i < pairs.entries.len()
            invariant
                i <= pairs.entries.len(),
                fields@ =~= pairs_json(pairs@)->Object_0.subrange(0, i as int),
            decreases pairs.entries.len() - i,
        {
            assert(pairs@[i as int] == pairs.entries@[i as int]@);
            fields = fields.text(&pairs.entries[i].0, &pairs.entries[i].1);
            i += 1;
        }
        assert(fields@ =~= pairs_json(pairs@)->Object_0);
        fields.object()
    }

    pub fn object_crc32c(blob: &Object) -> (r: String)
        ensures
            r@ == object_crc32c(blob@),
    {
        match get_text(&blob.provider_metadata, GCS_CRC32C_KEY) {
            Some(crc) => crc.to_owned(),
            None => Self::encoded_crc32c(blob.data.as_slice()),
        }
    }

    pub fn json_object_metadata(bucket: &str, blob: &Object) -> (r: Json)
        ensures
            r@ == json_object_metadata(bucket@, blob@),
    {
        let fields = Fields::new().text("kind", "storage#object").text("name", &blob.key).text(
            "bucket",
            bucket,
        ).text("size", &show(blob.size)).text("crc32c", &Self::object_crc32c(blob)).text(
            "etag",
            &Self::json_etag(&blob.metadata, &blob.etag),
        ).text("generation", &Self::generation(blob)).text(
            "metageneration",
            &Self::metageneration(blob),
        ).text("updated", &Self::gcs_updated(&blob.metadata, &blob.last_modified)).text(
            "contentType",
            &blob.content_type,
        ).with("metadata", Self::pairs_json(&Self::public_metadata(&blob.metadata)));
        assert(fields@ =~= json_object_metadata(bucket@, blob@)->Object_0);
        fields.object()
    }

    pub fn gcs_object_json_response(stamp: &Stamp, code: u16, bucket: &str, stored: &Object) -> (r:
        Response)
        ensures
            r@ == json_response(stamp@, code, json_object_metadata(bucket@, stored@)),
    {
        json_reply(stamp, code, Self::json_object_metadata(bucket, stored))
    }
}

} // verus!
