//! The JSON API for buckets and objects.

use vstd::prelude::*;
use vstd::string::*;
use crate::azure::basics::{GCS_RETENTION_SECONDS_KEY, GCS_SOFT_DELETE_SECONDS_KEY};
use crate::clock::{format_rfc3339, rfc3339_date, Instant, Stamp, StampView};
use crate::gcs::GcsAdapter;
use crate::gcs::auth::authorize;
use crate::gcs::basics::{
    decode_object_path, error_response, foreign_data_protection, foreign_json, gcs_updated,
    generation, json_bucket_not_found, json_error, json_not_found, json_reply, json_response,
    json_upload_error, metadata_with_gcs_state, public_metadata, refuse, refuse_foreign_json,
    refuse_json, refuse_json_bucket, refuse_json_object, refuse_retained_json, refuse_unimplemented,
    refuse_upload, reply, response, retention_not_met_json, segments, segments_of, unimplemented,
    GCS_METAGENERATION_KEY,
};
use crate::gcs::checks::{
    check_current_generation_selector, check_gcs_preconditions, generation_precondition_failed,
    invalid_json_mutation_headers, json_mutation_condition, page_token, token_marker,
    valid_bucket_name,
};
use crate::gcs::objects::{json_object_metadata, media_response, object_retained};
use crate::http::{Context, ContextView, Method, Request, RequestView, Response, ResponseView};
use crate::json::{
    array_view, field, json_parsed, object_view, parse_json, Fields, FieldsView, Json, JsonView,
};
use crate::number::{decimal, read_u64, read_unsigned, show, unsigned};
use crate::order::{first_of, keep, kept, sort, sorted, Filter, FilterView};
use crate::store::{
    ask, asked, known, perhaps, require, try_ask, Asked, AskedView, Bucket, BucketView, Buckets,
    Effect, EffectView, ErrorKind, Gained, Known, KnownView, Object, ObjectView, Page, Step,
    StepView, StorageError, StorageErrorView, Tape, TapeView,
};
use crate::table::{get, get_text, with, without, Copied, Table};
use crate::text::{
    cat, cat3, equals, join, joined, lend, lowercase, lowered, or_else, or_text, own, same,
};
use crate::views::{each, each_empty, each_push, seen, settled, Pairs, Text};

verus! {

pub open spec fn internal_json(stamp: StampView, message: Text) -> ResponseView {
    json_upload_error(stamp, 500, message)
}

/// The reply to a failure of storage about a bucket.
pub open spec fn bucket_failure(stamp: StampView, bucket: Text, error: StorageErrorView)
    -> ResponseView {
    if error.kind == ErrorKind::BucketNotFound {
        json_bucket_not_found(stamp, bucket)
    } else {
        internal_json(stamp, error.message)
    }
}

fn refuse_bucket_failure(stamp: &Stamp, bucket: &str, error: &StorageError) -> (r: Response)
    ensures
        r@ == bucket_failure(stamp@, bucket@, error@),
{
    if error.kind == ErrorKind::BucketNotFound {
        refuse_json_bucket(stamp, bucket)
    } else {
        refuse_upload(stamp, 500, &error.message)
    }
}

// ---------------------------------------------------------------------------
// Data protection of buckets

/// A number without a sign, as a number or as text.
pub open spec fn json_unsigned_integer(value: JsonView) -> Option<int> {
    match value {
        JsonView::Number(n) => Some(n as int),
        JsonView::Text(text) => unsigned(text, u64::MAX as int),
        _ => None,
    }
}

/// A field of a field.
pub open spec fn inner_field(json: JsonView, outer: Text, inner: Text) -> Option<JsonView> {
    match field(json, outer) {
        Some(value) => field(value, inner),
        None => None,
    }
}

pub open spec fn invalid_data_protection(stamp: StampView, message: Text) -> ResponseView {
    json_error(stamp, 400, "invalidArgument"@, message)
}

/// The refusal of a retention policy.
pub open spec fn retention_refusal(stamp: StampView, payload: JsonView) -> Option<ResponseView> {
    match field(payload, "retentionPolicy"@) {
        None => None,
        Some(policy) => if policy == JsonView::Null {
            None
        } else {
            match inner_field(payload, "retentionPolicy"@, "retentionPeriod"@) {
                Some(value) => match json_unsigned_integer(value) {
                    Some(period) => if period == 0 || period >= 3_155_760_000 {
                        Some(
                            invalid_data_protection(
                                stamp,
                                "retentionPolicy.retentionPeriod must be greater than 0 and less than 3155760000 seconds"@,
                            ),
                        )
                    } else {
                        None
                    },
                    None => Some(no_retention_period(stamp)),
                },
                None => Some(no_retention_period(stamp)),
            }
        },
    }
}

pub open spec fn no_retention_period(stamp: StampView) -> ResponseView {
    invalid_data_protection(
        stamp,
        "retentionPolicy.retentionPeriod must be an unsigned integer"@,
    )
}

/// The refusal of a soft-delete policy.
pub open spec fn soft_delete_refusal(stamp: StampView, payload: JsonView) -> Option<ResponseView> {
    match field(payload, "softDeletePolicy"@) {
        None => None,
        Some(_) => match inner_field(
            payload,
            "softDeletePolicy"@,
            "retentionDurationSeconds"@,
        ) {
            Some(value) => match json_unsigned_integer(value) {
                Some(duration) => if duration == 0 {
                    Some(
                        unimplemented(
                            stamp,
                            "Disabling an enabled soft-delete policy is not supported by this emulator surface"@,
                        ),
                    )
                } else if duration < 604_800 || duration >= 7_776_000 {
                    Some(
                        invalid_data_protection(
                            stamp,
                            "softDeletePolicy.retentionDurationSeconds must be at least 604800 and less than 7776000 seconds"@,
                        ),
                    )
                } else {
                    None
                },
                None => Some(no_soft_delete_period(stamp)),
            },
            None => Some(no_soft_delete_period(stamp)),
        },
    }
}

pub open spec fn no_soft_delete_period(stamp: StampView) -> ResponseView {
    invalid_data_protection(
        stamp,
        "softDeletePolicy.retentionDurationSeconds must be an unsigned integer"@,
    )
}

/// The refusal of the data protection that a bucket's metadata asks for.
pub open spec fn validate_bucket_data_protection(
    stamp: StampView,
    req: RequestView,
    payload: JsonView,
) -> Option<ResponseView> {
    if req.param("enableObjectRetention"@) is Some || field(payload, "objectRetention"@) is Some {
        Some(
            unimplemented(
                stamp,
                "Per-object retention configuration is not supported by this emulator surface"@,
            ),
        )
    } else if inner_field(payload, "retentionPolicy"@, "isLocked"@) is Some || inner_field(
        payload,
        "retentionPolicy"@,
        "effectiveTime"@,
    ) is Some {
        Some(
            unimplemented(
                stamp,
                "Bucket retention-policy lock and server-owned fields are not writable"@,
            ),
        )
    } else {
        match retention_refusal(stamp, payload) {
            Some(refusal) => Some(refusal),
            None => if inner_field(payload, "softDeletePolicy"@, "effectiveTime"@) is Some {
                Some(
                    unimplemented(
                        stamp,
                        "softDeletePolicy.effectiveTime is server-owned and is not writable"@,
                    ),
                )
            } else {
                soft_delete_refusal(stamp, payload)
            },
        }
    }
}

/// Whether metadata asks for this front door to protect the data of a bucket.
pub open spec fn bucket_data_protection_requested(payload: JsonView) -> bool {
    field(payload, "softDeletePolicy"@) is Some || (field(payload, "retentionPolicy"@) matches Some(
        policy,
    ) && policy != JsonView::Null)
}

/// The text of a text, or of a number without a sign.
pub open spec fn number_text(value: JsonView) -> Option<Text> {
    match value {
        JsonView::Text(text) => Some(text),
        JsonView::Number(n) => Some(decimal(n as int)),
        _ => None,
    }
}

/// The soft-delete duration that metadata asks for.
pub open spec fn soft_delete_seconds(payload: JsonView) -> Option<Text> {
    match inner_field(payload, "softDeletePolicy"@, "retentionDurationSeconds"@) {
        Some(value) => number_text(value),
        None => None,
    }
}

/// A bucket's metadata with the retention that other metadata asks for.
pub open spec fn with_retention(metadata: Pairs, payload: JsonView) -> Pairs {
    match field(payload, "retentionPolicy"@) {
        None => metadata,
        Some(policy) => if policy == JsonView::Null {
            without(metadata, GCS_RETENTION_SECONDS_KEY@)
        } else {
            match inner_field(payload, "retentionPolicy"@, "retentionPeriod"@) {
                Some(value) => match json_unsigned_integer(value) {
                    Some(seconds) => with(metadata, GCS_RETENTION_SECONDS_KEY@, decimal(seconds)),
                    None => metadata,
                },
                None => metadata,
            }
        },
    }
}

/// What became of several changes: stopped, done, or failed with a description.
pub enum AppliedView {
    Halt(StepView),
    Done(TapeView),
    Failed(Text, TapeView),
}

/// Protects the data of a bucket as metadata asks.
pub open spec fn apply_bucket_data_protection(bucket: Text, payload: JsonView, tape: TapeView)
    -> AppliedView {
    match asked::<Bucket>(tape, EffectView::GetBucket(bucket)) {
        AskedView::Halt(step) => AppliedView::Halt(step),
        AskedView::Got(Err(error), tape) => AppliedView::Failed(error.message, tape),
        AskedView::Got(Ok(found), tape) => match soft_delete_seconds(payload) {
            None => apply_metadata(bucket, with_retention(found.metadata, payload), tape),
            Some(seconds) => match asked::<()>(tape, EffectView::EnableVersioning(bucket)) {
                AskedView::Halt(step) => AppliedView::Halt(step),
                AskedView::Got(Err(error), tape) => AppliedView::Failed(error.message, tape),
                AskedView::Got(Ok(_), tape) => apply_metadata(
                    bucket,
                    with_retention(
                        with(found.metadata, GCS_SOFT_DELETE_SECONDS_KEY@, seconds),
                        payload,
                    ),
                    tape,
                ),
            },
        },
    }
}

pub open spec fn apply_metadata(bucket: Text, metadata: Pairs, tape: TapeView) -> AppliedView {
    match asked::<()>(tape, EffectView::UpdateBucketMetadata(bucket, metadata)) {
        AskedView::Halt(step) => AppliedView::Halt(step),
        AskedView::Got(Err(error), tape) => AppliedView::Failed(error.message, tape),
        AskedView::Got(Ok(_), tape) => AppliedView::Done(tape),
    }
}

// ---------------------------------------------------------------------------
// Buckets

/// An object of one text field, or null where there is no text.
pub open spec fn policy_json(name: Text, seconds: Option<Text>) -> JsonView {
    match seconds {
        Some(seconds) => JsonView::Object(seq![(name, JsonView::Text(seconds))]),
        None => JsonView::Null,
    }
}

/// What is told of a bucket.
pub open spec fn bucket_json(bucket: BucketView) -> JsonView {
    JsonView::Object(
        seq![
            ("kind"@, JsonView::Text("storage#bucket"@)),
            ("name"@, JsonView::Text(bucket.name)),
            (
                "timeCreated"@,
                JsonView::Text(rfc3339_date(bucket.created_at.secs, bucket.created_at.nanos)),
            ),
            (
                "softDeletePolicy"@,
                policy_json(
                    "retentionDurationSeconds"@,
                    get(bucket.metadata, GCS_SOFT_DELETE_SECONDS_KEY@),
                ),
            ),
            (
                "retentionPolicy"@,
                policy_json(
                    "retentionPeriod"@,
                    get(bucket.metadata, GCS_RETENTION_SECONDS_KEY@),
                ),
            ),
        ],
    )
}

/// How many items a listing shows at most.
pub open spec fn json_max_results(stamp: StampView, req: RequestView) -> Result<
    usize,
    ResponseView,
> {
    match req.param("maxResults"@) {
        None => Ok(1000),
        Some(raw) => match unsigned(raw, u32::MAX as int) {
            None => Err(
                json_error(
                    stamp,
                    400,
                    "invalidParameter"@,
                    "Invalid value for maxResults"@,
                ),
            ),
            Some(n) => Ok(
                if n < 1000 {
                    n as usize
                } else {
                    1000
                },
            ),
        },
    }
}

pub open spec fn invalid_page_token(stamp: StampView) -> ResponseView {
    json_error(stamp, 400, "invalidParameter"@, "Invalid pageToken"@)
}

/// The place from which a listing goes on, where its token is good.
pub open spec fn listing_marker(stamp: StampView, req: RequestView, kind: Text) -> Result<
    Option<Text>,
    ResponseView,
> {
    match req.param("pageToken"@) {
        None => Ok(None),
        Some(token) => match token_marker(kind, token) {
            Some(marker) => Ok(Some(marker)),
            None => Err(invalid_page_token(stamp)),
        },
    }
}

/// The buckets of a listing, in order.
pub open spec fn listed_buckets(req: RequestView, marker: Option<Text>, buckets: Seq<BucketView>)
    -> Seq<BucketView> {
    let under = kept::<Bucket>(buckets, FilterView::Under(or_text(req.param("prefix"@), ""@)));
    sorted::<Bucket>(
        match marker {
            Some(marker) => kept::<Bucket>(under, FilterView::After(marker)),
            None => under,
        },
    )
}

pub open spec fn bucket_items(buckets: Seq<BucketView>) -> Seq<JsonView> {
    Seq::new(
        buckets.len(),
        |i: int|
            JsonView::Object(
                seq![
                    ("name"@, JsonView::Text(buckets[i].name)),
                    (
                        "timeCreated"@,
                        JsonView::Text(
                            rfc3339_date(
                                buckets[i].created_at.secs,
                                buckets[i].created_at.nanos,
                            ),
                        ),
                    ),
                ],
            ),
    )
}

/// The name of the last bucket that is shown, where more are left out.
pub open spec fn last_bucket(buckets: Seq<BucketView>, n: int) -> Option<Text> {
    if buckets.len() > n {
        if n > 0 {
            Some(buckets[n - 1].name)
        } else {
            Some(""@)
        }
    } else {
        None
    }
}

/// Fields with one more, where there is a text for it.
pub open spec fn with_token(fields: FieldsView, token: Option<Text>) -> FieldsView {
    match token {
        Some(token) => fields.push(("nextPageToken"@, JsonView::Text(token))),
        None => fields,
    }
}

/// Lists the buckets.
pub open spec fn list_json_buckets(cx: ContextView, tape: TapeView) -> StepView {
    match listing_marker(cx.stamp, cx.req, "buckets"@) {
        Err(refusal) => StepView::Reply(refusal),
        Ok(marker) => match json_max_results(cx.stamp, cx.req) {
            Err(refusal) => StepView::Reply(refusal),
            Ok(max) => match known::<Buckets>(tape, EffectView::ListBuckets) {
                KnownView::Halt(step) => step,
                KnownView::Got(buckets, _) => {
                    let all = listed_buckets(cx.req, marker, buckets);
                    StepView::Reply(
                        json_response(
                            cx.stamp,
                            200,
                            JsonView::Object(
                                with_token(
                                    seq![
                                        ("kind"@, JsonView::Text("storage#buckets"@)),
                                        (
                                            "items"@,
                                            JsonView::Array(
                                                bucket_items(first_of(all, max as int)),
                                            ),
                                        ),
                                    ],
                                    match last_bucket(all, max as int) {
                                        Some(last) => Some(page_token("buckets"@, last)),
                                        None => None,
                                    },
                                ),
                            ),
                        ),
                    )
                },
            },
        },
    }
}

/// Gives up a creation: the bucket is deleted again.
pub open spec fn rollback_created_bucket(
    stamp: StampView,
    bucket: Text,
    error: Text,
    tape: TapeView,
) -> StepView {
    match asked::<()>(tape, EffectView::DeleteBucket(bucket)) {
        AskedView::Halt(step) => step,
        AskedView::Got(Ok(_), _) => StepView::Reply(internal_json(stamp, error)),
        AskedView::Got(Err(rollback), _) => StepView::Reply(
            internal_json(
                stamp,
                error + "; failed to roll back GCS bucket creation: "@ + rollback.message,
            ),
        ),
    }
}

/// Creates a bucket from a document that was read.
pub open spec fn create_bucket_from(
    cx: ContextView,
    parsed: Result<JsonView, Text>,
    tape: TapeView,
) -> StepView {
    match parsed {
        Err(error) => StepView::Reply(
            json_upload_error(cx.stamp, 400, "Invalid bucket metadata JSON: "@ + error),
        ),
        Ok(payload) => match validate_bucket_data_protection(cx.stamp, cx.req, payload) {
            Some(refusal) => StepView::Reply(refusal),
            None => match field(payload, "name"@) {
                Some(JsonView::Text(bucket)) => if valid_bucket_name(bucket) {
                    create_named_bucket(cx, bucket, payload, tape)
                } else {
                    StepView::Reply(
                        json_error(cx.stamp, 400, "invalidParameter"@, "Invalid bucket name"@),
                    )
                },
                _ => StepView::Reply(
                    json_upload_error(cx.stamp, 400, "Required parameter: name"@),
                ),
            },
        },
    }
}

pub open spec fn create_json_bucket(cx: ContextView, tape: TapeView) -> StepView {
    create_bucket_from(cx, json_parsed(cx.req.body), tape)
}

/// Creates a bucket and protects its data as metadata asks.
pub open spec fn create_named_bucket(
    cx: ContextView,
    bucket: Text,
    payload: JsonView,
    tape: TapeView,
) -> StepView {
    match asked::<Bucket>(tape, EffectView::CreateBucket(bucket)) {
        AskedView::Halt(step) => step,
        AskedView::Got(Err(error), _) => StepView::Reply(
            if error.kind == ErrorKind::BucketAlreadyExists {
                json_error(cx.stamp, 409, "conflict"@, "The requested bucket already exists"@)
            } else {
                internal_json(cx.stamp, error.message)
            },
        ),
        AskedView::Got(Ok(_), tape) => match apply_bucket_data_protection(bucket, payload, tape) {
            AppliedView::Halt(step) => step,
            AppliedView::Failed(error, tape) => rollback_created_bucket(
                cx.stamp,
                bucket,
                error,
                tape,
            ),
            AppliedView::Done(tape) => match asked::<Bucket>(tape, EffectView::GetBucket(bucket)) {
                AskedView::Halt(step) => step,
                AskedView::Got(Err(error), tape) => rollback_created_bucket(
                    cx.stamp,
                    bucket,
                    error.message,
                    tape,
                ),
                AskedView::Got(Ok(found), _) => StepView::Reply(
                    json_response(cx.stamp, 200, bucket_json(found)),
                ),
            },
        },
    }
}

/// Serves a request for all buckets.
pub open spec fn handle_json_bucket_collection(cx: ContextView, tape: TapeView) -> StepView {
    if cx.req.param("project"@) is None {
        StepView::Reply(
            json_error(cx.stamp, 400, "required"@, "Required parameter: project"@),
        )
    } else if cx.req.method == Method::Get {
        list_json_buckets(cx, tape)
    } else if cx.req.method == Method::Post {
        create_json_bucket(cx, tape)
    } else {
        StepView::Reply(
            json_upload_error(
                cx.stamp,
                405,
                "Unsupported GCS JSON API bucket collection operation"@,
            ),
        )
    }
}

/// Tells of a bucket.
pub open spec fn get_json_bucket(cx: ContextView, bucket: Text, tape: TapeView) -> StepView {
    match asked::<Bucket>(tape, EffectView::GetBucket(bucket)) {
        AskedView::Halt(step) => step,
        AskedView::Got(Ok(found), _) => StepView::Reply(
            json_response(cx.stamp, 200, bucket_json(found)),
        ),
        AskedView::Got(Err(error), _) => StepView::Reply(bucket_failure(cx.stamp, bucket, error)),
    }
}

/// Deletes a bucket.
pub open spec fn delete_json_bucket(cx: ContextView, bucket: Text, tape: TapeView) -> StepView {
    match perhaps::<Bucket>(tape, EffectView::GetBucket(bucket)) {
        KnownView::Halt(step) => step,
        KnownView::Got(found, tape) => if foreign_data_protection(found) {
            StepView::Reply(foreign_json(cx.stamp))
        } else {
            match asked::<()>(tape, EffectView::DeleteBucket(bucket)) {
                AskedView::Halt(step) => step,
                AskedView::Got(Ok(_), _) => StepView::Reply(response(cx.stamp, 204)),
                AskedView::Got(Err(error), _) => StepView::Reply(
                    if error.kind == ErrorKind::BucketNotEmpty {
                        json_error(cx.stamp, 409, "conflict"@, "The bucket is not empty"@)
                    } else {
                        bucket_failure(cx.stamp, bucket, error)
                    },
                ),
            }
        },
    }
}

/// Changes the data protection of a bucket.
pub open spec fn patch_json_bucket(cx: ContextView, bucket: Text, tape: TapeView) -> StepView {
    match asked::<Bucket>(tape, EffectView::GetBucket(bucket)) {
        AskedView::Halt(step) => step,
        AskedView::Got(result, tape) => if result is Err && result->Err_0.kind
            == ErrorKind::BucketNotFound {
            StepView::Reply(json_bucket_not_found(cx.stamp, bucket))
        } else {
            patch_bucket_from(cx, bucket, json_parsed(cx.req.body), tape)
        },
    }
}

/// Changes the data protection of a bucket as a document that was read asks.
pub open spec fn patch_bucket_from(
    cx: ContextView,
    bucket: Text,
    parsed: Result<JsonView, Text>,
    tape: TapeView,
) -> StepView {
    match parsed {
        Err(error) => StepView::Reply(
            json_upload_error(cx.stamp, 400, "Invalid bucket metadata JSON: "@ + error),
        ),
        Ok(payload) => match validate_bucket_data_protection(cx.stamp, cx.req, payload) {
            Some(refusal) => StepView::Reply(refusal),
            None => if bucket_data_protection_requested(payload) {
                match perhaps::<Bucket>(tape, EffectView::GetBucket(bucket)) {
                    KnownView::Halt(step) => step,
                    KnownView::Got(found, tape) => if foreign_data_protection(found) {
                        StepView::Reply(foreign_json(cx.stamp))
                    } else {
                        protect_json_bucket(cx, bucket, payload, tape)
                    },
                }
            } else {
                protect_json_bucket(cx, bucket, payload, tape)
            },
        },
    }
}

pub open spec fn protect_json_bucket(
    cx: ContextView,
    bucket: Text,
    payload: JsonView,
    tape: TapeView,
) -> StepView {
    match apply_bucket_data_protection(bucket, payload, tape) {
        AppliedView::Halt(step) => step,
        AppliedView::Failed(error, _) => StepView::Reply(internal_json(cx.stamp, error)),
        AppliedView::Done(tape) => get_json_bucket(cx, bucket, tape),
    }
}

/// Serves a request for a bucket.
pub open spec fn handle_json_bucket_item(cx: ContextView, bucket: Text, tape: TapeView)
    -> StepView {
    match cx.req.method {
        Method::Get => get_json_bucket(cx, bucket, tape),
        Method::Delete => delete_json_bucket(cx, bucket, tape),
        Method::Patch => patch_json_bucket(cx, bucket, tape),
        _ => StepView::Reply(
            json_upload_error(cx.stamp, 405, "Unsupported GCS JSON API bucket operation"@),
        ),
    }
}

// ---------------------------------------------------------------------------
// Objects

pub open spec fn object_items(bucket: Text, objects: Seq<ObjectView>) -> Seq<JsonView> {
    Seq::new(objects.len(), |i: int| json_object_metadata(bucket, objects[i]))
}

pub open spec fn text_items(texts: Seq<Text>) -> Seq<JsonView> {
    Seq::new(texts.len(), |i: int| JsonView::Text(texts[i]))
}

/// The place from which a listing goes on behind a page, where there is more.
pub open spec fn next_place(max: int, page: crate::store::PageView) -> Option<Text> {
    if max == 0 && (page.prefixes.len() > 0 || page.objects.len() > 0) {
        Some(""@)
    } else if page.truncated {
        page.next_marker
    } else {
        None
    }
}

/// A page of a listing of objects; one of no items shows none.
pub open spec fn objects_json(bucket: Text, max: int, page: crate::store::PageView) -> JsonView {
    let (objects, prefixes) = if max == 0 {
        (Seq::empty(), Seq::empty())
    } else {
        (page.objects, page.prefixes)
    };
    JsonView::Object(
        with_token(
            seq![
                ("kind"@, JsonView::Text("storage#objects"@)),
                ("items"@, JsonView::Array(object_items(bucket, objects))),
                ("prefixes"@, JsonView::Array(text_items(prefixes))),
            ],
            match next_place(max, page) {
                Some(place) => Some(page_token("objects"@, place)),
                None => None,
            },
        ),
    )
}

/// Lists the objects of a bucket.
pub open spec fn list_json_objects(cx: ContextView, bucket: Text, tape: TapeView) -> StepView {
    match listing_marker(cx.stamp, cx.req, "objects"@) {
        Err(refusal) => StepView::Reply(refusal),
        Ok(marker) => match json_max_results(cx.stamp, cx.req) {
            Err(refusal) => StepView::Reply(refusal),
            Ok(max) => match asked::<Page>(
                tape,
                EffectView::ListObjects(
                    bucket,
                    cx.req.param("prefix"@),
                    cx.req.param("delimiter"@),
                    marker,
                    if max > 1 {
                        max
                    } else {
                        1
                    },
                ),
            ) {
                AskedView::Halt(step) => step,
                AskedView::Got(Err(error), _) => StepView::Reply(
                    bucket_failure(cx.stamp, bucket, error),
                ),
                AskedView::Got(Ok(page), _) => StepView::Reply(
                    json_response(cx.stamp, 200, objects_json(bucket, max as int, page)),
                ),
            },
        },
    }
}

/// The object of a name, once it is sure that a request's preconditions hold of it.
pub open spec fn checked_json_blob(cx: ContextView, bucket: Text, object: Text, tape: TapeView)
    -> KnownView<ObjectView> {
    match asked::<Object>(tape, EffectView::GetObject(bucket, object)) {
        AskedView::Halt(step) => KnownView::Halt(step),
        AskedView::Got(Err(error), _) => KnownView::Halt(
            StepView::Reply(
                if error.kind == ErrorKind::KeyNotFound {
                    json_not_found(cx.stamp, object)
                } else {
                    bucket_failure(cx.stamp, bucket, error)
                },
            ),
        ),
        AskedView::Got(Ok(blob), tape) => match check_current_generation_selector(
            cx.stamp,
            cx.req,
            blob,
        ) {
            Err(refusal) => KnownView::Halt(StepView::Reply(refusal)),
            Ok(_) => match check_gcs_preconditions(cx.stamp, cx.req, blob) {
                Err(refusal) => KnownView::Halt(StepView::Reply(refusal)),
                Ok(_) => KnownView::Got(blob, tape),
            },
        },
    }
}

/// Reads an object: its content, or what is told of it.
pub open spec fn get_json_object(
    cx: ContextView,
    bucket: Text,
    object: Text,
    media: bool,
    tape: TapeView,
) -> StepView {
    match checked_json_blob(cx, bucket, object, tape) {
        KnownView::Halt(step) => step,
        KnownView::Got(blob, tape) => if media {
            media_response(cx, bucket, object, blob, tape)
        } else {
            StepView::Reply(json_response(cx.stamp, 200, json_object_metadata(bucket, blob)))
        },
    }
}

/// A table with the fields from place `i` on put in where they are texts and taken out where
/// they are null; or the message about one that is neither.
pub open spec fn patched_from(table: Pairs, fields: FieldsView, i: int) -> Result<Pairs, Text>
    decreases fields.len() - i,
{
    if i >= fields.len() {
        Ok(table)
    } else {
        match fields[i].1 {
            JsonView::Text(text) => patched_from(with(table, fields[i].0, text), fields, i + 1),
            JsonView::Null => patched_from(without(table, fields[i].0), fields, i + 1),
            _ => Err("Object metadata value "@ + fields[i].0 + " must be a string or null"@),
        }
    }
}

/// The metadata that clients see, once it is patched.
pub open spec fn patched_metadata(payload: FieldsView, blob: ObjectView) -> Result<Pairs, Text> {
    match get(payload, "metadata"@) {
        None => Ok(public_metadata(blob.metadata)),
        Some(JsonView::Null) => Ok(Seq::empty()),
        Some(JsonView::Object(values)) => patched_from(
            public_metadata(blob.metadata),
            values,
            0,
        ),
        Some(_) => Err("Object metadata must be a JSON object or null"@),
    }
}

/// The number of the next metageneration of an object.
pub open spec fn next_metageneration(blob: ObjectView) -> int {
    let current = match get(blob.metadata, GCS_METAGENERATION_KEY@) {
        Some(value) => match unsigned(value, u64::MAX as int) {
            Some(n) => n,
            None => 1,
        },
        None => 1,
    };
    if current < u64::MAX {
        current + 1
    } else {
        current
    }
}

/// The metadata of an object once it is patched: the generation stays, the metageneration
/// goes up, and the time of the update goes on.
pub open spec fn metadata_patch_with_gcs_state(now: Instant, payload: FieldsView, blob: ObjectView)
    -> Result<Pairs, Text> {
    match patched_metadata(payload, blob) {
        Err(message) => Err(message),
        Ok(metadata) => Ok(
            metadata_with_gcs_state(
                metadata,
                generation(blob),
                decimal(next_metageneration(blob)),
                now,
                Some(gcs_updated(blob.metadata, blob.last_modified)),
            ),
        ),
    }
}

/// The first field, at or after place `i`, that cannot be patched.
pub open spec fn unpatchable_from(fields: FieldsView, i: int) -> Option<Text>
    decreases fields.len() - i,
{
    if i >= fields.len() {
        None
    } else if fields[i].0 == "metadata"@ || fields[i].0 == "contentType"@ {
        unpatchable_from(fields, i + 1)
    } else {
        Some(fields[i].0)
    }
}

/// An object once it is patched, or the status and the message of the refusal.
pub open spec fn patched_object(now: Instant, payload: FieldsView, blob: ObjectView) -> Result<
    ObjectView,
    (u16, Text),
> {
    match unpatchable_from(payload, 0) {
        Some(name) => Err(
            (
                501,
                "Object metadata patch field "@ + name
                    + " is not supported by this emulator surface"@,
            ),
        ),
        None => match metadata_patch_with_gcs_state(now, payload, blob) {
            Err(message) => Err((400, message)),
            Ok(metadata) => match get(payload, "contentType"@) {
                None => Ok(ObjectView { metadata, ..blob }),
                Some(JsonView::Null) => Ok(
                    ObjectView {
                        metadata,
                        content_type: "application/octet-stream"@,
                        ..blob
                    },
                ),
                Some(JsonView::Text(content_type)) => if content_type.len() > 0 {
                    Ok(ObjectView { metadata, content_type, ..blob })
                } else {
                    Err((400, "contentType must be a non-empty string or null"@))
                },
                Some(_) => Err((400, "contentType must be a non-empty string or null"@)),
            },
        },
    }
}

/// An object once a document that was read patches it.
pub open spec fn document_patch(now: Instant, parsed: Result<JsonView, Text>, blob: ObjectView)
    -> Result<ObjectView, (u16, Text)> {
    match parsed {
        Err(error) => Err((400, "Invalid object metadata JSON: "@ + error)),
        Ok(JsonView::Object(payload)) => patched_object(now, payload, blob),
        Ok(_) => Err((400, "Object metadata patch must be a JSON object"@)),
    }
}

/// The reply to a change whose object was changed meanwhile.
pub open spec fn current_precondition_failure(
    cx: ContextView,
    bucket: Text,
    object: Text,
    tape: TapeView,
) -> StepView {
    match perhaps::<Object>(tape, EffectView::GetObject(bucket, object)) {
        KnownView::Halt(step) => step,
        KnownView::Got(None, _) => StepView::Reply(json_not_found(cx.stamp, object)),
        KnownView::Got(Some(current), _) => StepView::Reply(
            match check_gcs_preconditions(cx.stamp, cx.req, current) {
                Err(refusal) => refusal,
                Ok(_) => generation_precondition_failed(cx.stamp),
            },
        ),
    }
}

/// Changes the metadata of an object.
pub open spec fn patch_json_object(cx: ContextView, bucket: Text, object: Text, tape: TapeView)
    -> StepView {
    match checked_json_blob(cx, bucket, object, tape) {
        KnownView::Halt(step) => step,
        KnownView::Got(blob, tape) => match document_patch(
            cx.stamp.now,
            json_parsed(cx.req.body),
            blob,
        ) {
            Err((status, message)) => StepView::Reply(
                json_upload_error(cx.stamp, status, message),
            ),
            Ok(updated) => match known::<bool>(
                tape,
                EffectView::ReplaceMetadata(bucket, object, blob, updated),
            ) {
                KnownView::Halt(step) => step,
                KnownView::Got(false, tape) => current_precondition_failure(
                    cx,
                    bucket,
                    object,
                    tape,
                ),
                KnownView::Got(true, tape) => match known::<Object>(
                    tape,
                    EffectView::GetObject(bucket, object),
                ) {
                    KnownView::Halt(step) => step,
                    KnownView::Got(stored, _) => StepView::Reply(
                        json_response(
                            cx.stamp,
                            200,
                            json_object_metadata(bucket, stored),
                        ),
                    ),
                },
            },
        },
    }
}

/// Deletes an object.
pub open spec fn delete_json_object(cx: ContextView, bucket: Text, object: Text, tape: TapeView)
    -> StepView {
    match checked_json_blob(cx, bucket, object, tape) {
        KnownView::Halt(step) => step,
        KnownView::Got(blob, tape) => match object_retained(cx.stamp.now, bucket, blob, tape) {
            KnownView::Halt(step) => step,
            KnownView::Got(true, _) => StepView::Reply(retention_not_met_json(cx.stamp)),
            KnownView::Got(false, tape) => match known::<bool>(
                tape,
                EffectView::DeleteObjectIf(
                    bucket,
                    object,
                    json_mutation_condition(cx.req, blob),
                ),
            ) {
                KnownView::Halt(step) => step,
                KnownView::Got(true, _) => StepView::Reply(response(cx.stamp, 204)),
                KnownView::Got(false, tape) => current_precondition_failure(
                    cx,
                    bucket,
                    object,
                    tape,
                ),
            },
        },
    }
}

/// Serves a request for an object.
pub open spec fn handle_json_object_item(
    cx: ContextView,
    bucket: Text,
    object: Text,
    media: bool,
    tape: TapeView,
) -> StepView {
    match cx.req.method {
        Method::Get => get_json_object(cx, bucket, object, media, tape),
        Method::Patch => match invalid_json_mutation_headers(cx.stamp, cx.req) {
            Some(refusal) => StepView::Reply(refusal),
            None => patch_json_object(cx, bucket, object, tape),
        },
        Method::Delete => match invalid_json_mutation_headers(cx.stamp, cx.req) {
            Some(refusal) => StepView::Reply(refusal),
            None => delete_json_object(cx, bucket, object, tape),
        },
        _ => StepView::Reply(
            json_error(
                cx.stamp,
                405,
                "methodNotAllowed"@,
                "The HTTP verb in the request is not supported."@,
            ),
        ),
    }
}

pub open spec fn is_true(value: Option<Text>) -> bool {
    match value {
        Some(value) => lowered(value) == "true"@,
        None => false,
    }
}

/// The parts of a path from place `n` on, with slashes between them.
pub open spec fn rest_of(parts: Seq<Text>, n: int) -> Text {
    join(parts.subrange(n, parts.len() as int), "/"@)
}

/// Serves a request for the objects of a bucket.
pub open spec fn handle_json_object_api(
    cx: ContextView,
    parts: Seq<Text>,
    bucket: Text,
    tape: TapeView,
) -> StepView {
    if parts.len() == 5 {
        if is_true(cx.req.param("softDeleted"@)) || is_true(cx.req.param("versions"@)) {
            StepView::Reply(
                unimplemented(
                    cx.stamp,
                    "GCS JSON object history listings are not supported by this emulator surface"@,
                ),
            )
        } else {
            match perhaps::<Bucket>(tape, EffectView::GetBucket(bucket)) {
                KnownView::Halt(step) => step,
                KnownView::Got(found, tape) => if foreign_data_protection(found) {
                    StepView::Reply(foreign_json(cx.stamp))
                } else {
                    list_json_objects(cx, bucket, tape)
                },
            }
        }
    } else {
        match decode_object_path(rest_of(parts, 5)) {
            Err(message) => StepView::Reply(json_upload_error(cx.stamp, 400, message)),
            Ok(object) => match authorize(cx.stamp, cx.req, cx.auth, bucket, Some(object)) {
                Err(refusal) => StepView::Reply(refusal),
                Ok(_) => match perhaps::<Bucket>(tape, EffectView::GetBucket(bucket)) {
                    KnownView::Halt(step) => step,
                    KnownView::Got(found, tape) => if foreign_data_protection(found) {
                        StepView::Reply(foreign_json(cx.stamp))
                    } else {
                        handle_json_object_item(
                            cx,
                            bucket,
                            object,
                            cx.req.param("alt"@) == Some("media"@),
                            tape,
                        )
                    },
                },
            },
        }
    }
}

/// Serves a request for the content of an object.
pub open spec fn handle_json_download(cx: ContextView, parts: Seq<Text>, tape: TapeView)
    -> StepView {
    let bucket = parts[4];
    match decode_object_path(rest_of(parts, 6)) {
        Err(message) => StepView::Reply(json_upload_error(cx.stamp, 400, message)),
        Ok(object) => match authorize(cx.stamp, cx.req, cx.auth, bucket, Some(object)) {
            Err(refusal) => StepView::Reply(refusal),
            Ok(_) => match perhaps::<Bucket>(tape, EffectView::GetBucket(bucket)) {
                KnownView::Halt(step) => step,
                KnownView::Got(found, tape) => if foreign_data_protection(found) {
                    StepView::Reply(foreign_json(cx.stamp))
                } else {
                    get_json_object(cx, bucket, object, true, tape)
                },
            },
        },
    }
}

/// Serves a request for buckets or what is in them.
pub open spec fn handle_json_bucket_api(cx: ContextView, parts: Seq<Text>, tape: TapeView)
    -> StepView {
    if parts.len() == 3 {
        match authorize(cx.stamp, cx.req, cx.auth, ""@, None) {
            Err(refusal) => StepView::Reply(refusal),
            Ok(_) => handle_json_bucket_collection(cx, tape),
        }
    } else {
        match authorize(cx.stamp, cx.req, cx.auth, parts[3], None) {
            Err(refusal) => StepView::Reply(refusal),
            Ok(_) => if parts.len() == 4 {
                handle_json_bucket_item(cx, parts[3], tape)
            } else if parts[4] == "lockRetentionPolicy"@ {
                StepView::Reply(
                    unimplemented(
                        cx.stamp,
                        "Bucket retention-policy locking is not supported by this emulator surface"@,
                    ),
                )
            } else if parts[4] == "o"@ {
                handle_json_object_api(cx, parts, parts[3], tape)
            } else {
                StepView::Reply(
                    json_upload_error(cx.stamp, 400, "Unsupported GCS JSON API path"@),
                )
            },
        }
    }
}

/// Serves a request of the JSON API that is no upload.
pub open spec fn handle_json_api(cx: ContextView, tape: TapeView) -> StepView {
    let parts = segments(cx.req.path);
    if parts.len() >= 3 && parts[0] == "storage"@ && parts[1] == "v1"@ && parts[2] == "b"@ {
        handle_json_bucket_api(cx, parts, tape)
    } else if parts.len() >= 6 && parts[0] == "download"@ && parts[1] == "storage"@ && parts[2]
        == "v1"@ && parts[3] == "b"@ && parts[5] == "o"@ {
        handle_json_download(cx, parts, tape)
    } else {
        StepView::Reply(
            error_response(cx.stamp, 400, "InvalidURI"@, "Unsupported GCS JSON API path"@),
        )
    }
}

// ---------------------------------------------------------------------------

/// What became of several changes.
pub enum Applied<'a> {
    Halt(Step),
    Done(Tape<'a>),
    Failed(&'a str, Tape<'a>),
}

impl<'a> View for Applied<'a> {
    type V = AppliedView;

    open spec fn view(&self) -> AppliedView {
        match self {
            Applied::Halt(step) => AppliedView::Halt(step@),
            Applied::Done(tape) => AppliedView::Done(tape@),
            Applied::Failed(message, tape) => AppliedView::Failed(message@, tape@),
        }
    }
}

fn inner_field_of<'a>(json: &'a Json, outer: &str, inner: &str) -> (r: Option<&'a Json>)
    ensures
        seen(r) == inner_field(json@, outer@, inner@),
{
    match json.field(outer) {
        Some(value) => value.field(inner),
        None => None,
    }
}

impl GcsAdapter {
    pub fn json_unsigned_integer(value: &Json) -> (r: Option<u64>)
        ensures
            match r {
                Some(n) => json_unsigned_integer(value@) == Some(n as int),
                None => json_unsigned_integer(value@) is None,
            },
    {
        match value {
            Json::Number(n) => Some(*n),
            Json::Text(text) => read_u64(text),
            _ => None,
        }
    }

    fn inner_number(payload: &Json, outer: &str, inner: &str) -> (r: Option<u64>)
        ensures
            match (r, inner_field(payload@, outer@, inner@)) {
                (Some(n), Some(value)) => json_unsigned_integer(value) == Some(n as int),
                (None, Some(value)) => json_unsigned_integer(value) is None,
                (None, None) => true,
                (Some(_), None) => false,
            },
    {
        match inner_field_of(payload, outer, inner) {
            Some(value) => Self::json_unsigned_integer(value),
            None => None,
        }
    }

    pub fn invalid_data_protection_response(stamp: &Stamp, message: &str) -> (r: Response)
        ensures
            r@ == invalid_data_protection(stamp@, message@),
    {
        refuse_json(stamp, 400, "invalidArgument", message)
    }

    fn retention_refusal(stamp: &Stamp, payload: &Json) -> (r: Option<Response>)
        ensures
            seen(r) == retention_refusal(stamp@, payload@),
    {
        match payload.field("retentionPolicy") {
            None => return None,
            Some(policy) => if policy.is_null() {
                return None;
            },
        }
        match Self::inner_number(payload, "retentionPolicy", "retentionPeriod") {
            None => Some(
                Self::invalid_data_protection_response(
                    stamp,
                    "retentionPolicy.retentionPeriod must be an unsigned integer",
                ),
            ),
            Some(period) => if period == 0 || period >= 3_155_760_000 {
                Some(
                    Self::invalid_data_protection_response(
                        stamp,
                        "retentionPolicy.retentionPeriod must be greater than 0 and less than 3155760000 seconds",
                    ),
                )
            } else {
                None
            },
        }
    }

    fn soft_delete_refusal(stamp: &Stamp, payload: &Json) -> (r: Option<Response>)
        ensures
            seen(r) == soft_delete_refusal(stamp@, payload@),
    {
        if payload.field("softDeletePolicy").is_none() {
            return None;
        }
        match Self::inner_number(payload, "softDeletePolicy", "retentionDurationSeconds") {
            None => Some(
                Self::invalid_data_protection_response(
                    stamp,
                    "softDeletePolicy.retentionDurationSeconds must be an unsigned integer",
                ),
            ),
            Some(duration) => if duration == 0 {
                Some(
                    refuse_unimplemented(
                        stamp,
                        "Disabling an enabled soft-delete policy is not supported by this emulator surface",
                    ),
                )
            } else if duration < 604_800 || duration >= 7_776_000 {
                Some(
                    Self::invalid_data_protection_response(
                        stamp,
                        "softDeletePolicy.retentionDurationSeconds must be at least 604800 and less than 7776000 seconds",
                    ),
                )
            } else {
                None
            },
        }
    }

    pub fn validate_bucket_data_protection(stamp: &Stamp, req: &Request, payload: &Json) -> (r:
        Option<Response>)
        ensures
            seen(r) == validate_bucket_data_protection(stamp@, req@, payload@),
    {
        if req.has_query_param("enableObjectRetention") || payload.field(
            "objectRetention",
        ).is_some() {
            return Some(
                refuse_unimplemented(
                    stamp,
                    "Per-object retention configuration is not supported by this emulator surface",
                ),
            );
        }
        if inner_field_of(payload, "retentionPolicy", "isLocked").is_some() || inner_field_of(
            payload,
            "retentionPolicy",
            "effectiveTime",
        ).is_some() {
            return Some(
                refuse_unimplemented(
                    stamp,
                    "Bucket retention-policy lock and server-owned fields are not writable",
                ),
            );
        }
        match Self::retention_refusal(stamp, payload) {
            Some(refusal) => return Some(refusal),
            None => {},
        }
        if inner_field_of(payload, "softDeletePolicy", "effectiveTime").is_some() {
            return Some(
                refuse_unimplemented(
                    stamp,
                    "softDeletePolicy.effectiveTime is server-owned and is not writable",
                ),
            );
        }
        Self::soft_delete_refusal(stamp, payload)
    }

    pub fn bucket_data_protection_requested(payload: &Json) -> (r: bool)
        ensures
            r == bucket_data_protection_requested(payload@),
    {
        payload.field("softDeletePolicy").is_some() || match payload.field("retentionPolicy") {
            Some(policy) => !policy.is_null(),
            None => false,
        }
    }

    fn soft_delete_seconds(payload: &Json) -> (r: Option<String>)
        ensures
            seen(r) == soft_delete_seconds(payload@),
    {
        match inner_field_of(payload, "softDeletePolicy", "retentionDurationSeconds") {
            Some(Json::Text(text)) => Some(text.clone()),
            Some(Json::Number(n)) => Some(show(*n)),
            _ => None,
        }
    }

    fn put_retention(metadata: &mut Table<String>, payload: &Json)
        ensures
            final(metadata)@ == with_retention(old(metadata)@, payload@),
    {
        match payload.field("retentionPolicy") {
            None => {},
            Some(policy) => if policy.is_null() {
                metadata.remove(GCS_RETENTION_SECONDS_KEY);
            } else {
                match Self::inner_number(payload, "retentionPolicy", "retentionPeriod") {
                    Some(seconds) => metadata.insert(GCS_RETENTION_SECONDS_KEY, show(seconds)),
                    None => {},
                }
            },
        }
    }

    pub fn apply_bucket_data_protection<'a>(bucket: &str, payload: &Json, tape: Tape<'a>) -> (r:
        Applied<'a>)
        ensures
            r@ == apply_bucket_data_protection(bucket@, payload@, tape@),
    {
        let (found, tape) = match ask::<Bucket>(tape, Effect::GetBucket(bucket.to_owned())) {
            Asked::Halt(step) => return Applied::Halt(step),
            Asked::Got(Err(error), tape) => return Applied::Failed(error.message.as_str(), tape),
            Asked::Got(Ok(found), tape) => (found, tape),
        };
        let mut metadata = found.metadata.copied();
        let tape = match Self::soft_delete_seconds(payload) {
            None => tape,
            Some(seconds) => {
                metadata.insert(GCS_SOFT_DELETE_SECONDS_KEY, seconds);
                match ask::<()>(tape, Effect::EnableVersioning(bucket.to_owned())) {
                    Asked::Halt(step) => return Applied::Halt(step),
                    Asked::Got(Err(error), tape) => return Applied::Failed(
                        error.message.as_str(),
                        tape,
                    ),
                    Asked::Got(Ok(_), tape) => tape,
                }
            },
        };
        Self::put_retention(&mut metadata, payload);
        match ask::<()>(tape, Effect::UpdateBucketMetadata(bucket.to_owned(), metadata)) {
            Asked::Halt(step) => Applied::Halt(step),
            Asked::Got(Err(error), tape) => Applied::Failed(error.message.as_str(), tape),
            Asked::Got(Ok(_), tape) => Applied::Done(tape),
        }
    }

    fn policy_json(name: &str, seconds: Option<&str>) -> (r: Json)
        ensures
            r@ == policy_json(name@, seen(seconds)),
    {
        match seconds {
            Some(seconds) => {
                let fields = Fields::new().text(name, seconds);
                assert(fields@ =~= seq![(name@, JsonView::Text(seconds@))]);
                fields.object()
            },
            None => Json::Null,
        }
    }

    fn bucket_json(bucket: &Bucket) -> (r: Json)
        ensures
            r@ == bucket_json(bucket@),
    {
        let fields = Fields::new().text("kind", "storage#bucket").text("name", &bucket.name).text(
            "timeCreated",
            &format_rfc3339(bucket.created_at.secs, bucket.created_at.nanos),
        ).with(
            "softDeletePolicy",
            Self::policy_json(
                "retentionDurationSeconds",
                get_text(&bucket.metadata, GCS_SOFT_DELETE_SECONDS_KEY),
            ),
        ).with(
            "retentionPolicy",
            Self::policy_json(
                "retentionPeriod",
                get_text(&bucket.metadata, GCS_RETENTION_SECONDS_KEY),
            ),
        );
        assert(fields@ =~= bucket_json(bucket@)->Object_0);
        fields.object()
    }

    pub fn json_bucket_response(stamp: &Stamp, code: u16, bucket: &Bucket) -> (r: Response)
        ensures
            r@ == json_response(stamp@, code, bucket_json(bucket@)),
    {
        json_reply(stamp, code, Self::bucket_json(bucket))
    }

    pub fn json_max_results(stamp: &Stamp, req: &Request) -> (r: Result<usize, Response>)
        ensures
            settled(r) == json_max_results(stamp@, req@),
    {
        match req.query_param("maxResults") {
            None => Ok(1000),
            Some(raw) => match read_unsigned(raw, u32::MAX as u64) {
                None => Err(
                    refuse_json(
                        stamp,
                        400,
                        "invalidParameter",
                        "Invalid value for maxResults",
                    ),
                ),
                Some(n) => Ok(
                    if n < 1000 {
                        n as usize
                    } else {
                        1000
                    },
                ),
            },
        }
    }

    fn listing_marker(stamp: &Stamp, req: &Request, kind: &str) -> (r: Result<
        Option<String>,
        Response,
    >)
        ensures
            match r {
                Ok(marker) => listing_marker(stamp@, req@, kind@) == Ok::<_, ResponseView>(
                    seen(marker),
                ),
                Err(refusal) => listing_marker(stamp@, req@, kind@) == Err::<Option<Text>, _>(
                    refusal@,
                ),
            },
    {
        match req.query_param("pageToken") {
            None => Ok(None),
            Some(token) => match Self::decode_page_token(kind, token) {
                Some(marker) => Ok(Some(marker)),
                None => Err(refuse_json(stamp, 400, "invalidParameter", "Invalid pageToken")),
            },
        }
    }

    fn bucket_array(buckets: &Vec<Bucket>, max: usize) -> (r: Json)
        ensures
            r@ == JsonView::Array(bucket_items(first_of(each(buckets@), max as int))),
    {
        let ghost shown = first_of(each(buckets@), max as int);
        let mut items: Vec<Json> = Vec::new();
        let mut i: usize = 0;
        while i < buckets.len() && i < max
            invariant
                shown == first_of(each(buckets@), max as int),
                i <= shown.len(),
                each(items@) =~= bucket_items(shown).subrange(0, i as int),
            decreases buckets.len() - i,
        {
            assert(shown[i as int] == buckets@[i as int]@);
            let fields = Fields::new().text("name", &buckets[i].name).text(
                "timeCreated",
                &format_rfc3339(buckets[i].created_at.secs, buckets[i].created_at.nanos),
            );
            assert(fields@ =~= bucket_items(shown)[i as int]->Object_0);
            let item = fields.object();
            proof {
                each_push(items@, item);
            }
            items.push(item);
            i += 1;
        }
        proof {
            array_view(items);
            assert(each(items@) =~= bucket_items(shown));
        }
        Json::Array(items)
    }

    fn with_token(fields: Fields, token: Option<String>) -> (r: Json)
        ensures
            r@ == JsonView::Object(with_token(fields@, seen(token))),
    {
        match token {
            Some(token) => fields.text("nextPageToken", &token).object(),
            None => fields.object(),
        }
    }

    pub fn list_json_buckets(cx: &Context, tape: Tape<'_>) -> (r: Step)
        ensures
            r@ == list_json_buckets(cx@, tape@),
    {
        let marker = match Self::listing_marker(&cx.stamp, &cx.req, "buckets") {
            Ok(marker) => marker,
            Err(refusal) => return Step::Reply(refusal),
        };
        let max: usize = match Self::json_max_results(&cx.stamp, &cx.req) {
            Ok(max) => max,
            Err(refusal) => return Step::Reply(refusal),
        };
        let buckets = match require::<Buckets>(tape, Effect::ListBuckets) {
            Known::Halt(step) => return step,
            Known::Got(buckets, _) => buckets,
        };
        let under = keep(
            Self::copy_buckets(&buckets.items),
            &Filter::Under(or_else(cx.req.query_param("prefix"), "")),
        );
        let all = sort(
            match lend(&marker) {
                Some(marker) => keep(under, &Filter::After(marker)),
                None => under,
            },
        );
        let token = if all.len() > max {
            if max > 0 {
                assert(each(all@)[max - 1] == all@[max - 1]@);
                Some(Self::encode_page_token("buckets", &all[max - 1].name))
            } else {
                Some(Self::encode_page_token("buckets", ""))
            }
        } else {
            None
        };
        let fields = Fields::new().text("kind", "storage#buckets").with(
            "items",
            Self::bucket_array(&all, max),
        );
        assert(fields@ =~= seq![
            ("kind"@, JsonView::Text("storage#buckets"@)),
            ("items"@, JsonView::Array(bucket_items(first_of(each(all@), max as int)))),
        ]);
        Step::Reply(json_reply(&cx.stamp, 200, Self::with_token(fields, token)))
    }

    fn copy_buckets(buckets: &Vec<Bucket>) -> (r: Vec<Bucket>)
        ensures
            each(r@) == each(buckets@),
    {
        let mut out: Vec<Bucket> = Vec::new();
        let mut i: usize = 0;
        while i < buckets.len()
            invariant
                i <= buckets.len(),
                out.len() == i,
                forall|k: int| 0 <= k < i ==> (#[trigger] out@[k])@ == buckets@[k]@,
            decreases buckets.len() - i,
        {
            out.push(buckets[i].copied());
            i += 1;
        }
        assert(each(out@) =~= each(buckets@));
        out
    }

    fn rollback_created_bucket(stamp: &Stamp, bucket: &str, error: &str, tape: Tape<'_>) -> (r: Step)
        ensures
            r@ == rollback_created_bucket(stamp@, bucket@, error@, tape@),
    {
        match ask::<()>(tape, Effect::DeleteBucket(bucket.to_owned())) {
            Asked::Halt(step) => step,
            Asked::Got(Ok(_), _) => Step::Reply(refuse_upload(stamp, 500, error)),
            Asked::Got(Err(rollback), _) => Step::Reply(
                refuse_upload(
                    stamp,
                    500,
                    &cat3(
                        error,
                        "; failed to roll back GCS bucket creation: ",
                        &rollback.message,
                    ),
                ),
            ),
        }
    }

    pub fn create_json_bucket(cx: &Context, tape: Tape<'_>) -> (r: Step)
        ensures
            r@ == create_json_bucket(cx@, tape@),
    {
        Self::create_bucket_from(cx, &parse_json(cx.req.body.as_slice()), tape)
    }

    /// Creates a bucket from a document that was read.
    pub fn create_bucket_from(cx: &Context, parsed: &Result<Json, String>, tape: Tape<'_>) -> (r:
        Step)
        ensures
            r@ == create_bucket_from(cx@, settled(*parsed), tape@),
    {
        let payload = match parsed {
            Ok(payload) => payload,
            Err(error) => return Step::Reply(
                refuse_upload(&cx.stamp, 400, &cat("Invalid bucket metadata JSON: ", error)),
            ),
        };
        match Self::validate_bucket_data_protection(&cx.stamp, &cx.req, payload) {
            Some(refusal) => return Step::Reply(refusal),
            None => {},
        }
        let bucket = match payload.field("name") {
            Some(Json::Text(bucket)) => bucket,
            _ => return Step::Reply(refuse_upload(&cx.stamp, 400, "Required parameter: name")),
        };
        if !Self::valid_bucket_name(bucket) {
            return Step::Reply(
                refuse_json(&cx.stamp, 400, "invalidParameter", "Invalid bucket name"),
            );
        }
        Self::create_named_bucket(cx, bucket, payload, tape)
    }

    fn create_named_bucket(cx: &Context, bucket: &str, payload: &Json, tape: Tape<'_>) -> (r: Step)
        ensures
            r@ == create_named_bucket(cx@, bucket@, payload@, tape@),
    {
        let tape = match ask::<Bucket>(tape, Effect::CreateBucket(bucket.to_owned())) {
            Asked::Halt(step) => return step,
            Asked::Got(Ok(_), tape) => tape,
            Asked::Got(Err(error), _) => return Step::Reply(
                if error.kind == ErrorKind::BucketAlreadyExists {
                    refuse_json(
                        &cx.stamp,
                        409,
                        "conflict",
                        "The requested bucket already exists",
                    )
                } else {
                    refuse_upload(&cx.stamp, 500, &error.message)
                },
            ),
        };
        let tape = match Self::apply_bucket_data_protection(bucket, payload, tape) {
            Applied::Halt(step) => return step,
            Applied::Failed(error, tape) => return Self::rollback_created_bucket(
                &cx.stamp,
                bucket,
                error,
                tape,
            ),
            Applied::Done(tape) => tape,
        };
        match ask::<Bucket>(tape, Effect::GetBucket(bucket.to_owned())) {
            Asked::Halt(step) => step,
            Asked::Got(Err(error), tape) => Self::rollback_created_bucket(
                &cx.stamp,
                bucket,
                &error.message,
                tape,
            ),
            Asked::Got(Ok(found), _) => Step::Reply(
                Self::json_bucket_response(&cx.stamp, 200, found),
            ),
        }
    }

    pub fn handle_json_bucket_collection(cx: &Context, tape: Tape<'_>) -> (r: Step)
        ensures
            r@ == handle_json_bucket_collection(cx@, tape@),
    {
        if !cx.req.has_query_param("project") {
            return Step::Reply(
                refuse_json(&cx.stamp, 400, "required", "Required parameter: project"),
            );
        }
        match cx.req.method {
            Method::Get => Self::list_json_buckets(cx, tape),
            Method::Post => Self::create_json_bucket(cx, tape),
            _ => Step::Reply(
                refuse_upload(
                    &cx.stamp,
                    405,
                    "Unsupported GCS JSON API bucket collection operation",
                ),
            ),
        }
    }

    fn get_json_bucket(cx: &Context, bucket: &str, tape: Tape<'_>) -> (r: Step)
        ensures
            r@ == get_json_bucket(cx@, bucket@, tape@),
    {
        match ask::<Bucket>(tape, Effect::GetBucket(bucket.to_owned())) {
            Asked::Halt(step) => step,
            Asked::Got(Ok(found), _) => Step::Reply(
                Self::json_bucket_response(&cx.stamp, 200, found),
            ),
            Asked::Got(Err(error), _) => Step::Reply(
                refuse_bucket_failure(&cx.stamp, bucket, error),
            ),
        }
    }

    fn delete_json_bucket(cx: &Context, bucket: &str, tape: Tape<'_>) -> (r: Step)
        ensures
            r@ == delete_json_bucket(cx@, bucket@, tape@),
    {
        let (found, tape) = match try_ask::<Bucket>(tape, Effect::GetBucket(bucket.to_owned())) {
            Gained::Halt(step) => return step,
            Gained::Got(found, tape) => (found.value, tape),
        };
        if Self::foreign_data_protection_active(found) {
            return Step::Reply(refuse_foreign_json(&cx.stamp));
        }
        match ask::<()>(tape, Effect::DeleteBucket(bucket.to_owned())) {
            Asked::Halt(step) => step,
            Asked::Got(Ok(_), _) => Step::Reply(reply(&cx.stamp, 204)),
            Asked::Got(Err(error), _) => Step::Reply(
                if error.kind == ErrorKind::BucketNotEmpty {
                    refuse_json(&cx.stamp, 409, "conflict", "The bucket is not empty")
                } else {
                    refuse_bucket_failure(&cx.stamp, bucket, error)
                },
            ),
        }
    }

    fn patch_json_bucket(cx: &Context, bucket: &str, tape: Tape<'_>) -> (r: Step)
        ensures
            r@ == patch_json_bucket(cx@, bucket@, tape@),
    {
        let tape = match ask::<Bucket>(tape, Effect::GetBucket(bucket.to_owned())) {
            Asked::Halt(step) => return step,
            Asked::Got(Err(error), tape) => {
                if error.kind == ErrorKind::BucketNotFound {
                    return Step::Reply(refuse_json_bucket(&cx.stamp, bucket));
                }
                tape
            },
            Asked::Got(Ok(_), tape) => tape,
        };
        Self::patch_bucket_from(cx, bucket, &parse_json(cx.req.body.as_slice()), tape)
    }

    /// Changes the data protection of a bucket as a document that was read asks.
    pub fn patch_bucket_from(
        cx: &Context,
        bucket: &str,
        parsed: &Result<Json, String>,
        tape: Tape<'_>,
    ) -> (r: Step)
        ensures
            r@ == patch_bucket_from(cx@, bucket@, settled(*parsed), tape@),
    {
        let payload = match parsed {
            Ok(payload) => payload,
            Err(error) => return Step::Reply(
                refuse_upload(&cx.stamp, 400, &cat("Invalid bucket metadata JSON: ", error)),
            ),
        };
        match Self::validate_bucket_data_protection(&cx.stamp, &cx.req, payload) {
            Some(refusal) => return Step::Reply(refusal),
            None => {},
        }
        let tape = if Self::bucket_data_protection_requested(payload) {
            let (found, tape) = match try_ask::<Bucket>(
                tape,
                Effect::GetBucket(bucket.to_owned()),
            ) {
                Gained::Halt(step) => return step,
                Gained::Got(found, tape) => (found.value, tape),
            };
            if Self::foreign_data_protection_active(found) {
                return Step::Reply(refuse_foreign_json(&cx.stamp));
            }
            tape
        } else {
            tape
        };
        match Self::apply_bucket_data_protection(bucket, payload, tape) {
            Applied::Halt(step) => step,
            Applied::Failed(error, _) => Step::Reply(refuse_upload(&cx.stamp, 500, error)),
            Applied::Done(tape) => Self::get_json_bucket(cx, bucket, tape),
        }
    }

    pub fn handle_json_bucket_item(cx: &Context, bucket: &str, tape: Tape<'_>) -> (r: Step)
        ensures
            r@ == handle_json_bucket_item(cx@, bucket@, tape@),
    {
        match cx.req.method {
            Method::Get => Self::get_json_bucket(cx, bucket, tape),
            Method::Delete => Self::delete_json_bucket(cx, bucket, tape),
            Method::Patch => Self::patch_json_bucket(cx, bucket, tape),
            _ => Step::Reply(
                refuse_upload(&cx.stamp, 405, "Unsupported GCS JSON API bucket operation"),
            ),
        }
    }

    fn object_items(bucket: &str, objects: &Vec<Object>) -> (r: Json)
        ensures
            r@ == JsonView::Array(object_items(bucket@, each(objects@))),
    {
        let mut items: Vec<Json> = Vec::new();
        let mut i: usize = 0;
        while i < objects.len()
            invariant
                i <= objects.len(),
                each(items@) =~= object_items(bucket@, each(objects@)).subrange(0, i as int),
            decreases objects.len() - i,
        {
            assert(each(objects@)[i as int] == objects@[i as int]@);
            let item = Self::json_object_metadata(bucket, &objects[i]);
            proof {
                each_push(items@, item);
            }
            items.push(item);
            i += 1;
        }
        proof {
            array_view(items);
            assert(each(items@) =~= object_items(bucket@, each(objects@)));
        }
        Json::Array(items)
    }

    fn text_items(texts: &Vec<String>) -> (r: Json)
        ensures
            r@ == JsonView::Array(text_items(each(texts@))),
    {
        let mut items: Vec<Json> = Vec::new();
        let mut i: usize = 0;
        while i < texts.len()
            invariant
                i <= texts.len(),
                each(items@) =~= text_items(each(texts@)).subrange(0, i as int),
            decreases texts.len() - i,
        {
            assert(each(texts@)[i as int] == texts@[i as int]@);
            let item = Json::Text(texts[i].clone());
            proof {
                each_push(items@, item);
            }
            items.push(item);
            i += 1;
        }
        proof {
            array_view(items);
            assert(each(items@) =~= text_items(each(texts@)));
        }
        Json::Array(items)
    }

    fn objects_json(bucket: &str, max: usize, page: &Page) -> (r: Json)
        ensures
            r@ == objects_json(bucket@, max as int, page@),
    {
        let none: Vec<Object> = Vec::new();
        let no_prefixes: Vec<String> = Vec::new();
        proof {
            each_empty::<Object>();
            each_empty::<String>();
        }
        let objects = if max == 0 {
            &none
        } else {
            &page.objects
        };
        let prefixes = if max == 0 {
            &no_prefixes
        } else {
            &page.prefixes
        };
        let token = if max == 0 && (page.prefixes.len() > 0 || page.objects.len() > 0) {
            Some(Self::encode_page_token("objects", ""))
        } else if page.truncated {
            match &page.next_marker {
                Some(marker) => Some(Self::encode_page_token("objects", marker)),
                None => None,
            }
        } else {
            None
        };
        let fields = Fields::new().text("kind", "storage#objects").with(
            "items",
            Self::object_items(bucket, objects),
        ).with("prefixes", Self::text_items(prefixes));
        assert(fields@ =~= seq![
            ("kind"@, JsonView::Text("storage#objects"@)),
            ("items"@, JsonView::Array(object_items(bucket@, each(objects@)))),
            ("prefixes"@, JsonView::Array(text_items(each(prefixes@)))),
        ]);
        Self::with_token(fields, token)
    }

    pub fn list_json_objects(cx: &Context, bucket: &str, tape: Tape<'_>) -> (r: Step)
        ensures
            r@ == list_json_objects(cx@, bucket@, tape@),
    {
        let marker = match Self::listing_marker(&cx.stamp, &cx.req, "objects") {
            Ok(marker) => marker,
            Err(refusal) => return Step::Reply(refusal),
        };
        let max: usize = match Self::json_max_results(&cx.stamp, &cx.req) {
            Ok(max) => max,
            Err(refusal) => return Step::Reply(refusal),
        };
        let effect = Effect::ListObjects(
            bucket.to_owned(),
            own(cx.req.query_param("prefix")),
            own(cx.req.query_param("delimiter")),
            marker,
            if max > 1 {
                max
            } else {
                1
            },
        );
        match ask::<Page>(tape, effect) {
            Asked::Halt(step) => step,
            Asked::Got(Err(error), _) => Step::Reply(
                refuse_bucket_failure(&cx.stamp, bucket, error),
            ),
            Asked::Got(Ok(page), _) => Step::Reply(
                json_reply(&cx.stamp, 200, Self::objects_json(bucket, max, page)),
            ),
        }
    }

    pub fn checked_json_blob<'a>(cx: &Context, bucket: &str, object: &str, tape: Tape<'a>) -> (r:
        Known<'a, Object>)
        ensures
            r@ == checked_json_blob(cx@, bucket@, object@, tape@),
    {
        let (blob, tape) = match ask::<Object>(
            tape,
            Effect::GetObject(bucket.to_owned(), object.to_owned()),
        ) {
            Asked::Halt(step) => return Known::Halt(step),
            Asked::Got(Ok(blob), tape) => (blob, tape),
            Asked::Got(Err(error), _) => return Known::Halt(
                Step::Reply(
                    if error.kind == ErrorKind::KeyNotFound {
                        refuse_json_object(&cx.stamp, object)
                    } else {
                        refuse_bucket_failure(&cx.stamp, bucket, error)
                    },
                ),
            ),
        };
        match Self::check_current_generation_selector(&cx.stamp, &cx.req, blob) {
            Err(refusal) => return Known::Halt(Step::Reply(refusal)),
            Ok(()) => {},
        }
        match Self::check_gcs_preconditions(&cx.stamp, &cx.req, blob) {
            Err(refusal) => Known::Halt(Step::Reply(refusal)),
            Ok(()) => Known::Got(blob, tape),
        }
    }

    pub fn get_json_object(
        cx: &Context,
        bucket: &str,
        object: &str,
        media: bool,
        tape: Tape<'_>,
    ) -> (r: Step)
        ensures
            r@ == get_json_object(cx@, bucket@, object@, media, tape@),
    {
        let (blob, tape) = match Self::checked_json_blob(cx, bucket, object, tape) {
            Known::Halt(step) => return step,
            Known::Got(blob, tape) => (blob, tape),
        };
        if media {
            Self::object_media_response_for_blob(cx, bucket, object, blob, tape)
        } else {
            Step::Reply(json_reply(&cx.stamp, 200, Self::json_object_metadata(bucket, blob)))
        }
    }

    fn patch_table(table: Table<String>, fields: &Vec<(String, Json)>) -> (r: Result<
        Table<String>,
        String,
    >)
        ensures
            settled(r) == patched_from(table@, each(fields@), 0),
    {
        let mut out = table;
        let mut i: usize = 0;
        while i < fields.len()
            invariant
                i <= fields.len(),
                patched_from(table@, each(fields@), 0) == patched_from(
                    out@,
                    each(fields@),
                    i as int,
                ),
            decreases fields.len() - i,
        {
            assert(each(fields@)[i as int] == fields@[i as int]@);
            match &fields[i].1 {
                Json::Text(text) => out.insert(&fields[i].0, text.clone()),
                Json::Null => out.remove(&fields[i].0),
                _ => return Err(
                    cat3("Object metadata value ", &fields[i].0, " must be a string or null"),
                ),
            }
            i += 1;
        }
        Ok(out)
    }

    fn patched_metadata(payload: &Json, blob: &Object) -> (r: Result<Table<String>, String>)
        requires
            payload@ is Object,
        ensures
            settled(r) == patched_metadata(payload@->Object_0, blob@),
    {
        match payload.field("metadata") {
            None => Ok(Self::public_metadata(&blob.metadata)),
            Some(Json::Null) => Ok(Table::new()),
            Some(Json::Object(values)) => {
                proof {
                    object_view(*values);
                }
                Self::patch_table(Self::public_metadata(&blob.metadata), values)
            },
            Some(_) => Err("Object metadata must be a JSON object or null".to_owned()),
        }
    }

    pub fn metadata_patch_with_gcs_state(now: &Instant, payload: &Json, blob: &Object) -> (r:
        Result<Table<String>, String>)
        requires
            payload@ is Object,
        ensures
            settled(r) == metadata_patch_with_gcs_state(*now, payload@->Object_0, blob@),
    {
        let metadata = match Self::patched_metadata(payload, blob) {
            Ok(metadata) => metadata,
            Err(message) => return Err(message),
        };
        let current: u64 = match get_text(&blob.metadata, GCS_METAGENERATION_KEY) {
            Some(value) => match read_u64(value) {
                Some(n) => n,
                None => 1,
            },
            None => 1,
        };
        let next: u64 = if current < u64::MAX {
            current + 1
        } else {
            current
        };
        let previous = Self::gcs_updated(&blob.metadata, &blob.last_modified);
        Ok(
            Self::metadata_with_gcs_state(
                &metadata,
                Self::generation(blob),
                show(next),
                now,
                Some(previous.as_str()),
            ),
        )
    }

    fn unpatchable_field(fields: &Vec<(String, Json)>) -> (r: Option<String>)
        ensures
            seen(r) == unpatchable_from(each(fields@), 0),
    {
        let mut i: usize = 0;
        while i < fields.len()
            invariant
                i <= fields.len(),
                unpatchable_from(each(fields@), 0) == unpatchable_from(each(fields@), i as int),
            decreases fields.len() - i,
        {
            let name = &fields[i].0;
            assert(each(fields@)[i as int] == fields@[i as int]@);
            if !same(name, "metadata") && !same(name, "contentType") {
                return Some(name.clone());
            }
            i += 1;
        }
        None
    }

    /// An object once a document that was read patches it.
    pub fn document_patch(now: &Instant, parsed: &Result<Json, String>, blob: &Object) -> (r: Result<
        Object,
        (u16, String),
    >)
        ensures
            settled(r) == document_patch(*now, settled(*parsed), blob@),
    {
        let payload = match parsed {
            Ok(payload) => payload,
            Err(error) => return Err((400, cat("Invalid object metadata JSON: ", error))),
        };
        match payload {
            Json::Object(fields) => {
                proof {
                    object_view(*fields);
                }
                match Self::unpatchable_field(fields) {
                    Some(name) => return Err(
                        (
                            501,
                            cat3(
                                "Object metadata patch field ",
                                &name,
                                " is not supported by this emulator surface",
                            ),
                        ),
                    ),
                    None => {},
                }
            },
            _ => return Err((400, "Object metadata patch must be a JSON object".to_owned())),
        }
        let mut updated = blob.copied();
        updated.metadata = match Self::metadata_patch_with_gcs_state(now, payload, blob) {
            Ok(metadata) => metadata,
            Err(message) => return Err((400, message)),
        };
        match payload.field("contentType") {
            None => {},
            Some(Json::Null) => {
                updated.content_type = "application/octet-stream".to_owned();
            },
            Some(Json::Text(content_type)) => {
                if content_type.as_str().unicode_len() == 0 {
                    return Err(
                        (400, "contentType must be a non-empty string or null".to_owned()),
                    );
                }
                updated.content_type = content_type.clone();
            },
            Some(_) => return Err(
                (400, "contentType must be a non-empty string or null".to_owned()),
            ),
        }
        Ok(updated)
    }

    pub fn current_precondition_failure(cx: &Context, bucket: &str, object: &str, tape: Tape<'_>)
        -> (r: Step)
        ensures
            r@ == current_precondition_failure(cx@, bucket@, object@, tape@),
    {
        let found = match try_ask::<Object>(
            tape,
            Effect::GetObject(bucket.to_owned(), object.to_owned()),
        ) {
            Gained::Halt(step) => return step,
            Gained::Got(found, _) => found.value,
        };
        match found {
            None => Step::Reply(refuse_json_object(&cx.stamp, object)),
            Some(current) => Step::Reply(
                match Self::check_gcs_preconditions(&cx.stamp, &cx.req, current) {
                    Err(refusal) => refusal,
                    Ok(()) => Self::generation_precondition_failed(&cx.stamp),
                },
            ),
        }
    }

    pub fn patch_json_object(cx: &Context, bucket: &str, object: &str, tape: Tape<'_>) -> (r: Step)
        ensures
            r@ == patch_json_object(cx@, bucket@, object@, tape@),
    {
        let (blob, tape) = match Self::checked_json_blob(cx, bucket, object, tape) {
            Known::Halt(step) => return step,
            Known::Got(blob, tape) => (blob, tape),
        };
        let parsed = parse_json(cx.req.body.as_slice());
        let updated = match Self::document_patch(&cx.stamp.now, &parsed, blob) {
            Ok(updated) => updated,
            Err((status, message)) => return Step::Reply(
                refuse_upload(&cx.stamp, status, &message),
            ),
        };
        let effect = Effect::ReplaceMetadata(
            bucket.to_owned(),
            object.to_owned(),
            blob.copied(),
            updated,
        );
        let (replaced, tape) = match require::<bool>(tape, effect) {
            Known::Halt(step) => return step,
            Known::Got(replaced, tape) => (*replaced, tape),
        };
        if !replaced {
            return Self::current_precondition_failure(cx, bucket, object, tape);
        }
        match require::<Object>(tape, Effect::GetObject(bucket.to_owned(), object.to_owned())) {
            Known::Halt(step) => step,
            Known::Got(stored, _) => Step::Reply(
                Self::gcs_object_json_response(&cx.stamp, 200, bucket, stored),
            ),
        }
    }

    pub fn delete_json_object(cx: &Context, bucket: &str, object: &str, tape: Tape<'_>) -> (r: Step)
        ensures
            r@ == delete_json_object(cx@, bucket@, object@, tape@),
    {
        let (blob, tape) = match Self::checked_json_blob(cx, bucket, object, tape) {
            Known::Halt(step) => return step,
            Known::Got(blob, tape) => (blob, tape),
        };
        let (retained, tape) = match Self::retained(&cx.stamp.now, bucket, blob, tape) {
            Gained::Halt(step) => return step,
            Gained::Got(retained, tape) => (retained, tape),
        };
        if retained {
            return Step::Reply(refuse_retained_json(&cx.stamp));
        }
        let effect = Effect::DeleteObjectIf(
            bucket.to_owned(),
            object.to_owned(),
            Self::json_mutation_condition(&cx.req, blob),
        );
        match require::<bool>(tape, effect) {
            Known::Halt(step) => step,
            Known::Got(deleted, tape) => if *deleted {
                Step::Reply(reply(&cx.stamp, 204))
            } else {
                Self::current_precondition_failure(cx, bucket, object, tape)
            },
        }
    }

    pub fn handle_json_object_item(
        cx: &Context,
        bucket: &str,
        object: &str,
        media: bool,
        tape: Tape<'_>,
    ) -> (r: Step)
        ensures
            r@ == handle_json_object_item(cx@, bucket@, object@, media, tape@),
    {
        if cx.req.is(Method::Patch) || cx.req.is(Method::Delete) {
            match Self::invalid_json_mutation_headers(&cx.stamp, &cx.req) {
                Some(refusal) => return Step::Reply(refusal),
                None => {},
            }
        }
        match cx.req.method {
            Method::Get => Self::get_json_object(cx, bucket, object, media, tape),
            Method::Patch => Self::patch_json_object(cx, bucket, object, tape),
            Method::Delete => Self::delete_json_object(cx, bucket, object, tape),
            _ => Step::Reply(
                refuse_json(
                    &cx.stamp,
                    405,
                    "methodNotAllowed",
                    "The HTTP verb in the request is not supported.",
                ),
            ),
        }
    }

    fn is_true(value: Option<&str>) -> (r: bool)
        ensures
            r == is_true(seen(value)),
    {
        match value {
            Some(value) => same(&lowercase(value), "true"),
            None => false,
        }
    }

    fn rest_of(parts: &Vec<&str>, n: usize) -> (r: String)
        requires
            n <= parts@.len(),
        ensures
            r@ == rest_of(each(parts@), n as int),
    {
        let mut rest: Vec<String> = Vec::new();
        let mut i: usize = n;
        while i < parts.len()
            invariant
                n <= i <= parts.len(),
                each(rest@) =~= each(parts@).subrange(n as int, i as int),
            decreases parts.len() - i,
        {
            assert(each(parts@)[i as int] == parts@[i as int]@);
            let part = parts[i].to_owned();
            proof {
                each_push(rest@, part);
            }
            rest.push(part);
            i += 1;
        }
        joined(&rest, "/")
    }

    pub fn handle_json_object_api(cx: &Context, parts: &Vec<&str>, bucket: &str, tape: Tape<'_>)
        -> (r: Step)
        requires
            parts@.len() >= 5,
        ensures
            r@ == handle_json_object_api(cx@, each(parts@), bucket@, tape@),
    {
        if parts.len() == 5 {
            if Self::is_true(cx.req.query_param("softDeleted")) || Self::is_true(
                cx.req.query_param("versions"),
            ) {
                return Step::Reply(
                    refuse_unimplemented(
                        &cx.stamp,
                        "GCS JSON object history listings are not supported by this emulator surface",
                    ),
                );
            }
            let (found, tape) = match try_ask::<Bucket>(
                tape,
                Effect::GetBucket(bucket.to_owned()),
            ) {
                Gained::Halt(step) => return step,
                Gained::Got(found, tape) => (found.value, tape),
            };
            if Self::foreign_data_protection_active(found) {
                return Step::Reply(refuse_foreign_json(&cx.stamp));
            }
            return Self::list_json_objects(cx, bucket, tape);
        }
        let object = match Self::decode_object_path(&Self::rest_of(parts, 5)) {
            Ok(object) => object,
            Err(message) => return Step::Reply(refuse_upload(&cx.stamp, 400, &message)),
        };
        match Self::authorize(&cx.stamp, &cx.req, &cx.auth, bucket, Some(object.as_str())) {
            Err(refusal) => return Step::Reply(refusal),
            Ok(()) => {},
        }
        let (found, tape) = match try_ask::<Bucket>(tape, Effect::GetBucket(bucket.to_owned())) {
            Gained::Halt(step) => return step,
            Gained::Got(found, tape) => (found.value, tape),
        };
        if Self::foreign_data_protection_active(found) {
            return Step::Reply(refuse_foreign_json(&cx.stamp));
        }
        let media = equals(cx.req.query_param("alt"), "media");
        Self::handle_json_object_item(cx, bucket, &object, media, tape)
    }

    pub fn handle_json_download(cx: &Context, parts: &Vec<&str>, tape: Tape<'_>) -> (r: Step)
        requires
            parts@.len() >= 6,
        ensures
            r@ == handle_json_download(cx@, each(parts@), tape@),
    {
        let bucket = parts[4];
        assert(each(parts@)[4] == bucket@);
        let object = match Self::decode_object_path(&Self::rest_of(parts, 6)) {
            Ok(object) => object,
            Err(message) => return Step::Reply(refuse_upload(&cx.stamp, 400, &message)),
        };
        match Self::authorize(&cx.stamp, &cx.req, &cx.auth, bucket, Some(object.as_str())) {
            Err(refusal) => return Step::Reply(refusal),
            Ok(()) => {},
        }
        let (found, tape) = match try_ask::<Bucket>(tape, Effect::GetBucket(bucket.to_owned())) {
            Gained::Halt(step) => return step,
            Gained::Got(found, tape) => (found.value, tape),
        };
        if Self::foreign_data_protection_active(found) {
            return Step::Reply(refuse_foreign_json(&cx.stamp));
        }
        Self::get_json_object(cx, bucket, &object, true, tape)
    }

    pub fn handle_json_bucket_api(cx: &Context, parts: &Vec<&str>, tape: Tape<'_>) -> (r: Step)
        requires
            parts@.len() >= 3,
        ensures
            r@ == handle_json_bucket_api(cx@, each(parts@), tape@),
    {
        if parts.len() == 3 {
            return match Self::authorize(&cx.stamp, &cx.req, &cx.auth, "", None) {
                Err(refusal) => Step::Reply(refusal),
                Ok(()) => Self::handle_json_bucket_collection(cx, tape),
            };
        }
        let bucket = parts[3];
        assert(each(parts@)[3] == bucket@);
        match Self::authorize(&cx.stamp, &cx.req, &cx.auth, bucket, None) {
            Err(refusal) => return Step::Reply(refusal),
            Ok(()) => {},
        }
        if parts.len() == 4 {
            return Self::handle_json_bucket_item(cx, bucket, tape);
        }
        assert(each(parts@)[4] == parts@[4]@);
        if same(parts[4], "lockRetentionPolicy") {
            return Step::Reply(
                refuse_unimplemented(
                    &cx.stamp,
                    "Bucket retention-policy locking is not supported by this emulator surface",
                ),
            );
        }
        if same(parts[4], "o") {
            return Self::handle_json_object_api(cx, parts, bucket, tape);
        }
        Step::Reply(refuse_upload(&cx.stamp, 400, "Unsupported GCS JSON API path"))
    }

    pub fn handle_json_api(cx: &Context, tape: Tape<'_>) -> (r: Step)
        ensures
            r@ == handle_json_api(cx@, tape@),
    {
        let parts = segments_of(&cx.req.path);
        proof {
            assert forall|i: int| 0 <= i < parts@.len() implies segments(cx@.req.path)[i]
                == #[trigger] parts@[i]@ by {}
        }
        if parts.len() >= 3 && same(parts[0], "storage") && same(parts[1], "v1") && same(
            parts[2],
            "b",
        ) {
            return Self::handle_json_bucket_api(cx, &parts, tape);
        }
        if parts.len() >= 6 && same(parts[0], "download") && same(parts[1], "storage") && same(
            parts[2],
            "v1",
        ) && same(parts[3], "b") && same(parts[5], "o") {
            return Self::handle_json_download(cx, &parts, tape);
        }
        Step::Reply(refuse(&cx.stamp, 400, "InvalidURI", "Unsupported GCS JSON API path"))
    }
}

} // verus!
