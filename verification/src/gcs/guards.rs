//! What guards buckets and objects: who may change them, and what protects them.

use vstd::prelude::*;
use vstd::string::*;
use crate::gcs::adapter::handle_request;
use crate::gcs::auth::{authorize, sign, string_to_sign};
use crate::gcs::basics::{
    foreign_data_protection, foreign_json, foreign_xml, generation, is_json_api_request,
    is_retained, parse_path, retention_not_met_json, retention_not_met_xml,
};
use crate::gcs::json_api::{
    create_bucket_from, delete_json_bucket, delete_json_object, get_json_object, handle_json_api,
    handle_json_bucket_api, handle_json_object_api, inner_field, json_unsigned_integer,
    patch_bucket_from, patch_json_object, validate_bucket_data_protection,
};
use crate::gcs::objects::BlobWriteView;
use crate::gcs::uploads::{complete_session, handle_resumable_start, store_session, store_upload};
use crate::gcs::xml_api::{
    delete_xml_object, handle_xml_api, handle_xml_bucket_request, handle_xml_object_request,
    put_xml_object, unsupported_subresource,
};
use crate::http::{ContextView, Method};
use crate::json::{field, JsonView};
use crate::number::{signed, unsigned_is_not_negative};
use crate::store::{
    BucketView, EffectView, ObjectView, OutcomeView, StepView, TapeView, UploadSessionView,
};
use crate::text::{or_text, strip_prefix};
use crate::views::Text;

verus! {

// ---------------------------------------------------------------------------
// Who may ask

/// A request of the XML API that is not authorized is refused without a question to storage.
pub proof fn unauthorized_xml_requests_reach_no_storage(
    cx: ContextView,
    bucket: Text,
    object: Option<Text>,
    tape: TapeView,
)
    requires
        !is_json_api_request(cx.req),
        parse_path(cx.req) == Ok::<_, Text>((Some(bucket), object)),
        authorize(cx.stamp, cx.req, cx.auth, bucket, object) is Err,
    ensures
        handle_request(cx, tape) == StepView::Reply(
            authorize(cx.stamp, cx.req, cx.auth, bucket, object)->Err_0,
        ),
{
}

/// A request of the JSON API for a bucket, or for what is in it, that is not authorized for
/// the bucket is refused without a question to storage.
pub proof fn unauthorized_json_requests_reach_no_storage(
    cx: ContextView,
    parts: Seq<Text>,
    tape: TapeView,
)
    requires
        parts.len() >= 3,
        authorize(
            cx.stamp,
            cx.req,
            cx.auth,
            if parts.len() == 3 {
                ""@
            } else {
                parts[3]
            },
            None,
        ) is Err,
    ensures
        handle_json_bucket_api(cx, parts, tape) is Reply,
{
}

/// An upload that is not authorized is refused without a question to storage.
pub proof fn unauthorized_uploads_reach_no_storage(cx: ContextView, bucket: Text, tape: TapeView)
    requires
        authorize(cx.stamp, cx.req, cx.auth, bucket, None) is Err,
    ensures
        handle_resumable_start(cx, bucket, tape) is Reply,
{
}

/// Where no credentials are enforced, every request is admitted.
pub proof fn open_instances_admit_everyone(cx: ContextView, bucket: Text, object: Option<Text>)
    requires
        !cx.auth.enforce_auth,
    ensures
        authorize(cx.stamp, cx.req, cx.auth, bucket, object) is Ok,
{
}

/// Where credentials are enforced, a request that does not have all three parts of a signature
/// in its query is admitted exactly if it has one of the two credentials as its token, or its
/// signature under the configured key.
pub proof fn admitted_requests_carry_credentials(
    cx: ContextView,
    bucket: Text,
    object: Option<Text>,
)
    requires
        cx.auth.enforce_auth,
        cx.req.param("GoogleAccessId"@) is None || cx.req.param("Expires"@) is None
            || cx.req.param("Signature"@) is None,
    ensures
        authorize(cx.stamp, cx.req, cx.auth, bucket, object) is Ok <==> match cx.req.header(
            "authorization"@,
        ) {
            None => false,
            Some(authorization) => match strip_prefix(authorization, "Bearer "@) {
                Some(token) => cx.auth.secret_access_key == Some(token) || cx.auth.access_key_id
                    == Some(token),
                None => strip_prefix(
                    authorization,
                    "GOOG1 "@ + or_text(cx.auth.access_key_id, ""@) + ":"@,
                ) matches Some(provided) && signed_with(
                    cx,
                    bucket,
                    object,
                    or_text(cx.req.header("date"@), ""@),
                    provided,
                ),
            },
        },
{
}

/// Where credentials are enforced, a request with a signature in its query is admitted exactly
/// if the signature is the one for it, names the configured access key and has not expired.
pub proof fn admitted_queries_are_signed(
    cx: ContextView,
    bucket: Text,
    object: Option<Text>,
    access_id: Text,
    expires: Text,
    provided: Text,
)
    requires
        cx.auth.enforce_auth,
        cx.req.param("GoogleAccessId"@) == Some(access_id),
        cx.req.param("Expires"@) == Some(expires),
        cx.req.param("Signature"@) == Some(provided),
    ensures
        authorize(cx.stamp, cx.req, cx.auth, bucket, object) is Ok <==> {
            &&& signed(expires) matches Some(at) && at > cx.stamp.now.secs
            &&& cx.auth.access_key_id == Some(access_id)
            &&& signed_with(cx, bucket, object, expires, provided)
        },
{
}

/// Whether a text is the signature of a request under the configured key.
pub open spec fn signed_with(
    cx: ContextView,
    bucket: Text,
    object: Option<Text>,
    expires: Text,
    provided: Text,
) -> bool {
    string_to_sign(cx.req, bucket, object, expires) matches Ok(payload) && sign(cx.auth, payload)
        == Ok::<Text, Text>(provided)
}

// ---------------------------------------------------------------------------
// Whose history

/// Where another front door keeps history in a bucket, no object of it is served through the
/// XML API.
pub proof fn foreign_history_keeps_xml_objects(
    cx: ContextView,
    bucket: Text,
    object: Text,
    found: BucketView,
    tape: TapeView,
)
    requires
        parse_path(cx.req) == Ok::<_, Text>((Some(bucket), Some(object))),
        authorize(cx.stamp, cx.req, cx.auth, bucket, Some(object)) is Ok,
        foreign_data_protection(Some(found)),
        tape.len() > 0 ==> tape[0] == OutcomeView::Bucket(Ok(found)),
    ensures
        handle_xml_api(cx, tape) == if tape.len() > 0 {
            StepView::Reply(foreign_xml(cx.stamp))
        } else {
            StepView::Perform(EffectView::GetBucket(bucket))
        },
        foreign_xml(cx.stamp).status == 409,
{
}

/// Where another front door keeps history in a bucket, the XML API neither lists nor deletes
/// it.
pub proof fn foreign_history_keeps_xml_buckets(
    cx: ContextView,
    bucket: Text,
    found: BucketView,
    tape: TapeView,
)
    requires
        cx.req.method == Method::Get || cx.req.method == Method::Delete,
        foreign_data_protection(Some(found)),
        tape.len() > 0 ==> tape[0] == OutcomeView::Bucket(Ok(found)),
    ensures
        handle_xml_bucket_request(cx, bucket, tape).is_quiet(),
        tape.len() > 0 ==> handle_xml_bucket_request(cx, bucket, tape).is_refusal(),
{
}

/// Where another front door keeps history in a bucket, no object of it is served through the
/// JSON API.
pub proof fn foreign_history_keeps_json_objects(
    cx: ContextView,
    parts: Seq<Text>,
    bucket: Text,
    found: BucketView,
    tape: TapeView,
)
    requires
        foreign_data_protection(Some(found)),
        tape.len() > 0 ==> tape[0] == OutcomeView::Bucket(Ok(found)),
    ensures
        handle_json_object_api(cx, parts, bucket, tape).is_quiet(),
        tape.len() > 0 ==> handle_json_object_api(cx, parts, bucket, tape).is_refusal(),
        foreign_json(cx.stamp).status == 409,
{
    authorization_refusals(cx, bucket, None);
    match crate::gcs::basics::decode_object_path(crate::gcs::json_api::rest_of(parts, 5)) {
        Ok(object) => authorization_refusals(cx, bucket, Some(object)),
        Err(_) => {},
    }
}

proof fn authorization_refusals(cx: ContextView, bucket: Text, object: Option<Text>)
    ensures
        authorize(cx.stamp, cx.req, cx.auth, bucket, object) matches Err(refusal)
            ==> refusal.status >= 400,
{
}

/// Where another front door keeps history in a bucket, the JSON API does not delete it and
/// does not claim it.
pub proof fn foreign_history_keeps_json_buckets(
    cx: ContextView,
    bucket: Text,
    payload: JsonView,
    found: BucketView,
    tape: TapeView,
)
    requires
        foreign_data_protection(Some(found)),
        tape.len() > 0 ==> tape[0] == OutcomeView::Bucket(Ok(found)),
    ensures
        delete_json_bucket(cx, bucket, tape).is_quiet(),
        tape.len() > 0 ==> delete_json_bucket(cx, bucket, tape) == StepView::Reply(
            foreign_json(cx.stamp),
        ),
        crate::gcs::json_api::bucket_data_protection_requested(payload) ==> patch_bucket_from(
            cx,
            bucket,
            Ok(payload),
            tape,
        ).is_quiet(),
{
}

/// Where another front door keeps history in a bucket, nothing is uploaded to it.
pub proof fn foreign_history_keeps_uploads_out(
    cx: ContextView,
    bucket: Text,
    id: Text,
    session: UploadSessionView,
    header_crc: Option<u32>,
    found: BucketView,
    tape: TapeView,
)
    requires
        foreign_data_protection(Some(found)),
    ensures
        tape.len() > 1 ==> (tape[1] == OutcomeView::Bucket(Ok(found)) ==> handle_resumable_start(
            cx,
            bucket,
            tape,
        ).is_quiet()),
        tape.len() <= 1 ==> handle_resumable_start(cx, bucket, tape).is_quiet(),
        tape.len() > 0 && tape[0] == OutcomeView::Bucket(Ok(found)) ==> complete_session(
            cx,
            id,
            session,
            header_crc,
            tape,
        ).is_quiet(),
{
    if tape.len() > 1 {
        assert(tape.skip(1)[0] == tape[1]);
    }
}

// ---------------------------------------------------------------------------
// Retention

/// An object that its bucket's policy retains is not replaced or deleted through the XML API.
pub proof fn retained_objects_stay_in_xml(
    cx: ContextView,
    bucket: Text,
    object: Text,
    blob: ObjectView,
    found: BucketView,
    tape: TapeView,
)
    requires
        is_retained(cx.stamp.now, Some(found), blob),
        tape.len() > 0 ==> tape[0] == OutcomeView::Object(Ok(blob)),
        tape.len() > 1 ==> tape[1] == OutcomeView::Bucket(Ok(found)),
    ensures
        put_xml_object(cx, bucket, object, tape).is_quiet(),
        delete_xml_object(cx, bucket, object, tape).is_quiet(),
        tape.len() > 1 ==> put_xml_object(cx, bucket, object, tape) == StepView::Reply(
            retention_not_met_xml(cx.stamp),
        ),
        tape.len() > 1 ==> delete_xml_object(cx, bucket, object, tape) == StepView::Reply(
            retention_not_met_xml(cx.stamp),
        ),
        retention_not_met_xml(cx.stamp).status == 403,
{
    if tape.len() > 1 {
        assert(tape.skip(1)[0] == tape[1]);
    }
}

/// An object that its bucket's policy retains is not replaced or deleted through the JSON
/// API, by whatever kind of upload.
pub proof fn retained_objects_stay_in_json(
    cx: ContextView,
    bucket: Text,
    object: Text,
    write: BlobWriteView,
    id: Text,
    session: UploadSessionView,
    blob: ObjectView,
    found: BucketView,
    tape: TapeView,
)
    requires
        is_retained(cx.stamp.now, Some(found), blob),
        tape.len() > 0 ==> tape[0] == OutcomeView::Object(Ok(blob)),
        tape.len() > 1 ==> tape[1] == OutcomeView::Bucket(Ok(found)),
    ensures
        store_upload(cx, bucket, object, write, tape).is_quiet(),
        store_session(cx, id, session, tape).is_quiet(),
        delete_json_object(cx, bucket, object, tape).is_quiet(),
        tape.len() > 1 ==> store_upload(cx, bucket, object, write, tape) == StepView::Reply(
            retention_not_met_json(cx.stamp),
        ),
        tape.len() > 1 ==> store_session(cx, id, session, tape) == StepView::Reply(
            retention_not_met_json(cx.stamp),
        ),
        retention_not_met_json(cx.stamp).status == 403,
{
    if tape.len() > 1 {
        assert(tape.skip(1)[0] == tape[1]);
    }
}

/// The durations that a bucket's metadata may ask for: a retention of more than nothing and
/// less than a hundred years, and a soft deletion of at least seven and less than ninety
/// days.
pub proof fn accepted_policies_are_bounded(cx: ContextView, payload: JsonView)
    requires
        validate_bucket_data_protection(cx.stamp, cx.req, payload) is None,
    ensures
        field(payload, "retentionPolicy"@) matches Some(policy) ==> (policy != JsonView::Null ==> (
        json_unsigned_integer(
            inner_field(payload, "retentionPolicy"@, "retentionPeriod"@)->0,
        ) matches Some(period) && 0 < period < 100 * 31_557_600)),
        field(payload, "softDeletePolicy"@) is Some ==> (json_unsigned_integer(
            inner_field(payload, "softDeletePolicy"@, "retentionDurationSeconds"@)->0,
        ) matches Some(duration) && 7 * 86_400 <= duration < 90 * 86_400),
        inner_field(payload, "retentionPolicy"@, "isLocked"@) is None,
        field(payload, "objectRetention"@) is None,
{
    if let Some(policy) = field(payload, "retentionPolicy"@) {
        if policy != JsonView::Null {
            unsigned_is_natural(inner_field(payload, "retentionPolicy"@, "retentionPeriod"@)->0);
        }
    }
}

proof fn unsigned_is_natural(value: JsonView)
    ensures
        json_unsigned_integer(value) matches Some(n) ==> n >= 0,
{
    match value {
        JsonView::Text(text) => {
            unsigned_is_not_negative(text, u64::MAX as int);
        },
        _ => {},
    }
}

/// A policy that is not accepted changes nothing: neither is a bucket created with it nor is
/// one changed to it.
pub proof fn refused_policies_change_nothing(
    cx: ContextView,
    bucket: Text,
    payload: JsonView,
    tape: TapeView,
)
    requires
        validate_bucket_data_protection(cx.stamp, cx.req, payload) is Some,
    ensures
        create_bucket_from(cx, Ok(payload), tape).is_refusal(),
        patch_bucket_from(cx, bucket, Ok(payload), tape).is_refusal(),
{
}

// ---------------------------------------------------------------------------
// Reading and what is not served

/// Reading through the JSON API changes nothing.
pub proof fn json_reads_change_nothing(cx: ContextView, tape: TapeView)
    requires
        cx.req.method == Method::Get,
    ensures
        handle_json_api(cx, tape).is_quiet(),
{
}

/// Reading through the XML API changes nothing.
pub proof fn xml_reads_change_nothing(cx: ContextView, tape: TapeView)
    requires
        cx.req.method == Method::Get || cx.req.method == Method::Head,
    ensures
        handle_xml_api(cx, tape).is_quiet(),
{
}

/// A request for a part of a bucket or of an object that is not served changes nothing.
pub proof fn unserved_parts_are_refused(
    cx: ContextView,
    bucket: Text,
    object: Text,
    tape: TapeView,
)
    ensures
        unsupported_subresource(cx.req, false) is Some ==> (handle_xml_bucket_request(
            cx,
            bucket,
            tape,
        ) matches StepView::Reply(reply) && reply.status == 501),
        unsupported_subresource(cx.req, true) is Some ==> handle_xml_object_request(
            cx,
            bucket,
            object,
            tape,
        ).is_quiet(),
        unsupported_subresource(cx.req, true) is Some && tape.len() > 0 && (
        tape[0] matches OutcomeView::Bucket(Ok(_))) ==> (handle_xml_object_request(
            cx,
            bucket,
            object,
            tape,
        ) matches StepView::Reply(reply) && reply.status == 501),
{
}

/// A request that selects a generation other than the current one is refused and changes
/// nothing.
pub proof fn other_generations_are_refused(
    cx: ContextView,
    bucket: Text,
    object: Text,
    media: bool,
    blob: ObjectView,
    tape: TapeView,
)
    requires
        cx.req.param("generation"@) matches Some(selected) && selected != generation(blob),
        tape.len() > 0,
        tape[0] == OutcomeView::Object(Ok(blob)),
    ensures
        get_json_object(cx, bucket, object, media, tape).is_refusal(),
        delete_json_object(cx, bucket, object, tape).is_refusal(),
        patch_json_object(cx, bucket, object, tape).is_refusal(),
{
}

} // verus!
