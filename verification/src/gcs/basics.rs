//! Replies, hosts, paths and generations of the Google Cloud Storage front door.

use vstd::prelude::*;
use vstd::string::*;
use vstd::utf8::encode_utf8;
use crate::azure::basics::{
    is_positive, meta_headers, positive, put_meta_headers, quote, quoted,
    AZURE_SOFT_DELETE_DAYS_KEY, AZURE_VERSIONING_KEY, GCS_RETENTION_SECONDS_KEY,
    GCS_SOFT_DELETE_SECONDS_KEY, S3_OBJECT_LOCK_ENABLED_KEY, S3_VERSIONING_STATUS_KEY,
};
use crate::clock::{
    format_last_modified_at, format_millis, http_date, instant, is_within, later_by, millis,
    millis_date, millis_of, read_rfc3339, rfc3339_moment, shifted, within, Instant, Stamp,
    StampView,
};
use crate::codec::{base64_encode, base64_text, md5_compute, md5_digest};
use crate::gcs::GcsAdapter;
use crate::http::{decode_uri_path, path_text, status, Request, RequestView, Response, ResponseView};
use crate::json::{array_view, json_text, write_json, Fields, Json, JsonView};
use crate::number::{decimal, read_i64, read_u64, show, show_usize, show_wide, signed, unsigned};
use crate::store::{Bucket, BucketView, Object, ObjectView};
use crate::table::{get, get_text, with, without, Copied, Table};
use crate::text::{
    after_prefix, before_suffix, begins, cat, cat3, characters, contains, cut, equals, escape_xml,
    holds, lowercase, lowered, or_else, or_text, pieces, same, split, split_once, starts_with,
    strip_prefix, strip_suffix, xml,
};
use crate::views::{each, each_empty, each_push, seen, settled, Pairs, Text};

verus! {

pub const GCS_GENERATION_KEY: &'static str = "__sqrzl_gcs_generation";

pub const GCS_METAGENERATION_KEY: &'static str = "__sqrzl_gcs_metageneration";

pub const GCS_UPDATED_KEY: &'static str = "__sqrzl_gcs_updated";

pub const GCS_CRC32C_KEY: &'static str = "__sqrzl_gcs_crc32c";

// ---------------------------------------------------------------------------
// Replies

/// The headers that every reply carries.
pub open spec fn response(stamp: StampView, code: u16) -> ResponseView {
    status(code).header("x-guploader-uploadid"@, stamp.request_id).header(
        "date"@,
        http_date(stamp.now.secs, stamp.now.nanos),
    )
}

pub fn reply(stamp: &Stamp, code: u16) -> (r: Response)
    ensures
        r@ == response(stamp@, code),
{
    let date = format_last_modified_at(&stamp.now);
    Response::new(code).header("x-guploader-uploadid", &stamp.request_id).header("date", &date)
}

pub open spec fn xml_response(stamp: StampView, code: u16, body: Text) -> ResponseView {
    response(stamp, code).content_type("application/xml"@).text(body)
}

pub fn xml_reply(stamp: &Stamp, code: u16, body: &str) -> (r: Response)
    ensures
        r@ == xml_response(stamp@, code, body@),
{
    reply(stamp, code).content_type("application/xml").text(body)
}

pub open spec fn json_response(stamp: StampView, code: u16, json: JsonView) -> ResponseView {
    response(stamp, code).content_type("application/json"@).text(json_text(json))
}

pub fn json_reply(stamp: &Stamp, code: u16, json: Json) -> (r: Response)
    ensures
        r@ == json_response(stamp@, code, json@),
{
    reply(stamp, code).content_type("application/json").text(&write_json(json))
}

/// The description of an error in the form of the JSON API.
pub open spec fn error_json(domain: Text, reason: Text, message: Text, code: u64) -> JsonView {
    JsonView::Object(
        seq![
            (
                "error"@,
                JsonView::Object(
                    seq![
                        (
                            "errors"@,
                            JsonView::Array(
                                seq![
                                    JsonView::Object(
                                        seq![
                                            ("domain"@, JsonView::Text(domain)),
                                            ("reason"@, JsonView::Text(reason)),
                                            ("message"@, JsonView::Text(message)),
                                        ],
                                    ),
                                ],
                            ),
                        ),
                        ("code"@, JsonView::Number(code)),
                        ("message"@, JsonView::Text(message)),
                    ],
                ),
            ),
        ],
    )
}

pub fn error_as_json(domain: &str, reason: &str, message: &str, code: u64) -> (r: Json)
    ensures
        r@ == error_json(domain@, reason@, message@, code),
{
    let detail = Fields::new().text("domain", domain).text("reason", reason).text(
        "message",
        message,
    );
    assert(detail@ =~= seq![
        ("domain"@, JsonView::Text(domain@)),
        ("reason"@, JsonView::Text(reason@)),
        ("message"@, JsonView::Text(message@)),
    ]);
    let mut errors: Vec<Json> = Vec::new();
    let detail = detail.object();
    errors.push(detail);
    proof {
        array_view(errors);
        assert(each(errors@) =~= seq![detail@]);
    }
    let inner = Fields::new().with("errors", Json::Array(errors)).with(
        "code",
        Json::Number(code),
    ).text("message", message);
    assert(inner@ =~= seq![
        ("errors"@, JsonView::Array(seq![detail@])),
        ("code"@, JsonView::Number(code)),
        ("message"@, JsonView::Text(message@)),
    ]);
    let inner = inner.object();
    let outer = Fields::new().with("error", inner);
    assert(outer@ =~= seq![("error"@, inner@)]);
    outer.object()
}

/// A refusal in the form of the JSON API.
pub open spec fn json_error(stamp: StampView, status: u16, reason: Text, message: Text)
    -> ResponseView {
    json_response(
        stamp,
        status,
        error_json(
            if reason == "rateLimitExceeded"@ {
                "usageLimits"@
            } else {
                "global"@
            },
            reason,
            message,
            status as u64,
        ),
    )
}

pub fn refuse_json(stamp: &Stamp, status: u16, reason: &str, message: &str) -> (r: Response)
    ensures
        r@ == json_error(stamp@, status, reason@, message@),
{
    let domain = if same(reason, "rateLimitExceeded") {
        "usageLimits"
    } else {
        "global"
    };
    json_reply(stamp, status, error_as_json(domain, reason, message, status as u64))
}

/// The reason that goes with a status, and for bad requests with the message.
pub open spec fn default_json_error_reason(status: u16, message: Text) -> Text {
    if status == 400 {
        if starts_with(message, "Required parameter"@) {
            "required"@
        } else if contains(message, "JSON"@) {
            "parseError"@
        } else if contains(message, "parameter"@) {
            "invalidParameter"@
        } else {
            "invalidArgument"@
        }
    } else if status == 401 {
        "authError"@
    } else if status == 403 {
        "forbidden"@
    } else if status == 404 {
        "notFound"@
    } else if status == 405 {
        "methodNotAllowed"@
    } else if status == 409 {
        "conflict"@
    } else if status == 412 {
        "conditionNotMet"@
    } else if status == 413 {
        "uploadTooLarge"@
    } else if status == 429 {
        "rateLimitExceeded"@
    } else if status == 500 {
        "internalError"@
    } else if status == 503 {
        "backendError"@
    } else if status == 501 {
        "notImplemented"@
    } else {
        "unknown"@
    }
}

/// A refusal in the form of the JSON API, with the reason that goes with it.
pub open spec fn json_upload_error(stamp: StampView, status: u16, message: Text) -> ResponseView {
    json_error(stamp, status, default_json_error_reason(status, message), message)
}

pub fn refuse_upload(stamp: &Stamp, status: u16, message: &str) -> (r: Response)
    ensures
        r@ == json_upload_error(stamp@, status, message@),
{
    refuse_json(stamp, status, GcsAdapter::default_json_error_reason(status, message), message)
}

/// A refusal in the form of the XML API.
pub open spec fn error_response(stamp: StampView, status: u16, code: Text, message: Text)
    -> ResponseView {
    xml_response(
        stamp,
        status,
        "<?xml version=\"1.0\" encoding=\"UTF-8\"?><Error><Code>"@ + code + "</Code><Message>"@
            + message + "</Message></Error>"@,
    )
}

pub fn refuse(stamp: &Stamp, status: u16, code: &str, message: &str) -> (r: Response)
    ensures
        r@ == error_response(stamp@, status, code@, message@),
{
    let mut body = "<?xml version=\"1.0\" encoding=\"UTF-8\"?><Error><Code>".to_owned();
    body.append(code);
    body.append("</Code><Message>");
    body.append(message);
    body.append("</Message></Error>");
    xml_reply(stamp, status, &body)
}

pub open spec fn payload_too_large(stamp: StampView, json_api: bool, max: int) -> ResponseView {
    let message = "Request body exceeds SQRZL_MAX_REQUEST_BYTES ("@ + decimal(max) + " bytes)"@;
    if json_api {
        json_upload_error(stamp, 413, message)
    } else {
        error_response(stamp, 413, "EntityTooLarge"@, xml(message))
    }
}

pub open spec fn xml_bucket_not_found(stamp: StampView, bucket: Text) -> ResponseView {
    error_response(
        stamp,
        404,
        "NoSuchBucket"@,
        "The specified bucket "@ + bucket + " does not exist."@,
    )
}

pub fn refuse_xml_bucket(stamp: &Stamp, bucket: &str) -> (r: Response)
    ensures
        r@ == xml_bucket_not_found(stamp@, bucket@),
{
    refuse(
        stamp,
        404,
        "NoSuchBucket",
        &cat3("The specified bucket ", bucket, " does not exist."),
    )
}

pub open spec fn json_bucket_not_found(stamp: StampView, bucket: Text) -> ResponseView {
    json_upload_error(
        stamp,
        404,
        "The specified bucket "@ + bucket + " does not exist."@,
    )
}

pub fn refuse_json_bucket(stamp: &Stamp, bucket: &str) -> (r: Response)
    ensures
        r@ == json_bucket_not_found(stamp@, bucket@),
{
    refuse_upload(stamp, 404, &cat3("The specified bucket ", bucket, " does not exist."))
}

pub open spec fn json_not_found(stamp: StampView, object: Text) -> ResponseView {
    json_error(stamp, 404, "notFound"@, "No such object: "@ + object)
}

pub fn refuse_json_object(stamp: &Stamp, object: &str) -> (r: Response)
    ensures
        r@ == json_not_found(stamp@, object@),
{
    refuse_json(stamp, 404, "notFound", &cat("No such object: ", object))
}

pub open spec fn no_such_key(stamp: StampView) -> ResponseView {
    error_response(stamp, 404, "NoSuchKey"@, "The specified key does not exist."@)
}

pub fn refuse_key(stamp: &Stamp) -> (r: Response)
    ensures
        r@ == no_such_key(stamp@),
{
    refuse(stamp, 404, "NoSuchKey", "The specified key does not exist.")
}

pub open spec fn unimplemented(stamp: StampView, message: Text) -> ResponseView {
    json_error(stamp, 501, "notImplemented"@, message)
}

pub fn refuse_unimplemented(stamp: &Stamp, message: &str) -> (r: Response)
    ensures
        r@ == unimplemented(stamp@, message@),
{
    refuse_json(stamp, 501, "notImplemented", message)
}

pub open spec fn foreign_json(stamp: StampView) -> ResponseView {
    json_error(
        stamp,
        409,
        "conflict"@,
        "GCS object history and data protection are unavailable while another provider owns this bucket's retention or versioning mode"@,
    )
}

pub fn refuse_foreign_json(stamp: &Stamp) -> (r: Response)
    ensures
        r@ == foreign_json(stamp@),
{
    refuse_json(
        stamp,
        409,
        "conflict",
        "GCS object history and data protection are unavailable while another provider owns this bucket's retention or versioning mode",
    )
}

pub open spec fn foreign_xml(stamp: StampView) -> ResponseView {
    error_response(
        stamp,
        409,
        "InvalidBucketState"@,
        "GCS object history is unavailable while another provider owns this bucket's retention or versioning mode"@,
    )
}

pub fn refuse_foreign_xml(stamp: &Stamp) -> (r: Response)
    ensures
        r@ == foreign_xml(stamp@),
{
    refuse(
        stamp,
        409,
        "InvalidBucketState",
        "GCS object history is unavailable while another provider owns this bucket's retention or versioning mode",
    )
}

pub open spec fn retention_not_met_json(stamp: StampView) -> ResponseView {
    json_error(
        stamp,
        403,
        "retentionPolicyNotMet"@,
        "Object is subject to an active retention policy"@,
    )
}

pub fn refuse_retained_json(stamp: &Stamp) -> (r: Response)
    ensures
        r@ == retention_not_met_json(stamp@),
{
    refuse_json(
        stamp,
        403,
        "retentionPolicyNotMet",
        "Object is subject to an active retention policy",
    )
}

pub open spec fn retention_not_met_xml(stamp: StampView) -> ResponseView {
    error_response(
        stamp,
        403,
        "RetentionPolicyNotMet"@,
        "Object is subject to an active retention policy"@,
    )
}

pub fn refuse_retained_xml(stamp: &Stamp) -> (r: Response)
    ensures
        r@ == retention_not_met_xml(stamp@),
{
    refuse(
        stamp,
        403,
        "RetentionPolicyNotMet",
        "Object is subject to an active retention policy",
    )
}

pub open spec fn internal_xml(stamp: StampView, message: Text) -> ResponseView {
    error_response(stamp, 500, "InternalError"@, message)
}

pub fn refuse_internal_xml(stamp: &Stamp, message: &str) -> (r: Response)
    ensures
        r@ == internal_xml(stamp@, message@),
{
    refuse(stamp, 500, "InternalError", message)
}

// ---------------------------------------------------------------------------
// Hosts and paths

/// The name in a host, without its port.
pub open spec fn host_name(host: Text) -> Text {
    match split_once(host, ":"@) {
        Some((name, _)) => name,
        None => host,
    }
}

fn host_name_of(host: &str) -> (r: &str)
    ensures
        r@ == host_name(host@),
{
    match cut(host, ":") {
        Some((name, _)) => name,
        None => host,
    }
}

/// What precedes a suffix, in whatever case it is written, unless that is nothing.
pub open spec fn before_host(name: Text, suffix: Text) -> Option<Text> {
    match strip_suffix(lowered(name), suffix) {
        Some(bucket) => if bucket.len() > 0 {
            Some(name.subrange(0, bucket.len() as int))
        } else {
            None
        },
        None => None,
    }
}

fn before_host_of(name: &str, suffix: &str) -> (r: Option<String>)
    ensures
        seen(r) == before_host(name@, suffix@),
{
    let lower = lowercase(name);
    match before_suffix(&lower, suffix) {
        Some(bucket) => {
            let n: usize = characters(bucket).len();
            if n > 0 {
                Some(name.substring_char(0, n).to_owned())
            } else {
                None
            }
        },
        None => None,
    }
}

/// The bucket that a host of the XML API names.
pub open spec fn xml_virtual_host_bucket(host: Text) -> Option<Text> {
    match before_host(host_name(host), ".storage.googleapis.com"@) {
        Some(bucket) => Some(bucket),
        None => before_host(host_name(host), ".storage.localhost"@),
    }
}

/// Whether a host is one of this front door.
pub open spec fn is_gcs_endpoint_host(host: Text) -> bool {
    lowered(host_name(host)) == "storage.googleapis.com"@ || lowered(host_name(host))
        == "storage.localhost"@ || xml_virtual_host_bucket(host_name(host)) is Some
}

/// The bucket that the host of a request names.
pub open spec fn request_host_bucket(req: RequestView) -> Option<Text> {
    match req.header("host"@) {
        Some(host) => xml_virtual_host_bucket(host),
        None => None,
    }
}

pub open spec fn is_gcs_host(req: RequestView) -> bool {
    match req.header("host"@) {
        Some(host) => is_gcs_endpoint_host(host),
        None => false,
    }
}

pub open spec fn is_json_api_path(path: Text) -> bool {
    starts_with(path, "/storage/v1/"@) || starts_with(path, "/upload/storage/v1/"@) || starts_with(
        path,
        "/upload/resumable/"@,
    ) || starts_with(path, "/download/storage/v1/"@)
}

/// Whether a request is for the JSON API.
pub open spec fn is_json_api_request(req: RequestView) -> bool {
    is_json_api_path(req.path) && request_host_bucket(req) is None
}

/// A path of an object, decoded, or why it cannot be.
pub open spec fn decode_object_path(path: Text) -> Result<Text, Text> {
    match path_text(path) {
        Some(text) => Ok(text),
        None => Err("Invalid encoded GCS object path: "@ + "malformed percent-encoding"@),
    }
}

/// The bucket and the object that a request of the XML API addresses.
pub open spec fn parse_path(req: RequestView) -> Result<(Option<Text>, Option<Text>), Text> {
    let path = or_text(strip_prefix(req.path, "/"@), req.path);
    match request_host_bucket(req) {
        Some(bucket) => if path.len() == 0 {
            Ok((Some(bucket), None))
        } else {
            match decode_object_path(path) {
                Ok(object) => Ok((Some(bucket), Some(object))),
                Err(message) => Err(message),
            }
        },
        None => if path.len() == 0 {
            Ok((None, None))
        } else {
            match split_once(path, "/"@) {
                None => Ok((Some(path), None)),
                Some((bucket, object)) => if bucket.len() == 0 {
                    Err("GCS XML paths must include a bucket name"@)
                } else if object.len() == 0 {
                    Ok((Some(bucket), None))
                } else {
                    match decode_object_path(object) {
                        Ok(object) => Ok((Some(bucket), Some(object))),
                        Err(message) => Err(message),
                    }
                },
            }
        },
    }
}

// ---------------------------------------------------------------------------
// Generations

/// Milliseconds since the Unix epoch, and at least one.
pub open spec fn stamp_number(at: Instant) -> int {
    if millis(at) > 1 {
        millis(at)
    } else {
        1
    }
}

pub fn stamp_number_of(at: &Instant) -> (r: u128)
    ensures
        r == stamp_number(*at),
{
    let n: i128 = millis_of(at);
    if n > 1 {
        n as u128
    } else {
        1
    }
}

pub open spec fn generation(blob: ObjectView) -> Text {
    or_text(
        get(blob.metadata, GCS_GENERATION_KEY@),
        decimal(stamp_number(blob.last_modified)),
    )
}

pub open spec fn metageneration(blob: ObjectView) -> Text {
    or_text(get(blob.metadata, GCS_METAGENERATION_KEY@), "1"@)
}

pub open spec fn generation_from_metadata(metadata: Pairs) -> Text {
    or_text(get(metadata, GCS_GENERATION_KEY@), "1"@)
}

pub open spec fn metageneration_from_metadata(metadata: Pairs) -> Text {
    or_text(get(metadata, GCS_METAGENERATION_KEY@), "1"@)
}

/// The metadata that clients see.
pub open spec fn public_metadata(metadata: Pairs) -> Pairs {
    without(
        without(without(metadata, GCS_GENERATION_KEY@), GCS_METAGENERATION_KEY@),
        GCS_UPDATED_KEY@,
    )
}

/// The number of the present generation of an object; zero where it has none.
pub open spec fn current_generation(existing: Option<ObjectView>) -> int {
    match existing {
        Some(object) => match unsigned(generation(object), u64::MAX as int) {
            Some(n) => n,
            None => 0,
        },
        None => 0,
    }
}

/// The number of the next generation: above the present one as far as there are numbers,
/// and no less than the time.
pub open spec fn next_generation_number(now: Instant, existing: Option<ObjectView>) -> int {
    let current = current_generation(existing);
    let next = if current < u64::MAX {
        current + 1
    } else {
        u64::MAX as int
    };
    let time = if stamp_number(now) <= u64::MAX {
        stamp_number(now)
    } else {
        1
    };
    if next > time {
        next
    } else {
        time
    }
}

pub open spec fn next_generation(now: Instant, existing: Option<ObjectView>) -> Text {
    decimal(next_generation_number(now, existing))
}

/// The moment of an update: now, or a millisecond after the previous one where no whole
/// millisecond has gone by since.
pub open spec fn update_after(now: Instant, previous: Option<Instant>) -> Instant {
    match previous {
        Some(previous) => if millis(now) > millis(previous) {
            now
        } else {
            match shifted(previous, 1) {
                Some(next) => next,
                None => previous,
            }
        },
        None => now,
    }
}

/// The moment of an update, behind one that is written in RFC 3339.
pub open spec fn next_update(now: Instant, previous: Option<Text>) -> Instant {
    update_after(
        now,
        match previous {
            Some(previous) => instant(rfc3339_moment(previous)),
            None => None,
        },
    )
}

pub open spec fn next_gcs_updated(now: Instant, previous: Option<Text>) -> Text {
    millis_date(next_update(now, previous).secs, next_update(now, previous).nanos)
}

/// Metadata with the generation, the metageneration and the time of the update.
pub open spec fn metadata_with_gcs_state(
    metadata: Pairs,
    generation: Text,
    metageneration: Text,
    now: Instant,
    previous: Option<Text>,
) -> Pairs {
    with(
        with(
            with(public_metadata(metadata), GCS_GENERATION_KEY@, generation),
            GCS_METAGENERATION_KEY@,
            metageneration,
        ),
        GCS_UPDATED_KEY@,
        next_gcs_updated(now, previous),
    )
}

pub open spec fn gcs_updated(metadata: Pairs, fallback: Instant) -> Text {
    or_text(get(metadata, GCS_UPDATED_KEY@), millis_date(fallback.secs, fallback.nanos))
}

/// The tag of the JSON API: it changes with the generation and the metageneration.
pub open spec fn json_etag(metadata: Pairs, fallback: Text) -> Text {
    match (get(metadata, GCS_GENERATION_KEY@), get(metadata, GCS_METAGENERATION_KEY@)) {
        (Some(generation), Some(metageneration)) => base64_text(
            md5_digest(encode_utf8(generation + ":"@ + metageneration)),
        ),
        _ => fallback,
    }
}

/// A reply that describes an object in the form of the XML API.
pub open spec fn object_response(
    stamp: StampView,
    code: u16,
    blob: ObjectView,
    body_len: int,
    content_range: Option<Text>,
) -> ResponseView {
    meta_headers(
        response(stamp, code).header("accept-ranges"@, "bytes"@).header(
            "content-length"@,
            decimal(body_len),
        ).header("content-type"@, blob.content_type).header("etag"@, quoted(blob.etag)).header(
            "x-goog-generation"@,
            generation(blob),
        ).header("x-goog-metageneration"@, metageneration(blob)),
        "x-goog-meta-"@,
        public_metadata(blob.metadata),
    ).maybe_header("content-range"@, content_range)
}

// ---------------------------------------------------------------------------
// Data protection of a bucket

/// Whether another front door keeps history in the bucket, or something does that this one
/// knows nothing of.
pub open spec fn foreign_data_protection(found: Option<BucketView>) -> bool {
    match found {
        Some(bucket) => {
            let status = get(bucket.metadata, S3_VERSIONING_STATUS_KEY@);
            status == Some("Enabled"@) || status == Some("Suspended"@) || get(
                bucket.metadata,
                S3_OBJECT_LOCK_ENABLED_KEY@,
            ) == Some("true"@) || get(bucket.metadata, AZURE_VERSIONING_KEY@) == Some("true"@)
                || positive(get(bucket.metadata, AZURE_SOFT_DELETE_DAYS_KEY@))
                || bucket.versioning_enabled && !positive(
                get(bucket.metadata, GCS_SOFT_DELETE_SECONDS_KEY@),
            )
        },
        None => false,
    }
}

/// Whether an object of a bucket is too young to be replaced or deleted.
pub open spec fn is_retained(now: Instant, found: Option<BucketView>, blob: ObjectView) -> bool {
    match found {
        Some(bucket) => match get(bucket.metadata, GCS_RETENTION_SECONDS_KEY@) {
            Some(value) => match signed(value) {
                Some(seconds) => within(now, blob.last_modified, seconds),
                None => false,
            },
            None => false,
        },
        None => false,
    }
}

/// The parts of a path that are not empty, from place `i` of all its parts on.
pub open spec fn segments_upto(parts: Seq<Text>, i: int) -> Seq<Text>
    decreases i,
{
    if i <= 0 {
        Seq::empty()
    } else if parts[i - 1].len() > 0 {
        segments_upto(parts, i - 1).push(parts[i - 1])
    } else {
        segments_upto(parts, i - 1)
    }
}

/// The parts of a path between slashes that are not empty.
pub open spec fn segments(path: Text) -> Seq<Text> {
    segments_upto(split(path, '/'), split(path, '/').len() as int)
}

pub fn segments_of<'a>(path: &'a str) -> (r: Vec<&'a str>)
    ensures
        each(r@) == segments(path@),
{
    let parts = pieces(path, '/');
    let mut out: Vec<&'a str> = Vec::new();
    let mut i: usize = 0;
    proof {
        each_empty::<&'a str>();
    }
    while i < parts.len()
        invariant
            i <= parts.len(),
            each(out@) == segments_upto(each(parts@), i as int),
        decreases parts.len() - i,
    {
        let part = parts[i];
        assert(each(parts@)[i as int] == part@);
        if part.unicode_len() > 0 {
            proof {
                each_push(out@, part);
            }
            out.push(part);
        }
        i += 1;
    }
    out
}

impl GcsAdapter {
    pub fn default_json_error_reason(status: u16, message: &str) -> (r: &'static str)
        ensures
            r@ == default_json_error_reason(status, message@),
    {
        if status == 400 {
            if begins(message, "Required parameter") {
                "required"
            } else if holds(message, "JSON") {
                "parseError"
            } else if holds(message, "parameter") {
                "invalidParameter"
            } else {
                "invalidArgument"
            }
        } else if status == 401 {
            "authError"
        } else if status == 403 {
            "forbidden"
        } else if status == 404 {
            "notFound"
        } else if status == 405 {
            "methodNotAllowed"
        } else if status == 409 {
            "conflict"
        } else if status == 412 {
            "conditionNotMet"
        } else if status == 413 {
            "uploadTooLarge"
        } else if status == 429 {
            "rateLimitExceeded"
        } else if status == 500 {
            "internalError"
        } else if status == 503 {
            "backendError"
        } else if status == 501 {
            "notImplemented"
        } else {
            "unknown"
        }
    }

    pub fn payload_too_large_response(stamp: &Stamp, json_api: bool, max_request_bytes: usize) -> (r:
        Response)
        ensures
            r@ == payload_too_large(stamp@, json_api, max_request_bytes as int),
    {
        let message = cat3(
            "Request body exceeds SQRZL_MAX_REQUEST_BYTES (",
            &show_usize(max_request_bytes),
            " bytes)",
        );
        if json_api {
            refuse_upload(stamp, 413, &message)
        } else {
            refuse(stamp, 413, "EntityTooLarge", &escape_xml(&message))
        }
    }

    pub fn xml_virtual_host_bucket(host: &str) -> (r: Option<String>)
        ensures
            seen(r) == xml_virtual_host_bucket(host@),
    {
        let name = host_name_of(host);
        match before_host_of(name, ".storage.googleapis.com") {
            Some(bucket) => Some(bucket),
            None => before_host_of(name, ".storage.localhost"),
        }
    }

    pub fn is_gcs_endpoint_host(host: &str) -> (r: bool)
        ensures
            r == is_gcs_endpoint_host(host@),
    {
        let name = host_name_of(host);
        let lower = lowercase(name);
        same(&lower, "storage.googleapis.com") || same(&lower, "storage.localhost")
            || Self::xml_virtual_host_bucket(name).is_some()
    }

    fn request_host_bucket(req: &Request) -> (r: Option<String>)
        ensures
            seen(r) == request_host_bucket(req@),
    {
        match req.header("host") {
            Some(host) => Self::xml_virtual_host_bucket(host),
            None => None,
        }
    }

    pub fn is_gcs_host(req: &Request) -> (r: bool)
        ensures
            r == is_gcs_host(req@),
    {
        match req.header("host") {
            Some(host) => Self::is_gcs_endpoint_host(host),
            None => false,
        }
    }

    pub fn is_json_api_path(path: &str) -> (r: bool)
        ensures
            r == is_json_api_path(path@),
    {
        begins(path, "/storage/v1/") || begins(path, "/upload/storage/v1/") || begins(
            path,
            "/upload/resumable/",
        ) || begins(path, "/download/storage/v1/")
    }

    pub fn is_json_api_request(req: &Request) -> (r: bool)
        ensures
            r == is_json_api_request(req@),
    {
        Self::is_json_api_path(&req.path) && Self::request_host_bucket(req).is_none()
    }

    pub fn decode_object_path(path: &str) -> (r: Result<String, String>)
        ensures
            settled(r) == decode_object_path(path@),
    {
        match decode_uri_path(path) {
            Some(text) => Ok(text),
            None => Err(cat("Invalid encoded GCS object path: ", "malformed percent-encoding")),
        }
    }

    pub fn parse_path(req: &Request) -> (r: Result<(Option<String>, Option<String>), String>)
        ensures
            match r {
                Ok(path) => parse_path(req@) == Ok::<_, Text>((seen(path.0), seen(path.1))),
                Err(message) => parse_path(req@) == Err::<(Option<Text>, Option<Text>), _>(
                    message@,
                ),
            },
    {
        let path = match after_prefix(&req.path, "/") {
            Some(rest) => rest,
            None => &req.path,
        };
        match Self::request_host_bucket(req) {
            Some(bucket) => {
                if path.unicode_len() == 0 {
                    return Ok((Some(bucket), None));
                }
                return match Self::decode_object_path(path) {
                    Ok(object) => Ok((Some(bucket), Some(object))),
                    Err(message) => Err(message),
                };
            },
            None => {},
        }
        if path.unicode_len() == 0 {
            return Ok((None, None));
        }
        match cut(path, "/") {
            None => Ok((Some(path.to_owned()), None)),
            Some((bucket, object)) => if bucket.unicode_len() == 0 {
                Err("GCS XML paths must include a bucket name".to_owned())
            } else if object.unicode_len() == 0 {
                Ok((Some(bucket.to_owned()), None))
            } else {
                match Self::decode_object_path(object) {
                    Ok(object) => Ok((Some(bucket.to_owned()), Some(object))),
                    Err(message) => Err(message),
                }
            },
        }
    }

    pub fn generation(blob: &Object) -> (r: String)
        ensures
            r@ == generation(blob@),
    {
        match get_text(&blob.metadata, GCS_GENERATION_KEY) {
            Some(value) => value.to_owned(),
            None => show_wide(stamp_number_of(&blob.last_modified)),
        }
    }

    pub fn metageneration(blob: &Object) -> (r: String)
        ensures
            r@ == metageneration(blob@),
    {
        or_else(get_text(&blob.metadata, GCS_METAGENERATION_KEY), "1").to_owned()
    }

    pub fn generation_from_metadata(metadata: &Table<String>) -> (r: String)
        ensures
            r@ == generation_from_metadata(metadata@),
    {
        or_else(get_text(metadata, GCS_GENERATION_KEY), "1").to_owned()
    }

    pub fn metageneration_from_metadata(metadata: &Table<String>) -> (r: String)
        ensures
            r@ == metageneration_from_metadata(metadata@),
    {
        or_else(get_text(metadata, GCS_METAGENERATION_KEY), "1").to_owned()
    }

    pub fn public_metadata(metadata: &Table<String>) -> (r: Table<String>)
        ensures
            r@ == public_metadata(metadata@),
    {
        let mut out = metadata.copied();
        out.remove(GCS_GENERATION_KEY);
        out.remove(GCS_METAGENERATION_KEY);
        out.remove(GCS_UPDATED_KEY);
        out
    }

    pub fn next_generation(now: &Instant, existing: Option<&Object>) -> (r: String)
        ensures
            r@ == next_generation(*now, seen(existing)),
    {
        let current: u64 = match existing {
            Some(object) => match read_u64(&Self::generation(object)) {
                Some(n) => n,
                None => 0,
            },
            None => 0,
        };
        let next: u64 = if current < u64::MAX {
            current + 1
        } else {
            u64::MAX
        };
        let stamp: u128 = stamp_number_of(now);
        let time: u64 = if stamp <= u64::MAX as u128 {
            stamp as u64
        } else {
            1
        };
        show(
            if next > time {
                next
            } else {
                time
            },
        )
    }

    /// The moment of an update, which lies in a later millisecond than the previous one.
    pub fn update_after(now: &Instant, previous: Option<Instant>) -> (r: Instant)
        ensures
            r == update_after(*now, previous),
    {
        match previous {
            Some(previous) => if millis_of(now) > millis_of(&previous) {
                *now
            } else {
                match later_by(&previous, 1) {
                    Some(next) => next,
                    None => previous,
                }
            },
            None => *now,
        }
    }

    pub fn next_update(now: &Instant, previous: Option<&str>) -> (r: Instant)
        ensures
            r == next_update(*now, seen(previous)),
    {
        let before = match previous {
            Some(text) => read_rfc3339(text),
            None => None,
        };
        Self::update_after(now, before)
    }

    pub fn next_gcs_updated(now: &Instant, previous: Option<&str>) -> (r: String)
        ensures
            r@ == next_gcs_updated(*now, seen(previous)),
    {
        let at = Self::next_update(now, previous);
        format_millis(at.secs, at.nanos)
    }

    pub fn metadata_with_gcs_state(
        metadata: &Table<String>,
        generation: String,
        metageneration: String,
        now: &Instant,
        previous: Option<&str>,
    ) -> (r: Table<String>)
        ensures
            r@ == metadata_with_gcs_state(
                metadata@,
                generation@,
                metageneration@,
                *now,
                seen(previous),
            ),
    {
        let mut out = Self::public_metadata(metadata);
        out.insert(GCS_GENERATION_KEY, generation);
        out.insert(GCS_METAGENERATION_KEY, metageneration);
        out.insert(GCS_UPDATED_KEY, Self::next_gcs_updated(now, previous));
        out
    }

    pub fn gcs_updated(metadata: &Table<String>, fallback: &Instant) -> (r: String)
        ensures
            r@ == gcs_updated(metadata@, *fallback),
    {
        match get_text(metadata, GCS_UPDATED_KEY) {
            Some(value) => value.to_owned(),
            None => format_millis(fallback.secs, fallback.nanos),
        }
    }

    pub fn json_etag(metadata: &Table<String>, fallback: &str) -> (r: String)
        ensures
            r@ == json_etag(metadata@, fallback@),
    {
        match (
            get_text(metadata, GCS_GENERATION_KEY),
            get_text(metadata, GCS_METAGENERATION_KEY),
        ) {
            (Some(generation), Some(metageneration)) => {
                let text = cat3(generation, ":", metageneration);
                base64_encode(md5_compute(text.as_str().as_bytes()).as_slice())
            },
            _ => fallback.to_owned(),
        }
    }

    pub fn object_response(
        stamp: &Stamp,
        code: u16,
        blob: &Object,
        body_len: usize,
        content_range: Option<&str>,
    ) -> (r: Response)
        ensures
            r@ == object_response(stamp@, code, blob@, body_len as int, seen(content_range)),
    {
        let length = show_usize(body_len);
        let etag = quote(&blob.etag);
        let generation = Self::generation(blob);
        let metageneration = Self::metageneration(blob);
        put_meta_headers(
            reply(stamp, code).header("accept-ranges", "bytes").header(
                "content-length",
                &length,
            ).header("content-type", &blob.content_type).header("etag", &etag).header(
                "x-goog-generation",
                &generation,
            ).header("x-goog-metageneration", &metageneration),
            "x-goog-meta-",
            &Self::public_metadata(&blob.metadata),
        ).maybe_header("content-range", content_range)
    }

    pub fn foreign_data_protection_active(found: Option<&Bucket>) -> (r: bool)
        ensures
            r == foreign_data_protection(seen(found)),
    {
        match found {
            Some(bucket) => {
                let status = get_text(&bucket.metadata, S3_VERSIONING_STATUS_KEY);
                equals(status, "Enabled") || equals(status, "Suspended") || equals(
                    get_text(&bucket.metadata, S3_OBJECT_LOCK_ENABLED_KEY),
                    "true",
                ) || equals(get_text(&bucket.metadata, AZURE_VERSIONING_KEY), "true")
                    || is_positive(get_text(&bucket.metadata, AZURE_SOFT_DELETE_DAYS_KEY))
                    || bucket.versioning_enabled && !is_positive(
                    get_text(&bucket.metadata, GCS_SOFT_DELETE_SECONDS_KEY),
                )
            },
            None => false,
        }
    }

    pub fn object_is_retained(now: &Instant, found: Option<&Bucket>, blob: &Object) -> (r: bool)
        ensures
            r == is_retained(*now, seen(found), blob@),
    {
        match found {
            Some(bucket) => match get_text(&bucket.metadata, GCS_RETENTION_SECONDS_KEY) {
                Some(value) => match read_i64(value) {
                    Some(seconds) => is_within(now, &blob.last_modified, seconds),
                    None => false,
                },
                None => false,
            },
            None => false,
        }
    }
}

} // verus!
