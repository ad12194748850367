//! Replies, names, conditions and protections of the Azure Blob front door.

use vstd::prelude::*;
use vstd::string::*;
use vstd::utf8::encode_utf8;
use crate::clock::{
    format_last_modified_at, http_date, instant, rfc2822_moment, rfc3339_moment, Instant, Stamp,
    StampView,
};
use crate::codec::{content_etag, url_base64_text};
use crate::http::{
    path_text, status, HeaderView, Method, Request, RequestView, Response, ResponseView,
};
use crate::number::{decimal, read_u64, show_usize, unsigned};
use crate::store::{BucketView, ConditionView, ObjectView};
use crate::table::{get, with, with_option, Table};
use crate::text::{
    after_prefix, cat, cat3, characters, contains, escape_xml, or_text, split_once, starts_with,
    strip_prefix, trim, trim_char, trim_prefixes, xml,
};
use crate::views::{seen, Pairs, Text};

verus! {

pub const AZURE_VERSION: &'static str = "2023-11-03";

pub const AZURE_BLOB_TYPE_KEY: &'static str = "azure_blob_type";

pub const AZURE_LEASE_ID_KEY: &'static str = "azure_lease_id";

pub const AZURE_LEASE_STATE_KEY: &'static str = "azure_lease_state";

pub const AZURE_LEASE_STATUS_KEY: &'static str = "azure_lease_status";

pub const AZURE_LEASE_DURATION_KEY: &'static str = "azure_lease_duration";

pub const AZURE_SNAPSHOT_TIME_KEY: &'static str = "azure_snapshot_time";

pub const AZURE_SNAPSHOT_SOURCE_KEY: &'static str = "azure_snapshot_source";

pub const AZURE_IMMUTABILITY_UNTIL_KEY: &'static str = "azure_immutability_until";

pub const AZURE_IMMUTABILITY_MODE_KEY: &'static str = "azure_immutability_mode";

pub const AZURE_LEGAL_HOLD_KEY: &'static str = "azure_legal_hold";

pub const AZURE_SNAPSHOT_PREFIX: &'static str = "__sqrzl_azure_snapshot__";

pub const AZURE_VERSIONING_KEY: &'static str = "azure_versioning_enabled";

pub const AZURE_SOFT_DELETE_DAYS_KEY: &'static str = "azure_soft_delete_days";

pub const S3_VERSIONING_STATUS_KEY: &'static str = "s3_versioning_status";

pub const S3_OBJECT_LOCK_ENABLED_KEY: &'static str = "s3_object_lock_enabled";

pub const GCS_SOFT_DELETE_SECONDS_KEY: &'static str = "gcs_soft_delete_seconds";

pub const GCS_RETENTION_SECONDS_KEY: &'static str = "gcs_retention_seconds";

// ---------------------------------------------------------------------------
// Replies

/// The headers that every reply carries.
pub open spec fn response(stamp: StampView, code: u16) -> ResponseView {
    status(code).header("x-ms-version"@, AZURE_VERSION@).header(
        "x-ms-request-id"@,
        stamp.request_id,
    ).header("date"@, http_date(stamp.now.secs, stamp.now.nanos))
}

pub fn reply(stamp: &Stamp, code: u16) -> (r: Response)
    ensures
        r@ == response(stamp@, code),
{
    let date = format_last_modified_at(&stamp.now);
    Response::new(code).header("x-ms-version", AZURE_VERSION).header(
        "x-ms-request-id",
        &stamp.request_id,
    ).header("date", &date)
}

pub open spec fn xml_response(stamp: StampView, code: u16, body: Text) -> ResponseView {
    response(stamp, code).content_type("application/xml"@).text(body)
}

pub fn xml_reply(stamp: &Stamp, code: u16, body: &str) -> (r: Response)
    ensures
        r@ == xml_response(stamp@, code, body@),
{
    reply(stamp, code).content_type("application/xml").text(body)
}

/// The document that describes an error.
pub open spec fn error_document(code: Text, message: Text) -> Text {
    "<?xml version=\"1.0\" encoding=\"utf-8\"?><Error><Code>"@ + xml(code) + "</Code><Message>"@
        + xml(message) + "</Message></Error>"@
}

/// A refusal: a status, the error's code and a message.
pub open spec fn error_response(stamp: StampView, status: u16, code: Text, message: Text)
    -> ResponseView {
    response(stamp, status).content_type("application/xml"@).header("x-ms-error-code"@, code).text(
        error_document(code, message),
    )
}

pub fn refuse(stamp: &Stamp, status: u16, code: &str, message: &str) -> (r: Response)
    ensures
        r@ == error_response(stamp@, status, code@, message@),
{
    let mut body =
        "<?xml version=\"1.0\" encoding=\"utf-8\"?><Error><Code>".to_owned();
    body.append(&escape_xml(code));
    body.append("</Code><Message>");
    body.append(&escape_xml(message));
    body.append("</Message></Error>");
    reply(stamp, status).content_type("application/xml").header("x-ms-error-code", code).text(&body)
}

/// Whether a client's request identifier is echoed: printable ASCII of at most 1024
/// characters.
pub open spec fn echoes(value: Text) -> bool {
    value.len() <= 1024 && forall|i: int|
        0 <= i < value.len() ==> 0x20 <= (#[trigger] value[i]) as u32 <= 0x7e
}

pub open spec fn with_client_request_id(id: Option<Text>, response: ResponseView) -> ResponseView {
    match id {
        Some(id) => if echoes(id) {
            response.header("x-ms-client-request-id"@, id)
        } else {
            response
        },
        None => response,
    }
}

pub fn echo_client_request_id(id: Option<&str>, response: Response) -> (r: Response)
    ensures
        r@ == with_client_request_id(seen(id), response@),
{
    match id {
        Some(text) => {
            let x = characters(text);
            if x.len() > 1024 {
                return response;
            }
            let mut i: usize = 0;
            while i < x.len()
                invariant
                    id == Some(text),
                    x@ == text@,
                    x.len() <= 1024,
                    i <= x.len(),
                    forall|k: int| 0 <= k < i ==> 0x20 <= (#[trigger] text@[k]) as u32 <= 0x7e,
                decreases x.len() - i,
            {
                let n: u32 = x[i] as u32;
                if n < 0x20 || n > 0x7e {
                    assert(!(0x20 <= text@[i as int] as u32 <= 0x7e));
                    return response;
                }
                i += 1;
            }
            response.header("x-ms-client-request-id", text)
        },
        None => response,
    }
}

pub open spec fn condition_failed(stamp: StampView) -> ResponseView {
    error_response(
        stamp,
        412,
        "ConditionNotMet"@,
        "The condition specified using HTTP conditional header(s) is not met."@,
    )
}

pub fn refuse_condition(stamp: &Stamp) -> (r: Response)
    ensures
        r@ == condition_failed(stamp@),
{
    refuse(
        stamp,
        412,
        "ConditionNotMet",
        "The condition specified using HTTP conditional header(s) is not met.",
    )
}

pub open spec fn blob_not_found(stamp: StampView) -> ResponseView {
    error_response(stamp, 404, "BlobNotFound"@, "The specified blob does not exist."@)
}

pub fn refuse_blob(stamp: &Stamp) -> (r: Response)
    ensures
        r@ == blob_not_found(stamp@),
{
    refuse(stamp, 404, "BlobNotFound", "The specified blob does not exist.")
}

pub open spec fn container_not_found(stamp: StampView) -> ResponseView {
    error_response(stamp, 404, "ContainerNotFound"@, "The specified container does not exist."@)
}

pub fn refuse_container(stamp: &Stamp) -> (r: Response)
    ensures
        r@ == container_not_found(stamp@),
{
    refuse(stamp, 404, "ContainerNotFound", "The specified container does not exist.")
}

pub open spec fn history_mode_conflict(stamp: StampView) -> ResponseView {
    error_response(
        stamp,
        409,
        "FeatureVersionMismatch"@,
        "The container data-protection mode is not compatible with this Azure Blob operation."@,
    )
}

pub fn refuse_history_mode(stamp: &Stamp) -> (r: Response)
    ensures
        r@ == history_mode_conflict(stamp@),
{
    refuse(
        stamp,
        409,
        "FeatureVersionMismatch",
        "The container data-protection mode is not compatible with this Azure Blob operation.",
    )
}

/// The reply to a body that is longer than the server takes.
pub open spec fn payload_too_large(stamp: StampView, max: int) -> ResponseView {
    error_response(
        stamp,
        413,
        "RequestBodyTooLarge"@,
        "Request body exceeds SQRZL_MAX_REQUEST_BYTES ("@ + decimal(max) + " bytes)"@,
    )
}

pub fn payload_too_large_response(stamp: &Stamp, max_request_bytes: usize) -> (r: Response)
    ensures
        r@ == payload_too_large(stamp@, max_request_bytes as int),
{
    let message = cat3(
        "Request body exceeds SQRZL_MAX_REQUEST_BYTES (",
        &show_usize(max_request_bytes),
        " bytes)",
    );
    refuse(stamp, 413, "RequestBodyTooLarge", &message)
}

// ---------------------------------------------------------------------------
// Requests

/// A span of bytes, both ends included, inside an object of `size` bytes: what a request
/// for `bytes=a-b` or `bytes=a-` stands for. None where the text is no such request, or
/// the span starts behind the end or is empty.
pub open spec fn range_of(value: Text, size: int) -> Option<(int, int)> {
    match strip_prefix(value, "bytes="@) {
        Some(range) => match split_once(range, "-"@) {
            Some((start, end)) => match unsigned(start, u64::MAX as int) {
                Some(start) => if start >= size {
                    None
                } else if end.len() == 0 {
                    Some((start, size - 1))
                } else {
                    match unsigned(end, u64::MAX as int) {
                        Some(end) => {
                            let end = if end < size - 1 {
                                end
                            } else {
                                size - 1
                            };
                            if end < start {
                                None
                            } else {
                                Some((start, end))
                            }
                        },
                        None => None,
                    }
                },
                None => None,
            },
            None => None,
        },
        None => None,
    }
}

/// A span of bytes to write, both ends included.
pub open spec fn write_range_of(value: Text) -> Option<(int, int)> {
    match strip_prefix(value, "bytes="@) {
        Some(range) => match split_once(range, "-"@) {
            Some((start, end)) => match (
                unsigned(start, usize::MAX as int),
                unsigned(end, usize::MAX as int),
            ) {
                (Some(start), Some(end)) => if end < start {
                    None
                } else {
                    Some((start, end))
                },
                _ => None,
            },
            None => None,
        },
        None => None,
    }
}

/// What a request addresses: an account, and a container and a blob where it names them.
pub struct AzureResource {
    pub account: String,
    pub container: Option<String>,
    pub blob: Option<String>,
}

/// A resource over characters.
pub struct ResourceView {
    pub account: Text,
    pub container: Option<Text>,
    pub blob: Option<Text>,
}

impl View for AzureResource {
    type V = ResourceView;

    open spec fn view(&self) -> ResourceView {
        ResourceView {
            account: self.account@,
            container: seen(self.container),
            blob: seen(self.blob),
        }
    }
}

/// The part of a path, decoded, or why it cannot be.
pub open spec fn decode_path_value(value: Text, resource: Text) -> Result<Text, Text> {
    match path_text(value) {
        Some(text) => Ok(text),
        None => Err(
            "Azure "@ + resource + " path is invalid: "@ + "malformed percent-encoding"@,
        ),
    }
}

/// The resource in a path `/account/container/blob`, of which the account has to be there
/// and the others may be missing.
pub open spec fn parse_resource(path: Text) -> Result<ResourceView, Text> {
    let path = or_text(strip_prefix(path, "/"@), path);
    let (account, rest) = match split_once(path, "/"@) {
        Some((account, rest)) => (account, rest),
        None => (path, Seq::empty()),
    };
    if path.len() == 0 || account.len() == 0 {
        Err("Azure requests must include an account segment"@)
    } else if rest.len() == 0 {
        Ok(ResourceView { account, container: None, blob: None })
    } else {
        let (container, blob) = match split_once(rest, "/"@) {
            Some((container, blob)) => (container, blob),
            None => (rest, Seq::empty()),
        };
        if container.len() == 0 {
            Err("Azure requests must include a container segment"@)
        } else {
            match decode_path_value(container, "container"@) {
                Err(message) => Err(message),
                Ok(container) => if blob.len() == 0 {
                    Ok(ResourceView { account, container: Some(container), blob: None })
                } else {
                    match decode_path_value(blob, "blob"@) {
                        Err(message) => Err(message),
                        Ok(blob) => Ok(
                            ResourceView { account, container: Some(container), blob: Some(blob) },
                        ),
                    }
                },
            }
        }
    }
}

/// Whether a request writes to a blob in a way that has to declare its length.
pub open spec fn put_operation_requires_content_length(req: RequestView) -> bool {
    let comp = req.param("comp"@);
    &&& req.method == Method::Put
    &&& req.param("restype"@) is None
    &&& parse_resource(req.path) matches Ok(resource) && resource.container is Some
        && resource.blob is Some
    &&& req.header("x-ms-copy-source"@) is None
    &&& comp is None || comp == Some("block"@) || comp == Some("blocklist"@) || comp == Some(
        "metadata"@,
    ) || comp == Some("appendblock"@) || comp == Some("page"@) || comp == Some("lease"@) || comp
        == Some("snapshot"@) || comp == Some("legalhold"@) || comp == Some(
        "immutabilityPolicies"@,
    )
}

/// The user metadata among the first `i` headers.
pub open spec fn metadata_upto(headers: Seq<(Text, HeaderView)>, prefix: Text, i: int) -> Pairs
    decreases i,
{
    if i <= 0 {
        Seq::empty()
    } else {
        let before = metadata_upto(headers, prefix, i - 1);
        match (strip_prefix(headers[i - 1].0, prefix), headers[i - 1].1.text()) {
            (Some(key), Some(value)) => with(before, key, value),
            _ => before,
        }
    }
}

/// The user metadata that headers with a prefix carry.
pub open spec fn header_metadata(req: RequestView, prefix: Text) -> Pairs {
    metadata_upto(req.headers, prefix, req.headers.len() as int)
}

pub fn metadata_with_prefix(req: &Request, prefix: &str) -> (r: Table<String>)
    ensures
        r@ == header_metadata(req@, prefix@),
{
    let mut out: Table<String> = Table::new();
    let mut i: usize = 0;
    while i < req.headers.entries.len()
        invariant
            i <= req.headers.entries.len(),
            out@ == metadata_upto(req@.headers, prefix@, i as int),
        decreases req.headers.entries.len() - i,
    {
        let entry = &req.headers.entries[i];
        assert(req@.headers[i as int] == entry@);
        match after_prefix(&entry.0, prefix) {
            Some(key) => {
                match entry.1.text() {
                    Some(value) => out.insert(key, value.to_owned()),
                    None => {},
                }
            },
            None => {},
        }
        i += 1;
    }
    out
}

pub open spec fn metadata_from_headers(req: RequestView) -> Pairs {
    header_metadata(req, "x-ms-meta-"@)
}

pub open spec fn content_type(req: RequestView) -> Text {
    match req.header("x-ms-blob-content-type"@) {
        Some(value) => value,
        None => or_text(req.header("content-type"@), "application/octet-stream"@),
    }
}

pub open spec fn requested_range(req: RequestView) -> Option<Text> {
    match req.header("x-ms-range"@) {
        Some(value) => Some(value),
        None => req.header("range"@),
    }
}

pub open spec fn max_results(stamp: StampView, req: RequestView) -> Result<usize, ResponseView> {
    match req.param("maxresults"@) {
        None => Ok(5000),
        Some(raw) => match unsigned(raw, usize::MAX as int) {
            None => Err(
                error_response(
                    stamp,
                    400,
                    "InvalidQueryParameterValue"@,
                    "The value for maxresults is invalid."@,
                ),
            ),
            Some(value) => if value == 0 {
                Err(
                    error_response(
                        stamp,
                        400,
                        "InvalidQueryParameterValue"@,
                        "The value for maxresults must be greater than zero."@,
                    ),
                )
            } else if value < 5000 {
                Ok(value as usize)
            } else {
                Ok(5000)
            },
        },
    }
}

/// Which local retention modes a container is to be created with: versioning, and the days
/// of soft deletion.
pub open spec fn requested_local_retention_modes(stamp: StampView, req: RequestView) -> Result<
    (bool, Option<u64>),
    ResponseView,
> {
    let selector = req.header("x-sqrzl-azure-versioning-enabled"@);
    if selector is Some && selector != Some("false"@) && selector != Some("true"@) {
        Err(
            error_response(
                stamp,
                400,
                "InvalidHeaderValue"@,
                "The local Azure versioning selector must be true or false."@,
            ),
        )
    } else {
        let versioning = selector == Some("true"@);
        match req.header("x-sqrzl-azure-soft-delete-days"@) {
            None => Ok((versioning, None)),
            Some(value) => match unsigned(value, u64::MAX as int) {
                Some(days) if 1 <= days <= 365 => Ok((versioning, Some(days as u64))),
                _ => Err(
                    error_response(
                        stamp,
                        400,
                        "InvalidHeaderValue"@,
                        "The local Azure soft-delete period must be between 1 and 365 days."@,
                    ),
                ),
            },
        }
    }
}

// ---------------------------------------------------------------------------
// Data-protection modes of a container

/// Whether a metadata value is a number above zero.
pub open spec fn positive(value: Option<Text>) -> bool {
    match value {
        Some(value) => match unsigned(value, u64::MAX as int) {
            Some(n) => n > 0,
            None => false,
        },
        None => false,
    }
}

pub fn is_positive(value: Option<&str>) -> (r: bool)
    ensures
        r == positive(seen(value)),
{
    match value {
        Some(value) => match read_u64(value) {
            Some(n) => n > 0,
            None => false,
        },
        None => false,
    }
}

pub open spec fn azure_versioning_configured(bucket: BucketView) -> bool {
    get(bucket.metadata, AZURE_VERSIONING_KEY@) == Some("true"@)
}

pub open spec fn azure_versioning_enabled(bucket: BucketView) -> bool {
    azure_versioning_configured(bucket) && bucket.versioning_enabled
}

/// Whether this front door keeps history in the container.
pub open spec fn azure_history_mode(bucket: BucketView) -> bool {
    azure_versioning_configured(bucket) || positive(
        get(bucket.metadata, AZURE_SOFT_DELETE_DAYS_KEY@),
    )
}

/// Whether another front door keeps history in the container.
pub open spec fn foreign_history_mode(bucket: BucketView) -> bool {
    let status = get(bucket.metadata, S3_VERSIONING_STATUS_KEY@);
    status == Some("Enabled"@) || status == Some("Suspended"@) || get(
        bucket.metadata,
        S3_OBJECT_LOCK_ENABLED_KEY@,
    ) == Some("true"@) || positive(get(bucket.metadata, GCS_SOFT_DELETE_SECONDS_KEY@)) || positive(
        get(bucket.metadata, GCS_RETENTION_SECONDS_KEY@),
    )
}

/// Whether versions of blobs are shown to clients.
pub open spec fn history_visible(found: Option<BucketView>) -> bool {
    match found {
        Some(bucket) => azure_history_mode(bucket) && !foreign_history_mode(bucket),
        None => false,
    }
}

/// Whether history in the container belongs to something else than this front door.
pub open spec fn history_conflict(found: Option<BucketView>) -> bool {
    match found {
        Some(bucket) => foreign_history_mode(bucket) || bucket.versioning_enabled
            && !azure_history_mode(bucket),
        None => false,
    }
}

// ---------------------------------------------------------------------------
// Blobs

pub open spec fn blob_type(blob: ObjectView) -> Text {
    or_text(get(blob.provider_metadata, AZURE_BLOB_TYPE_KEY@), "BlockBlob"@)
}

pub open spec fn quoted(etag: Text) -> Text {
    "\""@ + etag + "\""@
}

pub fn quote(etag: &str) -> (r: String)
    ensures
        r@ == quoted(etag@),
{
    cat3("\"", etag, "\"")
}

pub open spec fn namespace_etag(bucket: BucketView) -> Text {
    content_etag(encode_utf8(bucket.name))
}

pub open spec fn namespace_response(stamp: StampView, code: u16, bucket: BucketView)
    -> ResponseView {
    response(stamp, code).header("etag"@, quoted(namespace_etag(bucket))).header(
        "last-modified"@,
        http_date(bucket.created_at.secs, bucket.created_at.nanos),
    )
}

pub open spec fn snapshot_prefix(blob_key: Text) -> Text {
    AZURE_SNAPSHOT_PREFIX@ + "/"@ + url_base64_text(encode_utf8(blob_key)) + "/"@
}

/// Under which key a snapshot of a blob is stored.
pub open spec fn snapshot_storage_key(blob_key: Text, snapshot: Text) -> Text {
    snapshot_prefix(blob_key) + snapshot
}

pub open spec fn is_snapshot_storage_key(key: Text) -> bool {
    starts_with(key, AZURE_SNAPSHOT_PREFIX@)
}

/// The tag in a condition that compares strongly, without its quotes.
pub open spec fn strong_etag(value: Text) -> Option<Text> {
    let value = trim(value);
    if starts_with(value, "W/"@) {
        None
    } else {
        Some(trim_char(value, '"'))
    }
}

/// The tag in a condition that compares weakly, without its mark and quotes.
pub open spec fn weak_etag(value: Text) -> Text {
    trim_char(trim_prefixes(trim(value), "W/"@), '"')
}

/// Whether the conditions of a request hold of a resource with a tag.
pub open spec fn conditions_match(req: RequestView, etag: Text) -> bool {
    &&& match req.header("if-match"@) {
        Some(value) => match strong_etag(value) {
            Some(wanted) => wanted == "*"@ || wanted == etag,
            None => false,
        },
        None => true,
    }
    &&& match req.header("if-none-match"@) {
        Some(value) => weak_etag(value) != "*"@ && weak_etag(value) != etag,
        None => true,
    }
}

pub open spec fn lease_id(blob: ObjectView) -> Option<Text> {
    get(blob.provider_metadata, AZURE_LEASE_ID_KEY@)
}

pub open spec fn lease_status(blob: ObjectView) -> Text {
    or_text(get(blob.provider_metadata, AZURE_LEASE_STATUS_KEY@), "unlocked"@)
}

pub open spec fn lease_state(blob: ObjectView) -> Text {
    or_text(get(blob.provider_metadata, AZURE_LEASE_STATE_KEY@), "available"@)
}

pub open spec fn lease_duration(blob: ObjectView) -> Option<Text> {
    get(blob.provider_metadata, AZURE_LEASE_DURATION_KEY@)
}

pub open spec fn has_active_lease(blob: ObjectView) -> bool {
    lease_status(blob) == "locked"@ && lease_id(blob) is Some
}

/// The moment up to which a blob must not change, where one can be read.
pub open spec fn retention_until(blob: ObjectView) -> Option<Instant> {
    match get(blob.provider_metadata, AZURE_IMMUTABILITY_UNTIL_KEY@) {
        Some(value) => match rfc3339_moment(value) {
            Some(pair) => instant(Some(pair)),
            None => instant(rfc2822_moment(value)),
        },
        None => None,
    }
}

/// A hold is off where it was never set or is exactly `false`.
pub open spec fn has_legal_hold(blob: ObjectView) -> bool {
    match get(blob.provider_metadata, AZURE_LEGAL_HOLD_KEY@) {
        Some(value) => value != "false"@,
        None => false,
    }
}

/// Whether a blob must not change now, given the moment that was read from its policy. A policy
/// that cannot be understood protects.
pub open spec fn immutable_until(now: Instant, blob: ObjectView, until: Option<Instant>) -> bool {
    let mode = get(blob.provider_metadata, AZURE_IMMUTABILITY_MODE_KEY@);
    let date = get(blob.provider_metadata, AZURE_IMMUTABILITY_UNTIL_KEY@);
    has_legal_hold(blob) || if mode is None && date is None {
        false
    } else if (mode == Some("Unlocked"@) || mode == Some("Locked"@)) && date is Some {
        match until {
            Some(until) => until.later_than(now),
            None => true,
        }
    } else {
        true
    }
}

/// Whether a blob must not change now.
pub open spec fn is_immutable(now: Instant, blob: ObjectView) -> bool {
    immutable_until(now, blob, retention_until(blob))
}

pub open spec fn ensure_lease_allows(stamp: StampView, req: RequestView, blob: ObjectView) -> Result<
    (),
    ResponseView,
> {
    if !has_active_lease(blob) || req.header("x-ms-lease-id"@) == lease_id(blob) {
        Ok(())
    } else if req.header("x-ms-lease-id"@) is Some {
        Err(
            error_response(
                stamp,
                412,
                "LeaseIdMismatchWithBlobOperation"@,
                "The lease ID specified did not match the lease ID for the blob."@,
            ),
        )
    } else {
        Err(
            error_response(
                stamp,
                412,
                "LeaseIdMissing"@,
                "There is currently a lease on the blob and no lease ID was specified in the request."@,
            ),
        )
    }
}

pub open spec fn immutable_response(stamp: StampView) -> ResponseView {
    error_response(
        stamp,
        409,
        "BlobImmutableDueToPolicy"@,
        "The blob is immutable due to an active policy or legal hold."@,
    )
}

pub open spec fn ensure_mutation_allowed(stamp: StampView, req: RequestView, blob: ObjectView)
    -> Result<(), ResponseView> {
    if is_immutable(stamp.now, blob) {
        Err(immutable_response(stamp))
    } else {
        ensure_lease_allows(stamp, req, blob)
    }
}

/// A write that keeps the old content as a version may replace an immutable blob.
pub open spec fn ensure_version_creating_overwrite_allowed(
    stamp: StampView,
    req: RequestView,
    blob: ObjectView,
    versioning: bool,
) -> Result<(), ResponseView> {
    if is_immutable(stamp.now, blob) && versioning {
        ensure_lease_allows(stamp, req, blob)
    } else {
        ensure_mutation_allowed(stamp, req, blob)
    }
}

/// The single tag in a condition; none where it lists several.
pub open spec fn single_etag(value: Text) -> Option<Text> {
    if contains(value, ","@) {
        None
    } else {
        Some(trim_char(trim(value), '"'))
    }
}

/// A tag that no object has.
pub const NO_ETAG: &'static str = "__sqrzl_weak_etag_never_matches__";

/// The condition under which a write may happen, where the request sets one.
pub open spec fn write_condition(stamp: StampView, req: RequestView) -> Result<
    Option<ConditionView>,
    ResponseView,
> {
    match (req.header("if-match"@), req.header("if-none-match"@)) {
        (Some(_), Some(_)) => Err(
            error_response(
                stamp,
                400,
                "MultipleConditionHeadersNotSupported"@,
                "Multiple condition headers are not supported for this write operation."@,
            ),
        ),
        (Some(value), None) => if trim(value) == "*"@ {
            Ok(Some(ConditionView::EtagNotIn(Seq::empty())))
        } else if starts_with(trim(value), "W/"@) {
            Ok(Some(ConditionView::Etag(NO_ETAG@)))
        } else {
            match single_etag(value) {
                Some(etag) => Ok(Some(ConditionView::Etag(etag))),
                None => Err(
                    error_response(
                        stamp,
                        400,
                        "InvalidHeaderValue"@,
                        "The If-Match header must contain exactly one ETag value."@,
                    ),
                ),
            }
        },
        (None, Some(value)) => if trim(value) == "*"@ {
            Ok(Some(ConditionView::Missing))
        } else {
            match single_etag(trim_prefixes(trim(value), "W/"@)) {
                Some(etag) => Ok(Some(ConditionView::MissingOrEtagNotIn(seq![etag]))),
                None => Err(
                    error_response(
                        stamp,
                        400,
                        "InvalidHeaderValue"@,
                        "The If-None-Match header must contain exactly one ETag value."@,
                    ),
                ),
            }
        },
        (None, None) => Ok(None),
    }
}

/// The refusal of a write to a snapshot or an earlier version, where a request asks for one.
pub open spec fn unsupported_selected_mutation(stamp: StampView, req: RequestView) -> Option<
    ResponseView,
> {
    let comp = req.param("comp"@);
    if req.param("versionid"@) is None && req.param("snapshot"@) is None {
        None
    } else if req.method == Method::Put && comp is None {
        Some(
            error_response(
                stamp,
                400,
                "InvalidQueryParameterValue"@,
                "Blob snapshots and previous versions are read-only."@,
            ),
        )
    } else if (req.method == Method::Put || req.method == Method::Delete) && comp is Some {
        Some(
            error_response(
                stamp,
                501,
                "FeatureNotSupported"@,
                "Version- and snapshot-scoped mutations are not implemented by this emulator."@,
            ),
        )
    } else {
        None
    }
}

/// A blob under a lease, or without one where there is no identifier.
pub open spec fn with_lease_state(
    blob: ObjectView,
    lease_id: Option<Text>,
    state: Text,
    status: Text,
    duration: Option<Text>,
) -> ObjectView {
    let a = with_option(blob.provider_metadata, AZURE_LEASE_ID_KEY@, lease_id);
    let b = with(a, AZURE_LEASE_STATE_KEY@, state);
    let c = with(b, AZURE_LEASE_STATUS_KEY@, status);
    ObjectView {
        provider_metadata: with_option(c, AZURE_LEASE_DURATION_KEY@, duration),
        ..blob
    }
}

/// `to` with the value that `from` has for a key, where it has one.
pub open spec fn carried(from: Pairs, to: Pairs, key: Text) -> Pairs {
    match get(from, key) {
        Some(value) => with(to, key, value),
        None => to,
    }
}

/// A blob that takes over the lease of the one it replaces.
pub open spec fn with_lease_of(source: ObjectView, destination: ObjectView) -> ObjectView {
    if has_active_lease(source) {
        let from = source.provider_metadata;
        let a = carried(from, destination.provider_metadata, AZURE_LEASE_ID_KEY@);
        let b = carried(from, a, AZURE_LEASE_STATE_KEY@);
        let c = carried(from, b, AZURE_LEASE_STATUS_KEY@);
        ObjectView {
            provider_metadata: carried(from, c, AZURE_LEASE_DURATION_KEY@),
            ..destination
        }
    } else {
        destination
    }
}

pub open spec fn with_blob_type(blob: ObjectView, blob_type: Text) -> ObjectView {
    ObjectView {
        provider_metadata: with(blob.provider_metadata, AZURE_BLOB_TYPE_KEY@, blob_type),
        ..blob
    }
}

/// A reply with the first `i` entries of an object's metadata as headers.
pub open spec fn meta_headers_upto(
    response: ResponseView,
    prefix: Text,
    metadata: Pairs,
    i: int,
) -> ResponseView
    decreases i,
{
    if i <= 0 {
        response
    } else {
        meta_headers_upto(response, prefix, metadata, i - 1).header(
            prefix + metadata[i - 1].0,
            metadata[i - 1].1,
        )
    }
}

pub open spec fn meta_headers(response: ResponseView, prefix: Text, metadata: Pairs)
    -> ResponseView {
    meta_headers_upto(response, prefix, metadata, metadata.len() as int)
}

pub fn put_meta_headers(response: Response, prefix: &str, metadata: &Table<String>) -> (r: Response)
    ensures
        r@ == meta_headers(response@, prefix@, metadata@),
{
    let mut out = response;
    let mut i: usize = 0;
    while i < metadata.entries.len()
        invariant
            i <= metadata.entries.len(),
            out@ == meta_headers_upto(response@, prefix@, metadata@, i as int),
        decreases metadata.entries.len() - i,
    {
        let entry = &metadata.entries[i];
        assert(metadata@[i as int] == entry@);
        let name = cat(prefix, &entry.0);
        out = out.header(&name, &entry.1);
        i += 1;
    }
    out
}

pub open spec fn truth(value: bool) -> Text {
    if value {
        "true"@
    } else {
        "false"@
    }
}

pub fn show_bool(value: bool) -> (r: &'static str)
    ensures
        r@ == truth(value),
{
    if value {
        "true"
    } else {
        "false"
    }
}

/// A reply that describes a blob.
pub open spec fn blob_response(
    stamp: StampView,
    code: u16,
    blob: ObjectView,
    body_len: int,
    content_range: Option<Text>,
    is_current_version: Option<bool>,
    expose_version_id: bool,
) -> ResponseView {
    let base = response(stamp, code).header("accept-ranges"@, "bytes"@).header(
        "content-length"@,
        decimal(body_len),
    ).header("content-type"@, blob.content_type).header("etag"@, quoted(blob.etag)).header(
        "last-modified"@,
        http_date(blob.last_modified.secs, blob.last_modified.nanos),
    ).header("x-ms-blob-type"@, blob_type(blob)).maybe_header(
        "x-ms-snapshot"@,
        get(blob.provider_metadata, AZURE_SNAPSHOT_TIME_KEY@),
    ).maybe_header(
        "x-ms-immutability-policy-until-date"@,
        get(blob.provider_metadata, AZURE_IMMUTABILITY_UNTIL_KEY@),
    ).maybe_header(
        "x-ms-immutability-policy-mode"@,
        get(blob.provider_metadata, AZURE_IMMUTABILITY_MODE_KEY@),
    ).maybe_header(
        "x-ms-legal-hold"@,
        get(blob.provider_metadata, AZURE_LEGAL_HOLD_KEY@),
    ).header("x-ms-lease-status"@, lease_status(blob)).header(
        "x-ms-lease-state"@,
        lease_state(blob),
    );
    let versioned = if expose_version_id && get(blob.provider_metadata, AZURE_SNAPSHOT_TIME_KEY@)
        is None && blob.version_id is Some {
        base.header("x-ms-version-id"@, blob.version_id->0).header(
            "x-ms-is-current-version"@,
            truth(is_current_version == Some(true)),
        )
    } else {
        base
    };
    meta_headers(
        versioned.maybe_header("x-ms-lease-duration"@, lease_duration(blob)),
        "x-ms-meta-"@,
        blob.metadata,
    ).maybe_header("content-range"@, content_range)
}

pub open spec fn alphanumeric(c: char) -> bool {
    0x30 <= c as u32 <= 0x39 || 0x41 <= c as u32 <= 0x5a || 0x61 <= c as u32 <= 0x7a
}

pub open spec fn container_char(c: char) -> bool {
    0x61 <= c as u32 <= 0x7a || 0x30 <= c as u32 <= 0x39 || c == '-'
}

/// Containers are `$root`, or have from 3 to 63 lower-case letters, digits and single
/// hyphens, of which the first and the last are no hyphens.
pub open spec fn valid_container_name(name: Text) -> bool {
    name == "$root"@ || {
        &&& 3 <= name.len() <= 63
        &&& alphanumeric(name[0])
        &&& alphanumeric(name[name.len() - 1])
        &&& forall|i: int| 0 <= i < name.len() ==> container_char(#[trigger] name[i])
        &&& !contains(name, "--"@)
    }
}

pub open spec fn is_immutability_comp(comp: Option<Text>) -> bool {
    comp == Some("immutabilityPolicies"@)
}

} // verus!
