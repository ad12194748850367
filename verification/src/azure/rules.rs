//! The decisions of the Azure Blob front door that need no storage.

use vstd::prelude::*;
use vstd::string::*;
use crate::azure::AzureBlobAdapter;
use crate::azure::basics::{
    alphanumeric, azure_history_mode, azure_versioning_configured, azure_versioning_enabled,
    blob_response, blob_type, carried, conditions_match, container_char, container_not_found,
    content_type, decode_path_value, ensure_lease_allows, ensure_mutation_allowed,
    ensure_version_creating_overwrite_allowed, error_response, foreign_history_mode,
    has_active_lease, has_legal_hold, immutable_until, is_immutability_comp, is_immutable,
    is_positive, is_snapshot_storage_key, lease_duration, lease_id, lease_state, lease_status,
    max_results, metadata_from_headers, metadata_with_prefix, namespace_etag, namespace_response,
    parse_resource, put_meta_headers, put_operation_requires_content_length, quote, range_of,
    refuse, refuse_container, reply, requested_local_retention_modes, requested_range, response,
    retention_until, show_bool, single_etag, snapshot_prefix, snapshot_storage_key, strong_etag,
    unsupported_selected_mutation, valid_container_name, weak_etag, with_blob_type, with_lease_of,
    with_lease_state, write_condition, write_range_of, AzureResource, AZURE_BLOB_TYPE_KEY,
    AZURE_IMMUTABILITY_MODE_KEY, AZURE_IMMUTABILITY_UNTIL_KEY, AZURE_LEASE_DURATION_KEY,
    AZURE_LEASE_ID_KEY, AZURE_LEASE_STATE_KEY, AZURE_LEASE_STATUS_KEY, AZURE_LEGAL_HOLD_KEY,
    AZURE_SNAPSHOT_PREFIX, AZURE_SNAPSHOT_TIME_KEY, AZURE_SOFT_DELETE_DAYS_KEY,
    AZURE_VERSIONING_KEY, GCS_RETENTION_SECONDS_KEY, GCS_SOFT_DELETE_SECONDS_KEY, NO_ETAG,
    S3_OBJECT_LOCK_ENABLED_KEY, S3_VERSIONING_STATUS_KEY,
};
use crate::clock::{format_last_modified_at, read_rfc2822, read_rfc3339, Instant, Stamp, StampView};
use crate::codec::{compute_etag, url_base64_encode};
use crate::http::{decode_uri_path, Method, Request, RequestView, Response, ResponseView};
use crate::number::{read_u64, read_usize, show_usize, unsigned};
use crate::store::{new_object, Bucket, Object, ObjectCondition, ObjectView};
use crate::table::{get_text, Table};
use crate::text::{
    after_prefix, begins, cat, cat3, characters, copy_bytes, cut, equals, holds, or_else, same,
    trimmed, trimmed_of, without_prefixes,
};
use crate::views::{each, each_empty, seen, settled, Text};

verus! {

/// What a blob to be created starts with.
pub open spec fn blob_for_type(stamp: StampView, req: RequestView, blob_key: Text) -> ObjectView {
    let blob_type = req.header("x-ms-blob-type"@)->0;
    with_blob_type(
        new_object(
            blob_key,
            if blob_type == "PageBlob"@ {
                Seq::new(page_blob_declared_len(req) as nat, |i: int| 0u8)
            } else {
                req.body
            },
            content_type(req),
            metadata_from_headers(req),
            stamp.now,
        ),
        blob_type,
    )
}

pub open spec fn page_blob_declared_len(req: RequestView) -> int {
    match req.header("x-ms-blob-content-length"@) {
        Some(value) => match unsigned(value, usize::MAX as int) {
            Some(n) => n,
            None => 0,
        },
        None => 0,
    }
}

/// Why a blob cannot be created as a request asks, where it cannot.
pub open spec fn validate_blob_create_request(stamp: StampView, req: RequestView) -> Option<
    ResponseView,
> {
    let blob_type = req.header("x-ms-blob-type"@);
    let length = req.header("x-ms-blob-content-length"@);
    let invalid = "InvalidHeaderValue"@;
    if blob_type is None {
        Some(
            error_response(
                stamp,
                400,
                "MissingRequiredHeader"@,
                "The x-ms-blob-type header is required."@,
            ),
        )
    } else if blob_type != Some("BlockBlob"@) && blob_type != Some("PageBlob"@) && blob_type
        != Some("AppendBlob"@) {
        Some(
            error_response(stamp, 400, invalid, "The x-ms-blob-type header value is invalid."@),
        )
    } else if blob_type != Some("BlockBlob"@) && req.body.len() > 0 {
        Some(
            error_response(
                stamp,
                400,
                invalid,
                "Page and append blob creation requests must have an empty body."@,
            ),
        )
    } else if blob_type != Some("PageBlob"@) {
        if length is Some {
            Some(
                error_response(
                    stamp,
                    400,
                    invalid,
                    "The x-ms-blob-content-length header is valid only for page blobs."@,
                ),
            )
        } else {
            None
        }
    } else if length is None {
        Some(
            error_response(
                stamp,
                400,
                "MissingRequiredHeader"@,
                "The x-ms-blob-content-length header is required for page blobs."@,
            ),
        )
    } else {
        match unsigned(length->0, usize::MAX as int) {
            None => Some(
                error_response(
                    stamp,
                    400,
                    invalid,
                    "The x-ms-blob-content-length header value is invalid."@,
                ),
            ),
            Some(n) => if n % 512 != 0 {
                Some(
                    error_response(
                        stamp,
                        400,
                        invalid,
                        "Page blob length must be a multiple of 512 bytes."@,
                    ),
                )
            } else {
                None
            },
        }
    }
}

/// Why pages cannot be written as a request asks, where they cannot.
pub open spec fn validate_page_write(
    stamp: StampView,
    req: RequestView,
    blob: ObjectView,
    start: int,
    end: int,
    clear: bool,
) -> Option<ResponseView> {
    if !clear && req.body.len() != end - start + 1 || clear && req.body.len() != 0 {
        Some(
            error_response(
                stamp,
                400,
                "InvalidPageRange"@,
                "Page payload length must match the requested range."@,
            ),
        )
    } else if end >= blob.data.len() {
        Some(
            error_response(
                stamp,
                400,
                "InvalidPageRange"@,
                "Page write exceeds the blob length."@,
            ),
        )
    } else {
        None
    }
}

pub open spec fn page_range_error(stamp: StampView) -> ResponseView {
    error_response(
        stamp,
        400,
        "InvalidHeaderValue"@,
        "Page writes require a valid x-ms-range header."@,
    )
}

pub open spec fn blob_state_key(account: Text, container: Text, blob: Text) -> Text {
    account + "/"@ + container + "/"@ + blob
}

/// The refusal of a blob request in a container that does not exist.
pub open spec fn container_not_found_for_blob_request(stamp: StampView, req: RequestView)
    -> ResponseView {
    if req.method == Method::Head {
        response(stamp, 404).header("x-ms-error-code"@, "ContainerNotFound"@)
    } else {
        container_not_found(stamp)
    }
}

impl AzureBlobAdapter {
    pub fn blob_state_key(account: &str, container: &str, blob: &str) -> (r: String)
        ensures
            r@ == blob_state_key(account@, container@, blob@),
    {
        let mut r = cat3(account, "/", container);
        r.append("/");
        r.append(blob);
        r
    }

    pub fn parse_range_header(value: &str, size: u64) -> (r: Option<(usize, usize)>)
        ensures
            match range_of(value@, size as int) {
                Some(span) if span.1 <= usize::MAX => r matches Some(found) && found.0 == span.0
                    && found.1 == span.1,
                _ => r is None,
            },
            r matches Some(span) ==> span.0 <= span.1 < size,
    {
        let range = match after_prefix(value, "bytes=") {
            Some(range) => range,
            None => return None,
        };
        let (start, end) = match cut(range, "-") {
            Some(parts) => parts,
            None => return None,
        };
        let start: u64 = match read_u64(start) {
            Some(n) => n,
            None => return None,
        };
        if start >= size {
            return None;
        }
        let end: u64 = if end.unicode_len() == 0 {
            size - 1
        } else {
            match read_u64(end) {
                Some(n) => if n < size - 1 {
                    n
                } else {
                    size - 1
                },
                None => return None,
            }
        };
        if end < start || end > usize::MAX as u64 {
            return None;
        }
        Some((start as usize, end as usize))
    }

    pub fn parse_write_range_header(value: &str) -> (r: Option<(usize, usize)>)
        ensures
            match (r, write_range_of(value@)) {
                (Some(span), Some(wanted)) => span.0 == wanted.0 && span.1 == wanted.1,
                (None, None) => true,
                _ => false,
            },
            r matches Some(span) ==> span.0 <= span.1,
    {
        let range = match after_prefix(value, "bytes=") {
            Some(range) => range,
            None => return None,
        };
        let (start, end) = match cut(range, "-") {
            Some(parts) => parts,
            None => return None,
        };
        match (read_usize(start), read_usize(end)) {
            (Some(start), Some(end)) => if end < start {
                None
            } else {
                Some((start, end))
            },
            _ => None,
        }
    }

    pub fn requested_range(req: &Request) -> (r: Option<&str>)
        ensures
            seen(r) == requested_range(req@),
    {
        match req.header("x-ms-range") {
            Some(value) => Some(value),
            None => req.header("range"),
        }
    }

    pub fn decode_path_value(value: &str, resource: &str) -> (r: Result<String, String>)
        ensures
            settled(r) == decode_path_value(value@, resource@),
    {
        match decode_uri_path(value) {
            Some(text) => Ok(text),
            None => {
                let mut message = cat3("Azure ", resource, " path is invalid: ");
                message.append("malformed percent-encoding");
                Err(message)
            },
        }
    }

    pub fn parse_resource(req: &Request) -> (r: Result<AzureResource, String>)
        ensures
            settled(r) == parse_resource(req@.path),
    {
        let path = match after_prefix(&req.path, "/") {
            Some(rest) => rest,
            None => &req.path,
        };
        let (account, rest) = match cut(path, "/") {
            Some((account, rest)) => (account, Some(rest)),
            None => (path, None),
        };
        if path.unicode_len() == 0 || account.unicode_len() == 0 {
            return Err("Azure requests must include an account segment".to_owned());
        }
        let rest = match rest {
            Some(rest) if rest.unicode_len() > 0 => rest,
            _ => {
                return Ok(
                    AzureResource { account: account.to_owned(), container: None, blob: None },
                );
            },
        };
        let (container, blob) = match cut(rest, "/") {
            Some((container, blob)) => (container, Some(blob)),
            None => (rest, None),
        };
        if container.unicode_len() == 0 {
            return Err("Azure requests must include a container segment".to_owned());
        }
        let container = match Self::decode_path_value(container, "container") {
            Ok(container) => container,
            Err(message) => return Err(message),
        };
        let blob = match blob {
            Some(blob) if blob.unicode_len() > 0 => match Self::decode_path_value(blob, "blob") {
                Ok(blob) => Some(blob),
                Err(message) => return Err(message),
            },
            _ => None,
        };
        Ok(AzureResource { account: account.to_owned(), container: Some(container), blob })
    }

    pub fn put_operation_requires_content_length(req: &Request) -> (r: bool)
        ensures
            r == put_operation_requires_content_length(req@),
    {
        if !req.is(Method::Put) || req.has_query_param("restype") {
            return false;
        }
        let blob_request = match Self::parse_resource(req) {
            Ok(resource) => resource.container.is_some() && resource.blob.is_some(),
            Err(_) => false,
        };
        if !blob_request || req.header("x-ms-copy-source").is_some() {
            return false;
        }
        match req.query_param("comp") {
            None => true,
            Some(comp) => same(comp, "block") || same(comp, "blocklist") || same(comp, "metadata")
                || same(comp, "appendblock") || same(comp, "page") || same(comp, "lease") || same(
                comp,
                "snapshot",
            ) || same(comp, "legalhold") || same(comp, "immutabilityPolicies"),
        }
    }

    pub fn metadata_from_headers(req: &Request) -> (r: Table<String>)
        ensures
            r@ == metadata_from_headers(req@),
    {
        metadata_with_prefix(req, "x-ms-meta-")
    }

    pub fn content_type(req: &Request) -> (r: String)
        ensures
            r@ == content_type(req@),
    {
        match req.header("x-ms-blob-content-type") {
            Some(value) => value.to_owned(),
            None => or_else(req.header("content-type"), "application/octet-stream").to_owned(),
        }
    }

    pub fn namespace_etag(bucket: &Bucket) -> (r: String)
        ensures
            r@ == namespace_etag(bucket@),
    {
        compute_etag(bucket.name.as_str().as_bytes())
    }

    pub fn namespace_response(stamp: &Stamp, code: u16, bucket: &Bucket) -> (r: Response)
        ensures
            r@ == namespace_response(stamp@, code, bucket@),
    {
        let etag = quote(&Self::namespace_etag(bucket));
        let date = format_last_modified_at(&bucket.created_at);
        reply(stamp, code).header("etag", &etag).header("last-modified", &date)
    }

    pub fn azure_versioning_configured(bucket: &Bucket) -> (r: bool)
        ensures
            r == azure_versioning_configured(bucket@),
    {
        equals(get_text(&bucket.metadata, AZURE_VERSIONING_KEY), "true")
    }

    pub fn azure_versioning_enabled(bucket: &Bucket) -> (r: bool)
        ensures
            r == azure_versioning_enabled(bucket@),
    {
        Self::azure_versioning_configured(bucket) && bucket.versioning_enabled
    }

    pub fn azure_history_mode(bucket: &Bucket) -> (r: bool)
        ensures
            r == azure_history_mode(bucket@),
    {
        Self::azure_versioning_configured(bucket) || is_positive(
            get_text(&bucket.metadata, AZURE_SOFT_DELETE_DAYS_KEY),
        )
    }

    pub fn foreign_history_mode(bucket: &Bucket) -> (r: bool)
        ensures
            r == foreign_history_mode(bucket@),
    {
        let status = get_text(&bucket.metadata, S3_VERSIONING_STATUS_KEY);
        equals(status, "Enabled") || equals(status, "Suspended") || equals(
            get_text(&bucket.metadata, S3_OBJECT_LOCK_ENABLED_KEY),
            "true",
        ) || is_positive(get_text(&bucket.metadata, GCS_SOFT_DELETE_SECONDS_KEY)) || is_positive(
            get_text(&bucket.metadata, GCS_RETENTION_SECONDS_KEY),
        )
    }

    pub fn requested_local_retention_modes(stamp: &Stamp, req: &Request) -> (r: Result<
        (bool, Option<u64>),
        Response,
    >)
        ensures
            r matches Ok(modes) ==> requested_local_retention_modes(stamp@, req@) == Ok::<
                (bool, Option<u64>),
                ResponseView,
            >(modes),
            r matches Err(response) ==> requested_local_retention_modes(stamp@, req@) == Err::<
                (bool, Option<u64>),
                ResponseView,
            >(response@),
    {
        let versioning = match req.header("x-sqrzl-azure-versioning-enabled") {
            None => false,
            Some(value) => {
                if same(value, "true") {
                    true
                } else if same(value, "false") {
                    proof {
                        reveal_strlit("true");
                        reveal_strlit("false");
                    }
                    false
                } else {
                    return Err(
                        refuse(
                            stamp,
                            400,
                            "InvalidHeaderValue",
                            "The local Azure versioning selector must be true or false.",
                        ),
                    );
                }
            },
        };
        match req.header("x-sqrzl-azure-soft-delete-days") {
            None => Ok((versioning, None)),
            Some(value) => match read_u64(value) {
                Some(days) if 1 <= days && days <= 365 => Ok((versioning, Some(days))),
                _ => Err(
                    refuse(
                        stamp,
                        400,
                        "InvalidHeaderValue",
                        "The local Azure soft-delete period must be between 1 and 365 days.",
                    ),
                ),
            },
        }
    }

    pub fn max_results(stamp: &Stamp, req: &Request) -> (r: Result<usize, Response>)
        ensures
            settled(r) == max_results(stamp@, req@),
    {
        match req.query_param("maxresults") {
            None => Ok(5000),
            Some(raw) => match read_usize(raw) {
                None => Err(
                    refuse(
                        stamp,
                        400,
                        "InvalidQueryParameterValue",
                        "The value for maxresults is invalid.",
                    ),
                ),
                Some(value) => if value == 0 {
                    Err(
                        refuse(
                            stamp,
                            400,
                            "InvalidQueryParameterValue",
                            "The value for maxresults must be greater than zero.",
                        ),
                    )
                } else if value < 5000 {
                    Ok(value)
                } else {
                    Ok(5000)
                },
            },
        }
    }

    pub fn blob_type(blob: &Object) -> (r: &str)
        ensures
            r@ == blob_type(blob@),
    {
        or_else(get_text(&blob.provider_metadata, AZURE_BLOB_TYPE_KEY), "BlockBlob")
    }

    pub fn snapshot_prefix(blob_key: &str) -> (r: String)
        ensures
            r@ == snapshot_prefix(blob_key@),
    {
        let encoded = url_base64_encode(blob_key.as_bytes());
        let mut r = cat3(AZURE_SNAPSHOT_PREFIX, "/", &encoded);
        r.append("/");
        r
    }

    pub fn snapshot_storage_key(blob_key: &str, snapshot: &str) -> (r: String)
        ensures
            r@ == snapshot_storage_key(blob_key@, snapshot@),
    {
        cat(&Self::snapshot_prefix(blob_key), snapshot)
    }

    pub fn is_snapshot_storage_key(key: &str) -> (r: bool)
        ensures
            r == is_snapshot_storage_key(key@),
    {
        begins(key, AZURE_SNAPSHOT_PREFIX)
    }

    pub fn strong_etag(value: &str) -> (r: Option<&str>)
        ensures
            seen(r) == strong_etag(value@),
    {
        let value = trimmed(value);
        if begins(value, "W/") {
            None
        } else {
            Some(trimmed_of(value, '"'))
        }
    }

    fn weak_etag(value: &str) -> (r: &str)
        ensures
            r@ == weak_etag(value@),
    {
        proof {
            reveal_strlit("W/");
        }
        trimmed_of(without_prefixes(trimmed(value), "W/"), '"')
    }

    fn conditions_match(req: &Request, etag: &str) -> (r: bool)
        ensures
            r == conditions_match(req@, etag@),
    {
        let strong = match req.header("if-match") {
            Some(value) => match Self::strong_etag(value) {
                Some(wanted) => same(wanted, "*") || same(wanted, etag),
                None => false,
            },
            None => true,
        };
        if !strong {
            return false;
        }
        match req.header("if-none-match") {
            Some(value) => {
                let unwanted = Self::weak_etag(value);
                !same(unwanted, "*") && !same(unwanted, etag)
            },
            None => true,
        }
    }

    pub fn conditions_match_blob(req: &Request, blob: &Object) -> (r: bool)
        ensures
            r == conditions_match(req@, blob@.etag),
    {
        Self::conditions_match(req, &blob.etag)
    }

    pub fn namespace_conditions_match(req: &Request, bucket: &Bucket) -> (r: bool)
        ensures
            r == conditions_match(req@, namespace_etag(bucket@)),
    {
        Self::conditions_match(req, &Self::namespace_etag(bucket))
    }

    pub fn lease_id(blob: &Object) -> (r: Option<&str>)
        ensures
            seen(r) == lease_id(blob@),
    {
        get_text(&blob.provider_metadata, AZURE_LEASE_ID_KEY)
    }

    pub fn lease_status(blob: &Object) -> (r: &str)
        ensures
            r@ == lease_status(blob@),
    {
        or_else(get_text(&blob.provider_metadata, AZURE_LEASE_STATUS_KEY), "unlocked")
    }

    pub fn lease_state(blob: &Object) -> (r: &str)
        ensures
            r@ == lease_state(blob@),
    {
        or_else(get_text(&blob.provider_metadata, AZURE_LEASE_STATE_KEY), "available")
    }

    pub fn lease_duration(blob: &Object) -> (r: Option<&str>)
        ensures
            seen(r) == lease_duration(blob@),
    {
        get_text(&blob.provider_metadata, AZURE_LEASE_DURATION_KEY)
    }

    pub fn has_active_lease(blob: &Object) -> (r: bool)
        ensures
            r == has_active_lease(blob@),
    {
        same(Self::lease_status(blob), "locked") && Self::lease_id(blob).is_some()
    }

    pub fn retention_until(blob: &Object) -> (r: Option<Instant>)
        ensures
            r == retention_until(blob@),
    {
        match get_text(&blob.provider_metadata, AZURE_IMMUTABILITY_UNTIL_KEY) {
            Some(value) => match read_rfc3339(value) {
                Some(at) => Some(at),
                None => read_rfc2822(value),
            },
            None => None,
        }
    }

    pub fn has_legal_hold(blob: &Object) -> (r: bool)
        ensures
            r == has_legal_hold(blob@),
    {
        match get_text(&blob.provider_metadata, AZURE_LEGAL_HOLD_KEY) {
            None => false,
            Some(value) => !same(value, "false"),
        }
    }

    /// Whether a blob must not change now, given the moment that was read from its policy.
    pub fn is_immutable_until(now: &Instant, blob: &Object, until: Option<Instant>) -> (r: bool)
        ensures
            r == immutable_until(*now, blob@, until),
    {
        let mode = get_text(&blob.provider_metadata, AZURE_IMMUTABILITY_MODE_KEY);
        let date = get_text(&blob.provider_metadata, AZURE_IMMUTABILITY_UNTIL_KEY);
        if Self::has_legal_hold(blob) {
            true
        } else if mode.is_none() && date.is_none() {
            false
        } else if (equals(mode, "Unlocked") || equals(mode, "Locked")) && date.is_some() {
            match until {
                Some(until) => until.after(now),
                None => true,
            }
        } else {
            true
        }
    }

    pub fn is_immutable(now: &Instant, blob: &Object) -> (r: bool)
        ensures
            r == is_immutable(*now, blob@),
    {
        Self::is_immutable_until(now, blob, Self::retention_until(blob))
    }

    pub fn ensure_lease_allows(stamp: &Stamp, req: &Request, blob: &Object) -> (r: Result<
        (),
        Response,
    >)
        ensures
            settled(r) == ensure_lease_allows(stamp@, req@, blob@),
    {
        if !Self::has_active_lease(blob) {
            return Ok(());
        }
        match (req.header("x-ms-lease-id"), Self::lease_id(blob)) {
            (_, None) => Ok(()),
            (Some(provided), Some(expected)) => if same(provided, expected) {
                Ok(())
            } else {
                Err(
                    refuse(
                        stamp,
                        412,
                        "LeaseIdMismatchWithBlobOperation",
                        "The lease ID specified did not match the lease ID for the blob.",
                    ),
                )
            },
            (None, Some(_)) => Err(
                refuse(
                    stamp,
                    412,
                    "LeaseIdMissing",
                    "There is currently a lease on the blob and no lease ID was specified in the request.",
                ),
            ),
        }
    }

    pub fn ensure_mutation_allowed(stamp: &Stamp, req: &Request, blob: &Object) -> (r: Result<
        (),
        Response,
    >)
        ensures
            settled(r) == ensure_mutation_allowed(stamp@, req@, blob@),
    {
        if Self::is_immutable(&stamp.now, blob) {
            return Err(
                refuse(
                    stamp,
                    409,
                    "BlobImmutableDueToPolicy",
                    "The blob is immutable due to an active policy or legal hold.",
                ),
            );
        }
        Self::ensure_lease_allows(stamp, req, blob)
    }

    pub fn ensure_version_creating_overwrite_allowed(
        stamp: &Stamp,
        req: &Request,
        blob: &Object,
        versioning: bool,
    ) -> (r: Result<(), Response>)
        ensures
            settled(r) == ensure_version_creating_overwrite_allowed(
                stamp@,
                req@,
                blob@,
                versioning,
            ),
    {
        if Self::is_immutable(&stamp.now, blob) && versioning {
            return Self::ensure_lease_allows(stamp, req, blob);
        }
        Self::ensure_mutation_allowed(stamp, req, blob)
    }

    fn single_etag(value: &str) -> (r: Option<String>)
        ensures
            seen(r) == single_etag(value@),
    {
        if holds(value, ",") {
            None
        } else {
            Some(trimmed_of(trimmed(value), '"').to_owned())
        }
    }

    pub fn write_condition(stamp: &Stamp, req: &Request) -> (r: Result<
        Option<ObjectCondition>,
        Response,
    >)
        ensures
            match r {
                Ok(condition) => write_condition(stamp@, req@) == Ok::<_, ResponseView>(
                    seen(condition),
                ),
                Err(response) => write_condition(stamp@, req@) == Err::<
                    Option<crate::store::ConditionView>,
                    ResponseView,
                >(response@),
            },
    {
        match (req.header("if-match"), req.header("if-none-match")) {
            (Some(_), Some(_)) => Err(
                refuse(
                    stamp,
                    400,
                    "MultipleConditionHeadersNotSupported",
                    "Multiple condition headers are not supported for this write operation.",
                ),
            ),
            (Some(value), None) => {
                if same(trimmed(value), "*") {
                    proof {
                        each_empty::<String>();
                    }
                    return Ok(Some(ObjectCondition::EtagNotIn(Vec::new())));
                }
                if begins(trimmed(value), "W/") {
                    return Ok(Some(ObjectCondition::Etag(NO_ETAG.to_owned())));
                }
                match Self::single_etag(value) {
                    Some(etag) => Ok(Some(ObjectCondition::Etag(etag))),
                    None => Err(
                        refuse(
                            stamp,
                            400,
                            "InvalidHeaderValue",
                            "The If-Match header must contain exactly one ETag value.",
                        ),
                    ),
                }
            },
            (None, Some(value)) => {
                if same(trimmed(value), "*") {
                    return Ok(Some(ObjectCondition::Missing));
                }
                proof {
                    reveal_strlit("W/");
                }
                match Self::single_etag(without_prefixes(trimmed(value), "W/")) {
                    Some(etag) => {
                        let mut etags: Vec<String> = Vec::new();
                        etags.push(etag);
                        assert(each(etags@) =~= seq![etag@]);
                        Ok(Some(ObjectCondition::MissingOrEtagNotIn(etags)))
                    },
                    None => Err(
                        refuse(
                            stamp,
                            400,
                            "InvalidHeaderValue",
                            "The If-None-Match header must contain exactly one ETag value.",
                        ),
                    ),
                }
            },
            (None, None) => Ok(None),
        }
    }

    pub fn unsupported_selected_mutation(stamp: &Stamp, req: &Request) -> (r: Option<Response>)
        ensures
            seen(r) == unsupported_selected_mutation(stamp@, req@),
    {
        if !req.has_query_param("versionid") && !req.has_query_param("snapshot") {
            return None;
        }
        let comp = req.has_query_param("comp");
        if req.is(Method::Put) && !comp {
            Some(
                refuse(
                    stamp,
                    400,
                    "InvalidQueryParameterValue",
                    "Blob snapshots and previous versions are read-only.",
                ),
            )
        } else if (req.is(Method::Put) || req.is(Method::Delete)) && comp {
            Some(
                refuse(
                    stamp,
                    501,
                    "FeatureNotSupported",
                    "Version- and snapshot-scoped mutations are not implemented by this emulator.",
                ),
            )
        } else {
            None
        }
    }

    pub fn set_lease_state(
        blob: &mut Object,
        lease_id: Option<String>,
        state: &str,
        status: &str,
        duration: Option<String>,
    )
        ensures
            final(blob)@ == with_lease_state(
                old(blob)@,
                seen(lease_id),
                state@,
                status@,
                seen(duration),
            ),
    {
        blob.provider_metadata.assign(AZURE_LEASE_ID_KEY, lease_id);
        blob.provider_metadata.insert(AZURE_LEASE_STATE_KEY, state.to_owned());
        blob.provider_metadata.insert(AZURE_LEASE_STATUS_KEY, status.to_owned());
        blob.provider_metadata.assign(AZURE_LEASE_DURATION_KEY, duration);
    }

    fn carry(from: &Table<String>, to: &mut Table<String>, key: &str)
        ensures
            final(to)@ == carried(from@, old(to)@, key@),
    {
        match get_text(from, key) {
            Some(value) => to.insert(key, value.to_owned()),
            None => {},
        }
    }

    pub fn preserve_active_lease(source: &Object, destination: &mut Object)
        ensures
            final(destination)@ == with_lease_of(source@, old(destination)@),
    {
        if !Self::has_active_lease(source) {
            return;
        }
        let from = &source.provider_metadata;
        Self::carry(from, &mut destination.provider_metadata, AZURE_LEASE_ID_KEY);
        Self::carry(from, &mut destination.provider_metadata, AZURE_LEASE_STATE_KEY);
        Self::carry(from, &mut destination.provider_metadata, AZURE_LEASE_STATUS_KEY);
        Self::carry(from, &mut destination.provider_metadata, AZURE_LEASE_DURATION_KEY);
    }

    pub fn set_blob_type(blob: &mut Object, blob_type: &str)
        ensures
            final(blob)@ == with_blob_type(old(blob)@, blob_type@),
    {
        blob.provider_metadata.insert(AZURE_BLOB_TYPE_KEY, blob_type.to_owned());
    }

    pub fn blob_response(
        stamp: &Stamp,
        code: u16,
        blob: &Object,
        body_len: usize,
        content_range: Option<&str>,
        is_current_version: Option<bool>,
        expose_version_id: bool,
    ) -> (r: Response)
        ensures
            r@ == blob_response(
                stamp@,
                code,
                blob@,
                body_len as int,
                seen(content_range),
                is_current_version,
                expose_version_id,
            ),
    {
        let length = show_usize(body_len);
        let etag = quote(&blob.etag);
        let date = format_last_modified_at(&blob.last_modified);
        let base = reply(stamp, code).header("accept-ranges", "bytes").header(
            "content-length",
            &length,
        ).header("content-type", &blob.content_type).header("etag", &etag).header(
            "last-modified",
            &date,
        ).header("x-ms-blob-type", Self::blob_type(blob)).maybe_header(
            "x-ms-snapshot",
            get_text(&blob.provider_metadata, AZURE_SNAPSHOT_TIME_KEY),
        ).maybe_header(
            "x-ms-immutability-policy-until-date",
            get_text(&blob.provider_metadata, AZURE_IMMUTABILITY_UNTIL_KEY),
        ).maybe_header(
            "x-ms-immutability-policy-mode",
            get_text(&blob.provider_metadata, AZURE_IMMUTABILITY_MODE_KEY),
        ).maybe_header(
            "x-ms-legal-hold",
            get_text(&blob.provider_metadata, AZURE_LEGAL_HOLD_KEY),
        ).header("x-ms-lease-status", Self::lease_status(blob)).header(
            "x-ms-lease-state",
            Self::lease_state(blob),
        );
        let shown = expose_version_id && !blob.provider_metadata.has(AZURE_SNAPSHOT_TIME_KEY);
        let versioned = match &blob.version_id {
            Some(id) if shown => base.header("x-ms-version-id", id).header(
                "x-ms-is-current-version",
                show_bool(
                    match is_current_version {
                        Some(current) => current,
                        None => false,
                    },
                ),
            ),
            _ => base,
        };
        put_meta_headers(
            versioned.maybe_header("x-ms-lease-duration", Self::lease_duration(blob)),
            "x-ms-meta-",
            &blob.metadata,
        ).maybe_header("content-range", content_range)
    }

    pub fn valid_container_name(name: &str) -> (r: bool)
        ensures
            r == valid_container_name(name@),
    {
        if same(name, "$root") {
            return true;
        }
        let x = characters(name);
        if x.len() < 3 || x.len() > 63 {
            return false;
        }
        if !Self::alphanumeric(x[0]) || !Self::alphanumeric(x[x.len() - 1]) {
            return false;
        }
        let mut i: usize = 0;
        while i < x.len()
            invariant
                x@ == name@,
                name@ != "$root"@,
                i <= x.len(),
                forall|k: int| 0 <= k < i ==> container_char(#[trigger] name@[k]),
            decreases x.len() - i,
        {
            if !Self::container_char(x[i]) {
                assert(!container_char(name@[i as int]));
                return false;
            }
            i += 1;
        }
        !holds(name, "--")
    }

    fn alphanumeric(c: char) -> (r: bool)
        ensures
            r == alphanumeric(c),
    {
        let n: u32 = c as u32;
        0x30 <= n && n <= 0x39 || 0x41 <= n && n <= 0x5a || 0x61 <= n && n <= 0x7a
    }

    fn container_char(c: char) -> (r: bool)
        ensures
            r == container_char(c),
    {
        let n: u32 = c as u32;
        0x61 <= n && n <= 0x7a || 0x30 <= n && n <= 0x39 || c == '-'
    }

    pub fn is_immutability_comp(comp: Option<&str>) -> (r: bool)
        ensures
            r == is_immutability_comp(seen(comp)),
    {
        equals(comp, "immutabilityPolicies")
    }

    pub fn page_blob_declared_len(req: &Request) -> (r: usize)
        ensures
            r == page_blob_declared_len(req@),
    {
        match req.header("x-ms-blob-content-length") {
            Some(value) => match read_usize(value) {
                Some(n) => n,
                None => 0,
            },
            None => 0,
        }
    }

    pub fn blob_for_type(stamp: &Stamp, req: &Request, blob_key: &str) -> (r: Object)
        requires
            req@.header("x-ms-blob-type"@) is Some,
        ensures
            r@ == blob_for_type(stamp@, req@, blob_key@),
    {
        let blob_type = or_else(req.header("x-ms-blob-type"), "");
        let data: Vec<u8> = if same(blob_type, "PageBlob") {
            let n: usize = Self::page_blob_declared_len(req);
            let zeros: Vec<u8> = vec![0u8; n];
            assert(zeros@ =~= Seq::new(n as nat, |i: int| 0u8));
            zeros
        } else {
            copy_bytes(req.body.as_slice())
        };
        let mut object = Object::new_with_metadata(
            blob_key.to_owned(),
            data,
            Self::content_type(req),
            Self::metadata_from_headers(req),
            stamp.now,
        );
        Self::set_blob_type(&mut object, blob_type);
        object
    }

    pub fn validate_blob_create_request(stamp: &Stamp, req: &Request) -> (r: Option<Response>)
        ensures
            seen(r) == validate_blob_create_request(stamp@, req@),
            r is None ==> req@.header("x-ms-blob-type"@) is Some,
    {
        proof {
            reveal_strlit("BlockBlob");
            reveal_strlit("PageBlob");
            reveal_strlit("AppendBlob");
        }
        let blob_type = match req.header("x-ms-blob-type") {
            Some(blob_type) => blob_type,
            None => return Some(
                refuse(
                    stamp,
                    400,
                    "MissingRequiredHeader",
                    "The x-ms-blob-type header is required.",
                ),
            ),
        };
        let block = same(blob_type, "BlockBlob");
        let page = same(blob_type, "PageBlob");
        if !block && !page && !same(blob_type, "AppendBlob") {
            return Some(
                refuse(
                    stamp,
                    400,
                    "InvalidHeaderValue",
                    "The x-ms-blob-type header value is invalid.",
                ),
            );
        }
        if !block && req.body.len() > 0 {
            return Some(
                refuse(
                    stamp,
                    400,
                    "InvalidHeaderValue",
                    "Page and append blob creation requests must have an empty body.",
                ),
            );
        }
        let length = req.header("x-ms-blob-content-length");
        if !page {
            return if length.is_some() {
                Some(
                    refuse(
                        stamp,
                        400,
                        "InvalidHeaderValue",
                        "The x-ms-blob-content-length header is valid only for page blobs.",
                    ),
                )
            } else {
                None
            };
        }
        match length {
            None => Some(
                refuse(
                    stamp,
                    400,
                    "MissingRequiredHeader",
                    "The x-ms-blob-content-length header is required for page blobs.",
                ),
            ),
            Some(raw) => match read_usize(raw) {
                None => Some(
                    refuse(
                        stamp,
                        400,
                        "InvalidHeaderValue",
                        "The x-ms-blob-content-length header value is invalid.",
                    ),
                ),
                Some(n) => if n % 512 != 0 {
                    Some(
                        refuse(
                            stamp,
                            400,
                            "InvalidHeaderValue",
                            "Page blob length must be a multiple of 512 bytes.",
                        ),
                    )
                } else {
                    None
                },
            },
        }
    }

    pub fn validate_page_write(
        stamp: &Stamp,
        req: &Request,
        blob: &Object,
        start: usize,
        end: usize,
        clear: bool,
    ) -> (r: Option<Response>)
        requires
            start <= end,
        ensures
            seen(r) == validate_page_write(
                stamp@,
                req@,
                blob@,
                start as int,
                end as int,
                clear,
            ),
    {
        if !clear && (req.body.len() == 0 || req.body.len() - 1 != end - start) || clear
            && req.body.len() != 0 {
            return Some(
                refuse(
                    stamp,
                    400,
                    "InvalidPageRange",
                    "Page payload length must match the requested range.",
                ),
            );
        }
        if end >= blob.data.len() {
            return Some(
                refuse(stamp, 400, "InvalidPageRange", "Page write exceeds the blob length."),
            );
        }
        None
    }

    pub fn page_range_error(stamp: &Stamp) -> (r: Response)
        ensures
            r@ == page_range_error(stamp@),
    {
        refuse(
            stamp,
            400,
            "InvalidHeaderValue",
            "Page writes require a valid x-ms-range header.",
        )
    }

    pub fn container_not_found_for_blob_request(stamp: &Stamp, req: &Request) -> (r: Response)
        ensures
            r@ == container_not_found_for_blob_request(stamp@, req@),
    {
        if req.is(Method::Head) {
            reply(stamp, 404).header("x-ms-error-code", "ContainerNotFound")
        } else {
            refuse_container(stamp)
        }
    }
}

} // verus!
