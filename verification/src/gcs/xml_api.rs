//! The XML API.

use vstd::prelude::*;
use vstd::string::*;
use crate::azure::AzureBlobAdapter;
use crate::azure::basics::{header_metadata, quote, quoted, show_bool, truth};
use crate::clock::{Stamp, StampView};
use crate::gcs::GcsAdapter;
use crate::gcs::auth::authorize;
use crate::gcs::basics::{
    error_response, foreign_data_protection, foreign_xml, generation, generation_from_metadata,
    internal_xml, metageneration_from_metadata, no_such_key, object_response, parse_path, refuse,
    refuse_foreign_xml, refuse_internal_xml, refuse_key, refuse_retained_xml, refuse_xml_bucket,
    reply, response, retention_not_met_xml, xml_bucket_not_found, xml_reply, xml_response,
};
use crate::gcs::checks::{
    page_token, token_marker, valid_bucket_name, xml_condition, xml_condition_refusal,
    xml_mutation_condition, xml_precondition_failed,
};
use crate::gcs::objects::{existing_retained, media_response, object_retained, written_object};
use crate::http::{Context, ContextView, Method, Request, RequestView, Response, ResponseView};
use crate::number::{decimal, read_unsigned, show, show_usize, unsigned};
use crate::order::first_of;
use crate::store::{
    ask, asked, perhaps, try_ask, Asked, AskedView, Bucket, BucketView, Buckets, Effect, EffectView,
    ErrorKind, Gained, KnownView, Object, ObjectView, Page, Step, StepView, StorageError,
    StorageErrorView, Tape, TapeView,
};
use crate::text::{
    cat3, copy_bytes, escape_xml, lend, or_else, or_text, own, same, trim_char, trimmed_of, xml,
};
use crate::views::{each, seen, settled, Text};

verus! {

/// The reply to a failure of storage.
pub open spec fn storage_failure(stamp: StampView, bucket: Text, error: StorageErrorView)
    -> ResponseView {
    if error.kind == ErrorKind::BucketNotFound {
        xml_bucket_not_found(stamp, bucket)
    } else {
        internal_xml(stamp, error.message)
    }
}

fn refuse_storage(stamp: &Stamp, bucket: &str, error: &StorageError) -> (r: Response)
    ensures
        r@ == storage_failure(stamp@, bucket@, error@),
{
    if error.kind == ErrorKind::BucketNotFound {
        refuse_xml_bucket(stamp, bucket)
    } else {
        refuse_internal_xml(stamp, &error.message)
    }
}

pub open spec fn unsupported_operation(stamp: StampView) -> ResponseView {
    error_response(stamp, 405, "UnsupportedHttpVerb"@, "Unsupported GCS operation"@)
}

/// `name` where the request has such a parameter, else `rest`.
pub open spec fn either(req: RequestView, name: Text, rest: Option<Text>) -> Option<Text> {
    if req.param(name) is Some {
        Some(name)
    } else {
        rest
    }
}

fn either_of(req: &Request, name: &'static str, rest: Option<&'static str>) -> (r: Option<
    &'static str,
>)
    ensures
        seen(r) == either(req@, name@, seen(rest)),
{
    if req.has_query_param(name) {
        Some(name)
    } else {
        rest
    }
}

/// The first parameter of a request that selects a part of a bucket or an object that is not
/// served.
pub open spec fn unsupported_subresource(req: RequestView, object: bool) -> Option<Text> {
    if object {
        let i = either(req, "uploadId"@, either(req, "uploads"@, None));
        let h = either(req, "retention"@, either(req, "tagging"@, i));
        let g = either(req, "response-content-type"@, h);
        let f = either(req, "response-content-disposition"@, g);
        let e = either(req, "object-lock"@, either(req, "partNumber"@, f));
        let d = either(req, "encryption"@, either(req, "legal-hold"@, e));
        either(req, "acl"@, either(req, "compose"@, d))
    } else {
        let g = either(req, "website"@, either(req, "websiteConfig"@, None));
        let f = either(req, "tagging"@, either(req, "versioning"@, g));
        let e = either(req, "retention"@, either(req, "storageClass"@, f));
        let d = either(req, "logging"@, either(req, "object-lock"@, e));
        let c = either(req, "lifecycle"@, either(req, "location"@, d));
        let b = either(req, "defaultObjectAcl"@, either(req, "encryptionConfig"@, c));
        either(req, "acl"@, either(req, "cors"@, either(req, "customPlacementConfig"@, b)))
    }
}

pub open spec fn unsupported_subresource_response(stamp: StampView, parameter: Text)
    -> ResponseView {
    error_response(
        stamp,
        501,
        "NotImplemented"@,
        "The GCS XML "@ + parameter + " subresource is not supported by this emulator surface."@,
    )
}

// ---------------------------------------------------------------------------
// Listings

pub open spec fn bucket_names_upto(buckets: Seq<BucketView>, i: int) -> Text
    decreases i,
{
    if i <= 0 {
        ""@
    } else {
        bucket_names_upto(buckets, i - 1) + "<Bucket><Name>"@ + xml(buckets[i - 1].name)
            + "</Name></Bucket>"@
    }
}

/// Lists the buckets.
pub open spec fn handle_xml_root_request(cx: ContextView, tape: TapeView) -> StepView {
    if cx.req.method != Method::Get {
        StepView::Reply(error_response(cx.stamp, 400, "InvalidURI"@, "Missing bucket"@))
    } else {
        match asked::<Buckets>(tape, EffectView::ListBuckets) {
            AskedView::Halt(step) => step,
            AskedView::Got(Err(error), _) => StepView::Reply(internal_xml(cx.stamp, error.message)),
            AskedView::Got(Ok(buckets), _) => StepView::Reply(
                xml_response(
                    cx.stamp,
                    200,
                    "<?xml version=\"1.0\" encoding=\"UTF-8\"?><ListAllMyBucketsResult><Buckets>"@
                        + bucket_names_upto(buckets, buckets.len() as int)
                        + "</Buckets></ListAllMyBucketsResult>"@,
                ),
            ),
        }
    }
}

pub open spec fn bucket_item(blob: ObjectView) -> Text {
    "<Contents><Key>"@ + xml(blob.key) + "</Key><Size>"@ + decimal(blob.size as int)
        + "</Size><ETag>"@ + xml(quoted(trim_char(blob.etag, '"'))) + "</ETag><Generation>"@ + xml(
        generation(blob),
    ) + "</Generation></Contents>"@
}

pub open spec fn bucket_items_upto(blobs: Seq<ObjectView>, i: int) -> Text
    decreases i,
{
    if i <= 0 {
        ""@
    } else {
        bucket_items_upto(blobs, i - 1) + bucket_item(blobs[i - 1])
    }
}

/// How many objects a listing asks for: one more than it shows.
pub open spec fn one_more(max: usize) -> usize {
    if max < usize::MAX {
        (max + 1) as usize
    } else {
        max
    }
}

/// The key of the last of the first `n` objects, where there are more.
pub open spec fn last_shown(blobs: Seq<ObjectView>, n: int) -> Option<Text> {
    if blobs.len() > n {
        if n > 0 {
            Some(blobs[n - 1].key)
        } else {
            Some(""@)
        }
    } else {
        None
    }
}

pub open spec fn xml_max_keys(stamp: StampView, req: RequestView) -> Result<usize, ResponseView> {
    match req.param("max-keys"@) {
        None => Ok(1000),
        Some(raw) => match unsigned(raw, u32::MAX as int) {
            Some(n) if n > 0 => Ok(n as usize),
            _ => Err(
                error_response(
                    stamp,
                    400,
                    "InvalidArgument"@,
                    "max-keys must be a positive integer."@,
                ),
            ),
        },
    }
}

/// An element with an optional text, which is left out where there is none.
pub open spec fn optional_element(open: Text, value: Option<Text>, close: Text) -> Text {
    match value {
        Some(value) => open + xml(value) + close,
        None => ""@,
    }
}

fn optional_element_of(open: &str, value: Option<&str>, close: &str) -> (r: String)
    ensures
        r@ == optional_element(open@, seen(value), close@),
{
    match value {
        Some(value) => cat3(open, &escape_xml(value), close),
        None => "".to_owned(),
    }
}

/// The first form of a listing.
pub open spec fn listing(bucket: Text, blobs: Seq<ObjectView>, max: int) -> Text {
    let shown = first_of(blobs, max);
    "<?xml version=\"1.0\" encoding=\"UTF-8\"?><ListBucketResult><Name>"@ + xml(bucket)
        + "</Name>"@ + bucket_items_upto(shown, shown.len() as int) + "<IsTruncated>"@ + truth(
        blobs.len() > max,
    ) + "</IsTruncated>"@ + optional_element(
        "<NextMarker>"@,
        last_shown(blobs, max),
        "</NextMarker>"@,
    ) + "</ListBucketResult>"@
}

/// The second form of a listing.
pub open spec fn listing_v2(req: RequestView, bucket: Text, blobs: Seq<ObjectView>, max: int)
    -> Text {
    let shown = first_of(blobs, max);
    "<?xml version=\"1.0\" encoding=\"UTF-8\"?><ListBucketResult><Name>"@ + xml(bucket)
        + "</Name><Prefix>"@ + xml(or_text(req.param("prefix"@), ""@)) + "</Prefix><KeyCount>"@
        + decimal(shown.len() as int) + "</KeyCount><MaxKeys>"@ + decimal(max)
        + "</MaxKeys><IsTruncated>"@ + truth(blobs.len() > max) + "</IsTruncated>"@
        + optional_element(
        "<ContinuationToken>"@,
        req.param("continuation-token"@),
        "</ContinuationToken>"@,
    ) + optional_element(
        "<NextContinuationToken>"@,
        match last_shown(blobs, max) {
            Some(last) => Some(page_token("xml-objects"@, last)),
            None => None,
        },
        "</NextContinuationToken>"@,
    ) + optional_element("<StartAfter>"@, req.param("start-after"@), "</StartAfter>"@)
        + bucket_items_upto(shown, shown.len() as int) + "</ListBucketResult>"@
}

/// What to ask for a listing.
pub open spec fn listing_effect(
    req: RequestView,
    bucket: Text,
    marker: Option<Text>,
    max: usize,
) -> EffectView {
    EffectView::ListObjects(
        bucket,
        req.param("prefix"@),
        req.param("delimiter"@),
        marker,
        one_more(max),
    )
}

/// Lists the objects of a bucket.
pub open spec fn list_xml_bucket(cx: ContextView, bucket: Text, tape: TapeView) -> StepView {
    let form = cx.req.param("list-type"@);
    if cx.req.param("versions"@) is Some {
        StepView::Reply(
            error_response(
                cx.stamp,
                501,
                "NotImplemented"@,
                "GCS XML object version listings are not supported by this emulator surface."@,
            ),
        )
    } else {
        match xml_max_keys(cx.stamp, cx.req) {
            Err(refusal) => StepView::Reply(refusal),
            Ok(max) => if form == Some("2"@) {
                list_xml_bucket_v2(cx, bucket, max, tape)
            } else if form is Some && form != Some("1"@) {
                StepView::Reply(
                    error_response(
                        cx.stamp,
                        400,
                        "InvalidArgument"@,
                        "list-type must be 1 or 2."@,
                    ),
                )
            } else {
                match asked::<Page>(
                    tape,
                    listing_effect(cx.req, bucket, cx.req.param("marker"@), max),
                ) {
                    AskedView::Halt(step) => step,
                    AskedView::Got(Err(error), _) => StepView::Reply(
                        storage_failure(cx.stamp, bucket, error),
                    ),
                    AskedView::Got(Ok(page), _) => StepView::Reply(
                        xml_response(cx.stamp, 200, listing(bucket, page.objects, max as int)),
                    ),
                }
            },
        }
    }
}

/// Lists the objects of a bucket in the second form.
pub open spec fn list_xml_bucket_v2(cx: ContextView, bucket: Text, max: usize, tape: TapeView)
    -> StepView {
    let token = cx.req.param("continuation-token"@);
    if token is Some && token_marker("xml-objects"@, token->0) is None {
        StepView::Reply(
            error_response(
                cx.stamp,
                400,
                "InvalidArgument"@,
                "The continuation token provided is incorrect."@,
            ),
        )
    } else {
        let marker = match token {
            Some(token) => token_marker("xml-objects"@, token),
            None => cx.req.param("start-after"@),
        };
        match asked::<Page>(tape, listing_effect(cx.req, bucket, marker, max)) {
            AskedView::Halt(step) => step,
            AskedView::Got(Err(error), _) => StepView::Reply(
                storage_failure(cx.stamp, bucket, error),
            ),
            AskedView::Got(Ok(page), _) => StepView::Reply(
                xml_response(cx.stamp, 200, listing_v2(cx.req, bucket, page.objects, max as int)),
            ),
        }
    }
}

// ---------------------------------------------------------------------------
// Buckets

/// Serves a request for a bucket.
pub open spec fn handle_xml_bucket_request(cx: ContextView, bucket: Text, tape: TapeView)
    -> StepView {
    match unsupported_subresource(cx.req, false) {
        Some(parameter) => StepView::Reply(unsupported_subresource_response(cx.stamp, parameter)),
        None => if cx.req.method == Method::Put {
            create_xml_bucket(cx, bucket, tape)
        } else if cx.req.method == Method::Get || cx.req.method == Method::Delete {
            match perhaps::<Bucket>(tape, EffectView::GetBucket(bucket)) {
                KnownView::Halt(step) => step,
                KnownView::Got(found, tape) => if foreign_data_protection(found) {
                    StepView::Reply(foreign_xml(cx.stamp))
                } else if cx.req.method == Method::Get {
                    list_xml_bucket(cx, bucket, tape)
                } else {
                    delete_xml_bucket(cx, bucket, tape)
                },
            }
        } else {
            StepView::Reply(unsupported_operation(cx.stamp))
        },
    }
}

pub open spec fn create_xml_bucket(cx: ContextView, bucket: Text, tape: TapeView) -> StepView {
    if !valid_bucket_name(bucket) {
        StepView::Reply(
            error_response(
                cx.stamp,
                400,
                "InvalidBucketName"@,
                "The specified bucket name is not valid."@,
            ),
        )
    } else {
        match asked::<Bucket>(tape, EffectView::CreateBucket(bucket)) {
            AskedView::Halt(step) => step,
            AskedView::Got(Ok(_), _) => StepView::Reply(response(cx.stamp, 200)),
            AskedView::Got(Err(error), _) => StepView::Reply(
                if error.kind == ErrorKind::BucketAlreadyExists {
                    error_response(
                        cx.stamp,
                        409,
                        "BucketAlreadyOwnedByYou"@,
                        "Your previous request to create the named bucket succeeded"@,
                    )
                } else {
                    internal_xml(cx.stamp, error.message)
                },
            ),
        }
    }
}

pub open spec fn delete_xml_bucket(cx: ContextView, bucket: Text, tape: TapeView) -> StepView {
    match asked::<()>(tape, EffectView::DeleteBucket(bucket)) {
        AskedView::Halt(step) => step,
        AskedView::Got(Ok(_), _) => StepView::Reply(response(cx.stamp, 204)),
        AskedView::Got(Err(error), _) => StepView::Reply(
            if error.kind == ErrorKind::BucketNotEmpty {
                error_response(
                    cx.stamp,
                    409,
                    "BucketNotEmpty"@,
                    "The bucket you tried to delete is not empty"@,
                )
            } else {
                storage_failure(cx.stamp, bucket, error)
            },
        ),
    }
}

// ---------------------------------------------------------------------------
// Objects

/// Serves a request for an object.
pub open spec fn handle_xml_object_request(
    cx: ContextView,
    bucket: Text,
    object: Text,
    tape: TapeView,
) -> StepView {
    let method = cx.req.method;
    match asked::<Bucket>(tape, EffectView::GetBucket(bucket)) {
        AskedView::Halt(step) => step,
        AskedView::Got(Err(error), _) => StepView::Reply(
            if error.kind == ErrorKind::BucketNotFound && method == Method::Head {
                response(cx.stamp, 404)
            } else {
                storage_failure(cx.stamp, bucket, error)
            },
        ),
        AskedView::Got(Ok(_), tape) => match unsupported_subresource(cx.req, true) {
            Some(parameter) => StepView::Reply(
                unsupported_subresource_response(cx.stamp, parameter),
            ),
            None => if (method == Method::Get || method == Method::Patch || method
                == Method::Delete) && cx.req.param("generation"@) is Some {
                StepView::Reply(
                    error_response(
                        cx.stamp,
                        501,
                        "NotImplemented"@,
                        "Generation-scoped GCS XML object operations are not supported by this emulator surface."@,
                    ),
                )
            } else {
                match method {
                    Method::Put => put_xml_object(cx, bucket, object, tape),
                    Method::Get => get_xml_object(cx, bucket, object, tape),
                    Method::Head => head_xml_object(cx, bucket, object, tape),
                    Method::Delete => delete_xml_object(cx, bucket, object, tape),
                    _ => StepView::Reply(unsupported_operation(cx.stamp)),
                }
            },
        },
    }
}

/// Writes an object where its preconditions hold and no retention forbids it.
pub open spec fn put_xml_object(cx: ContextView, bucket: Text, object: Text, tape: TapeView)
    -> StepView {
    match existing_retained(cx.stamp.now, bucket, object, tape) {
        KnownView::Halt(step) => step,
        KnownView::Got(true, _) => StepView::Reply(retention_not_met_xml(cx.stamp)),
        KnownView::Got(false, tape) => match xml_condition_refusal(cx.stamp, cx.req, true) {
            Some(refusal) => StepView::Reply(refusal),
            None => match perhaps::<Object>(tape, EffectView::GetObject(bucket, object)) {
                KnownView::Halt(step) => step,
                KnownView::Got(existing, tape) => {
                    let record = written_object(
                        cx.stamp.now,
                        object,
                        cx.req.body,
                        or_text(cx.req.header("content-type"@), "application/octet-stream"@),
                        header_metadata(cx.req, "x-goog-meta-"@),
                        existing,
                    );
                    match xml_condition(cx.req, existing) {
                        Some(condition) => match asked::<bool>(
                            tape,
                            EffectView::PutObjectIf(bucket, object, record, condition),
                        ) {
                            AskedView::Halt(step) => step,
                            AskedView::Got(Err(error), _) => StepView::Reply(
                                storage_failure(cx.stamp, bucket, error),
                            ),
                            AskedView::Got(Ok(false), _) => StepView::Reply(
                                xml_precondition_failed(cx.stamp),
                            ),
                            AskedView::Got(Ok(true), tape) => xml_object_written(
                                cx,
                                bucket,
                                object,
                                tape,
                            ),
                        },
                        None => match asked::<()>(
                            tape,
                            EffectView::PutObject(bucket, object, record),
                        ) {
                            AskedView::Halt(step) => step,
                            AskedView::Got(Err(error), _) => StepView::Reply(
                                storage_failure(cx.stamp, bucket, error),
                            ),
                            AskedView::Got(Ok(_), tape) => xml_object_written(
                                cx,
                                bucket,
                                object,
                                tape,
                            ),
                        },
                    }
                },
            },
        },
    }
}

/// Describes an object that was just written.
pub open spec fn xml_object_written(cx: ContextView, bucket: Text, object: Text, tape: TapeView)
    -> StepView {
    match asked::<Object>(tape, EffectView::GetObject(bucket, object)) {
        AskedView::Halt(step) => step,
        AskedView::Got(Err(error), _) => StepView::Reply(storage_failure(cx.stamp, bucket, error)),
        AskedView::Got(Ok(stored), _) => StepView::Reply(
            response(cx.stamp, 200).header("etag"@, quoted(stored.etag)).header(
                "x-goog-generation"@,
                generation_from_metadata(stored.metadata),
            ).header(
                "x-goog-metageneration"@,
                metageneration_from_metadata(stored.metadata),
            ),
        ),
    }
}

/// Reads an object, or part of it.
pub open spec fn get_xml_object(cx: ContextView, bucket: Text, object: Text, tape: TapeView)
    -> StepView {
    match asked::<Object>(tape, EffectView::GetObject(bucket, object)) {
        AskedView::Halt(step) => step,
        AskedView::Got(Err(error), _) => StepView::Reply(
            if error.kind == ErrorKind::KeyNotFound {
                no_such_key(cx.stamp)
            } else {
                storage_failure(cx.stamp, bucket, error)
            },
        ),
        AskedView::Got(Ok(blob), tape) => media_response(cx, bucket, object, blob, tape),
    }
}

/// Describes an object without its content.
pub open spec fn head_xml_object(cx: ContextView, bucket: Text, object: Text, tape: TapeView)
    -> StepView {
    match asked::<Object>(tape, EffectView::GetObject(bucket, object)) {
        AskedView::Halt(step) => step,
        AskedView::Got(Err(error), _) => StepView::Reply(
            if error.no_object() {
                response(cx.stamp, 404)
            } else {
                internal_xml(cx.stamp, error.message)
            },
        ),
        AskedView::Got(Ok(blob), _) => if blob.size > usize::MAX {
            StepView::Fail("GCS object is too large for this platform"@)
        } else {
            StepView::Reply(object_response(cx.stamp, 200, blob, blob.size as int, None))
        },
    }
}

/// What a deletion that failed is answered.
pub open spec fn delete_failure(stamp: StampView, bucket: Text, error: StorageErrorView)
    -> ResponseView {
    if error.kind == ErrorKind::KeyNotFound {
        no_such_key(stamp)
    } else {
        storage_failure(stamp, bucket, error)
    }
}

/// Deletes an object where its preconditions hold and no retention forbids it.
pub open spec fn delete_xml_object(cx: ContextView, bucket: Text, object: Text, tape: TapeView)
    -> StepView {
    match perhaps::<Object>(tape, EffectView::GetObject(bucket, object)) {
        KnownView::Halt(step) => step,
        KnownView::Got(None, tape) => delete_xml_over(cx, bucket, object, None, tape),
        KnownView::Got(Some(blob), tape) => match object_retained(
            cx.stamp.now,
            bucket,
            blob,
            tape,
        ) {
            KnownView::Halt(step) => step,
            KnownView::Got(true, _) => StepView::Reply(retention_not_met_xml(cx.stamp)),
            KnownView::Got(false, tape) => delete_xml_over(cx, bucket, object, Some(blob), tape),
        },
    }
}

/// Deletes an object, which was read if it is there, where its preconditions hold.
pub open spec fn delete_xml_over(
    cx: ContextView,
    bucket: Text,
    object: Text,
    existing: Option<ObjectView>,
    tape: TapeView,
) -> StepView {
    match xml_mutation_condition(cx.stamp, cx.req, existing, false) {
        Err(refusal) => StepView::Reply(refusal),
        Ok(Some(condition)) => match asked::<bool>(
            tape,
            EffectView::DeleteObjectIf(bucket, object, condition),
        ) {
            AskedView::Halt(step) => step,
            AskedView::Got(Ok(true), _) => StepView::Reply(response(cx.stamp, 204)),
            AskedView::Got(Ok(false), _) => StepView::Reply(xml_precondition_failed(cx.stamp)),
            AskedView::Got(Err(error), _) => StepView::Reply(
                delete_failure(cx.stamp, bucket, error),
            ),
        },
        Ok(None) => match asked::<()>(tape, EffectView::DeleteObject(bucket, object)) {
            AskedView::Halt(step) => step,
            AskedView::Got(Ok(_), _) => StepView::Reply(response(cx.stamp, 204)),
            AskedView::Got(Err(error), _) => StepView::Reply(
                delete_failure(cx.stamp, bucket, error),
            ),
        },
    }
}

/// Serves a request of the XML API.
pub open spec fn handle_xml_api(cx: ContextView, tape: TapeView) -> StepView {
    match parse_path(cx.req) {
        Err(message) => StepView::Reply(error_response(cx.stamp, 400, "InvalidURI"@, message)),
        Ok((None, _)) => handle_xml_root_request(cx, tape),
        Ok((Some(bucket), object)) => match authorize(cx.stamp, cx.req, cx.auth, bucket, object) {
            Err(refusal) => StepView::Reply(refusal),
            Ok(_) => match object {
                None => handle_xml_bucket_request(cx, bucket, tape),
                Some(object) => match perhaps::<Bucket>(tape, EffectView::GetBucket(bucket)) {
                    KnownView::Halt(step) => step,
                    KnownView::Got(found, tape) => if foreign_data_protection(found) {
                        StepView::Reply(foreign_xml(cx.stamp))
                    } else {
                        handle_xml_object_request(cx, bucket, object, tape)
                    },
                },
            },
        },
    }
}

impl GcsAdapter {
    fn unsupported_xml_operation(stamp: &Stamp) -> (r: Response)
        ensures
            r@ == unsupported_operation(stamp@),
    {
        refuse(stamp, 405, "UnsupportedHttpVerb", "Unsupported GCS operation")
    }

    pub fn unsupported_xml_subresource(req: &Request, object: bool) -> (r: Option<&'static str>)
        ensures
            seen(r) == unsupported_subresource(req@, object),
    {
        if object {
            let i = either_of(req, "uploadId", either_of(req, "uploads", None));
            let h = either_of(req, "retention", either_of(req, "tagging", i));
            let g = either_of(req, "response-content-type", h);
            let f = either_of(req, "response-content-disposition", g);
            let e = either_of(req, "object-lock", either_of(req, "partNumber", f));
            let d = either_of(req, "encryption", either_of(req, "legal-hold", e));
            either_of(req, "acl", either_of(req, "compose", d))
        } else {
            let g = either_of(req, "website", either_of(req, "websiteConfig", None));
            let f = either_of(req, "tagging", either_of(req, "versioning", g));
            let e = either_of(req, "retention", either_of(req, "storageClass", f));
            let d = either_of(req, "logging", either_of(req, "object-lock", e));
            let c = either_of(req, "lifecycle", either_of(req, "location", d));
            let b = either_of(req, "defaultObjectAcl", either_of(req, "encryptionConfig", c));
            either_of(req, "acl", either_of(req, "cors", either_of(req, "customPlacementConfig", b)))
        }
    }

    fn unsupported_xml_subresource_response(stamp: &Stamp, parameter: &str) -> (r: Response)
        ensures
            r@ == unsupported_subresource_response(stamp@, parameter@),
    {
        refuse(
            stamp,
            501,
            "NotImplemented",
            &cat3(
                "The GCS XML ",
                parameter,
                " subresource is not supported by this emulator surface.",
            ),
        )
    }

    pub fn handle_xml_root_request(cx: &Context, tape: Tape<'_>) -> (r: Step)
        ensures
            r@ == handle_xml_root_request(cx@, tape@),
    {
        if !cx.req.is(Method::Get) {
            return Step::Reply(refuse(&cx.stamp, 400, "InvalidURI", "Missing bucket"));
        }
        let buckets = match ask::<Buckets>(tape, Effect::ListBuckets) {
            Asked::Halt(step) => return step,
            Asked::Got(Err(error), _) => return Step::Reply(
                refuse_internal_xml(&cx.stamp, &error.message),
            ),
            Asked::Got(Ok(buckets), _) => buckets,
        };
        let mut names = "".to_owned();
        let mut i: usize = 0;
        while i < buckets.items.len()
            invariant
                i <= buckets.items.len(),
                names@ == bucket_names_upto(buckets@, i as int),
            decreases buckets.items.len() - i,
        {
            assert(buckets@[i as int] == buckets.items@[i as int]@);
            names.append("<Bucket><Name>");
            names.append(&escape_xml(&buckets.items[i].name));
            names.append("</Name></Bucket>");
            i += 1;
        }
        Step::Reply(
            xml_reply(
                &cx.stamp,
                200,
                &cat3(
                    "<?xml version=\"1.0\" encoding=\"UTF-8\"?><ListAllMyBucketsResult><Buckets>",
                    &names,
                    "</Buckets></ListAllMyBucketsResult>",
                ),
            ),
        )
    }

    /// Adds an object to a listing.
    pub fn append_xml_bucket_item(body: &mut String, blob: &Object)
        ensures
            final(body)@ == old(body)@ + bucket_item(blob@),
    {
        let mut item = "<Contents><Key>".to_owned();
        item.append(&escape_xml(&blob.key));
        item.append("</Key><Size>");
        item.append(&show(blob.size));
        item.append("</Size><ETag>");
        item.append(&escape_xml(&quote(trimmed_of(&blob.etag, '"'))));
        item.append("</ETag><Generation>");
        item.append(&escape_xml(&Self::generation(blob)));
        item.append("</Generation></Contents>");
        body.append(&item);
    }

    fn bucket_items(blobs: &Vec<Object>, max: usize) -> (r: String)
        ensures
            r@ == bucket_items_upto(
                first_of(each(blobs@), max as int),
                first_of(each(blobs@), max as int).len() as int,
            ),
    {
        let ghost shown = first_of(each(blobs@), max as int);
        let mut out = "".to_owned();
        let mut i: usize = 0;
        while i < blobs.len() && i < max
            invariant
                shown == first_of(each(blobs@), max as int),
                i <= shown.len(),
                out@ == bucket_items_upto(shown, i as int),
            decreases blobs.len() - i,
        {
            assert(shown[i as int] == blobs@[i as int]@);
            Self::append_xml_bucket_item(&mut out, &blobs[i]);
            i += 1;
        }
        out
    }

    pub fn xml_max_keys(stamp: &Stamp, req: &Request) -> (r: Result<usize, Response>)
        ensures
            settled(r) == xml_max_keys(stamp@, req@),
    {
        match req.query_param("max-keys") {
            None => Ok(1000),
            Some(raw) => match read_unsigned(raw, u32::MAX as u64) {
                Some(n) if n > 0 => Ok(n as usize),
                _ => Err(
                    refuse(
                        stamp,
                        400,
                        "InvalidArgument",
                        "max-keys must be a positive integer.",
                    ),
                ),
            },
        }
    }

    fn last_shown(blobs: &Vec<Object>, n: usize) -> (r: Option<String>)
        ensures
            seen(r) == last_shown(each(blobs@), n as int),
    {
        if blobs.len() > n {
            if n > 0 {
                assert(each(blobs@)[n - 1] == blobs@[n - 1]@);
                Some(blobs[n - 1].key.clone())
            } else {
                Some("".to_owned())
            }
        } else {
            None
        }
    }

    fn listing_effect(req: &Request, bucket: &str, marker: Option<&str>, max: usize) -> (r: Effect)
        ensures
            r@ == listing_effect(req@, bucket@, seen(marker), max),
    {
        Effect::ListObjects(
            bucket.to_owned(),
            own(req.query_param("prefix")),
            own(req.query_param("delimiter")),
            own(marker),
            if max < usize::MAX {
                max + 1
            } else {
                max
            },
        )
    }

    fn listing(bucket: &str, blobs: &Vec<Object>, max: usize) -> (r: String)
        ensures
            r@ == listing(bucket@, each(blobs@), max as int),
    {
        let mut out =
            "<?xml version=\"1.0\" encoding=\"UTF-8\"?><ListBucketResult><Name>".to_owned();
        out.append(&escape_xml(bucket));
        out.append("</Name>");
        out.append(&Self::bucket_items(blobs, max));
        out.append("<IsTruncated>");
        out.append(show_bool(blobs.len() > max));
        out.append("</IsTruncated>");
        let next = Self::last_shown(blobs, max);
        out.append(&optional_element_of("<NextMarker>", lend(&next), "</NextMarker>"));
        out.append("</ListBucketResult>");
        out
    }

    fn listing_v2(req: &Request, bucket: &str, blobs: &Vec<Object>, max: usize) -> (r: String)
        ensures
            r@ == listing_v2(req@, bucket@, each(blobs@), max as int),
    {
        let count: usize = if blobs.len() > max {
            max
        } else {
            blobs.len()
        };
        let mut out =
            "<?xml version=\"1.0\" encoding=\"UTF-8\"?><ListBucketResult><Name>".to_owned();
        out.append(&escape_xml(bucket));
        out.append("</Name><Prefix>");
        out.append(&escape_xml(or_else(req.query_param("prefix"), "")));
        out.append("</Prefix><KeyCount>");
        out.append(&show_usize(count));
        out.append("</KeyCount><MaxKeys>");
        out.append(&show_usize(max));
        out.append("</MaxKeys><IsTruncated>");
        out.append(show_bool(blobs.len() > max));
        out.append("</IsTruncated>");
        out.append(
            &optional_element_of(
                "<ContinuationToken>",
                req.query_param("continuation-token"),
                "</ContinuationToken>",
            ),
        );
        let next = match Self::last_shown(blobs, max) {
            Some(last) => Some(Self::encode_page_token("xml-objects", &last)),
            None => None,
        };
        out.append(
            &optional_element_of(
                "<NextContinuationToken>",
                lend(&next),
                "</NextContinuationToken>",
            ),
        );
        out.append(
            &optional_element_of("<StartAfter>", req.query_param("start-after"), "</StartAfter>"),
        );
        out.append(&Self::bucket_items(blobs, max));
        out.append("</ListBucketResult>");
        out
    }

    pub fn list_xml_bucket(cx: &Context, bucket: &str, tape: Tape<'_>) -> (r: Step)
        ensures
            r@ == list_xml_bucket(cx@, bucket@, tape@),
    {
        if cx.req.has_query_param("versions") {
            return Step::Reply(
                refuse(
                    &cx.stamp,
                    501,
                    "NotImplemented",
                    "GCS XML object version listings are not supported by this emulator surface.",
                ),
            );
        }
        let max: usize = match Self::xml_max_keys(&cx.stamp, &cx.req) {
            Ok(max) => max,
            Err(refusal) => return Step::Reply(refusal),
        };
        match cx.req.query_param("list-type") {
            Some(form) => {
                if same(form, "2") {
                    return Self::list_xml_bucket_v2(cx, bucket, max, tape);
                }
                if !same(form, "1") {
                    return Step::Reply(
                        refuse(&cx.stamp, 400, "InvalidArgument", "list-type must be 1 or 2."),
                    );
                }
            },
            None => {},
        }
        let effect = Self::listing_effect(&cx.req, bucket, cx.req.query_param("marker"), max);
        match ask::<Page>(tape, effect) {
            Asked::Halt(step) => step,
            Asked::Got(Err(error), _) => Step::Reply(refuse_storage(&cx.stamp, bucket, error)),
            Asked::Got(Ok(page), _) => Step::Reply(
                xml_reply(&cx.stamp, 200, &Self::listing(bucket, &page.objects, max)),
            ),
        }
    }

    pub fn list_xml_bucket_v2(cx: &Context, bucket: &str, max: usize, tape: Tape<'_>) -> (r: Step)
        ensures
            r@ == list_xml_bucket_v2(cx@, bucket@, max, tape@),
    {
        let continued = match cx.req.query_param("continuation-token") {
            Some(token) => match Self::decode_page_token("xml-objects", token) {
                Some(marker) => Some(marker),
                None => return Step::Reply(
                    refuse(
                        &cx.stamp,
                        400,
                        "InvalidArgument",
                        "The continuation token provided is incorrect.",
                    ),
                ),
            },
            None => None,
        };
        let marker = match lend(&continued) {
            Some(marker) => Some(marker),
            None => cx.req.query_param("start-after"),
        };
        let effect = Self::listing_effect(&cx.req, bucket, marker, max);
        match ask::<Page>(tape, effect) {
            Asked::Halt(step) => step,
            Asked::Got(Err(error), _) => Step::Reply(refuse_storage(&cx.stamp, bucket, error)),
            Asked::Got(Ok(page), _) => Step::Reply(
                xml_reply(
                    &cx.stamp,
                    200,
                    &Self::listing_v2(&cx.req, bucket, &page.objects, max),
                ),
            ),
        }
    }

    pub fn handle_xml_bucket_request(cx: &Context, bucket: &str, tape: Tape<'_>) -> (r: Step)
        ensures
            r@ == handle_xml_bucket_request(cx@, bucket@, tape@),
    {
        match Self::unsupported_xml_subresource(&cx.req, false) {
            Some(parameter) => return Step::Reply(
                Self::unsupported_xml_subresource_response(&cx.stamp, parameter),
            ),
            None => {},
        }
        if cx.req.is(Method::Put) {
            return Self::create_xml_bucket(cx, bucket, tape);
        }
        let get = cx.req.is(Method::Get);
        if !get && !cx.req.is(Method::Delete) {
            return Step::Reply(Self::unsupported_xml_operation(&cx.stamp));
        }
        let (found, tape) = match try_ask::<Bucket>(tape, Effect::GetBucket(bucket.to_owned())) {
            Gained::Halt(step) => return step,
            Gained::Got(found, tape) => (found.value, tape),
        };
        if Self::foreign_data_protection_active(found) {
            Step::Reply(refuse_foreign_xml(&cx.stamp))
        } else if get {
            Self::list_xml_bucket(cx, bucket, tape)
        } else {
            Self::delete_xml_bucket(cx, bucket, tape)
        }
    }

    fn create_xml_bucket(cx: &Context, bucket: &str, tape: Tape<'_>) -> (r: Step)
        ensures
            r@ == create_xml_bucket(cx@, bucket@, tape@),
    {
        if !Self::valid_bucket_name(bucket) {
            return Step::Reply(
                refuse(
                    &cx.stamp,
                    400,
                    "InvalidBucketName",
                    "The specified bucket name is not valid.",
                ),
            );
        }
        match ask::<Bucket>(tape, Effect::CreateBucket(bucket.to_owned())) {
            Asked::Halt(step) => step,
            Asked::Got(Ok(_), _) => Step::Reply(reply(&cx.stamp, 200)),
            Asked::Got(Err(error), _) => Step::Reply(
                if error.kind == ErrorKind::BucketAlreadyExists {
                    refuse(
                        &cx.stamp,
                        409,
                        "BucketAlreadyOwnedByYou",
                        "Your previous request to create the named bucket succeeded",
                    )
                } else {
                    refuse_internal_xml(&cx.stamp, &error.message)
                },
            ),
        }
    }

    fn delete_xml_bucket(cx: &Context, bucket: &str, tape: Tape<'_>) -> (r: Step)
        ensures
            r@ == delete_xml_bucket(cx@, bucket@, tape@),
    {
        match ask::<()>(tape, Effect::DeleteBucket(bucket.to_owned())) {
            Asked::Halt(step) => step,
            Asked::Got(Ok(_), _) => Step::Reply(reply(&cx.stamp, 204)),
            Asked::Got(Err(error), _) => Step::Reply(
                if error.kind == ErrorKind::BucketNotEmpty {
                    refuse(
                        &cx.stamp,
                        409,
                        "BucketNotEmpty",
                        "The bucket you tried to delete is not empty",
                    )
                } else {
                    refuse_storage(&cx.stamp, bucket, error)
                },
            ),
        }
    }

    pub fn handle_xml_object_request(cx: &Context, bucket: &str, object: &str, tape: Tape<'_>) -> (r:
        Step)
        ensures
            r@ == handle_xml_object_request(cx@, bucket@, object@, tape@),
    {
        let tape = match ask::<Bucket>(tape, Effect::GetBucket(bucket.to_owned())) {
            Asked::Halt(step) => return step,
            Asked::Got(Ok(_), tape) => tape,
            Asked::Got(Err(error), _) => return Step::Reply(
                if error.kind == ErrorKind::BucketNotFound && cx.req.is(Method::Head) {
                    reply(&cx.stamp, 404)
                } else {
                    refuse_storage(&cx.stamp, bucket, error)
                },
            ),
        };
        match Self::unsupported_xml_subresource(&cx.req, true) {
            Some(parameter) => return Step::Reply(
                Self::unsupported_xml_subresource_response(&cx.stamp, parameter),
            ),
            None => {},
        }
        if (cx.req.is(Method::Get) || cx.req.is(Method::Patch) || cx.req.is(Method::Delete))
            && cx.req.has_query_param("generation") {
            return Step::Reply(
                refuse(
                    &cx.stamp,
                    501,
                    "NotImplemented",
                    "Generation-scoped GCS XML object operations are not supported by this emulator surface.",
                ),
            );
        }
        match cx.req.method {
            Method::Put => Self::put_xml_object(cx, bucket, object, tape),
            Method::Get => Self::object_media_response(cx, bucket, object, tape),
            Method::Head => Self::object_head_response(cx, bucket, object, tape),
            Method::Delete => Self::delete_xml_object(cx, bucket, object, tape),
            _ => Step::Reply(Self::unsupported_xml_operation(&cx.stamp)),
        }
    }

    pub fn put_xml_object(cx: &Context, bucket: &str, object: &str, tape: Tape<'_>) -> (r: Step)
        ensures
            r@ == put_xml_object(cx@, bucket@, object@, tape@),
    {
        let (retained, tape) = match Self::existing_object_is_retained(
            &cx.stamp.now,
            bucket,
            object,
            tape,
        ) {
            Gained::Halt(step) => return step,
            Gained::Got(retained, tape) => (retained, tape),
        };
        if retained {
            return Step::Reply(refuse_retained_xml(&cx.stamp));
        }
        match Self::xml_condition_refusal(&cx.stamp, &cx.req, true) {
            Some(refusal) => return Step::Reply(refusal),
            None => {},
        }
        let (existing, tape) = match try_ask::<Object>(
            tape,
            Effect::GetObject(bucket.to_owned(), object.to_owned()),
        ) {
            Gained::Halt(step) => return step,
            Gained::Got(found, tape) => (found.value, tape),
        };
        let record = Self::written_object(
            &cx.stamp.now,
            object,
            copy_bytes(cx.req.body.as_slice()),
            or_else(cx.req.header("content-type"), "application/octet-stream").to_owned(),
            &Self::metadata_from_headers(&cx.req),
            existing,
        );
        let tape = match Self::xml_condition(&cx.req, existing) {
            Some(condition) => match ask::<bool>(
                tape,
                Effect::PutObjectIf(bucket.to_owned(), object.to_owned(), record, condition),
            ) {
                Asked::Halt(step) => return step,
                Asked::Got(Err(error), _) => return Step::Reply(
                    refuse_storage(&cx.stamp, bucket, error),
                ),
                Asked::Got(Ok(written), tape) => {
                    if !*written {
                        return Step::Reply(Self::xml_precondition_failed_response(&cx.stamp));
                    }
                    tape
                },
            },
            None => match ask::<()>(
                tape,
                Effect::PutObject(bucket.to_owned(), object.to_owned(), record),
            ) {
                Asked::Halt(step) => return step,
                Asked::Got(Err(error), _) => return Step::Reply(
                    refuse_storage(&cx.stamp, bucket, error),
                ),
                Asked::Got(Ok(_), tape) => tape,
            },
        };
        match ask::<Object>(tape, Effect::GetObject(bucket.to_owned(), object.to_owned())) {
            Asked::Halt(step) => step,
            Asked::Got(Err(error), _) => Step::Reply(refuse_storage(&cx.stamp, bucket, error)),
            Asked::Got(Ok(stored), _) => {
                let etag = quote(&stored.etag);
                let generation = Self::generation_from_metadata(&stored.metadata);
                let metageneration = Self::metageneration_from_metadata(&stored.metadata);
                Step::Reply(
                    reply(&cx.stamp, 200).header("etag", &etag).header(
                        "x-goog-generation",
                        &generation,
                    ).header("x-goog-metageneration", &metageneration),
                )
            },
        }
    }

    pub fn object_media_response(cx: &Context, bucket: &str, object: &str, tape: Tape<'_>) -> (r:
        Step)
        ensures
            r@ == get_xml_object(cx@, bucket@, object@, tape@),
    {
        match ask::<Object>(tape, Effect::GetObject(bucket.to_owned(), object.to_owned())) {
            Asked::Halt(step) => step,
            Asked::Got(Err(error), _) => Step::Reply(
                if error.kind == ErrorKind::KeyNotFound {
                    refuse_key(&cx.stamp)
                } else {
                    refuse_storage(&cx.stamp, bucket, error)
                },
            ),
            Asked::Got(Ok(blob), tape) => Self::object_media_response_for_blob(
                cx,
                bucket,
                object,
                blob,
                tape,
            ),
        }
    }

    pub fn object_head_response(cx: &Context, bucket: &str, object: &str, tape: Tape<'_>) -> (r:
        Step)
        ensures
            r@ == head_xml_object(cx@, bucket@, object@, tape@),
    {
        match ask::<Object>(tape, Effect::GetObject(bucket.to_owned(), object.to_owned())) {
            Asked::Halt(step) => step,
            Asked::Got(Err(error), _) => Step::Reply(
                if error.no_object() {
                    reply(&cx.stamp, 404)
                } else {
                    refuse_internal_xml(&cx.stamp, &error.message)
                },
            ),
            Asked::Got(Ok(blob), _) => match AzureBlobAdapter::response_body_len(blob.size) {
                Some(length) => Step::Reply(
                    Self::object_response(&cx.stamp, 200, blob, length, None),
                ),
                None => Step::Fail("GCS object is too large for this platform".to_owned()),
            },
        }
    }

    fn delete_failure(stamp: &Stamp, bucket: &str, error: &StorageError) -> (r: Response)
        ensures
            r@ == delete_failure(stamp@, bucket@, error@),
    {
        if error.kind == ErrorKind::KeyNotFound {
            refuse_key(stamp)
        } else {
            refuse_storage(stamp, bucket, error)
        }
    }

    fn delete_xml_object(cx: &Context, bucket: &str, object: &str, tape: Tape<'_>) -> (r: Step)
        ensures
            r@ == delete_xml_object(cx@, bucket@, object@, tape@),
    {
        let (existing, tape) = match try_ask::<Object>(
            tape,
            Effect::GetObject(bucket.to_owned(), object.to_owned()),
        ) {
            Gained::Halt(step) => return step,
            Gained::Got(found, tape) => (found.value, tape),
        };
        let tape = match existing {
            None => tape,
            Some(blob) => match Self::retained(&cx.stamp.now, bucket, blob, tape) {
                Gained::Halt(step) => return step,
                Gained::Got(retained, tape) => {
                    if retained {
                        return Step::Reply(refuse_retained_xml(&cx.stamp));
                    }
                    tape
                },
            },
        };
        match Self::xml_mutation_condition(&cx.stamp, &cx.req, existing, false) {
            Err(refusal) => Step::Reply(refusal),
            Ok(Some(condition)) => match ask::<bool>(
                tape,
                Effect::DeleteObjectIf(bucket.to_owned(), object.to_owned(), condition),
            ) {
                Asked::Halt(step) => step,
                Asked::Got(Ok(deleted), _) => if *deleted {
                    Step::Reply(reply(&cx.stamp, 204))
                } else {
                    Step::Reply(Self::xml_precondition_failed_response(&cx.stamp))
                },
                Asked::Got(Err(error), _) => Step::Reply(
                    Self::delete_failure(&cx.stamp, bucket, error),
                ),
            },
            Ok(None) => match ask::<()>(
                tape,
                Effect::DeleteObject(bucket.to_owned(), object.to_owned()),
            ) {
                Asked::Halt(step) => step,
                Asked::Got(Ok(_), _) => Step::Reply(reply(&cx.stamp, 204)),
                Asked::Got(Err(error), _) => Step::Reply(
                    Self::delete_failure(&cx.stamp, bucket, error),
                ),
            },
        }
    }

    pub fn handle_xml_api(cx: &Context, tape: Tape<'_>) -> (r: Step)
        ensures
            r@ == handle_xml_api(cx@, tape@),
    {
        let (bucket, object) = match Self::parse_path(&cx.req) {
            Ok(path) => path,
            Err(message) => return Step::Reply(refuse(&cx.stamp, 400, "InvalidURI", &message)),
        };
        let bucket = match bucket {
            Some(bucket) => bucket,
            None => return Self::handle_xml_root_request(cx, tape),
        };
        match Self::authorize(&cx.stamp, &cx.req, &cx.auth, &bucket, lend(&object)) {
            Err(refusal) => return Step::Reply(refusal),
            Ok(()) => {},
        }
        let object = match object {
            Some(object) => object,
            None => return Self::handle_xml_bucket_request(cx, &bucket, tape),
        };
        let (found, tape) = match try_ask::<Bucket>(tape, Effect::GetBucket(bucket.clone())) {
            Gained::Halt(step) => return step,
            Gained::Got(found, tape) => (found.value, tape),
        };
        if Self::foreign_data_protection_active(found) {
            Step::Reply(refuse_foreign_xml(&cx.stamp))
        } else {
            Self::handle_xml_object_request(cx, &bucket, &object, tape)
        }
    }
}

} // verus!
