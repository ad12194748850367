//! Uploads of the JSON API.

use vstd::prelude::*;
use vstd::string::*;
use crate::azure::basics::header_metadata;
use crate::clock::{Stamp, StampView};
use crate::gcs::GcsAdapter;
use crate::gcs::auth::authorize;
use crate::gcs::basics::{
    error_response, foreign_data_protection, foreign_json, json_error, json_response,
    json_upload_error, refuse, refuse_foreign_json, refuse_json, refuse_retained_json,
    refuse_upload, reply, response, retention_not_met_json, segments, segments_of,
};
use crate::gcs::checks::{
    combined_crc32c, generation_precondition_failed, invalid_json_mutation_headers,
    invalid_upload_preconditions, is_complete_resumable_range, request_crc32c,
    upload_metadata_error_response, validate_crc32c, UploadErrorView, UploadMetadataError,
};
use crate::gcs::multipart::{
    parse_json_upload_metadata, parse_multipart_upload, ParsedUploadMetadata, UploadMetadataView,
};
use crate::gcs::objects::{
    existing_retained, json_object_metadata, put_blob_with_generation_match, BlobWrite,
    BlobWriteOutcome, BlobWriteView, WrittenView,
};
use crate::http::{Context, ContextView, Method, Response, ResponseView};
use crate::store::{
    ask, asked, known, perhaps, require, try_ask, Asked, AskedView, Bucket, Effect, EffectView,
    ErrorKind, Gained, Known, KnownView, Step, StepView, Tape, TapeView, UploadSession,
    UploadSessionView, UploadSlot,
};
use crate::table::{with, Copied, Table};
use crate::text::{cat, cat3, copy_bytes, or_else, or_text, own, same};
use crate::views::{seen, Pairs, Text};

verus! {

/// The reply to an upload whose preconditions did not hold.
pub open spec fn upload_precondition_failed(stamp: StampView, rejected: bool) -> ResponseView {
    if rejected {
        response(stamp, 304)
    } else {
        generation_precondition_failed(stamp)
    }
}

/// The reply to what became of a write.
pub open spec fn upload_reply(
    stamp: StampView,
    bucket: Text,
    rejected: bool,
    written: WrittenView,
) -> ResponseView {
    match written {
        WrittenView::Stored(stored) => json_response(
            stamp,
            200,
            json_object_metadata(bucket, stored),
        ),
        WrittenView::PreconditionFailed => upload_precondition_failed(stamp, rejected),
        WrittenView::RetentionPolicyNotMet => retention_not_met_json(stamp),
    }
}

/// Writes the content of an upload that came in one request.
pub open spec fn store_upload(
    cx: ContextView,
    bucket: Text,
    key: Text,
    write: BlobWriteView,
    tape: TapeView,
) -> StepView {
    match existing_retained(cx.stamp.now, bucket, key, tape) {
        KnownView::Halt(step) => step,
        KnownView::Got(true, _) => StepView::Reply(retention_not_met_json(cx.stamp)),
        KnownView::Got(false, tape) => match put_blob_with_generation_match(
            cx.stamp.now,
            bucket,
            key,
            write,
            tape,
        ) {
            KnownView::Halt(step) => step,
            KnownView::Got(written, _) => StepView::Reply(
                upload_reply(cx.stamp, bucket, write.rejected is Some, written),
            ),
        },
    }
}

/// What every upload is refused for.
pub open spec fn upload_refusal(cx: ContextView) -> Option<ResponseView> {
    match invalid_json_mutation_headers(cx.stamp, cx.req) {
        Some(refusal) => Some(refusal),
        None => invalid_upload_preconditions(cx.stamp, cx.req),
    }
}

pub open spec fn name_required(stamp: StampView) -> ResponseView {
    json_upload_error(stamp, 400, "Required parameter: name"@)
}

/// An upload whose body is the content.
pub open spec fn handle_media_upload(cx: ContextView, bucket: Text, tape: TapeView) -> StepView {
    match upload_refusal(cx) {
        Some(refusal) => StepView::Reply(refusal),
        None => match request_crc32c(cx.req) {
            Err(error) => StepView::Reply(upload_metadata_error_response(cx.stamp, error)),
            Ok(expected) => match validate_crc32c(expected, cx.req.body) {
                Err(error) => StepView::Reply(upload_metadata_error_response(cx.stamp, error)),
                Ok(_) => match cx.req.param("name"@) {
                    None => StepView::Reply(name_required(cx.stamp)),
                    Some(key) => store_upload(
                        cx,
                        bucket,
                        key,
                        (BlobWriteView {
                            data: cx.req.body,
                            content_type: or_text(
                                cx.req.header("content-type"@),
                                "application/octet-stream"@,
                            ),
                            metadata: header_metadata(cx.req, "x-goog-meta-"@),
                            expected: cx.req.param("ifGenerationMatch"@),
                            rejected: cx.req.param("ifGenerationNotMatch"@),
                        }),
                        tape,
                    ),
                },
            },
        },
    }
}

/// The name of an upload: from the request, or else from its metadata.
pub open spec fn upload_name(cx: ContextView, metadata: UploadMetadataView) -> Option<Text> {
    match cx.req.param("name"@) {
        Some(name) => Some(name),
        None => metadata.name,
    }
}

/// An upload whose body holds metadata and content.
pub open spec fn handle_multipart_upload(cx: ContextView, bucket: Text, tape: TapeView)
    -> StepView {
    match upload_refusal(cx) {
        Some(refusal) => StepView::Reply(refusal),
        None => if cx.req.header("x-goog-hash"@) is Some {
            StepView::Reply(
                upload_metadata_error_response(
                    cx.stamp,
                    UploadErrorView::Unsupported(
                        "Multipart uploads accept CRC32C in the JSON object metadata, not X-Goog-Hash"@,
                    ),
                ),
            )
        } else {
            match parse_multipart_upload(
                or_text(cx.req.header("content-type"@), "multipart/related"@),
                cx.req.body,
            ) {
                Err(error) => StepView::Reply(upload_metadata_error_response(cx.stamp, error)),
                Ok((metadata, content_type, data)) => match validate_crc32c(
                    metadata.crc32c,
                    data,
                ) {
                    Err(error) => StepView::Reply(
                        upload_metadata_error_response(cx.stamp, error),
                    ),
                    Ok(_) => match upload_name(cx, metadata) {
                        None => StepView::Reply(name_required(cx.stamp)),
                        Some(key) => store_upload(
                            cx,
                            bucket,
                            key,
                            (BlobWriteView {
                                data,
                                content_type,
                                metadata: metadata.metadata,
                                expected: cx.req.param("ifGenerationMatch"@),
                                rejected: cx.req.param("ifGenerationNotMatch"@),
                            }),
                            tape,
                        ),
                    },
                },
            }
        },
    }
}

/// What is remembered of an upload whose content is to come later.
pub open spec fn new_session(
    cx: ContextView,
    bucket: Text,
    key: Text,
    metadata: UploadMetadataView,
) -> UploadSessionView {
    UploadSessionView {
        bucket,
        key,
        content_type: match metadata.content_type {
            Some(content_type) => content_type,
            None => or_text(
                cx.req.header("x-upload-content-type"@),
                "application/octet-stream"@,
            ),
        },
        metadata: metadata.metadata,
        crc32c: metadata.crc32c,
        if_generation_match: cx.req.param("ifGenerationMatch"@),
        if_generation_not_match: cx.req.param("ifGenerationNotMatch"@),
    }
}

/// Announces an upload.
pub open spec fn create_resumable_session(cx: ContextView, bucket: Text, tape: TapeView)
    -> StepView {
    match upload_refusal(cx) {
        Some(refusal) => StepView::Reply(refusal),
        None => if cx.req.header("x-goog-hash"@) is Some {
            StepView::Reply(
                upload_metadata_error_response(
                    cx.stamp,
                    UploadErrorView::Unsupported(
                        "X-Goog-Hash is supported on the final resumable upload request, not session initiation"@,
                    ),
                ),
            )
        } else {
            match parse_json_upload_metadata(cx.req.body) {
                Err(error) => StepView::Reply(upload_metadata_error_response(cx.stamp, error)),
                Ok(metadata) => match upload_name(cx, metadata) {
                    None => StepView::Reply(name_required(cx.stamp)),
                    Some(key) => {
                        let id = cx.stamp.fresh_id;
                        let session = new_session(cx, bucket, key, metadata);
                        match known::<()>(tape, EffectView::SaveUpload(id, session)) {
                            KnownView::Halt(step) => step,
                            KnownView::Got(_, tape) => match known::<()>(
                                tape,
                                EffectView::RememberUpload(id, session),
                            ) {
                                KnownView::Halt(step) => step,
                                KnownView::Got(_, _) => StepView::Reply(
                                    response(cx.stamp, 200).header(
                                        "location"@,
                                        cx.req.origin + "/upload/resumable/"@ + id,
                                    ),
                                ),
                            },
                        }
                    },
                },
            }
        },
    }
}

/// An upload session: from memory, where it is taken out, else as it was recorded. The
/// record is read in either case, and stays.
pub open spec fn take_resumable_session(id: Text, tape: TapeView) -> KnownView<
    Option<UploadSessionView>,
> {
    match known::<UploadSlot>(tape, EffectView::TakeUpload(id)) {
        KnownView::Halt(step) => KnownView::Halt(step),
        KnownView::Got(taken, tape) => match known::<UploadSlot>(
            tape,
            EffectView::LoadUpload(id),
        ) {
            KnownView::Halt(step) => KnownView::Halt(step),
            KnownView::Got(loaded, tape) => KnownView::Got(
                match taken {
                    Some(session) => Some(session),
                    None => loaded,
                },
                tape,
            ),
        },
    }
}

/// A table with the first `i` entries of another put into it.
pub open spec fn merged_upto(table: Pairs, more: Pairs, i: int) -> Pairs
    decreases i,
{
    if i <= 0 {
        table
    } else {
        with(merged_upto(table, more, i - 1), more[i - 1].0, more[i - 1].1)
    }
}

pub open spec fn merged(table: Pairs, more: Pairs) -> Pairs {
    merged_upto(table, more, more.len() as int)
}

/// Takes the content of an upload that was announced.
pub open spec fn complete_resumable_upload(cx: ContextView, id: Text, tape: TapeView) -> StepView {
    let range = cx.req.header("content-range"@);
    if cx.req.method != Method::Put {
        StepView::Reply(
            json_upload_error(cx.stamp, 405, "Resumable upload sessions require PUT."@),
        )
    } else {
        match invalid_json_mutation_headers(cx.stamp, cx.req) {
            Some(refusal) => StepView::Reply(refusal),
            None => if range is Some && !is_complete_resumable_range(
                range->0,
                cx.req.body.len() as int,
            ) {
                StepView::Reply(
                    json_error(
                        cx.stamp,
                        501,
                        "notImplemented"@,
                        "Chunked resumable uploads are not supported by this emulator surface"@,
                    ),
                )
            } else {
                match request_crc32c(cx.req) {
                    Err(error) => StepView::Reply(
                        upload_metadata_error_response(cx.stamp, error),
                    ),
                    Ok(header_crc) => match take_resumable_session(id, tape) {
                        KnownView::Halt(step) => step,
                        KnownView::Got(None, _) => StepView::Reply(
                            json_upload_error(
                                cx.stamp,
                                404,
                                "The resumable upload session does not exist."@,
                            ),
                        ),
                        KnownView::Got(Some(session), tape) => complete_session(
                            cx,
                            id,
                            session,
                            header_crc,
                            tape,
                        ),
                    },
                }
            },
        }
    }
}

/// Takes the content of the upload of a session.
pub open spec fn complete_session(
    cx: ContextView,
    id: Text,
    session: UploadSessionView,
    header_crc: Option<u32>,
    tape: TapeView,
) -> StepView {
    match combined_crc32c(session.crc32c, header_crc) {
        Err(error) => StepView::Reply(upload_metadata_error_response(cx.stamp, error)),
        Ok(expected) => match validate_crc32c(expected, cx.req.body) {
            Err(error) => StepView::Reply(upload_metadata_error_response(cx.stamp, error)),
            Ok(_) => match perhaps::<Bucket>(tape, EffectView::GetBucket(session.bucket)) {
                KnownView::Halt(step) => step,
                KnownView::Got(found, tape) => if foreign_data_protection(found) {
                    StepView::Reply(foreign_json(cx.stamp))
                } else {
                    store_session(cx, id, session, tape)
                },
            },
        },
    }
}

/// Writes the content of the upload of a session, and ends the session once it is written.
pub open spec fn store_session(
    cx: ContextView,
    id: Text,
    session: UploadSessionView,
    tape: TapeView,
) -> StepView {
    match existing_retained(cx.stamp.now, session.bucket, session.key, tape) {
        KnownView::Halt(step) => step,
        KnownView::Got(true, _) => StepView::Reply(retention_not_met_json(cx.stamp)),
        KnownView::Got(false, tape) => match put_blob_with_generation_match(
            cx.stamp.now,
            session.bucket,
            session.key,
            (BlobWriteView {
                data: cx.req.body,
                content_type: session.content_type,
                metadata: merged(session.metadata, header_metadata(cx.req, "x-goog-meta-"@)),
                expected: session.if_generation_match,
                rejected: session.if_generation_not_match,
            }),
            tape,
        ) {
            KnownView::Halt(step) => step,
            KnownView::Got(WrittenView::Stored(stored), tape) => match known::<()>(
                tape,
                EffectView::DropUpload(id),
            ) {
                KnownView::Halt(step) => step,
                KnownView::Got(_, _) => StepView::Reply(
                    json_response(
                        cx.stamp,
                        200,
                        json_object_metadata(session.bucket, stored),
                    ),
                ),
            },
            KnownView::Got(written, _) => StepView::Reply(
                upload_reply(
                    cx.stamp,
                    session.bucket,
                    session.if_generation_not_match is Some,
                    written,
                ),
            ),
        },
    }
}

/// Serves a request that starts an upload.
pub open spec fn handle_resumable_start(cx: ContextView, bucket: Text, tape: TapeView)
    -> StepView {
    if cx.req.method != Method::Post {
        StepView::Reply(json_upload_error(cx.stamp, 405, "GCS JSON uploads require POST."@))
    } else {
        match authorize(cx.stamp, cx.req, cx.auth, bucket, None) {
            Err(refusal) => StepView::Reply(refusal),
            Ok(_) => match asked::<Bucket>(tape, EffectView::GetBucket(bucket)) {
                AskedView::Halt(step) => step,
                AskedView::Got(Err(error), _) => if error.kind == ErrorKind::BucketNotFound {
                    StepView::Reply(
                        json_upload_error(cx.stamp, 404, "The specified bucket does not exist."@),
                    )
                } else {
                    StepView::Fail(error.message)
                },
                AskedView::Got(Ok(_), tape) => match perhaps::<Bucket>(
                    tape,
                    EffectView::GetBucket(bucket),
                ) {
                    KnownView::Halt(step) => step,
                    KnownView::Got(found, tape) => if foreign_data_protection(found) {
                        StepView::Reply(foreign_json(cx.stamp))
                    } else {
                        start_upload(cx, bucket, tape)
                    },
                },
            },
        }
    }
}

/// Starts an upload of the kind that a request asks for.
pub open spec fn start_upload(cx: ContextView, bucket: Text, tape: TapeView) -> StepView {
    match cx.req.param("uploadType"@) {
        None => StepView::Reply(
            json_upload_error(cx.stamp, 400, "Required parameter: uploadType"@),
        ),
        Some(kind) => if kind == "media"@ {
            handle_media_upload(cx, bucket, tape)
        } else if kind == "multipart"@ {
            handle_multipart_upload(cx, bucket, tape)
        } else if kind == "resumable"@ {
            create_resumable_session(cx, bucket, tape)
        } else {
            StepView::Reply(json_upload_error(cx.stamp, 400, "Unsupported uploadType: "@ + kind))
        },
    }
}

/// Serves a request for an upload.
pub open spec fn handle_resumable(cx: ContextView, tape: TapeView) -> StepView {
    let parts = segments(cx.req.path);
    if parts.len() >= 6 && parts[0] == "upload"@ && parts[1] == "storage"@ && parts[2] == "v1"@
        && parts[3] == "b"@ {
        handle_resumable_start(cx, parts[4], tape)
    } else if parts.len() == 3 && parts[0] == "upload"@ && parts[1] == "resumable"@ {
        complete_resumable_upload(cx, parts[2], tape)
    } else {
        StepView::Reply(
            error_response(cx.stamp, 400, "InvalidURI"@, "Unsupported resumable upload path"@),
        )
    }
}

impl GcsAdapter {
    pub fn upload_precondition_failed(stamp: &Stamp, rejected: bool) -> (r: Response)
        ensures
            r@ == upload_precondition_failed(stamp@, rejected),
    {
        if rejected {
            reply(stamp, 304)
        } else {
            Self::generation_precondition_failed(stamp)
        }
    }

    fn upload_reply(stamp: &Stamp, bucket: &str, rejected: bool, written: BlobWriteOutcome<'_>)
        -> (r: Response)
        ensures
            r@ == upload_reply(stamp@, bucket@, rejected, written@),
    {
        match written {
            BlobWriteOutcome::Stored(stored) => Self::gcs_object_json_response(
                stamp,
                200,
                bucket,
                stored,
            ),
            BlobWriteOutcome::PreconditionFailed => Self::upload_precondition_failed(
                stamp,
                rejected,
            ),
            BlobWriteOutcome::RetentionPolicyNotMet => refuse_retained_json(stamp),
        }
    }

    fn store_upload(cx: &Context, bucket: &str, key: &str, write: &BlobWrite, tape: Tape<'_>) -> (r:
        Step)
        ensures
            r@ == store_upload(cx@, bucket@, key@, write@, tape@),
    {
        let (retained, tape) = match Self::existing_object_is_retained(
            &cx.stamp.now,
            bucket,
            key,
            tape,
        ) {
            Gained::Halt(step) => return step,
            Gained::Got(retained, tape) => (retained, tape),
        };
        if retained {
            return Step::Reply(refuse_retained_json(&cx.stamp));
        }
        match Self::put_blob_with_generation_match(&cx.stamp.now, bucket, key, write, tape) {
            Gained::Halt(step) => step,
            Gained::Got(written, _) => Step::Reply(
                Self::upload_reply(&cx.stamp, bucket, write.rejected.is_some(), written),
            ),
        }
    }

    fn upload_refusal(cx: &Context) -> (r: Option<Response>)
        ensures
            seen(r) == upload_refusal(cx@),
    {
        match Self::invalid_json_mutation_headers(&cx.stamp, &cx.req) {
            Some(refusal) => Some(refusal),
            None => Self::invalid_upload_preconditions(&cx.stamp, &cx.req),
        }
    }

    fn refuse_nameless(stamp: &Stamp) -> (r: Response)
        ensures
            r@ == name_required(stamp@),
    {
        refuse_upload(stamp, 400, "Required parameter: name")
    }

    pub fn handle_media_upload(cx: &Context, bucket: &str, tape: Tape<'_>) -> (r: Step)
        ensures
            r@ == handle_media_upload(cx@, bucket@, tape@),
    {
        match Self::upload_refusal(cx) {
            Some(refusal) => return Step::Reply(refusal),
            None => {},
        }
        let expected = match Self::request_crc32c(&cx.req) {
            Ok(expected) => expected,
            Err(error) => return Step::Reply(
                Self::upload_metadata_error_response(&cx.stamp, error),
            ),
        };
        match Self::validate_crc32c(expected, cx.req.body.as_slice()) {
            Err(error) => return Step::Reply(
                Self::upload_metadata_error_response(&cx.stamp, error),
            ),
            Ok(()) => {},
        }
        let key = match cx.req.query_param("name") {
            Some(key) => key,
            None => return Step::Reply(Self::refuse_nameless(&cx.stamp)),
        };
        let write = BlobWrite {
            data: copy_bytes(cx.req.body.as_slice()),
            content_type: or_else(
                cx.req.header("content-type"),
                "application/octet-stream",
            ).to_owned(),
            metadata: Self::metadata_from_headers(&cx.req),
            expected: own(cx.req.query_param("ifGenerationMatch")),
            rejected: own(cx.req.query_param("ifGenerationNotMatch")),
        };
        Self::store_upload(cx, bucket, key, &write, tape)
    }

    fn upload_name(cx: &Context, metadata: &ParsedUploadMetadata) -> (r: Option<String>)
        ensures
            seen(r) == upload_name(cx@, metadata@),
    {
        match cx.req.query_param("name") {
            Some(name) => Some(name.to_owned()),
            None => match &metadata.name {
                Some(name) => Some(name.clone()),
                None => None,
            },
        }
    }

    pub fn handle_multipart_upload(cx: &Context, bucket: &str, tape: Tape<'_>) -> (r: Step)
        ensures
            r@ == handle_multipart_upload(cx@, bucket@, tape@),
    {
        match Self::upload_refusal(cx) {
            Some(refusal) => return Step::Reply(refusal),
            None => {},
        }
        if cx.req.header("x-goog-hash").is_some() {
            return Step::Reply(
                Self::upload_metadata_error_response(
                    &cx.stamp,
                    UploadMetadataError::Unsupported(
                        "Multipart uploads accept CRC32C in the JSON object metadata, not X-Goog-Hash".to_owned(),
                    ),
                ),
            );
        }
        let content_type = or_else(cx.req.header("content-type"), "multipart/related");
        let (metadata, content_type, data) = match Self::parse_multipart_upload(
            content_type,
            cx.req.body.as_slice(),
        ) {
            Ok(upload) => upload,
            Err(error) => return Step::Reply(
                Self::upload_metadata_error_response(&cx.stamp, error),
            ),
        };
        match Self::validate_crc32c(metadata.crc32c, data.as_slice()) {
            Err(error) => return Step::Reply(
                Self::upload_metadata_error_response(&cx.stamp, error),
            ),
            Ok(()) => {},
        }
        let key = match Self::upload_name(cx, &metadata) {
            Some(key) => key,
            None => return Step::Reply(Self::refuse_nameless(&cx.stamp)),
        };
        let write = BlobWrite {
            data,
            content_type,
            metadata: metadata.metadata,
            expected: own(cx.req.query_param("ifGenerationMatch")),
            rejected: own(cx.req.query_param("ifGenerationNotMatch")),
        };
        Self::store_upload(cx, bucket, &key, &write, tape)
    }

    pub fn create_resumable_session(cx: &Context, bucket: &str, tape: Tape<'_>) -> (r: Step)
        ensures
            r@ == create_resumable_session(cx@, bucket@, tape@),
    {
        match Self::upload_refusal(cx) {
            Some(refusal) => return Step::Reply(refusal),
            None => {},
        }
        if cx.req.header("x-goog-hash").is_some() {
            return Step::Reply(
                Self::upload_metadata_error_response(
                    &cx.stamp,
                    UploadMetadataError::Unsupported(
                        "X-Goog-Hash is supported on the final resumable upload request, not session initiation".to_owned(),
                    ),
                ),
            );
        }
        let metadata = match Self::parse_json_upload_metadata(cx.req.body.as_slice()) {
            Ok(metadata) => metadata,
            Err(error) => return Step::Reply(
                Self::upload_metadata_error_response(&cx.stamp, error),
            ),
        };
        let key = match Self::upload_name(cx, &metadata) {
            Some(key) => key,
            None => return Step::Reply(Self::refuse_nameless(&cx.stamp)),
        };
        let session = UploadSession {
            bucket: bucket.to_owned(),
            key,
            content_type: match metadata.content_type {
                Some(content_type) => content_type,
                None => or_else(
                    cx.req.header("x-upload-content-type"),
                    "application/octet-stream",
                ).to_owned(),
            },
            metadata: metadata.metadata,
            crc32c: metadata.crc32c,
            if_generation_match: own(cx.req.query_param("ifGenerationMatch")),
            if_generation_not_match: own(cx.req.query_param("ifGenerationNotMatch")),
        };
        let id = &cx.stamp.fresh_id;
        let tape = match require::<()>(tape, Effect::SaveUpload(id.clone(), session.copied())) {
            Known::Halt(step) => return step,
            Known::Got(_, tape) => tape,
        };
        match require::<()>(tape, Effect::RememberUpload(id.clone(), session)) {
            Known::Halt(step) => step,
            Known::Got(_, _) => Step::Reply(
                reply(&cx.stamp, 200).header(
                    "location",
                    &cat3(&cx.req.origin, "/upload/resumable/", id),
                ),
            ),
        }
    }

    pub fn take_resumable_session<'a>(id: &str, tape: Tape<'a>) -> (r: Gained<'a, UploadSlot>)
        ensures
            r@ == take_resumable_session(id@, tape@),
    {
        let (taken, tape) = match require::<UploadSlot>(tape, Effect::TakeUpload(id.to_owned())) {
            Known::Halt(step) => return Gained::Halt(step),
            Known::Got(slot, tape) => (slot, tape),
        };
        let (loaded, tape) = match require::<UploadSlot>(tape, Effect::LoadUpload(id.to_owned())) {
            Known::Halt(step) => return Gained::Halt(step),
            Known::Got(slot, tape) => (slot, tape),
        };
        let found = match (&taken.found, &loaded.found) {
            (Some(session), _) => Some(session.copied()),
            (None, Some(session)) => Some(session.copied()),
            (None, None) => None,
        };
        Gained::Got(UploadSlot { found }, tape)
    }

    fn merge(table: &mut Table<String>, more: &Table<String>)
        ensures
            final(table)@ == merged(old(table)@, more@),
    {
        let ghost before = table@;
        let mut i: usize = 0;
        while i < more.entries.len()
            invariant
                i <= more.entries.len(),
                table@ == merged_upto(before, more@, i as int),
            decreases more.entries.len() - i,
        {
            assert(more@[i as int] == more.entries@[i as int]@);
            table.insert(&more.entries[i].0, more.entries[i].1.clone());
            i += 1;
        }
    }

    pub fn complete_resumable_upload(cx: &Context, id: &str, tape: Tape<'_>) -> (r: Step)
        ensures
            r@ == complete_resumable_upload(cx@, id@, tape@),
    {
        if !cx.req.is(Method::Put) {
            return Step::Reply(
                refuse_upload(&cx.stamp, 405, "Resumable upload sessions require PUT."),
            );
        }
        match Self::invalid_json_mutation_headers(&cx.stamp, &cx.req) {
            Some(refusal) => return Step::Reply(refusal),
            None => {},
        }
        match cx.req.header("content-range") {
            Some(range) => if !Self::is_complete_resumable_range(range, cx.req.body.len()) {
                return Step::Reply(
                    refuse_json(
                        &cx.stamp,
                        501,
                        "notImplemented",
                        "Chunked resumable uploads are not supported by this emulator surface",
                    ),
                );
            },
            None => {},
        }
        let header_crc = match Self::request_crc32c(&cx.req) {
            Ok(expected) => expected,
            Err(error) => return Step::Reply(
                Self::upload_metadata_error_response(&cx.stamp, error),
            ),
        };
        let (slot, tape) = match Self::take_resumable_session(id, tape) {
            Gained::Halt(step) => return step,
            Gained::Got(slot, tape) => (slot, tape),
        };
        match slot.found {
            None => Step::Reply(
                refuse_upload(&cx.stamp, 404, "The resumable upload session does not exist."),
            ),
            Some(session) => Self::complete_session(cx, id, session, header_crc, tape),
        }
    }

    fn complete_session(
        cx: &Context,
        id: &str,
        session: UploadSession,
        header_crc: Option<u32>,
        tape: Tape<'_>,
    ) -> (r: Step)
        ensures
            r@ == complete_session(cx@, id@, session@, header_crc, tape@),
    {
        let expected = match Self::combined_crc32c(session.crc32c, header_crc) {
            Ok(expected) => expected,
            Err(error) => return Step::Reply(
                Self::upload_metadata_error_response(&cx.stamp, error),
            ),
        };
        match Self::validate_crc32c(expected, cx.req.body.as_slice()) {
            Err(error) => return Step::Reply(
                Self::upload_metadata_error_response(&cx.stamp, error),
            ),
            Ok(()) => {},
        }
        let (found, tape) = match try_ask::<Bucket>(
            tape,
            Effect::GetBucket(session.bucket.clone()),
        ) {
            Gained::Halt(step) => return step,
            Gained::Got(found, tape) => (found.value, tape),
        };
        if Self::foreign_data_protection_active(found) {
            return Step::Reply(refuse_foreign_json(&cx.stamp));
        }
        Self::store_session(cx, id, session, tape)
    }

    fn store_session(cx: &Context, id: &str, session: UploadSession, tape: Tape<'_>) -> (r: Step)
        ensures
            r@ == store_session(cx@, id@, session@, tape@),
    {
        let (retained, tape) = match Self::existing_object_is_retained(
            &cx.stamp.now,
            &session.bucket,
            &session.key,
            tape,
        ) {
            Gained::Halt(step) => return step,
            Gained::Got(retained, tape) => (retained, tape),
        };
        if retained {
            return Step::Reply(refuse_retained_json(&cx.stamp));
        }
        let mut metadata = session.metadata.copied();
        Self::merge(&mut metadata, &Self::metadata_from_headers(&cx.req));
        let write = BlobWrite {
            data: copy_bytes(cx.req.body.as_slice()),
            content_type: session.content_type,
            metadata,
            expected: session.if_generation_match,
            rejected: session.if_generation_not_match,
        };
        let (written, tape) = match Self::put_blob_with_generation_match(
            &cx.stamp.now,
            &session.bucket,
            &session.key,
            &write,
            tape,
        ) {
            Gained::Halt(step) => return step,
            Gained::Got(written, tape) => (written, tape),
        };
        match written {
            BlobWriteOutcome::Stored(stored) => match require::<()>(
                tape,
                Effect::DropUpload(id.to_owned()),
            ) {
                Known::Halt(step) => step,
                Known::Got(_, _) => Step::Reply(
                    Self::gcs_object_json_response(&cx.stamp, 200, &session.bucket, stored),
                ),
            },
            other => Step::Reply(
                Self::upload_reply(&cx.stamp, &session.bucket, write.rejected.is_some(), other),
            ),
        }
    }

    pub fn handle_resumable_start(cx: &Context, bucket: &str, tape: Tape<'_>) -> (r: Step)
        ensures
            r@ == handle_resumable_start(cx@, bucket@, tape@),
    {
        if !cx.req.is(Method::Post) {
            return Step::Reply(refuse_upload(&cx.stamp, 405, "GCS JSON uploads require POST."));
        }
        match Self::authorize(&cx.stamp, &cx.req, &cx.auth, bucket, None) {
            Err(refusal) => return Step::Reply(refusal),
            Ok(()) => {},
        }
        let tape = match ask::<Bucket>(tape, Effect::GetBucket(bucket.to_owned())) {
            Asked::Halt(step) => return step,
            Asked::Got(Ok(_), tape) => tape,
            Asked::Got(Err(error), _) => return if error.kind == ErrorKind::BucketNotFound {
                Step::Reply(
                    refuse_upload(&cx.stamp, 404, "The specified bucket does not exist."),
                )
            } else {
                Step::Fail(error.message.clone())
            },
        };
        let (found, tape) = match try_ask::<Bucket>(tape, Effect::GetBucket(bucket.to_owned())) {
            Gained::Halt(step) => return step,
            Gained::Got(found, tape) => (found.value, tape),
        };
        if Self::foreign_data_protection_active(found) {
            return Step::Reply(refuse_foreign_json(&cx.stamp));
        }
        match cx.req.query_param("uploadType") {
            None => Step::Reply(
                refuse_upload(&cx.stamp, 400, "Required parameter: uploadType"),
            ),
            Some(kind) => if same(kind, "media") {
                Self::handle_media_upload(cx, bucket, tape)
            } else if same(kind, "multipart") {
                Self::handle_multipart_upload(cx, bucket, tape)
            } else if same(kind, "resumable") {
                Self::create_resumable_session(cx, bucket, tape)
            } else {
                Step::Reply(
                    refuse_upload(&cx.stamp, 400, &cat("Unsupported uploadType: ", kind)),
                )
            },
        }
    }

    pub fn handle_resumable(cx: &Context, tape: Tape<'_>) -> (r: Step)
        ensures
            r@ == handle_resumable(cx@, tape@),
    {
        let parts = segments_of(&cx.req.path);
        proof {
            assert forall|i: int| 0 <= i < parts@.len() implies segments(cx@.req.path)[i]
                == #[trigger] parts@[i]@ by {}
        }
        if parts.len() >= 6 && same(parts[0], "upload") && same(parts[1], "storage") && same(
            parts[2],
            "v1",
        ) && same(parts[3], "b") {
            return Self::handle_resumable_start(cx, parts[4], tape);
        }
        if parts.len() == 3 && same(parts[0], "upload") && same(parts[1], "resumable") {
            return Self::complete_resumable_upload(cx, parts[2], tape);
        }
        Step::Reply(refuse(&cx.stamp, 400, "InvalidURI", "Unsupported resumable upload path"))
    }
}

} // verus!
