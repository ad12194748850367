//! Blobs: reading, writing, leasing, protecting and deleting them.

use vstd::prelude::*;
use vstd::string::*;
use crate::azure::AzureBlobAdapter;
use crate::azure::basics::{
    azure_versioning_enabled, blob_not_found, blob_response, blob_type, condition_failed,
    conditions_match, container_not_found, ensure_lease_allows, ensure_mutation_allowed,
    ensure_version_creating_overwrite_allowed, error_response, has_active_lease, history_visible,
    is_immutability_comp, lease_id, metadata_from_headers, quote, quoted, range_of, refuse,
    refuse_blob, refuse_condition, refuse_container, reply, requested_range, response,
    retention_until, snapshot_prefix, snapshot_storage_key, unsupported_selected_mutation,
    with_lease_of, with_lease_state, write_condition, write_range_of, AZURE_IMMUTABILITY_MODE_KEY,
    AZURE_IMMUTABILITY_UNTIL_KEY, AZURE_LEASE_DURATION_KEY, AZURE_LEASE_ID_KEY,
    AZURE_LEASE_STATE_KEY, AZURE_LEASE_STATUS_KEY, AZURE_LEGAL_HOLD_KEY, AZURE_SNAPSHOT_SOURCE_KEY,
    AZURE_SNAPSHOT_TIME_KEY,
};
use crate::azure::blocks::{
    get_block_list, put_block, put_block_list, written_reply, written_response,
};
use crate::azure::containers::object_keys;
use crate::azure::rules::{
    blob_for_type, page_range_error, validate_blob_create_request, validate_page_write,
};
use crate::clock::{
    format_last_modified_at, format_micros, http_date, instant, micros_date, read_rfc2822,
    rfc2822_moment, Instant, Stamp, StampView,
};
use crate::codec::{compute_etag, content_etag};
use crate::http::{Context, ContextView, Method, Request, RequestView, Response, ResponseView};
use crate::number::{decimal, show, show_usize};
use crate::order::Names;
use crate::store::{
    ask, asked, known, perhaps, require, try_ask, Asked, AskedView, Bucket, BucketView,
    ConditionView, Effect, EffectView, ErrorKind, Gained, Known, KnownView, Object, ObjectCondition,
    ObjectView, Page, Payload, Perhaps, Step, StepView, Tape, TapeView,
};
use crate::table::{get, get_text, with, without, Copied};
use crate::text::{copy_bytes, equals, lend, or_else, or_text, own, same};
use crate::views::{seen, settled, Text};

verus! {

// ---------------------------------------------------------------------------
// Looking blobs up

/// An object that has to be there; where it is not, the request is refused as for a blob
/// that does not exist.
pub open spec fn existing(stamp: StampView, effect: EffectView, message: Text, tape: TapeView)
    -> KnownView<ObjectView> {
    match asked::<Object>(tape, effect) {
        AskedView::Halt(step) => KnownView::Halt(step),
        AskedView::Got(Ok(object), tape) => KnownView::Got(object, tape),
        AskedView::Got(Err(error), _) => KnownView::Halt(
            if error.no_version() {
                StepView::Reply(error_response(stamp, 404, "BlobNotFound"@, message))
            } else {
                StepView::Fail(error.message)
            },
        ),
    }
}

/// The current blob of a name.
pub open spec fn current_blob(stamp: StampView, container: Text, key: Text, tape: TapeView)
    -> KnownView<ObjectView> {
    match asked::<Object>(tape, EffectView::GetObject(container, key)) {
        AskedView::Halt(step) => KnownView::Halt(step),
        AskedView::Got(Ok(object), tape) => KnownView::Got(object, tape),
        AskedView::Got(Err(error), _) => KnownView::Halt(
            if error.no_object() {
                StepView::Reply(blob_not_found(stamp))
            } else {
                StepView::Fail(error.message)
            },
        ),
    }
}

/// What to ask for a blob, a snapshot or a version of it.
pub open spec fn lookup(
    container: Text,
    key: Text,
    snapshot: Option<Text>,
    version: Option<Text>,
) -> EffectView {
    match version {
        Some(version) => EffectView::GetVersion(container, key, version),
        None => EffectView::GetObject(
            container,
            match snapshot {
                Some(snapshot) => snapshot_storage_key(key, snapshot),
                None => key,
            },
        ),
    }
}

/// A bucket, where storage knows it.
pub open spec fn bucket_if_known(container: Text, tape: TapeView) -> KnownView<Option<BucketView>> {
    perhaps::<Bucket>(tape, EffectView::GetBucket(container))
}

/// Whether a blob is the current version of its name; none where it has no version.
pub open spec fn is_current_version(
    container: Text,
    key: Text,
    selected: ObjectView,
    tape: TapeView,
) -> KnownView<Option<bool>> {
    match selected.version_id {
        None => KnownView::Got(None, tape),
        Some(id) => match asked::<Object>(tape, EffectView::GetObject(container, key)) {
            AskedView::Halt(step) => KnownView::Halt(step),
            AskedView::Got(Ok(current), tape) => KnownView::Got(
                Some(current.version_id == Some(id)),
                tape,
            ),
            AskedView::Got(Err(_), tape) => KnownView::Got(Some(false), tape),
        },
    }
}

/// Whether versions are shown, and if so whether a blob is the current one.
pub open spec fn version_marks(container: Text, key: Text, selected: ObjectView, tape: TapeView)
    -> KnownView<(bool, Option<bool>)> {
    match bucket_if_known(container, tape) {
        KnownView::Halt(step) => KnownView::Halt(step),
        KnownView::Got(bucket, tape) => if history_visible(bucket) {
            match is_current_version(container, key, selected, tape) {
                KnownView::Halt(step) => KnownView::Halt(step),
                KnownView::Got(current, tape) => KnownView::Got((true, current), tape),
            }
        } else {
            KnownView::Got((false, None), tape)
        },
    }
}

// ---------------------------------------------------------------------------
// Metadata that is replaced in place

/// Replaces an object's metadata unless the object has changed meanwhile.
pub open spec fn replace_blob_metadata(
    stamp: StampView,
    container: Text,
    key: Text,
    observed: ObjectView,
    updated: ObjectView,
    done: ResponseView,
    tape: TapeView,
) -> StepView {
    match known::<bool>(tape, EffectView::ReplaceMetadata(container, key, observed, updated)) {
        KnownView::Halt(step) => step,
        KnownView::Got(true, _) => StepView::Reply(done),
        KnownView::Got(false, _) => StepView::Reply(condition_failed(stamp)),
    }
}

/// Serves a request about the lease of a blob.
pub open spec fn handle_lease(cx: ContextView, container: Text, key: Text, tape: TapeView)
    -> StepView {
    match current_blob(cx.stamp, container, key, tape) {
        KnownView::Halt(step) => step,
        KnownView::Got(blob, tape) => if !conditions_match(cx.req, blob.etag) {
            StepView::Reply(condition_failed(cx.stamp))
        } else {
            let action = or_text(cx.req.header("x-ms-lease-action"@), ""@);
            if action == "acquire"@ {
                acquire_lease(cx, container, key, blob, tape)
            } else if action == "renew"@ {
                match ensure_lease_allows(cx.stamp, cx.req, blob) {
                    Err(refusal) => StepView::Reply(refusal),
                    Ok(_) => replace_blob_metadata(
                        cx.stamp,
                        container,
                        key,
                        blob,
                        blob,
                        response(cx.stamp, 200).header(
                            "x-ms-lease-id"@,
                            or_text(lease_id(blob), ""@),
                        ),
                        tape,
                    ),
                }
            } else if action == "release"@ {
                match ensure_lease_allows(cx.stamp, cx.req, blob) {
                    Err(refusal) => StepView::Reply(refusal),
                    Ok(_) => replace_blob_metadata(
                        cx.stamp,
                        container,
                        key,
                        blob,
                        with_lease_state(blob, None, "available"@, "unlocked"@, None),
                        response(cx.stamp, 200),
                        tape,
                    ),
                }
            } else if action == "break"@ {
                if !has_active_lease(blob) {
                    StepView::Reply(
                        error_response(
                            cx.stamp,
                            409,
                            "LeaseNotPresentWithBlobOperation"@,
                            "There is currently no lease on the blob."@,
                        ),
                    )
                } else {
                    replace_blob_metadata(
                        cx.stamp,
                        container,
                        key,
                        blob,
                        with_lease_state(blob, None, "broken"@, "unlocked"@, None),
                        response(cx.stamp, 202).header("x-ms-lease-time"@, "0"@),
                        tape,
                    )
                }
            } else {
                StepView::Reply(
                    error_response(
                        cx.stamp,
                        400,
                        "InvalidHeaderValue"@,
                        "Unsupported Azure lease action."@,
                    ),
                )
            }
        },
    }
}

/// Leases a blob that is not leased.
pub open spec fn acquire_lease(
    cx: ContextView,
    container: Text,
    key: Text,
    blob: ObjectView,
    tape: TapeView,
) -> StepView {
    if has_active_lease(blob) {
        StepView::Reply(
            error_response(
                cx.stamp,
                409,
                "LeaseAlreadyPresent"@,
                "The blob already has an active lease."@,
            ),
        )
    } else {
        let id = or_text(cx.req.header("x-ms-proposed-lease-id"@), cx.stamp.fresh_id);
        let duration = if or_text(cx.req.header("x-ms-lease-duration"@), "-1"@) == "-1"@ {
            "infinite"@
        } else {
            "fixed"@
        };
        replace_blob_metadata(
            cx.stamp,
            container,
            key,
            blob,
            with_lease_state(blob, Some(id), "leased"@, "locked"@, Some(duration)),
            response(cx.stamp, 201).header("x-ms-lease-id"@, id),
            tape,
        )
    }
}

/// A blob as it is kept in a snapshot.
pub open spec fn snapshot_of(cx: ContextView, key: Text, blob: ObjectView) -> ObjectView {
    let time = micros_date(cx.stamp.now.secs, cx.stamp.now.nanos);
    let a = without(blob.provider_metadata, AZURE_LEASE_ID_KEY@);
    let b = without(a, AZURE_LEASE_STATE_KEY@);
    let c = without(b, AZURE_LEASE_STATUS_KEY@);
    let d = without(c, AZURE_LEASE_DURATION_KEY@);
    let e = with(d, AZURE_SNAPSHOT_TIME_KEY@, time);
    let kept = ObjectView {
        key: snapshot_storage_key(key, time),
        provider_metadata: with(e, AZURE_SNAPSHOT_SOURCE_KEY@, key),
        ..blob
    };
    let metadata = metadata_from_headers(cx.req);
    if metadata.len() > 0 {
        ObjectView {
            metadata,
            last_modified: cx.stamp.now,
            etag: cx.stamp.fresh_tag,
            ..kept
        }
    } else {
        kept
    }
}

/// Takes a snapshot of a blob.
pub open spec fn create_snapshot(cx: ContextView, container: Text, key: Text, tape: TapeView)
    -> StepView {
    match current_blob(cx.stamp, container, key, tape) {
        KnownView::Halt(step) => step,
        KnownView::Got(blob, tape) => match ensure_lease_allows(cx.stamp, cx.req, blob) {
            Err(refusal) => StepView::Reply(refusal),
            Ok(_) => if !conditions_match(cx.req, blob.etag) {
                StepView::Reply(condition_failed(cx.stamp))
            } else {
                let snapshot = snapshot_of(cx, key, blob);
                match known::<()>(
                    tape,
                    EffectView::PutObject(container, snapshot.key, snapshot),
                ) {
                    KnownView::Halt(step) => step,
                    KnownView::Got(_, _) => StepView::Reply(
                        response(cx.stamp, 201).header(
                            "x-ms-snapshot"@,
                            micros_date(cx.stamp.now.secs, cx.stamp.now.nanos),
                        ).header("etag"@, quoted(snapshot.etag)).header(
                            "last-modified"@,
                            http_date(snapshot.last_modified.secs, snapshot.last_modified.nanos),
                        ),
                    ),
                }
            },
        },
    }
}

/// The policy that a request asks for, given the moment that was read from its date: until
/// when, that moment, and the mode.
pub open spec fn policy_verdict(stamp: StampView, req: RequestView, at: Option<Instant>) -> Result<
    (Text, Instant, Text),
    ResponseView,
> {
    let mode = or_text(req.header("x-ms-immutability-policy-mode"@), "Unlocked"@);
    match req.header("x-ms-immutability-policy-until-date"@) {
        None => Err(
            error_response(
                stamp,
                400,
                "MissingRequiredHeader"@,
                "The x-ms-immutability-policy-until-date header is required."@,
            ),
        ),
        Some(until) => match at {
            Some(at) if at.later_than(stamp.now) => if mode != "Unlocked"@ && mode != "Locked"@ {
                Err(
                    error_response(
                        stamp,
                        400,
                        "InvalidHeaderValue"@,
                        "The x-ms-immutability-policy-mode header must be Unlocked or Locked."@,
                    ),
                )
            } else {
                Ok((until, at, mode))
            },
            _ => Err(
                error_response(
                    stamp,
                    400,
                    "InvalidHeaderValue"@,
                    "The x-ms-immutability-policy-until-date header must be a future RFC 1123 date."@,
                ),
            ),
        },
    }
}

/// The policy that a request asks for.
pub open spec fn requested_policy(stamp: StampView, req: RequestView) -> Result<
    (Text, Instant, Text),
    ResponseView,
> {
    policy_verdict(
        stamp,
        req,
        match req.header("x-ms-immutability-policy-until-date"@) {
            Some(until) => instant(rfc2822_moment(until)),
            None => None,
        },
    )
}

/// Whether a policy is locked.
pub open spec fn policy_locked(blob: ObjectView) -> bool {
    get(blob.provider_metadata, AZURE_IMMUTABILITY_MODE_KEY@) == Some("Locked"@)
}

/// Whether a policy would unlock or shorten a locked one, given the moment that was read from
/// that.
pub open spec fn weakens_lock(
    blob: ObjectView,
    existing: Option<Instant>,
    until: Instant,
    mode: Text,
) -> bool {
    policy_locked(blob) && (mode != "Locked"@ || match existing {
        Some(existing) => existing.later_than(until),
        None => true,
    })
}

/// Puts a blob under an immutability policy.
pub open spec fn put_immutability_policy(cx: ContextView, container: Text, key: Text, tape: TapeView)
    -> StepView {
    match requested_policy(cx.stamp, cx.req) {
        Err(refusal) => StepView::Reply(refusal),
        Ok((until, at, mode)) => match current_blob(cx.stamp, container, key, tape) {
            KnownView::Halt(step) => step,
            KnownView::Got(blob, tape) => if !conditions_match(cx.req, blob.etag) {
                StepView::Reply(condition_failed(cx.stamp))
            } else if weakens_lock(blob, retention_until(blob), at, mode) {
                StepView::Reply(
                    error_response(
                        cx.stamp,
                        409,
                        "BlobImmutableDueToPolicy"@,
                        "A locked immutability policy cannot be unlocked or shortened."@,
                    ),
                )
            } else {
                let a = with(blob.provider_metadata, AZURE_IMMUTABILITY_UNTIL_KEY@, until);
                replace_blob_metadata(
                    cx.stamp,
                    container,
                    key,
                    blob,
                    (ObjectView {
                        provider_metadata: with(a, AZURE_IMMUTABILITY_MODE_KEY@, mode),
                        ..blob
                    }),
                    response(cx.stamp, 200).header(
                        "x-ms-immutability-policy-until-date"@,
                        until,
                    ).header("x-ms-immutability-policy-mode"@, mode),
                    tape,
                )
            },
        },
    }
}

/// Takes the immutability policy off a blob, unless it is locked.
pub open spec fn delete_immutability_policy(
    cx: ContextView,
    container: Text,
    key: Text,
    tape: TapeView,
) -> StepView {
    match current_blob(cx.stamp, container, key, tape) {
        KnownView::Halt(step) => step,
        KnownView::Got(blob, tape) => if !conditions_match(cx.req, blob.etag) {
            StepView::Reply(condition_failed(cx.stamp))
        } else if policy_locked(blob) {
            StepView::Reply(
                error_response(
                    cx.stamp,
                    409,
                    "BlobImmutableDueToPolicy"@,
                    "A locked immutability policy cannot be deleted."@,
                ),
            )
        } else {
            let a = without(blob.provider_metadata, AZURE_IMMUTABILITY_UNTIL_KEY@);
            replace_blob_metadata(
                cx.stamp,
                container,
                key,
                blob,
                (ObjectView {
                    provider_metadata: without(a, AZURE_IMMUTABILITY_MODE_KEY@),
                    ..blob
                }),
                response(cx.stamp, 200),
                tape,
            )
        },
    }
}

/// Puts a blob under a legal hold, or takes it off.
pub open spec fn put_legal_hold(cx: ContextView, container: Text, key: Text, tape: TapeView)
    -> StepView {
    match cx.req.header("x-ms-legal-hold"@) {
        None => StepView::Reply(
            error_response(
                cx.stamp,
                400,
                "MissingRequiredHeader"@,
                "The x-ms-legal-hold header is required."@,
            ),
        ),
        Some(hold) => if hold != "true"@ && hold != "false"@ {
            StepView::Reply(
                error_response(
                    cx.stamp,
                    400,
                    "InvalidHeaderValue"@,
                    "The x-ms-legal-hold header must be true or false."@,
                ),
            )
        } else {
            match current_blob(cx.stamp, container, key, tape) {
                KnownView::Halt(step) => step,
                KnownView::Got(blob, tape) => if !conditions_match(cx.req, blob.etag) {
                    StepView::Reply(condition_failed(cx.stamp))
                } else {
                    replace_blob_metadata(
                        cx.stamp,
                        container,
                        key,
                        blob,
                        (ObjectView {
                            provider_metadata: with(
                                blob.provider_metadata,
                                AZURE_LEGAL_HOLD_KEY@,
                                hold,
                            ),
                            ..blob
                        }),
                        response(cx.stamp, 200).header("x-ms-legal-hold"@, hold),
                        tape,
                    )
                },
            }
        },
    }
}

// ---------------------------------------------------------------------------
// Writing

/// Writes an object where the one in place still has a tag, and then reads it.
pub open spec fn rewrite_blob(
    stamp: StampView,
    container: Text,
    key: Text,
    updated: ObjectView,
    etag: Text,
    tape: TapeView,
) -> KnownView<ObjectView> {
    match known::<bool>(
        tape,
        EffectView::PutObjectIf(container, key, updated, ConditionView::Etag(etag)),
    ) {
        KnownView::Halt(step) => KnownView::Halt(step),
        KnownView::Got(false, _) => KnownView::Halt(StepView::Reply(condition_failed(stamp))),
        KnownView::Got(true, tape) => known::<Object>(tape, EffectView::GetObject(container, key)),
    }
}

/// The current blob, once it is sure that a request may change it.
pub open spec fn changeable_blob(cx: ContextView, container: Text, key: Text, tape: TapeView)
    -> KnownView<ObjectView> {
    match current_blob(cx.stamp, container, key, tape) {
        KnownView::Halt(step) => KnownView::Halt(step),
        KnownView::Got(blob, tape) => match ensure_mutation_allowed(cx.stamp, cx.req, blob) {
            Err(refusal) => KnownView::Halt(StepView::Reply(refusal)),
            Ok(_) => if conditions_match(cx.req, blob.etag) {
                KnownView::Got(blob, tape)
            } else {
                KnownView::Halt(StepView::Reply(condition_failed(cx.stamp)))
            },
        },
    }
}

/// Replaces the metadata of a blob, which gives it a new tag.
pub open spec fn update_metadata(cx: ContextView, container: Text, key: Text, tape: TapeView)
    -> StepView {
    match changeable_blob(cx, container, key, tape) {
        KnownView::Halt(step) => step,
        KnownView::Got(blob, tape) => match rewrite_blob(
            cx.stamp,
            container,
            key,
            (ObjectView {
                metadata: metadata_from_headers(cx.req),
                etag: cx.stamp.fresh_tag,
                last_modified: cx.stamp.now,
                ..blob
            }),
            blob.etag,
            tape,
        ) {
            KnownView::Halt(step) => step,
            KnownView::Got(stored, _) => StepView::Reply(written_response(cx.stamp, 200, stored)),
        },
    }
}

pub open spec fn wrong_blob_type(stamp: StampView) -> ResponseView {
    error_response(
        stamp,
        409,
        "InvalidBlobType"@,
        "The blob type is invalid for this operation."@,
    )
}

/// Appends the body to an append blob.
pub open spec fn append_block(cx: ContextView, container: Text, key: Text, tape: TapeView)
    -> StepView {
    match changeable_blob(cx, container, key, tape) {
        KnownView::Halt(step) => step,
        KnownView::Got(blob, tape) => if blob_type(blob) != "AppendBlob"@ {
            StepView::Reply(wrong_blob_type(cx.stamp))
        } else {
            let data = blob.data + cx.req.body;
            match rewrite_blob(
                cx.stamp,
                container,
                key,
                (ObjectView {
                    data,
                    size: data.len() as u64,
                    etag: content_etag(data),
                    last_modified: cx.stamp.now,
                    ..blob
                }),
                blob.etag,
                tape,
            ) {
                KnownView::Halt(step) => step,
                KnownView::Got(stored, _) => if stored.size < cx.req.body.len() {
                    StepView::Fail("The stored append blob is shorter than the appended block"@)
                } else {
                    StepView::Reply(
                        response(cx.stamp, 201).header("etag"@, quoted(stored.etag)).header(
                            "x-ms-blob-append-offset"@,
                            decimal(stored.size - cx.req.body.len()),
                        ).header("x-ms-blob-committed-block-count"@, "1"@),
                    )
                },
            }
        },
    }
}

/// A content whose bytes from one place to another, both included, are cleared or replaced.
pub open spec fn with_pages(data: Seq<u8>, start: int, end: int, clear: bool, body: Seq<u8>) -> Seq<
    u8,
> {
    Seq::new(
        data.len(),
        |i: int|
            if start <= i <= end {
                if clear {
                    0u8
                } else {
                    body[i - start]
                }
            } else {
                data[i]
            },
    )
}

/// Writes or clears pages of a page blob.
pub open spec fn put_page(cx: ContextView, container: Text, key: Text, tape: TapeView) -> StepView {
    let mode = cx.req.header("x-ms-page-write"@);
    if mode is None {
        StepView::Reply(
            error_response(
                cx.stamp,
                400,
                "MissingRequiredHeader"@,
                "The x-ms-page-write header is required."@,
            ),
        )
    } else if mode != Some("update"@) && mode != Some("clear"@) {
        StepView::Reply(
            error_response(
                cx.stamp,
                400,
                "InvalidHeaderValue"@,
                "The x-ms-page-write header must be update or clear."@,
            ),
        )
    } else {
        let clear = mode == Some("clear"@);
        match requested_range(cx.req) {
            None => StepView::Reply(page_range_error(cx.stamp)),
            Some(range) => match write_range_of(range) {
                None => StepView::Reply(page_range_error(cx.stamp)),
                Some((start, end)) => if start % 512 != 0 || (end + 1) % 512 != 0 {
                    StepView::Reply(
                        error_response(
                            cx.stamp,
                            400,
                            "InvalidPageRange"@,
                            "Page blob ranges must align to 512-byte boundaries."@,
                        ),
                    )
                } else {
                    write_pages(cx, container, key, start, end, clear, tape)
                },
            },
        }
    }
}

/// Writes or clears the pages from one place to another.
pub open spec fn write_pages(
    cx: ContextView,
    container: Text,
    key: Text,
    start: int,
    end: int,
    clear: bool,
    tape: TapeView,
) -> StepView {
    match changeable_blob(cx, container, key, tape) {
        KnownView::Halt(step) => step,
        KnownView::Got(blob, tape) => if blob_type(blob) != "PageBlob"@ {
            StepView::Reply(wrong_blob_type(cx.stamp))
        } else {
            match validate_page_write(cx.stamp, cx.req, blob, start, end, clear) {
                Some(refusal) => StepView::Reply(refusal),
                None => {
                    let data = with_pages(blob.data, start, end, clear, cx.req.body);
                    match rewrite_blob(
                        cx.stamp,
                        container,
                        key,
                        (ObjectView {
                            data,
                            etag: content_etag(data),
                            last_modified: cx.stamp.now,
                            ..blob
                        }),
                        blob.etag,
                        tape,
                    ) {
                        KnownView::Halt(step) => step,
                        KnownView::Got(stored, _) => StepView::Reply(
                            written_response(cx.stamp, 201, stored).header(
                                "x-ms-blob-sequence-number"@,
                                "0"@,
                            ),
                        ),
                    }
                },
            }
        },
    }
}

/// Creates a blob, or replaces the one in place.
pub open spec fn put_blob(
    cx: ContextView,
    container: Text,
    key: Text,
    snapshot: Option<Text>,
    tape: TapeView,
) -> StepView {
    if snapshot is Some {
        StepView::Reply(
            error_response(
                cx.stamp,
                400,
                "InvalidQueryParameterValue"@,
                "Snapshots are read-only."@,
            ),
        )
    } else {
        match asked::<Object>(tape, EffectView::GetObject(container, key)) {
            AskedView::Halt(step) => step,
            AskedView::Got(Ok(existing), tape) => match known::<Bucket>(
                tape,
                EffectView::GetBucket(container),
            ) {
                KnownView::Halt(step) => step,
                KnownView::Got(bucket, tape) => match ensure_version_creating_overwrite_allowed(
                    cx.stamp,
                    cx.req,
                    existing,
                    azure_versioning_enabled(bucket),
                ) {
                    Err(refusal) => StepView::Reply(refusal),
                    Ok(_) => write_blob(cx, container, key, Some(existing), tape),
                },
            },
            AskedView::Got(Err(error), tape) => if error.kind == ErrorKind::KeyNotFound {
                if cx.req.header("if-match"@) is Some {
                    StepView::Reply(condition_failed(cx.stamp))
                } else {
                    write_blob(cx, container, key, None, tape)
                }
            } else if error.kind == ErrorKind::BucketNotFound {
                StepView::Reply(container_not_found(cx.stamp))
            } else {
                StepView::Fail(error.message)
            },
        }
    }
}

/// The blob that a request creates in place of another, if any.
pub open spec fn created_blob(cx: ContextView, key: Text, existing: Option<ObjectView>)
    -> ObjectView {
    let object = blob_for_type(cx.stamp, cx.req, key);
    match existing {
        Some(existing) => with_lease_of(existing, object),
        None => object,
    }
}

/// Writes a blob that may be written.
pub open spec fn write_blob(
    cx: ContextView,
    container: Text,
    key: Text,
    existing: Option<ObjectView>,
    tape: TapeView,
) -> StepView {
    match validate_blob_create_request(cx.stamp, cx.req) {
        Some(refusal) => StepView::Reply(refusal),
        None => match write_condition(cx.stamp, cx.req) {
            Err(refusal) => StepView::Reply(refusal),
            Ok(Some(condition)) => match known::<bool>(
                tape,
                EffectView::PutObjectIf(
                    container,
                    key,
                    created_blob(cx, key, existing),
                    condition,
                ),
            ) {
                KnownView::Halt(step) => step,
                KnownView::Got(false, _) => StepView::Reply(condition_failed(cx.stamp)),
                KnownView::Got(true, tape) => blob_written(cx.stamp, container, key, tape),
            },
            Ok(None) => match known::<()>(
                tape,
                EffectView::PutObject(container, key, created_blob(cx, key, existing)),
            ) {
                KnownView::Halt(step) => step,
                KnownView::Got(_, tape) => blob_written(cx.stamp, container, key, tape),
            },
        },
    }
}

/// Describes a blob that was just written.
pub open spec fn blob_written(stamp: StampView, container: Text, key: Text, tape: TapeView)
    -> StepView {
    match known::<Object>(tape, EffectView::GetObject(container, key)) {
        KnownView::Halt(step) => step,
        KnownView::Got(stored, _) => StepView::Reply(
            written_response(stamp, 201, stored).header(
                "x-ms-blob-type"@,
                blob_type(stored),
            ).maybe_header("x-ms-version-id"@, stored.version_id),
        ),
    }
}

// ---------------------------------------------------------------------------
// Reading

pub open spec fn too_large() -> StepView {
    StepView::Fail("Azure blob is too large for this platform"@)
}

/// Reads a blob, or part of it.
pub open spec fn get_blob(
    cx: ContextView,
    container: Text,
    key: Text,
    snapshot: Option<Text>,
    tape: TapeView,
) -> StepView {
    let version = cx.req.param("versionid"@);
    match existing(
        cx.stamp,
        lookup(container, key, snapshot, version),
        "The specified blob does not exist."@,
        tape,
    ) {
        KnownView::Halt(step) => step,
        KnownView::Got(blob, tape) => match requested_range(cx.req) {
            Some(range) => get_blob_range(
                cx,
                container,
                key,
                snapshot is Some || version is Some,
                blob,
                range,
                tape,
            ),
            None => if blob.size > usize::MAX {
                too_large()
            } else {
                match version_marks(container, key, blob, tape) {
                    KnownView::Halt(step) => step,
                    KnownView::Got((shown, current), _) => StepView::Reply(
                        blob_response(
                            cx.stamp,
                            200,
                            blob,
                            blob.size as int,
                            None,
                            current,
                            shown,
                        ).bytes(blob.data),
                    ),
                }
            },
        },
    }
}

pub open spec fn content_range(start: int, end: int, size: int) -> Text {
    "bytes "@ + decimal(start) + "-"@ + decimal(end) + "/"@ + decimal(size)
}

/// Reads part of a blob: from the blob itself where it is a snapshot or a version, from
/// storage otherwise.
pub open spec fn get_blob_range(
    cx: ContextView,
    container: Text,
    key: Text,
    selected: bool,
    blob: ObjectView,
    range: Text,
    tape: TapeView,
) -> StepView {
    match range_of(range, blob.size as int) {
        Some((start, end)) if end <= usize::MAX => if selected {
            if end >= blob.data.len() {
                StepView::Fail("The stored blob is shorter than its size"@)
            } else {
                ranged_reply(
                    cx,
                    container,
                    key,
                    blob,
                    blob,
                    blob.data.subrange(start, end + 1),
                    content_range(start, end, blob.size as int),
                    tape,
                )
            }
        } else {
            match known::<Payload>(
                tape,
                EffectView::GetRange(container, key, start as u64, end as u64),
            ) {
                KnownView::Halt(step) => step,
                KnownView::Got(payload, tape) => ranged_reply(
                    cx,
                    container,
                    key,
                    blob,
                    payload.object,
                    payload.data,
                    content_range(start, end, blob.size as int),
                    tape,
                ),
            }
        },
        _ => StepView::Reply(
            error_response(
                cx.stamp,
                416,
                "InvalidRange"@,
                "The requested range is not satisfiable."@,
            ),
        ),
    }
}

/// The reply with part of a blob.
pub open spec fn ranged_reply(
    cx: ContextView,
    container: Text,
    key: Text,
    blob: ObjectView,
    described: ObjectView,
    data: Seq<u8>,
    range: Text,
    tape: TapeView,
) -> StepView {
    match version_marks(container, key, blob, tape) {
        KnownView::Halt(step) => step,
        KnownView::Got((_, current), tape) => match bucket_if_known(container, tape) {
            KnownView::Halt(step) => step,
            KnownView::Got(bucket, _) => StepView::Reply(
                blob_response(
                    cx.stamp,
                    206,
                    described,
                    data.len() as int,
                    Some(range),
                    current,
                    history_visible(bucket),
                ).bytes(data),
            ),
        },
    }
}

/// Describes a blob without its content.
pub open spec fn head_blob(
    cx: ContextView,
    container: Text,
    key: Text,
    snapshot: Option<Text>,
    tape: TapeView,
) -> StepView {
    match asked::<Object>(
        tape,
        lookup(container, key, snapshot, cx.req.param("versionid"@)),
    ) {
        AskedView::Halt(step) => step,
        AskedView::Got(Err(error), _) => if error.no_version() {
            StepView::Reply(response(cx.stamp, 404).header("x-ms-error-code"@, "BlobNotFound"@))
        } else {
            StepView::Fail(error.message)
        },
        AskedView::Got(Ok(blob), tape) => if blob.size > usize::MAX {
            too_large()
        } else {
            match version_marks(container, key, blob, tape) {
                KnownView::Halt(step) => step,
                KnownView::Got((shown, current), _) => StepView::Reply(
                    blob_response(cx.stamp, 200, blob, blob.size as int, None, current, shown),
                ),
            }
        },
    }
}

// ---------------------------------------------------------------------------
// Deleting

/// The keys of the snapshots of a blob, page by page.
pub open spec fn snapshot_keys(
    container: Text,
    prefix: Text,
    marker: Option<Text>,
    so_far: Seq<Text>,
    tape: TapeView,
) -> KnownView<Seq<Text>>
    decreases tape.len(),
{
    match known::<Page>(
        tape,
        EffectView::ListObjects(container, Some(prefix), None, marker, 1000),
    ) {
        KnownView::Halt(step) => KnownView::Halt(step),
        KnownView::Got(page, rest) => {
            let keys = so_far + object_keys(page.objects);
            match page.next_marker {
                None => KnownView::Got(keys, rest),
                Some(next) => snapshot_keys(container, prefix, Some(next), keys, rest),
            }
        },
    }
}

/// Deletes the snapshots from place `i` on.
pub open spec fn delete_snapshots(container: Text, keys: Seq<Text>, i: int, tape: TapeView)
    -> KnownView<()>
    decreases keys.len() - i,
{
    if i >= keys.len() {
        KnownView::Got((), tape)
    } else {
        match known::<()>(tape, EffectView::DeleteObject(container, keys[i])) {
            KnownView::Halt(step) => KnownView::Halt(step),
            KnownView::Got(_, tape) => delete_snapshots(container, keys, i + 1, tape),
        }
    }
}

/// Deletes snapshots, and is done.
pub open spec fn finish_delete(stamp: StampView, container: Text, keys: Seq<Text>, tape: TapeView)
    -> StepView {
    match delete_snapshots(container, keys, 0, tape) {
        KnownView::Halt(step) => step,
        KnownView::Got(_, _) => StepView::Reply(response(stamp, 202)),
    }
}

pub open spec fn no_such_version(stamp: StampView) -> ResponseView {
    error_response(stamp, 404, "BlobNotFound"@, "The specified blob version does not exist."@)
}

/// Deletes one version of a blob.
pub open spec fn delete_version(
    cx: ContextView,
    container: Text,
    key: Text,
    version: Text,
    tape: TapeView,
) -> StepView {
    match existing(
        cx.stamp,
        EffectView::GetVersion(container, key, version),
        "The specified blob version does not exist."@,
        tape,
    ) {
        KnownView::Halt(step) => step,
        KnownView::Got(blob, tape) => match ensure_mutation_allowed(cx.stamp, cx.req, blob) {
            Err(refusal) => StepView::Reply(refusal),
            Ok(_) => if !conditions_match(cx.req, blob.etag) {
                StepView::Reply(condition_failed(cx.stamp))
            } else {
                match asked::<()>(tape, EffectView::DeleteVersion(container, key, version)) {
                    AskedView::Halt(step) => step,
                    AskedView::Got(Ok(_), _) => StepView::Reply(response(cx.stamp, 202)),
                    AskedView::Got(Err(error), _) => if error.kind == ErrorKind::NoSuchVersion {
                        StepView::Reply(no_such_version(cx.stamp))
                    } else {
                        StepView::Fail(error.message)
                    },
                }
            },
        },
    }
}

/// Deletes one snapshot of a blob.
pub open spec fn delete_snapshot(
    cx: ContextView,
    container: Text,
    key: Text,
    snapshot: Text,
    tape: TapeView,
) -> StepView {
    let stored = snapshot_storage_key(key, snapshot);
    match asked::<Object>(tape, EffectView::GetObject(container, stored)) {
        AskedView::Halt(step) => step,
        AskedView::Got(Err(error), _) => if error.no_object() {
            StepView::Reply(
                error_response(
                    cx.stamp,
                    404,
                    "BlobNotFound"@,
                    "The specified blob snapshot does not exist."@,
                ),
            )
        } else {
            StepView::Fail(error.message)
        },
        AskedView::Got(Ok(blob), tape) => match ensure_mutation_allowed(cx.stamp, cx.req, blob) {
            Err(refusal) => StepView::Reply(refusal),
            Ok(_) => if !conditions_match(cx.req, blob.etag) {
                StepView::Reply(condition_failed(cx.stamp))
            } else {
                match known::<bool>(
                    tape,
                    EffectView::DeleteObjectIf(
                        container,
                        stored,
                        ConditionView::Etag(blob.etag),
                    ),
                ) {
                    KnownView::Halt(step) => step,
                    KnownView::Got(true, _) => StepView::Reply(response(cx.stamp, 202)),
                    KnownView::Got(false, _) => StepView::Reply(condition_failed(cx.stamp)),
                }
            },
        },
    }
}

/// Deletes a version, a snapshot or the current blob.
pub open spec fn delete_blob(
    cx: ContextView,
    container: Text,
    key: Text,
    snapshot: Option<Text>,
    tape: TapeView,
) -> StepView {
    match (cx.req.param("versionid"@), snapshot) {
        (Some(version), _) => delete_version(cx, container, key, version, tape),
        (None, Some(snapshot)) => delete_snapshot(cx, container, key, snapshot, tape),
        (None, None) => match current_blob(cx.stamp, container, key, tape) {
            KnownView::Halt(step) => step,
            KnownView::Got(blob, tape) => match ensure_mutation_allowed(cx.stamp, cx.req, blob) {
                Err(refusal) => StepView::Reply(refusal),
                Ok(_) => match snapshot_keys(
                    container,
                    snapshot_prefix(key),
                    None,
                    Seq::empty(),
                    tape,
                ) {
                    KnownView::Halt(step) => step,
                    KnownView::Got(keys, tape) => delete_current(
                        cx,
                        container,
                        key,
                        blob,
                        keys,
                        tape,
                    ),
                },
            },
        },
    }
}

/// Deletes the current blob with its snapshots, or its snapshots only.
pub open spec fn delete_current(
    cx: ContextView,
    container: Text,
    key: Text,
    blob: ObjectView,
    snapshots: Seq<Text>,
    tape: TapeView,
) -> StepView {
    let mode = cx.req.header("x-ms-delete-snapshots"@);
    if snapshots.len() > 0 && mode is None {
        StepView::Reply(
            error_response(
                cx.stamp,
                409,
                "SnapshotsPresent"@,
                "This operation is not permitted because the blob has snapshots."@,
            ),
        )
    } else if mode is Some && mode != Some("include"@) && mode != Some("only"@) {
        StepView::Reply(
            error_response(
                cx.stamp,
                400,
                "InvalidHeaderValue"@,
                "The x-ms-delete-snapshots header must be include or only."@,
            ),
        )
    } else if mode == Some("only"@) {
        if conditions_match(cx.req, blob.etag) {
            finish_delete(cx.stamp, container, snapshots, tape)
        } else {
            StepView::Reply(condition_failed(cx.stamp))
        }
    } else {
        match write_condition(cx.stamp, cx.req) {
            Err(refusal) => StepView::Reply(refusal),
            Ok(Some(condition)) => match known::<bool>(
                tape,
                EffectView::DeleteObjectIf(container, key, condition),
            ) {
                KnownView::Halt(step) => step,
                KnownView::Got(false, _) => StepView::Reply(condition_failed(cx.stamp)),
                KnownView::Got(true, tape) => finish_delete(cx.stamp, container, snapshots, tape),
            },
            Ok(None) => match known::<()>(tape, EffectView::DeleteObject(container, key)) {
                KnownView::Halt(step) => step,
                KnownView::Got(_, tape) => finish_delete(cx.stamp, container, snapshots, tape),
            },
        }
    }
}

// ---------------------------------------------------------------------------
// Requests

/// Serves a request for a blob itself.
pub open spec fn handle_blob_crud(cx: ContextView, container: Text, key: Text, tape: TapeView)
    -> StepView {
    let snapshot = cx.req.param("snapshot"@);
    if snapshot is Some && cx.req.param("versionid"@) is Some {
        StepView::Reply(
            error_response(
                cx.stamp,
                400,
                "InvalidQueryParameterValue"@,
                "The snapshot and versionid parameters cannot be specified together."@,
            ),
        )
    } else {
        match cx.req.method {
            Method::Put => put_blob(cx, container, key, snapshot, tape),
            Method::Get => get_blob(cx, container, key, snapshot, tape),
            Method::Head => head_blob(cx, container, key, snapshot, tape),
            Method::Delete => delete_blob(cx, container, key, snapshot, tape),
            _ => StepView::Reply(
                error_response(
                    cx.stamp,
                    405,
                    "UnsupportedHttpVerb"@,
                    "Unsupported Azure blob operation"@,
                ),
            ),
        }
    }
}

/// Serves a request for a blob or a part of its state that uploads are about.
pub open spec fn handle_blob_comp_request(
    cx: ContextView,
    account: Text,
    container: Text,
    key: Text,
    tape: TapeView,
) -> StepView {
    let put = cx.req.method == Method::Put;
    match cx.req.param("comp"@) {
        None => handle_blob_crud(cx, container, key, tape),
        Some(comp) => if put && comp == "block"@ {
            put_block(cx, account, container, key, tape)
        } else if put && comp == "blocklist"@ {
            put_block_list(cx, account, container, key, tape)
        } else if put && comp == "metadata"@ {
            update_metadata(cx, container, key, tape)
        } else if cx.req.method == Method::Get && comp == "blocklist"@ {
            get_block_list(cx, account, container, key, tape)
        } else if put && comp == "appendblock"@ {
            append_block(cx, container, key, tape)
        } else if put && comp == "page"@ {
            put_page(cx, container, key, tape)
        } else {
            StepView::Reply(
                error_response(
                    cx.stamp,
                    501,
                    "FeatureNotSupported"@,
                    "This Azure blob subresource is not implemented by the emulator."@,
                ),
            )
        },
    }
}

/// Serves a request for a blob or a part of its state.
pub open spec fn handle_blob_request(
    cx: ContextView,
    account: Text,
    container: Text,
    key: Text,
    tape: TapeView,
) -> StepView {
    let put = cx.req.method == Method::Put;
    let comp = cx.req.param("comp"@);
    match unsupported_selected_mutation(cx.stamp, cx.req) {
        Some(refusal) => StepView::Reply(refusal),
        None => if put && cx.req.header("x-ms-copy-source"@) is Some {
            StepView::Reply(
                error_response(
                    cx.stamp,
                    501,
                    "FeatureNotSupported"@,
                    "Azure copy operations are not implemented by this emulator."@,
                ),
            )
        } else if put && comp == Some("lease"@) {
            handle_lease(cx, container, key, tape)
        } else if put && comp == Some("snapshot"@) {
            create_snapshot(cx, container, key, tape)
        } else if put && is_immutability_comp(comp) {
            put_immutability_policy(cx, container, key, tape)
        } else if cx.req.method == Method::Delete && is_immutability_comp(comp) {
            delete_immutability_policy(cx, container, key, tape)
        } else if put && comp == Some("legalhold"@) {
            put_legal_hold(cx, container, key, tape)
        } else {
            handle_blob_comp_request(cx, account, container, key, tape)
        },
    }
}

// ---------------------------------------------------------------------------
// The handlers

/// Whether something holds, where that can be told.
#[derive(Clone, Copy)]
pub struct Maybe {
    pub value: Option<bool>,
}

impl View for Maybe {
    type V = Option<bool>;

    open spec fn view(&self) -> Option<bool> {
        self.value
    }
}

impl AzureBlobAdapter {
    fn existing<'a>(stamp: &Stamp, effect: Effect, message: &str, tape: Tape<'a>) -> (r: Known<
        'a,
        Object,
    >)
        ensures
            r@ == existing(stamp@, effect@, message@, tape@),
    {
        match ask::<Object>(tape, effect) {
            Asked::Halt(step) => Known::Halt(step),
            Asked::Got(Ok(object), tape) => Known::Got(object, tape),
            Asked::Got(Err(error), _) => Known::Halt(
                if error.no_version() {
                    Step::Reply(refuse(stamp, 404, "BlobNotFound", message))
                } else {
                    Step::Fail(error.message.clone())
                },
            ),
        }
    }

    fn current_blob<'a>(stamp: &Stamp, container: &str, key: &str, tape: Tape<'a>) -> (r: Known<
        'a,
        Object,
    >)
        ensures
            r@ == current_blob(stamp@, container@, key@, tape@),
    {
        match ask::<Object>(tape, Effect::GetObject(container.to_owned(), key.to_owned())) {
            Asked::Halt(step) => Known::Halt(step),
            Asked::Got(Ok(object), tape) => Known::Got(object, tape),
            Asked::Got(Err(error), _) => Known::Halt(
                if error.no_object() {
                    Step::Reply(refuse_blob(stamp))
                } else {
                    Step::Fail(error.message.clone())
                },
            ),
        }
    }

    /// What to ask for a blob, a snapshot or a version of it.
    pub fn lookup_blob(
        container: &str,
        key: &str,
        snapshot: Option<&str>,
        version: Option<&str>,
    ) -> (r: Effect)
        ensures
            r@ == lookup(container@, key@, seen(snapshot), seen(version)),
    {
        match version {
            Some(version) => Effect::GetVersion(
                container.to_owned(),
                key.to_owned(),
                version.to_owned(),
            ),
            None => Effect::GetObject(
                container.to_owned(),
                match snapshot {
                    Some(snapshot) => Self::snapshot_storage_key(key, snapshot),
                    None => key.to_owned(),
                },
            ),
        }
    }

    /// A bucket, where storage knows it.
    pub fn bucket_if_known<'a>(container: &str, tape: Tape<'a>) -> (r: Gained<
        'a,
        Perhaps<'a, Bucket>,
    >)
        ensures
            r@ == bucket_if_known(container@, tape@),
    {
        try_ask::<Bucket>(tape, Effect::GetBucket(container.to_owned()))
    }

    pub fn azure_history_visible(found: Option<&Bucket>) -> (r: bool)
        ensures
            r == history_visible(seen(found)),
    {
        match found {
            Some(bucket) => Self::azure_history_mode(bucket) && !Self::foreign_history_mode(bucket),
            None => false,
        }
    }

    pub fn azure_history_conflict(found: Option<&Bucket>) -> (r: bool)
        ensures
            r == crate::azure::basics::history_conflict(seen(found)),
    {
        match found {
            Some(bucket) => Self::foreign_history_mode(bucket) || bucket.versioning_enabled
                && !Self::azure_history_mode(bucket),
            None => false,
        }
    }

    pub fn is_current_version<'a>(container: &str, key: &str, selected: &Object, tape: Tape<'a>)
        -> (r: Gained<'a, Maybe>)
        ensures
            r@ == is_current_version(container@, key@, selected@, tape@),
    {
        let id = match &selected.version_id {
            Some(id) => id,
            None => return Gained::Got(Maybe { value: None }, tape),
        };
        match ask::<Object>(tape, Effect::GetObject(container.to_owned(), key.to_owned())) {
            Asked::Halt(step) => Gained::Halt(step),
            Asked::Got(Ok(current), tape) => Gained::Got(
                Maybe { value: Some(equals(lend(&current.version_id), id)) },
                tape,
            ),
            Asked::Got(Err(_), tape) => Gained::Got(Maybe { value: Some(false) }, tape),
        }
    }

    fn version_marks<'a>(container: &str, key: &str, selected: &Object, tape: Tape<'a>) -> (r:
        Gained<'a, (bool, Maybe)>)
        ensures
            r@ == version_marks(container@, key@, selected@, tape@),
    {
        let (bucket, tape) = match Self::bucket_if_known(container, tape) {
            Gained::Halt(step) => return Gained::Halt(step),
            Gained::Got(bucket, tape) => (bucket.value, tape),
        };
        if !Self::azure_history_visible(bucket) {
            return Gained::Got((false, Maybe { value: None }), tape);
        }
        match Self::is_current_version(container, key, selected, tape) {
            Gained::Halt(step) => Gained::Halt(step),
            Gained::Got(current, tape) => Gained::Got((true, current), tape),
        }
    }

    /// Replaces an object's metadata unless the object has changed meanwhile.
    pub fn replace_blob_metadata_if_unchanged(
        stamp: &Stamp,
        container: &str,
        key: &str,
        observed: &Object,
        updated: Object,
        done: Response,
        tape: Tape<'_>,
    ) -> (r: Step)
        ensures
            r@ == replace_blob_metadata(
                stamp@,
                container@,
                key@,
                observed@,
                updated@,
                done@,
                tape@,
            ),
    {
        let effect = Effect::ReplaceMetadata(
            container.to_owned(),
            key.to_owned(),
            observed.copied(),
            updated,
        );
        match require::<bool>(tape, effect) {
            Known::Halt(step) => step,
            Known::Got(replaced, _) => if *replaced {
                Step::Reply(done)
            } else {
                Step::Reply(refuse_condition(stamp))
            },
        }
    }

    pub fn handle_lease(cx: &Context, container: &str, key: &str, tape: Tape<'_>) -> (r: Step)
        ensures
            r@ == handle_lease(cx@, container@, key@, tape@),
    {
        let (blob, tape) = match Self::current_blob(&cx.stamp, container, key, tape) {
            Known::Halt(step) => return step,
            Known::Got(blob, tape) => (blob, tape),
        };
        if !Self::conditions_match_blob(&cx.req, blob) {
            return Step::Reply(refuse_condition(&cx.stamp));
        }
        let action = or_else(cx.req.header("x-ms-lease-action"), "");
        if same(action, "acquire") {
            return Self::acquire_lease(cx, container, key, blob, tape);
        }
        if same(action, "renew") {
            match Self::ensure_lease_allows(&cx.stamp, &cx.req, blob) {
                Err(refusal) => return Step::Reply(refusal),
                Ok(()) => {},
            }
            let done = reply(&cx.stamp, 200).header(
                "x-ms-lease-id",
                or_else(Self::lease_id(blob), ""),
            );
            return Self::replace_blob_metadata_if_unchanged(
                &cx.stamp,
                container,
                key,
                blob,
                blob.copied(),
                done,
                tape,
            );
        }
        if same(action, "release") {
            match Self::ensure_lease_allows(&cx.stamp, &cx.req, blob) {
                Err(refusal) => return Step::Reply(refusal),
                Ok(()) => {},
            }
            let mut updated = blob.copied();
            Self::set_lease_state(&mut updated, None, "available", "unlocked", None);
            return Self::replace_blob_metadata_if_unchanged(
                &cx.stamp,
                container,
                key,
                blob,
                updated,
                reply(&cx.stamp, 200),
                tape,
            );
        }
        if same(action, "break") {
            if !Self::has_active_lease(blob) {
                return Step::Reply(
                    refuse(
                        &cx.stamp,
                        409,
                        "LeaseNotPresentWithBlobOperation",
                        "There is currently no lease on the blob.",
                    ),
                );
            }
            let mut updated = blob.copied();
            Self::set_lease_state(&mut updated, None, "broken", "unlocked", None);
            return Self::replace_blob_metadata_if_unchanged(
                &cx.stamp,
                container,
                key,
                blob,
                updated,
                reply(&cx.stamp, 202).header("x-ms-lease-time", "0"),
                tape,
            );
        }
        Step::Reply(
            refuse(&cx.stamp, 400, "InvalidHeaderValue", "Unsupported Azure lease action."),
        )
    }

    pub fn acquire_lease(
        cx: &Context,
        container: &str,
        key: &str,
        blob: &Object,
        tape: Tape<'_>,
    ) -> (r: Step)
        ensures
            r@ == acquire_lease(cx@, container@, key@, blob@, tape@),
    {
        if Self::has_active_lease(blob) {
            return Step::Reply(
                refuse(
                    &cx.stamp,
                    409,
                    "LeaseAlreadyPresent",
                    "The blob already has an active lease.",
                ),
            );
        }
        let id = or_else(cx.req.header("x-ms-proposed-lease-id"), &cx.stamp.fresh_id);
        let duration = if same(or_else(cx.req.header("x-ms-lease-duration"), "-1"), "-1") {
            "infinite"
        } else {
            "fixed"
        };
        let mut updated = blob.copied();
        Self::set_lease_state(
            &mut updated,
            Some(id.to_owned()),
            "leased",
            "locked",
            Some(duration.to_owned()),
        );
        let done = reply(&cx.stamp, 201).header("x-ms-lease-id", id);
        Self::replace_blob_metadata_if_unchanged(
            &cx.stamp,
            container,
            key,
            blob,
            updated,
            done,
            tape,
        )
    }

    pub fn create_snapshot(cx: &Context, container: &str, key: &str, tape: Tape<'_>) -> (r: Step)
        ensures
            r@ == create_snapshot(cx@, container@, key@, tape@),
    {
        let (blob, tape) = match Self::current_blob(&cx.stamp, container, key, tape) {
            Known::Halt(step) => return step,
            Known::Got(blob, tape) => (blob, tape),
        };
        match Self::ensure_lease_allows(&cx.stamp, &cx.req, blob) {
            Err(refusal) => return Step::Reply(refusal),
            Ok(()) => {},
        }
        if !Self::conditions_match_blob(&cx.req, blob) {
            return Step::Reply(refuse_condition(&cx.stamp));
        }
        let time = format_micros(cx.stamp.now.secs, cx.stamp.now.nanos);
        let mut snapshot = blob.copied();
        snapshot.key = Self::snapshot_storage_key(key, &time);
        snapshot.provider_metadata.remove(AZURE_LEASE_ID_KEY);
        snapshot.provider_metadata.remove(AZURE_LEASE_STATE_KEY);
        snapshot.provider_metadata.remove(AZURE_LEASE_STATUS_KEY);
        snapshot.provider_metadata.remove(AZURE_LEASE_DURATION_KEY);
        snapshot.provider_metadata.insert(AZURE_SNAPSHOT_TIME_KEY, time.clone());
        snapshot.provider_metadata.insert(AZURE_SNAPSHOT_SOURCE_KEY, key.to_owned());
        let metadata = Self::metadata_from_headers(&cx.req);
        if !metadata.is_empty() {
            snapshot.metadata = metadata;
            snapshot.last_modified = cx.stamp.now;
            snapshot.etag = cx.stamp.fresh_tag.clone();
        }
        let etag = quote(&snapshot.etag);
        let date = format_last_modified_at(&snapshot.last_modified);
        let done = reply(&cx.stamp, 201).header("x-ms-snapshot", &time).header(
            "etag",
            &etag,
        ).header("last-modified", &date);
        let effect = Effect::PutObject(container.to_owned(), snapshot.key.clone(), snapshot);
        match require::<()>(tape, effect) {
            Known::Halt(step) => step,
            Known::Got(_, _) => Step::Reply(done),
        }
    }

    /// The policy that a request asks for, given the moment that was read from its date.
    pub fn check_policy<'a>(stamp: &Stamp, req: &'a Request, at: Option<Instant>) -> (r: Result<
        (&'a str, Instant, &'a str),
        Response,
    >)
        ensures
            settled(r) == policy_verdict(stamp@, req@, at),
    {
        let until = match req.header("x-ms-immutability-policy-until-date") {
            Some(until) => until,
            None => return Err(
                refuse(
                    stamp,
                    400,
                    "MissingRequiredHeader",
                    "The x-ms-immutability-policy-until-date header is required.",
                ),
            ),
        };
        let at = match at {
            Some(at) if at.after(&stamp.now) => at,
            _ => return Err(
                refuse(
                    stamp,
                    400,
                    "InvalidHeaderValue",
                    "The x-ms-immutability-policy-until-date header must be a future RFC 1123 date.",
                ),
            ),
        };
        let mode = or_else(req.header("x-ms-immutability-policy-mode"), "Unlocked");
        if !same(mode, "Unlocked") && !same(mode, "Locked") {
            return Err(
                refuse(
                    stamp,
                    400,
                    "InvalidHeaderValue",
                    "The x-ms-immutability-policy-mode header must be Unlocked or Locked.",
                ),
            );
        }
        Ok((until, at, mode))
    }

    fn requested_policy<'a>(stamp: &Stamp, req: &'a Request) -> (r: Result<
        (&'a str, Instant, &'a str),
        Response,
    >)
        ensures
            settled(r) == requested_policy(stamp@, req@),
    {
        let at = match req.header("x-ms-immutability-policy-until-date") {
            Some(until) => read_rfc2822(until),
            None => None,
        };
        Self::check_policy(stamp, req, at)
    }

    /// Whether a policy would unlock or shorten a locked one, given the moment that was read
    /// from that.
    pub fn weakens_lock(blob: &Object, existing: Option<Instant>, until: &Instant, mode: &str)
        -> (r: bool)
        ensures
            r == weakens_lock(blob@, existing, *until, mode@),
    {
        let shortens = match existing {
            Some(existing) => existing.after(until),
            None => true,
        };
        Self::policy_locked(blob) && (!same(mode, "Locked") || shortens)
    }

    fn policy_locked(blob: &Object) -> (r: bool)
        ensures
            r == policy_locked(blob@),
    {
        equals(get_text(&blob.provider_metadata, AZURE_IMMUTABILITY_MODE_KEY), "Locked")
    }

    pub fn put_immutability_policy(cx: &Context, container: &str, key: &str, tape: Tape<'_>) -> (r:
        Step)
        ensures
            r@ == put_immutability_policy(cx@, container@, key@, tape@),
    {
        let (until, at, mode) = match Self::requested_policy(&cx.stamp, &cx.req) {
            Ok(policy) => policy,
            Err(refusal) => return Step::Reply(refusal),
        };
        let (blob, tape) = match Self::current_blob(&cx.stamp, container, key, tape) {
            Known::Halt(step) => return step,
            Known::Got(blob, tape) => (blob, tape),
        };
        if !Self::conditions_match_blob(&cx.req, blob) {
            return Step::Reply(refuse_condition(&cx.stamp));
        }
        if Self::weakens_lock(blob, Self::retention_until(blob), &at, mode) {
            return Step::Reply(
                refuse(
                    &cx.stamp,
                    409,
                    "BlobImmutableDueToPolicy",
                    "A locked immutability policy cannot be unlocked or shortened.",
                ),
            );
        }
        let mut updated = blob.copied();
        updated.provider_metadata.insert(AZURE_IMMUTABILITY_UNTIL_KEY, until.to_owned());
        updated.provider_metadata.insert(AZURE_IMMUTABILITY_MODE_KEY, mode.to_owned());
        let done = reply(&cx.stamp, 200).header(
            "x-ms-immutability-policy-until-date",
            until,
        ).header("x-ms-immutability-policy-mode", mode);
        Self::replace_blob_metadata_if_unchanged(
            &cx.stamp,
            container,
            key,
            blob,
            updated,
            done,
            tape,
        )
    }

    pub fn delete_immutability_policy(cx: &Context, container: &str, key: &str, tape: Tape<'_>)
        -> (r: Step)
        ensures
            r@ == delete_immutability_policy(cx@, container@, key@, tape@),
    {
        let (blob, tape) = match Self::current_blob(&cx.stamp, container, key, tape) {
            Known::Halt(step) => return step,
            Known::Got(blob, tape) => (blob, tape),
        };
        if !Self::conditions_match_blob(&cx.req, blob) {
            return Step::Reply(refuse_condition(&cx.stamp));
        }
        if Self::policy_locked(blob) {
            return Step::Reply(
                refuse(
                    &cx.stamp,
                    409,
                    "BlobImmutableDueToPolicy",
                    "A locked immutability policy cannot be deleted.",
                ),
            );
        }
        let mut updated = blob.copied();
        updated.provider_metadata.remove(AZURE_IMMUTABILITY_UNTIL_KEY);
        updated.provider_metadata.remove(AZURE_IMMUTABILITY_MODE_KEY);
        Self::replace_blob_metadata_if_unchanged(
            &cx.stamp,
            container,
            key,
            blob,
            updated,
            reply(&cx.stamp, 200),
            tape,
        )
    }

    pub fn put_legal_hold(cx: &Context, container: &str, key: &str, tape: Tape<'_>) -> (r: Step)
        ensures
            r@ == put_legal_hold(cx@, container@, key@, tape@),
    {
        let hold = match cx.req.header("x-ms-legal-hold") {
            Some(hold) => hold,
            None => return Step::Reply(
                refuse(
                    &cx.stamp,
                    400,
                    "MissingRequiredHeader",
                    "The x-ms-legal-hold header is required.",
                ),
            ),
        };
        if !same(hold, "true") && !same(hold, "false") {
            return Step::Reply(
                refuse(
                    &cx.stamp,
                    400,
                    "InvalidHeaderValue",
                    "The x-ms-legal-hold header must be true or false.",
                ),
            );
        }
        let (blob, tape) = match Self::current_blob(&cx.stamp, container, key, tape) {
            Known::Halt(step) => return step,
            Known::Got(blob, tape) => (blob, tape),
        };
        if !Self::conditions_match_blob(&cx.req, blob) {
            return Step::Reply(refuse_condition(&cx.stamp));
        }
        let mut updated = blob.copied();
        updated.provider_metadata.insert(AZURE_LEGAL_HOLD_KEY, hold.to_owned());
        let done = reply(&cx.stamp, 200).header("x-ms-legal-hold", hold);
        Self::replace_blob_metadata_if_unchanged(
            &cx.stamp,
            container,
            key,
            blob,
            updated,
            done,
            tape,
        )
    }

    fn rewrite_blob<'a>(
        stamp: &Stamp,
        container: &str,
        key: &str,
        updated: Object,
        etag: &str,
        tape: Tape<'a>,
    ) -> (r: Known<'a, Object>)
        ensures
            r@ == rewrite_blob(stamp@, container@, key@, updated@, etag@, tape@),
    {
        let effect = Effect::PutObjectIf(
            container.to_owned(),
            key.to_owned(),
            updated,
            ObjectCondition::Etag(etag.to_owned()),
        );
        match require::<bool>(tape, effect) {
            Known::Halt(step) => Known::Halt(step),
            Known::Got(written, tape) => if *written {
                require::<Object>(tape, Effect::GetObject(container.to_owned(), key.to_owned()))
            } else {
                Known::Halt(Step::Reply(refuse_condition(stamp)))
            },
        }
    }

    fn changeable_blob<'a>(cx: &Context, container: &str, key: &str, tape: Tape<'a>) -> (r: Known<
        'a,
        Object,
    >)
        ensures
            r@ == changeable_blob(cx@, container@, key@, tape@),
    {
        let (blob, tape) = match Self::current_blob(&cx.stamp, container, key, tape) {
            Known::Halt(step) => return Known::Halt(step),
            Known::Got(blob, tape) => (blob, tape),
        };
        match Self::ensure_mutation_allowed(&cx.stamp, &cx.req, blob) {
            Err(refusal) => return Known::Halt(Step::Reply(refusal)),
            Ok(()) => {},
        }
        if Self::conditions_match_blob(&cx.req, blob) {
            Known::Got(blob, tape)
        } else {
            Known::Halt(Step::Reply(refuse_condition(&cx.stamp)))
        }
    }

    pub fn update_metadata(cx: &Context, container: &str, key: &str, tape: Tape<'_>) -> (r: Step)
        ensures
            r@ == update_metadata(cx@, container@, key@, tape@),
    {
        let (blob, tape) = match Self::changeable_blob(cx, container, key, tape) {
            Known::Halt(step) => return step,
            Known::Got(blob, tape) => (blob, tape),
        };
        let mut updated = blob.copied();
        updated.metadata = Self::metadata_from_headers(&cx.req);
        updated.etag = cx.stamp.fresh_tag.clone();
        updated.last_modified = cx.stamp.now;
        match Self::rewrite_blob(&cx.stamp, container, key, updated, &blob.etag, tape) {
            Known::Halt(step) => step,
            Known::Got(stored, _) => Step::Reply(written_reply(&cx.stamp, 200, stored)),
        }
    }

    fn refuse_blob_type(stamp: &Stamp) -> (r: Response)
        ensures
            r@ == wrong_blob_type(stamp@),
    {
        refuse(
            stamp,
            409,
            "InvalidBlobType",
            "The blob type is invalid for this operation.",
        )
    }

    pub fn append_block(cx: &Context, container: &str, key: &str, tape: Tape<'_>) -> (r: Step)
        ensures
            r@ == append_block(cx@, container@, key@, tape@),
    {
        let (blob, tape) = match Self::changeable_blob(cx, container, key, tape) {
            Known::Halt(step) => return step,
            Known::Got(blob, tape) => (blob, tape),
        };
        if !same(Self::blob_type(blob), "AppendBlob") {
            return Step::Reply(Self::refuse_blob_type(&cx.stamp));
        }
        let mut updated = blob.copied();
        let mut body = copy_bytes(cx.req.body.as_slice());
        updated.data.append(&mut body);
        updated.size = updated.data.len() as u64;
        updated.etag = compute_etag(updated.data.as_slice());
        updated.last_modified = cx.stamp.now;
        let stored = match Self::rewrite_blob(
            &cx.stamp,
            container,
            key,
            updated,
            &blob.etag,
            tape,
        ) {
            Known::Halt(step) => return step,
            Known::Got(stored, _) => stored,
        };
        let appended: u64 = cx.req.body.len() as u64;
        if stored.size < appended {
            return Step::Fail(
                "The stored append blob is shorter than the appended block".to_owned(),
            );
        }
        let etag = quote(&stored.etag);
        Step::Reply(
            reply(&cx.stamp, 201).header("etag", &etag).header(
                "x-ms-blob-append-offset",
                &show(stored.size - appended),
            ).header("x-ms-blob-committed-block-count", "1"),
        )
    }

    fn with_pages(data: &Vec<u8>, start: usize, end: usize, clear: bool, body: &Vec<u8>) -> (r: Vec<
        u8,
    >)
        requires
            start <= end < data@.len(),
            !clear ==> body@.len() == end - start + 1,
        ensures
            r@ == with_pages(data@, start as int, end as int, clear, body@),
    {
        let mut out: Vec<u8> = Vec::new();
        let mut i: usize = 0;
        while i < data.len()
            invariant
                start <= end < data@.len(),
                !clear ==> body@.len() == end - start + 1,
                i <= data.len(),
                out@ =~= with_pages(data@, start as int, end as int, clear, body@).subrange(
                    0,
                    i as int,
                ),
            decreases data.len() - i,
        {
            if start <= i && i <= end {
                if clear {
                    out.push(0);
                } else {
                    out.push(body[i - start]);
                }
            } else {
                out.push(data[i]);
            }
            i += 1;
        }
        assert(out@ =~= with_pages(data@, start as int, end as int, clear, body@));
        out
    }

    /// Whether a span starts and ends at the bounds of pages.
    fn page_aligned(start: usize, end: usize) -> (r: bool)
        ensures
            r == (start as int % 512 == 0 && (end + 1) % 512 == 0),
    {
        start % 512 == 0 && end % 512 == 511
    }

    pub fn put_page(cx: &Context, container: &str, key: &str, tape: Tape<'_>) -> (r: Step)
        ensures
            r@ == put_page(cx@, container@, key@, tape@),
    {
        let mode = match cx.req.header("x-ms-page-write") {
            Some(mode) => mode,
            None => return Step::Reply(
                refuse(
                    &cx.stamp,
                    400,
                    "MissingRequiredHeader",
                    "The x-ms-page-write header is required.",
                ),
            ),
        };
        let clear = same(mode, "clear");
        if !clear && !same(mode, "update") {
            return Step::Reply(
                refuse(
                    &cx.stamp,
                    400,
                    "InvalidHeaderValue",
                    "The x-ms-page-write header must be update or clear.",
                ),
            );
        }
        let (start, end) = match Self::requested_range(&cx.req) {
            Some(range) => match Self::parse_write_range_header(range) {
                Some(span) => span,
                None => return Step::Reply(Self::page_range_error(&cx.stamp)),
            },
            None => return Step::Reply(Self::page_range_error(&cx.stamp)),
        };
        if !Self::page_aligned(start, end) {
            return Step::Reply(
                refuse(
                    &cx.stamp,
                    400,
                    "InvalidPageRange",
                    "Page blob ranges must align to 512-byte boundaries.",
                ),
            );
        }
        Self::write_pages(cx, container, key, start, end, clear, tape)
    }

    fn write_pages(
        cx: &Context,
        container: &str,
        key: &str,
        start: usize,
        end: usize,
        clear: bool,
        tape: Tape<'_>,
    ) -> (r: Step)
        requires
            start <= end,
        ensures
            r@ == write_pages(
                cx@,
                container@,
                key@,
                start as int,
                end as int,
                clear,
                tape@,
            ),
    {
        let (blob, tape) = match Self::changeable_blob(cx, container, key, tape) {
            Known::Halt(step) => return step,
            Known::Got(blob, tape) => (blob, tape),
        };
        if !same(Self::blob_type(blob), "PageBlob") {
            return Step::Reply(Self::refuse_blob_type(&cx.stamp));
        }
        match Self::validate_page_write(&cx.stamp, &cx.req, blob, start, end, clear) {
            Some(refusal) => return Step::Reply(refusal),
            None => {},
        }
        let mut updated = blob.copied();
        updated.data = Self::with_pages(&blob.data, start, end, clear, &cx.req.body);
        updated.etag = compute_etag(updated.data.as_slice());
        updated.last_modified = cx.stamp.now;
        match Self::rewrite_blob(&cx.stamp, container, key, updated, &blob.etag, tape) {
            Known::Halt(step) => step,
            Known::Got(stored, _) => Step::Reply(
                written_reply(&cx.stamp, 201, stored).header("x-ms-blob-sequence-number", "0"),
            ),
        }
    }

    pub fn put_blob(
        cx: &Context,
        container: &str,
        key: &str,
        snapshot: Option<&str>,
        tape: Tape<'_>,
    ) -> (r: Step)
        ensures
            r@ == put_blob(cx@, container@, key@, seen(snapshot), tape@),
    {
        if snapshot.is_some() {
            return Step::Reply(
                refuse(
                    &cx.stamp,
                    400,
                    "InvalidQueryParameterValue",
                    "Snapshots are read-only.",
                ),
            );
        }
        let (found, tape) = match ask::<Object>(
            tape,
            Effect::GetObject(container.to_owned(), key.to_owned()),
        ) {
            Asked::Halt(step) => return step,
            Asked::Got(found, tape) => (found, tape),
        };
        match found {
            Ok(existing) => {
                let (bucket, tape) = match require::<Bucket>(
                    tape,
                    Effect::GetBucket(container.to_owned()),
                ) {
                    Known::Halt(step) => return step,
                    Known::Got(bucket, tape) => (bucket, tape),
                };
                match Self::ensure_version_creating_overwrite_allowed(
                    &cx.stamp,
                    &cx.req,
                    existing,
                    Self::azure_versioning_enabled(bucket),
                ) {
                    Err(refusal) => Step::Reply(refusal),
                    Ok(()) => Self::write_blob(cx, container, key, Some(existing), tape),
                }
            },
            Err(error) => {
                if error.kind == ErrorKind::KeyNotFound {
                    if cx.req.header("if-match").is_some() {
                        Step::Reply(refuse_condition(&cx.stamp))
                    } else {
                        Self::write_blob(cx, container, key, None, tape)
                    }
                } else if error.kind == ErrorKind::BucketNotFound {
                    Step::Reply(refuse_container(&cx.stamp))
                } else {
                    Step::Fail(error.message.clone())
                }
            },
        }
    }

    fn write_blob(
        cx: &Context,
        container: &str,
        key: &str,
        existing: Option<&Object>,
        tape: Tape<'_>,
    ) -> (r: Step)
        ensures
            r@ == write_blob(cx@, container@, key@, seen(existing), tape@),
    {
        match Self::validate_blob_create_request(&cx.stamp, &cx.req) {
            Some(refusal) => return Step::Reply(refusal),
            None => {},
        }
        let mut object = Self::blob_for_type(&cx.stamp, &cx.req, key);
        match existing {
            Some(existing) => Self::preserve_active_lease(existing, &mut object),
            None => {},
        }
        let condition = match Self::write_condition(&cx.stamp, &cx.req) {
            Ok(condition) => condition,
            Err(refusal) => return Step::Reply(refusal),
        };
        let tape = match condition {
            Some(condition) => {
                let effect = Effect::PutObjectIf(
                    container.to_owned(),
                    key.to_owned(),
                    object,
                    condition,
                );
                match require::<bool>(tape, effect) {
                    Known::Halt(step) => return step,
                    Known::Got(written, tape) => {
                        if !*written {
                            return Step::Reply(refuse_condition(&cx.stamp));
                        }
                        tape
                    },
                }
            },
            None => {
                let effect = Effect::PutObject(container.to_owned(), key.to_owned(), object);
                match require::<()>(tape, effect) {
                    Known::Halt(step) => return step,
                    Known::Got(_, tape) => tape,
                }
            },
        };
        match require::<Object>(tape, Effect::GetObject(container.to_owned(), key.to_owned())) {
            Known::Halt(step) => step,
            Known::Got(stored, _) => Step::Reply(
                written_reply(&cx.stamp, 201, stored).header(
                    "x-ms-blob-type",
                    Self::blob_type(stored),
                ).maybe_header("x-ms-version-id", lend(&stored.version_id)),
            ),
        }
    }

    pub fn get_blob(
        cx: &Context,
        container: &str,
        key: &str,
        snapshot: Option<&str>,
        tape: Tape<'_>,
    ) -> (r: Step)
        ensures
            r@ == get_blob(cx@, container@, key@, seen(snapshot), tape@),
    {
        let version = cx.req.query_param("versionid");
        let (blob, tape) = match Self::existing(
            &cx.stamp,
            Self::lookup_blob(container, key, snapshot, version),
            "The specified blob does not exist.",
            tape,
        ) {
            Known::Halt(step) => return step,
            Known::Got(blob, tape) => (blob, tape),
        };
        match Self::requested_range(&cx.req) {
            Some(range) => {
                return Self::get_blob_range(
                    cx,
                    container,
                    key,
                    snapshot.is_some() || version.is_some(),
                    blob,
                    range,
                    tape,
                );
            },
            None => {},
        }
        let length: usize = match Self::response_body_len(blob.size) {
            Some(length) => length,
            None => return Step::Fail("Azure blob is too large for this platform".to_owned()),
        };
        match Self::version_marks(container, key, blob, tape) {
            Gained::Halt(step) => step,
            Gained::Got((shown, current), _) => Step::Reply(
                Self::blob_response(
                    &cx.stamp,
                    200,
                    blob,
                    length,
                    None,
                    current.value,
                    shown,
                ).bytes(copy_bytes(blob.data.as_slice())),
            ),
        }
    }

    /// The length of a blob, where memory can hold it.
    pub fn response_body_len(size: u64) -> (r: Option<usize>)
        ensures
            size <= usize::MAX ==> r == Some(size as usize),
            size > usize::MAX ==> r is None,
    {
        if size <= usize::MAX as u64 {
            Some(size as usize)
        } else {
            None
        }
    }

    pub fn content_range(start: usize, end: usize, size: u64) -> (r: String)
        ensures
            r@ == content_range(start as int, end as int, size as int),
    {
        let mut out = "bytes ".to_owned();
        out.append(&show_usize(start));
        out.append("-");
        out.append(&show_usize(end));
        out.append("/");
        out.append(&show(size));
        out
    }

    pub fn get_blob_range(
        cx: &Context,
        container: &str,
        key: &str,
        selected: bool,
        blob: &Object,
        range: &str,
        tape: Tape<'_>,
    ) -> (r: Step)
        ensures
            r@ == get_blob_range(cx@, container@, key@, selected, blob@, range@, tape@),
    {
        let (start, end) = match Self::parse_range_header(range, blob.size) {
            Some(span) => span,
            None => return Step::Reply(
                refuse(
                    &cx.stamp,
                    416,
                    "InvalidRange",
                    "The requested range is not satisfiable.",
                ),
            ),
        };
        let shown = Self::content_range(start, end, blob.size);
        if selected {
            if end >= blob.data.len() {
                return Step::Fail("The stored blob is shorter than its size".to_owned());
            }
            let data = copy_bytes(vstd::slice::slice_subrange(blob.data.as_slice(), start, end + 1));
            Self::ranged_reply(cx, container, key, blob, blob, data, &shown, tape)
        } else {
            let effect = Effect::GetRange(
                container.to_owned(),
                key.to_owned(),
                start as u64,
                end as u64,
            );
            match require::<Payload>(tape, effect) {
                Known::Halt(step) => step,
                Known::Got(payload, tape) => Self::ranged_reply(
                    cx,
                    container,
                    key,
                    blob,
                    &payload.object,
                    copy_bytes(payload.data.as_slice()),
                    &shown,
                    tape,
                ),
            }
        }
    }

    fn ranged_reply(
        cx: &Context,
        container: &str,
        key: &str,
        blob: &Object,
        described: &Object,
        data: Vec<u8>,
        range: &str,
        tape: Tape<'_>,
    ) -> (r: Step)
        ensures
            r@ == ranged_reply(
                cx@,
                container@,
                key@,
                blob@,
                described@,
                data@,
                range@,
                tape@,
            ),
    {
        let (current, tape) = match Self::version_marks(container, key, blob, tape) {
            Gained::Halt(step) => return step,
            Gained::Got((_, current), tape) => (current, tape),
        };
        let bucket = match Self::bucket_if_known(container, tape) {
            Gained::Halt(step) => return step,
            Gained::Got(bucket, _) => bucket.value,
        };
        Step::Reply(
            Self::blob_response(
                &cx.stamp,
                206,
                described,
                data.len(),
                Some(range),
                current.value,
                Self::azure_history_visible(bucket),
            ).bytes(data),
        )
    }

    pub fn head_blob(
        cx: &Context,
        container: &str,
        key: &str,
        snapshot: Option<&str>,
        tape: Tape<'_>,
    ) -> (r: Step)
        ensures
            r@ == head_blob(cx@, container@, key@, seen(snapshot), tape@),
    {
        let effect = Self::lookup_blob(
            container,
            key,
            snapshot,
            cx.req.query_param("versionid"),
        );
        let (blob, tape) = match ask::<Object>(tape, effect) {
            Asked::Halt(step) => return step,
            Asked::Got(Ok(blob), tape) => (blob, tape),
            Asked::Got(Err(error), _) => return if error.no_version() {
                Step::Reply(reply(&cx.stamp, 404).header("x-ms-error-code", "BlobNotFound"))
            } else {
                Step::Fail(error.message.clone())
            },
        };
        let length: usize = match Self::response_body_len(blob.size) {
            Some(length) => length,
            None => return Step::Fail("Azure blob is too large for this platform".to_owned()),
        };
        match Self::version_marks(container, key, blob, tape) {
            Gained::Halt(step) => step,
            Gained::Got((shown, current), _) => Step::Reply(
                Self::blob_response(&cx.stamp, 200, blob, length, None, current.value, shown),
            ),
        }
    }

    pub fn snapshot_keys<'a>(container: &str, key: &str, from: Tape<'a>) -> (r: Gained<'a, Names>)
        ensures
            r@ == snapshot_keys(container@, snapshot_prefix(key@), None, Seq::empty(), from@),
    {
        let prefix = Self::snapshot_prefix(key);
        let mut keys = Names::new();
        let mut marker: Option<String> = None;
        let mut tape = from;
        loop
            invariant
                prefix@ == snapshot_prefix(key@),
                snapshot_keys(container@, snapshot_prefix(key@), None, Seq::empty(), from@)
                    == snapshot_keys(container@, prefix@, seen(marker), keys@, tape@),
            decreases tape@.len(),
        {
            let effect = Effect::ListObjects(
                container.to_owned(),
                Some(prefix.clone()),
                None,
                own(lend(&marker)),
                1000,
            );
            let (page, rest) = match require::<Page>(tape, effect) {
                Known::Halt(step) => return Gained::Halt(step),
                Known::Got(page, rest) => (page, rest),
            };
            let mut more = Self::object_keys(&page.objects);
            let ghost before = keys@;
            let ghost added = more@;
            keys.items.append(&mut more.items);
            assert(keys@ =~= before + added);
            tape = rest;
            match &page.next_marker {
                None => {
                    return Gained::Got(keys, tape);
                },
                Some(next) => {
                    marker = Some(next.clone());
                },
            }
        }
    }

    /// Deletes snapshots by their keys.
    pub fn delete_snapshots<'a>(container: &str, keys: &Names, from: Tape<'a>) -> (r: Gained<
        'a,
        (),
    >)
        ensures
            r@ == delete_snapshots(container@, keys@, 0, from@),
    {
        let mut i: usize = 0;
        let mut tape = from;
        while i < keys.items.len()
            invariant
                i <= keys.items.len(),
                delete_snapshots(container@, keys@, 0, from@) == delete_snapshots(
                    container@,
                    keys@,
                    i as int,
                    tape@,
                ),
            decreases keys.items.len() - i,
        {
            assert(keys@[i as int] == keys.items@[i as int]@);
            let effect = Effect::DeleteObject(container.to_owned(), keys.items[i].clone());
            match require::<()>(tape, effect) {
                Known::Halt(step) => return Gained::Halt(step),
                Known::Got(_, rest) => {
                    tape = rest;
                },
            }
            i += 1;
        }
        Gained::Got((), tape)
    }

    fn finish_delete(stamp: &Stamp, container: &str, keys: &Names, tape: Tape<'_>) -> (r: Step)
        ensures
            r@ == finish_delete(stamp@, container@, keys@, tape@),
    {
        match Self::delete_snapshots(container, keys, tape) {
            Gained::Halt(step) => step,
            Gained::Got(_, _) => Step::Reply(reply(stamp, 202)),
        }
    }

    fn delete_version(
        cx: &Context,
        container: &str,
        key: &str,
        version: &str,
        tape: Tape<'_>,
    ) -> (r: Step)
        ensures
            r@ == delete_version(cx@, container@, key@, version@, tape@),
    {
        let (blob, tape) = match Self::existing(
            &cx.stamp,
            Effect::GetVersion(container.to_owned(), key.to_owned(), version.to_owned()),
            "The specified blob version does not exist.",
            tape,
        ) {
            Known::Halt(step) => return step,
            Known::Got(blob, tape) => (blob, tape),
        };
        match Self::ensure_mutation_allowed(&cx.stamp, &cx.req, blob) {
            Err(refusal) => return Step::Reply(refusal),
            Ok(()) => {},
        }
        if !Self::conditions_match_blob(&cx.req, blob) {
            return Step::Reply(refuse_condition(&cx.stamp));
        }
        let effect = Effect::DeleteVersion(
            container.to_owned(),
            key.to_owned(),
            version.to_owned(),
        );
        match ask::<()>(tape, effect) {
            Asked::Halt(step) => step,
            Asked::Got(Ok(_), _) => Step::Reply(reply(&cx.stamp, 202)),
            Asked::Got(Err(error), _) => if error.kind == ErrorKind::NoSuchVersion {
                Step::Reply(
                    refuse(
                        &cx.stamp,
                        404,
                        "BlobNotFound",
                        "The specified blob version does not exist.",
                    ),
                )
            } else {
                Step::Fail(error.message.clone())
            },
        }
    }

    fn delete_snapshot(
        cx: &Context,
        container: &str,
        key: &str,
        snapshot: &str,
        tape: Tape<'_>,
    ) -> (r: Step)
        ensures
            r@ == delete_snapshot(cx@, container@, key@, snapshot@, tape@),
    {
        let stored = Self::snapshot_storage_key(key, snapshot);
        let (blob, tape) = match ask::<Object>(
            tape,
            Effect::GetObject(container.to_owned(), stored.clone()),
        ) {
            Asked::Halt(step) => return step,
            Asked::Got(Ok(blob), tape) => (blob, tape),
            Asked::Got(Err(error), _) => return if error.no_object() {
                Step::Reply(
                    refuse(
                        &cx.stamp,
                        404,
                        "BlobNotFound",
                        "The specified blob snapshot does not exist.",
                    ),
                )
            } else {
                Step::Fail(error.message.clone())
            },
        };
        match Self::ensure_mutation_allowed(&cx.stamp, &cx.req, blob) {
            Err(refusal) => return Step::Reply(refusal),
            Ok(()) => {},
        }
        if !Self::conditions_match_blob(&cx.req, blob) {
            return Step::Reply(refuse_condition(&cx.stamp));
        }
        let effect = Effect::DeleteObjectIf(
            container.to_owned(),
            stored,
            ObjectCondition::Etag(blob.etag.clone()),
        );
        match require::<bool>(tape, effect) {
            Known::Halt(step) => step,
            Known::Got(deleted, _) => if *deleted {
                Step::Reply(reply(&cx.stamp, 202))
            } else {
                Step::Reply(refuse_condition(&cx.stamp))
            },
        }
    }

    pub fn delete_blob(
        cx: &Context,
        container: &str,
        key: &str,
        snapshot: Option<&str>,
        tape: Tape<'_>,
    ) -> (r: Step)
        ensures
            r@ == delete_blob(cx@, container@, key@, seen(snapshot), tape@),
    {
        match cx.req.query_param("versionid") {
            Some(version) => return Self::delete_version(cx, container, key, version, tape),
            None => {},
        }
        match snapshot {
            Some(snapshot) => return Self::delete_snapshot(cx, container, key, snapshot, tape),
            None => {},
        }
        let (blob, tape) = match Self::current_blob(&cx.stamp, container, key, tape) {
            Known::Halt(step) => return step,
            Known::Got(blob, tape) => (blob, tape),
        };
        match Self::ensure_mutation_allowed(&cx.stamp, &cx.req, blob) {
            Err(refusal) => return Step::Reply(refusal),
            Ok(()) => {},
        }
        match Self::snapshot_keys(container, key, tape) {
            Gained::Halt(step) => step,
            Gained::Got(keys, tape) => Self::delete_current(cx, container, key, blob, &keys, tape),
        }
    }

    fn delete_current(
        cx: &Context,
        container: &str,
        key: &str,
        blob: &Object,
        snapshots: &Names,
        tape: Tape<'_>,
    ) -> (r: Step)
        ensures
            r@ == delete_current(cx@, container@, key@, blob@, snapshots@, tape@),
    {
        let mode = cx.req.header("x-ms-delete-snapshots");
        if snapshots.items.len() > 0 && mode.is_none() {
            return Step::Reply(
                refuse(
                    &cx.stamp,
                    409,
                    "SnapshotsPresent",
                    "This operation is not permitted because the blob has snapshots.",
                ),
            );
        }
        let only = equals(mode, "only");
        if mode.is_some() && !equals(mode, "include") && !only {
            return Step::Reply(
                refuse(
                    &cx.stamp,
                    400,
                    "InvalidHeaderValue",
                    "The x-ms-delete-snapshots header must be include or only.",
                ),
            );
        }
        if only {
            return if Self::conditions_match_blob(&cx.req, blob) {
                Self::finish_delete(&cx.stamp, container, snapshots, tape)
            } else {
                Step::Reply(refuse_condition(&cx.stamp))
            };
        }
        let condition = match Self::write_condition(&cx.stamp, &cx.req) {
            Ok(condition) => condition,
            Err(refusal) => return Step::Reply(refusal),
        };
        let tape = match condition {
            Some(condition) => {
                let effect = Effect::DeleteObjectIf(
                    container.to_owned(),
                    key.to_owned(),
                    condition,
                );
                match require::<bool>(tape, effect) {
                    Known::Halt(step) => return step,
                    Known::Got(deleted, tape) => {
                        if !*deleted {
                            return Step::Reply(refuse_condition(&cx.stamp));
                        }
                        tape
                    },
                }
            },
            None => {
                let effect = Effect::DeleteObject(container.to_owned(), key.to_owned());
                match require::<()>(tape, effect) {
                    Known::Halt(step) => return step,
                    Known::Got(_, tape) => tape,
                }
            },
        };
        Self::finish_delete(&cx.stamp, container, snapshots, tape)
    }

    pub fn handle_blob_crud(cx: &Context, container: &str, key: &str, tape: Tape<'_>) -> (r: Step)
        ensures
            r@ == handle_blob_crud(cx@, container@, key@, tape@),
    {
        let snapshot = cx.req.query_param("snapshot");
        if snapshot.is_some() && cx.req.has_query_param("versionid") {
            return Step::Reply(
                refuse(
                    &cx.stamp,
                    400,
                    "InvalidQueryParameterValue",
                    "The snapshot and versionid parameters cannot be specified together.",
                ),
            );
        }
        match cx.req.method {
            Method::Put => Self::put_blob(cx, container, key, snapshot, tape),
            Method::Get => Self::get_blob(cx, container, key, snapshot, tape),
            Method::Head => Self::head_blob(cx, container, key, snapshot, tape),
            Method::Delete => Self::delete_blob(cx, container, key, snapshot, tape),
            _ => Step::Reply(
                refuse(
                    &cx.stamp,
                    405,
                    "UnsupportedHttpVerb",
                    "Unsupported Azure blob operation",
                ),
            ),
        }
    }

    pub fn handle_blob_comp_request(
        cx: &Context,
        account: &str,
        container: &str,
        key: &str,
        tape: Tape<'_>,
    ) -> (r: Step)
        ensures
            r@ == handle_blob_comp_request(cx@, account@, container@, key@, tape@),
    {
        let put = cx.req.is(Method::Put);
        let comp = match cx.req.query_param("comp") {
            Some(comp) => comp,
            None => return Self::handle_blob_crud(cx, container, key, tape),
        };
        if put && same(comp, "block") {
            Self::put_block(cx, account, container, key, tape)
        } else if put && same(comp, "blocklist") {
            Self::put_block_list(cx, account, container, key, tape)
        } else if put && same(comp, "metadata") {
            Self::update_metadata(cx, container, key, tape)
        } else if cx.req.is(Method::Get) && same(comp, "blocklist") {
            Self::get_block_list(cx, account, container, key, tape)
        } else if put && same(comp, "appendblock") {
            Self::append_block(cx, container, key, tape)
        } else if put && same(comp, "page") {
            Self::put_page(cx, container, key, tape)
        } else {
            Step::Reply(
                refuse(
                    &cx.stamp,
                    501,
                    "FeatureNotSupported",
                    "This Azure blob subresource is not implemented by the emulator.",
                ),
            )
        }
    }

    pub fn handle_blob_request(
        cx: &Context,
        account: &str,
        container: &str,
        key: &str,
        tape: Tape<'_>,
    ) -> (r: Step)
        ensures
            r@ == handle_blob_request(cx@, account@, container@, key@, tape@),
    {
        match Self::unsupported_selected_mutation(&cx.stamp, &cx.req) {
            Some(refusal) => return Step::Reply(refusal),
            None => {},
        }
        let put = cx.req.is(Method::Put);
        if put && cx.req.header("x-ms-copy-source").is_some() {
            return Step::Reply(
                refuse(
                    &cx.stamp,
                    501,
                    "FeatureNotSupported",
                    "Azure copy operations are not implemented by this emulator.",
                ),
            );
        }
        let comp = cx.req.query_param("comp");
        if put && equals(comp, "lease") {
            Self::handle_lease(cx, container, key, tape)
        } else if put && equals(comp, "snapshot") {
            Self::create_snapshot(cx, container, key, tape)
        } else if put && Self::is_immutability_comp(comp) {
            Self::put_immutability_policy(cx, container, key, tape)
        } else if cx.req.is(Method::Delete) && Self::is_immutability_comp(comp) {
            Self::delete_immutability_policy(cx, container, key, tape)
        } else if put && equals(comp, "legalhold") {
            Self::put_legal_hold(cx, container, key, tape)
        } else {
            Self::handle_blob_comp_request(cx, account, container, key, tape)
        }
    }
}

} // verus!
