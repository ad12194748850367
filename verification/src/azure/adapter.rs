//! The Azure Blob adapter as a whole.

use vstd::prelude::*;
use vstd::string::*;
use crate::azure::AzureBlobAdapter;
use crate::azure::auth::authorize;
use crate::azure::basics::{
    error_response, history_conflict, history_mode_conflict, parse_resource, payload_too_large,
    put_operation_requires_content_length, refuse, refuse_history_mode,
    requested_local_retention_modes, with_client_request_id,
};
use crate::azure::blobs::{bucket_if_known, handle_blob_request};
use crate::azure::containers::{
    handle_account_request, handle_container_request, resolve_container_deletion,
};
use crate::azure::rules::container_not_found_for_blob_request;
use crate::clock::{Stamp, StampView};
use crate::http::{
    length_mismatch, Context, ContextView, Method, Request, RequestView, Response, ResponseView,
};
use crate::number::unsigned;
use crate::store::{
    ask, asked, Asked, AskedView, Blocks, BlocksSlot, Bucket, Effect, EffectView, ErrorKind, Gained,
    KnownView, Outcome, OutcomeView, SessionSlot, Step, StepView, Tape, TapeView,
};
use crate::table::{get, with, without, Copied};
use crate::text::{begins, contains, equals, holds, or_else, or_text, starts_with};
use crate::views::{seen, settled, Text};

verus! {

/// Serves a request.
pub open spec fn handle_request(cx: ContextView, tape: TapeView) -> StepView {
    match parse_resource(cx.req.path) {
        Err(message) => StepView::Reply(error_response(cx.stamp, 400, "InvalidUri"@, message)),
        Ok(resource) => match authorize(cx.stamp, cx.req, cx.auth, resource) {
            Err(refusal) => StepView::Reply(refusal),
            Ok(_) => match resource.container {
                None => handle_account_request(cx, resource.account, tape),
                Some(container) => match resolve_container_deletion(cx, container, tape) {
                    KnownView::Halt(step) => step,
                    KnownView::Got(Some(refusal), _) => StepView::Reply(refusal),
                    KnownView::Got(None, tape) => if cx.req.param("restype"@) == Some(
                        "container"@,
                    ) {
                        admit_container_request(cx, container, tape)
                    } else {
                        match resource.blob {
                            None => StepView::Reply(
                                error_response(
                                    cx.stamp,
                                    400,
                                    "InvalidUri"@,
                                    "Blob requests must include a blob name"@,
                                ),
                            ),
                            Some(blob) => admit_blob_request(
                                cx,
                                resource.account,
                                container,
                                blob,
                                tape,
                            ),
                        }
                    },
                },
            },
        },
    }
}

/// Whether a request would have this front door keep history in a container.
pub open spec fn claims_data_protection(stamp: StampView, req: RequestView) -> Result<
    bool,
    ResponseView,
> {
    if req.method == Method::Put {
        match requested_local_retention_modes(stamp, req) {
            Err(refusal) => Err(refusal),
            Ok((versioning, days)) => Ok(versioning || days is Some),
        }
    } else {
        Ok(req.method == Method::Delete)
    }
}

/// Serves a container request, unless another front door keeps history there and the
/// request would interfere.
pub open spec fn admit_container_request(cx: ContextView, container: Text, tape: TapeView)
    -> StepView {
    match claims_data_protection(cx.stamp, cx.req) {
        Err(refusal) => StepView::Reply(refusal),
        Ok(false) => handle_container_request(cx, container, tape),
        Ok(true) => match bucket_if_known(container, tape) {
            KnownView::Halt(step) => step,
            KnownView::Got(bucket, tape) => if history_conflict(bucket) {
                StepView::Reply(history_mode_conflict(cx.stamp))
            } else {
                handle_container_request(cx, container, tape)
            },
        },
    }
}

/// Serves a blob request, unless its container does not exist, or another front door keeps
/// history there and the request would interfere.
pub open spec fn admit_blob_request(
    cx: ContextView,
    account: Text,
    container: Text,
    blob: Text,
    tape: TapeView,
) -> StepView {
    match asked::<Bucket>(tape, EffectView::GetBucket(container)) {
        AskedView::Halt(step) => step,
        AskedView::Got(Err(error), _) => StepView::Reply(
            if error.kind == ErrorKind::BucketNotFound {
                container_not_found_for_blob_request(cx.stamp, cx.req)
            } else {
                error_response(cx.stamp, 500, "InternalError"@, error.message)
            },
        ),
        AskedView::Got(Ok(_), tape) => match bucket_if_known(container, tape) {
            KnownView::Halt(step) => step,
            KnownView::Got(bucket, tape) => if history_conflict(bucket) && (cx.req.method
                == Method::Put || cx.req.method == Method::Delete || cx.req.param("versionid"@)
                is Some) {
                StepView::Reply(history_mode_conflict(cx.stamp))
            } else {
                handle_blob_request(cx, account, container, blob, tape)
            },
        },
    }
}

/// A step whose reply repeats the client's request identifier.
pub open spec fn identified(id: Option<Text>, step: StepView) -> StepView {
    match step {
        StepView::Reply(response) => StepView::Reply(with_client_request_id(id, response)),
        other => other,
    }
}

/// Serves a request and repeats the client's request identifier.
pub open spec fn handle(cx: ContextView, tape: TapeView) -> StepView {
    identified(cx.req.header("x-ms-client-request-id"@), handle_request(cx, tape))
}

/// Whether a request is for this front door.
pub open spec fn matches(req: RequestView) -> bool {
    req.header("x-ms-version"@) is Some || (req.header("authorization"@) matches Some(value)
        && starts_with(value, "SharedKey "@)) || req.header("x-ms-blob-type"@) is Some
        || req.param("restype"@) is Some || req.param("comp"@) is Some
}

/// Whether the head of a request is for this front door.
pub open spec fn matches_head(head: RequestView) -> bool {
    let query = or_text(head.raw_query, ""@);
    head.has_header("x-ms-version"@) || head.has_header("x-ms-blob-type"@) || starts_with(
        or_text(head.header("authorization"@), ""@),
        "SharedKey "@,
    ) || contains(query, "restype="@) || contains(query, "comp="@)
}

pub open spec fn incomplete_body(stamp: StampView, head: RequestView) -> ResponseView {
    with_client_request_id(
        head.header("x-ms-client-request-id"@),
        error_response(
            stamp,
            400,
            "InvalidHeaderValue"@,
            "The request body ended before the declared Content-Length was received."@,
        ),
    )
}

pub open spec fn too_large(stamp: StampView, head: RequestView, max: int) -> ResponseView {
    with_client_request_id(
        head.header("x-ms-client-request-id"@),
        payload_too_large(stamp, max),
    )
}

/// The refusal of a request whose declared length is missing, malformed or wrong.
pub open spec fn framing(stamp: StampView, req: RequestView) -> Option<ResponseView> {
    let length = req.header("content-length"@);
    let id = req.header("x-ms-client-request-id"@);
    if put_operation_requires_content_length(req) && length is None {
        Some(
            with_client_request_id(
                id,
                error_response(
                    stamp,
                    411,
                    "MissingContentLengthHeader"@,
                    "The Content-Length header was not specified."@,
                ),
            ),
        )
    } else if length is Some && unsigned(length->0, usize::MAX as int) is None {
        Some(
            with_client_request_id(
                id,
                error_response(
                    stamp,
                    400,
                    "InvalidHeaderValue"@,
                    "The value for Content-Length is invalid."@,
                ),
            ),
        )
    } else if length_mismatch(req) {
        Some(
            with_client_request_id(
                id,
                error_response(
                    stamp,
                    400,
                    "InvalidHeaderValue"@,
                    "The value for Content-Length does not match the request body."@,
                ),
            ),
        )
    } else {
        None
    }
}

impl AzureBlobAdapter {
    pub fn handle_request(cx: &Context, tape: Tape<'_>) -> (r: Step)
        ensures
            r@ == handle_request(cx@, tape@),
    {
        let resource = match Self::parse_resource(&cx.req) {
            Ok(resource) => resource,
            Err(message) => return Step::Reply(refuse(&cx.stamp, 400, "InvalidUri", &message)),
        };
        match Self::authorize(&cx.stamp, &cx.req, &cx.auth, &resource) {
            Err(refusal) => return Step::Reply(refusal),
            Ok(()) => {},
        }
        let container = match &resource.container {
            Some(container) => container,
            None => return Self::handle_account_request(cx, &resource.account, tape),
        };
        let (verdict, tape) = match Self::resolve_container_deletion(cx, container, tape) {
            Gained::Halt(step) => return step,
            Gained::Got(verdict, tape) => (verdict, tape),
        };
        match verdict.reply {
            Some(refusal) => return Step::Reply(refusal),
            None => {},
        }
        if equals(cx.req.query_param("restype"), "container") {
            return Self::admit_container_request(cx, container, tape);
        }
        match &resource.blob {
            None => Step::Reply(
                refuse(
                    &cx.stamp,
                    400,
                    "InvalidUri",
                    "Blob requests must include a blob name",
                ),
            ),
            Some(blob) => Self::admit_blob_request(cx, &resource.account, container, blob, tape),
        }
    }

    fn claims_data_protection(stamp: &Stamp, req: &Request) -> (r: Result<bool, Response>)
        ensures
            settled(r) == claims_data_protection(stamp@, req@),
    {
        if req.is(Method::Put) {
            match Self::requested_local_retention_modes(stamp, req) {
                Err(refusal) => Err(refusal),
                Ok((versioning, days)) => Ok(versioning || days.is_some()),
            }
        } else {
            Ok(req.is(Method::Delete))
        }
    }

    fn admit_container_request(cx: &Context, container: &str, tape: Tape<'_>) -> (r: Step)
        ensures
            r@ == admit_container_request(cx@, container@, tape@),
    {
        let claims = match Self::claims_data_protection(&cx.stamp, &cx.req) {
            Ok(claims) => claims,
            Err(refusal) => return Step::Reply(refusal),
        };
        let tape = if claims {
            let (bucket, tape) = match Self::bucket_if_known(container, tape) {
                Gained::Halt(step) => return step,
                Gained::Got(bucket, tape) => (bucket.value, tape),
            };
            if Self::azure_history_conflict(bucket) {
                return Step::Reply(refuse_history_mode(&cx.stamp));
            }
            tape
        } else {
            tape
        };
        Self::handle_container_request(cx, container, tape)
    }

    fn admit_blob_request(
        cx: &Context,
        account: &str,
        container: &str,
        blob: &str,
        tape: Tape<'_>,
    ) -> (r: Step)
        ensures
            r@ == admit_blob_request(cx@, account@, container@, blob@, tape@),
    {
        let tape = match ask::<Bucket>(tape, Effect::GetBucket(container.to_owned())) {
            Asked::Halt(step) => return step,
            Asked::Got(Ok(_), tape) => tape,
            Asked::Got(Err(error), _) => return Step::Reply(
                if error.kind == ErrorKind::BucketNotFound {
                    Self::container_not_found_for_blob_request(&cx.stamp, &cx.req)
                } else {
                    refuse(&cx.stamp, 500, "InternalError", &error.message)
                },
            ),
        };
        let (bucket, tape) = match Self::bucket_if_known(container, tape) {
            Gained::Halt(step) => return step,
            Gained::Got(bucket, tape) => (bucket.value, tape),
        };
        if Self::azure_history_conflict(bucket) && (cx.req.is(Method::Put) || cx.req.is(
            Method::Delete,
        ) || cx.req.has_query_param("versionid")) {
            return Step::Reply(refuse_history_mode(&cx.stamp));
        }
        Self::handle_blob_request(cx, account, container, blob, tape)
    }

    pub fn matches_head(head: &Request) -> (r: bool)
        ensures
            r == matches_head(head@),
    {
        let query = or_else(crate::text::lend(&head.raw_query), "");
        head.has_header("x-ms-version") || head.has_header("x-ms-blob-type") || begins(
            or_else(head.header("authorization"), ""),
            "SharedKey ",
        ) || holds(query, "restype=") || holds(query, "comp=")
    }

    /// The part of the adapter's memory that an effect looks up, where it is such an effect.
    pub fn recall(&self, effect: &Effect) -> (r: Option<Outcome>)
        ensures
            seen(r) == match effect@ {
                EffectView::RecallSession(key) => Some(
                    OutcomeView::Session(Ok(get(self.block_sessions@, key))),
                ),
                EffectView::RecallBlocks(key) => Some(
                    OutcomeView::Blocks(Ok(get(self.committed_blocks@, key))),
                ),
                _ => None,
            },
    {
        match effect {
            Effect::RecallSession(key) => {
                let found = match self.block_sessions.get(key) {
                    Some(session) => Some(session.copied()),
                    None => None,
                };
                Some(Outcome::Session(Ok(SessionSlot { found })))
            },
            Effect::RecallBlocks(key) => {
                let found = match self.committed_blocks.get(key) {
                    Some(blocks) => Some(blocks.copied()),
                    None => None,
                };
                Some(Outcome::Blocks(Ok(BlocksSlot { found })))
            },
            _ => None,
        }
    }

    /// Changes the adapter's memory as an effect asks. Gives no outcome, and changes nothing,
    /// where the effect is about something else.
    pub fn remember(&mut self, effect: &Effect) -> (r: Option<Outcome>)
        ensures
            seen(r) == match effect@ {
                EffectView::RememberSession(_, _) => Some(OutcomeView::Done(Ok(()))),
                EffectView::ForgetSession(_) => Some(OutcomeView::Done(Ok(()))),
                EffectView::RememberBlocks(_, _) => Some(OutcomeView::Done(Ok(()))),
                _ => None,
            },
            final(self).block_sessions@ == match effect@ {
                EffectView::RememberSession(key, session) => with(
                    old(self).block_sessions@,
                    key,
                    session,
                ),
                EffectView::ForgetSession(key) => without(old(self).block_sessions@, key),
                _ => old(self).block_sessions@,
            },
            final(self).committed_blocks@ == match effect@ {
                EffectView::RememberBlocks(key, blocks) => with(
                    old(self).committed_blocks@,
                    key,
                    blocks,
                ),
                _ => old(self).committed_blocks@,
            },
    {
        match effect {
            Effect::RememberSession(key, session) => {
                self.block_sessions.insert(key, session.copied());
            },
            Effect::ForgetSession(key) => {
                self.block_sessions.remove(key);
            },
            Effect::RememberBlocks(key, blocks) => {
                self.committed_blocks.insert(key, blocks.copied());
            },
            _ => {
                return None;
            },
        }
        Some(Outcome::Done(Ok(())))
    }
}

} // verus!
