//! The Google Cloud Storage adapter as a whole.

use vstd::prelude::*;
use vstd::string::*;
use crate::clock::{Stamp, StampView};
use crate::gcs::GcsAdapter;
use crate::gcs::basics::{
    error_response, is_gcs_endpoint_host, is_gcs_host, is_json_api_path, is_json_api_request,
    json_error, refuse, refuse_json, reply, response,
};
use crate::gcs::json_api::handle_json_api;
use crate::gcs::uploads::handle_resumable;
use crate::gcs::xml_api::handle_xml_api;
use crate::http::{
    content_length_mismatch, length_mismatch, Context, ContextView, Method, Request, RequestView,
    Response, ResponseView,
};
use crate::store::{
    Effect, EffectView, Outcome, OutcomeView, Step, StepView, Tape, TapeView, UploadSlot,
};
use crate::table::{get, with, without, Copied};
use crate::text::{begins, contains, holds, lowercase, lowered, or_else, or_text, same, starts_with};
use crate::views::seen;

verus! {

/// Serves a request.
pub open spec fn handle_request(cx: ContextView, tape: TapeView) -> StepView {
    let path = cx.req.path;
    if is_json_api_request(cx.req) && (starts_with(path, "/storage/v1/"@) || starts_with(
        path,
        "/download/storage/v1/"@,
    )) {
        handle_json_api(cx, tape)
    } else if is_json_api_request(cx.req) && (starts_with(path, "/upload/storage/v1/b/"@)
        || starts_with(path, "/upload/resumable/"@)) {
        handle_resumable(cx, tape)
    } else {
        handle_xml_api(cx, tape)
    }
}

/// Whether a request is for this front door.
pub open spec fn matches(req: RequestView) -> bool {
    is_gcs_host(req) || (req.header("authorization"@) matches Some(value) && starts_with(
        value,
        "GOOG1 "@,
    )) || req.param("GoogleAccessId"@) is Some || is_json_api_path(req.path)
}

/// Whether the head of a request is for this front door.
pub open spec fn matches_head(head: RequestView) -> bool {
    is_gcs_endpoint_host(or_text(head.header("host"@), ""@)) || starts_with(
        or_text(head.header("authorization"@), ""@),
        "GOOG1 "@,
    ) || contains(or_text(head.raw_query, ""@), "GoogleAccessId="@) || is_json_api_path(head.path)
}

pub open spec fn incomplete_body(stamp: StampView, head: RequestView) -> ResponseView {
    if is_json_api_request(head) {
        json_error(
            stamp,
            400,
            "invalidArgument"@,
            "The request body did not contain the declared number of bytes."@,
        )
    } else {
        error_response(
            stamp,
            400,
            "IncompleteBody"@,
            "The request body did not contain the declared number of bytes."@,
        )
    }
}

/// Whether the end of a body is declared, by a length or by chunks.
pub open spec fn framed(req: RequestView) -> bool {
    req.header("content-length"@) is Some || (req.header("transfer-encoding"@) matches Some(value)
        && lowered(value) == "chunked"@)
}

/// Whether a request of the JSON API uploads content.
pub open spec fn json_upload(req: RequestView) -> bool {
    is_json_api_request(req) && (req.method == Method::Post && starts_with(
        req.path,
        "/upload/storage/v1/"@,
    ) || req.method == Method::Put && starts_with(req.path, "/upload/resumable/"@))
}

/// The refusal of a request whose declared length is missing or wrong.
pub open spec fn framing(stamp: StampView, req: RequestView) -> Option<ResponseView> {
    let json_api = is_json_api_request(req);
    if (json_upload(req) || !json_api) && !framed(req) {
        Some(
            if json_upload(req) {
                response(stamp, 411)
            } else {
                error_response(
                    stamp,
                    411,
                    "MissingContentLength"@,
                    "Content-Length is required unless Transfer-Encoding is chunked."@,
                )
            },
        )
    } else if length_mismatch(req) {
        Some(
            if json_api {
                json_error(
                    stamp,
                    400,
                    "invalidArgument"@,
                    "Content-Length does not match the request body"@,
                )
            } else {
                error_response(
                    stamp,
                    400,
                    "IncompleteBody"@,
                    "Content-Length does not match the request body"@,
                )
            },
        )
    } else {
        None
    }
}

impl GcsAdapter {
    pub fn handle_request(cx: &Context, tape: Tape<'_>) -> (r: Step)
        ensures
            r@ == handle_request(cx@, tape@),
    {
        let path = &cx.req.path;
        if Self::is_json_api_request(&cx.req) {
            if begins(path, "/storage/v1/") || begins(path, "/download/storage/v1/") {
                return Self::handle_json_api(cx, tape);
            }
            if begins(path, "/upload/storage/v1/b/") || begins(path, "/upload/resumable/") {
                return Self::handle_resumable(cx, tape);
            }
        }
        Self::handle_xml_api(cx, tape)
    }

    pub fn matches_head(head: &Request) -> (r: bool)
        ensures
            r == matches_head(head@),
    {
        Self::is_gcs_endpoint_host(or_else(head.header("host"), "")) || begins(
            or_else(head.header("authorization"), ""),
            "GOOG1 ",
        ) || holds(or_else(crate::text::lend(&head.raw_query), ""), "GoogleAccessId=")
            || Self::is_json_api_path(&head.path)
    }

    fn framed(req: &Request) -> (r: bool)
        ensures
            r == framed(req@),
    {
        req.header("content-length").is_some() || match req.header("transfer-encoding") {
            Some(value) => same(&lowercase(value), "chunked"),
            None => false,
        }
    }

    fn json_upload(req: &Request) -> (r: bool)
        ensures
            r == json_upload(req@),
    {
        Self::is_json_api_request(req) && (req.is(Method::Post) && begins(
            &req.path,
            "/upload/storage/v1/",
        ) || req.is(Method::Put) && begins(&req.path, "/upload/resumable/"))
    }

    /// The refusal of a request whose declared length is missing or wrong.
    pub fn framing(stamp: &Stamp, req: &Request) -> (r: Option<Response>)
        ensures
            seen(r) == framing(stamp@, req@),
    {
        let json_api = Self::is_json_api_request(req);
        let json_upload = Self::json_upload(req);
        if (json_upload || !json_api) && !Self::framed(req) {
            return Some(
                if json_upload {
                    reply(stamp, 411)
                } else {
                    refuse(
                        stamp,
                        411,
                        "MissingContentLength",
                        "Content-Length is required unless Transfer-Encoding is chunked.",
                    )
                },
            );
        }
        if content_length_mismatch(req) {
            Some(
                if json_api {
                    refuse_json(
                        stamp,
                        400,
                        "invalidArgument",
                        "Content-Length does not match the request body",
                    )
                } else {
                    refuse(
                        stamp,
                        400,
                        "IncompleteBody",
                        "Content-Length does not match the request body",
                    )
                },
            )
        } else {
            None
        }
    }

    /// Uses the adapter's memory as an effect asks. Gives no outcome, and changes nothing,
    /// where the effect is about something else.
    pub fn remember(&mut self, effect: &Effect) -> (r: Option<Outcome>)
        ensures
            seen(r) == match effect@ {
                EffectView::TakeUpload(id) => Some(
                    OutcomeView::Upload(Ok(get(old(self).resumable_sessions@, id))),
                ),
                EffectView::RememberUpload(_, _) => Some(OutcomeView::Done(Ok(()))),
                _ => None,
            },
            final(self).resumable_sessions@ == match effect@ {
                EffectView::TakeUpload(id) => without(old(self).resumable_sessions@, id),
                EffectView::RememberUpload(id, session) => with(
                    old(self).resumable_sessions@,
                    id,
                    session,
                ),
                _ => old(self).resumable_sessions@,
            },
    {
        match effect {
            Effect::TakeUpload(id) => {
                let found = match self.resumable_sessions.get(id) {
                    Some(session) => Some(session.copied()),
                    None => None,
                };
                self.resumable_sessions.remove(id);
                Some(Outcome::Upload(Ok(UploadSlot { found })))
            },
            Effect::RememberUpload(id, session) => {
                self.resumable_sessions.insert(id, session.copied());
                Some(Outcome::Done(Ok(())))
            },
            _ => None,
        }
    }
}

} // verus!
