//! What holds of every request that a registry serves, whatever its front doors are.

use vstd::prelude::*;
use vstd::string::*;
use crate::azure::basics::put_operation_requires_content_length;
use crate::faults::{
    after_view, delay_millis, error_status, mutating, plain, provider_error_view, redirection,
    truncated, with_element, Cut, APPLIED, HEADER,
};
use crate::gcs::adapter::json_upload;
use crate::gcs::basics::is_json_api_request;
use crate::http::{length_mismatch, ContextView, RequestView, ResponseView};
use crate::registry::{
    dispatched, first_head_match, first_match, sent, FrontDoor, ProviderAdapter, ServiceView,
};
use crate::store::{OutcomeView, StepView, TapeView};
use crate::table::{get, get_with, with};
use crate::text::{find_from, find_from_is_place};
use crate::views::Text;

verus! {

/// The front door that serves a request is the first that it is for.
pub proof fn the_first_match_serves<A: ProviderAdapter>(adapters: Seq<A>, req: RequestView)
    ensures
        match first_match(adapters, req, 0) {
            Some(i) => 0 <= i < adapters.len() && adapters[i].accepts(req) && forall|j: int|
                0 <= j < i ==> !(#[trigger] adapters[j]).accepts(req),
            None => forall|j: int|
                0 <= j < adapters.len() ==> !(#[trigger] adapters[j]).accepts(req),
        },
{
    first_match_from(adapters, req, 0);
}

proof fn first_match_from<A: ProviderAdapter>(adapters: Seq<A>, req: RequestView, from: int)
    requires
        0 <= from,
    ensures
        match first_match(adapters, req, from) {
            Some(i) => from <= i < adapters.len() && adapters[i].accepts(req) && forall|j: int|
                from <= j < i ==> !(#[trigger] adapters[j]).accepts(req),
            None => forall|j: int|
                from <= j < adapters.len() ==> !(#[trigger] adapters[j]).accepts(req),
        },
    decreases adapters.len() - from,
{
    if from < adapters.len() && !adapters[from].accepts(req) {
        first_match_from(adapters, req, from + 1);
    }
}

/// The front door that answers for the head of a request is the first that it is for.
pub proof fn the_first_head_match_answers<A: ProviderAdapter>(adapters: Seq<A>, head: RequestView)
    ensures
        match first_head_match(adapters, head, 0) {
            Some(i) => 0 <= i < adapters.len() && adapters[i].accepts_head(head) && forall|j: int|
                0 <= j < i ==> !(#[trigger] adapters[j]).accepts_head(head),
            None => forall|j: int|
                0 <= j < adapters.len() ==> !(#[trigger] adapters[j]).accepts_head(head),
        },
{
    first_head_match_from(adapters, head, 0);
}

proof fn first_head_match_from<A: ProviderAdapter>(adapters: Seq<A>, head: RequestView, from: int)
    requires
        0 <= from,
    ensures
        match first_head_match(adapters, head, from) {
            Some(i) => from <= i < adapters.len() && adapters[i].accepts_head(head) && forall|
                j: int,
            |
                from <= j < i ==> !(#[trigger] adapters[j]).accepts_head(head),
            None => forall|j: int|
                from <= j < adapters.len() ==> !(#[trigger] adapters[j]).accepts_head(head),
        },
    decreases adapters.len() - from,
{
    if from < adapters.len() && !adapters[from].accepts_head(head) {
        first_head_match_from(adapters, head, from + 1);
    }
}

/// Both front doors of this library refuse a body that is not as long as it was declared, and
/// the refusal comes before any question to storage.
pub proof fn wrong_lengths_reach_no_storage<O: ProviderAdapter, S: ProviderAdapter>(
    adapters: Seq<FrontDoor<O, S>>,
    i: int,
    cx: ContextView,
    tape: TapeView,
)
    requires
        length_mismatch(cx.req),
        first_match(adapters, cx.req, 0) == Some(i),
        adapters[i] is Azure || adapters[i] is Gcs,
    ensures
        dispatched(adapters, cx, tape) matches ServiceView::Deliver(delivery)
            && 400 <= delivery.response.status < 500,
{
}

/// A write that has to declare its length and does not is refused before any question to
/// storage.
pub proof fn missing_lengths_reach_no_storage<O: ProviderAdapter, S: ProviderAdapter>(
    adapters: Seq<FrontDoor<O, S>>,
    i: int,
    cx: ContextView,
    tape: TapeView,
)
    requires
        first_match(adapters, cx.req, 0) == Some(i),
        cx.req.header("content-length"@) is None,
        cx.req.header("transfer-encoding"@) is None,
        match adapters[i] {
            FrontDoor::Azure(_) => put_operation_requires_content_length(cx.req),
            FrontDoor::Gcs(_) => json_upload(cx.req) || !is_json_api_request(cx.req),
            _ => false,
        },
    ensures
        dispatched(adapters, cx, tape) matches ServiceView::Deliver(delivery)
            && delivery.response.status == 411,
{
}

/// A redirection or an error that a request asks for is the answer, and comes before any
/// question to storage.
pub proof fn failures_come_before_storage<A: ProviderAdapter>(
    adapters: Seq<A>,
    i: int,
    cx: ContextView,
    name: Text,
    tape: TapeView,
)
    requires
        first_match(adapters, cx.req, 0) == Some(i),
        adapters[i].framing(cx.stamp, cx.req) is None,
        cx.req.header(HEADER@) == Some(name),
        name != "timeout-before-commit"@,
        redirection(name) is Some || error_status(name, adapters[i].name_view()) is Some,
    ensures
        dispatched(adapters, cx, tape) matches ServiceView::Deliver(delivery)
            && delivery.response.status == (match redirection(name) {
            Some(code) => code,
            None => error_status(name, adapters[i].name_view())->0,
        }) && get(delivery.response.headers, APPLIED@) == Some(name) && (redirection(name) is None
            ==> get(delivery.response.headers, "retry-after"@) == Some("1"@)),
{
    let provider = adapters[i].name_view();
    match redirection(name) {
        Some(code) => {
            let headers = with(
                Seq::<(Text, Text)>::empty(),
                "location"@,
                crate::text::or_text(
                    cx.req.header("x-sqrzl-redirect-location"@),
                    "http://127.0.0.1:1/sqrzl-redirect-target"@,
                ),
            );
            get_with(headers, APPLIED@, name, APPLIED@);
        },
        None => {
            reveal_strlit("conditional-request-conflict");
            reveal_strlit("throttle");
            reveal_strlit("transient-500");
            reveal_strlit("transient-502");
            reveal_strlit("transient-503");
            reveal_strlit("transient-504");
            assert("conditional-request-conflict"@.len() == 28 && "throttle"@.len() == 8);
            assert("transient-500"@.len() == 13 && "transient-502"@.len() == 13);
            assert("transient-503"@.len() == 13 && "transient-504"@.len() == 13);
            errors_tell_what_was_applied(
                cx,
                provider,
                error_status(name, provider)->0,
                name,
            );
        },
    }
}

proof fn header_stays(response: ResponseView, name: Text, value: Text, kept: Text)
    requires
        name != kept,
    ensures
        get(response.header(name, value).headers, kept) == get(response.headers, kept),
{
    get_with(response.headers, name, value, kept);
}

proof fn errors_tell_what_was_applied(cx: ContextView, provider: Text, code: u16, name: Text)
    ensures
        ({
            let reply = provider_error_view(cx.stamp, provider, code, name, cx.req);
            &&& reply.status == code
            &&& get(reply.headers, APPLIED@) == Some(name)
            &&& get(reply.headers, "retry-after"@) == Some("1"@)
        }),
{
    reveal_strlit("retry-after");
    reveal_strlit("x-sqrzl-failpoint-applied");
    reveal_strlit("content-type");
    reveal_strlit("x-ms-version");
    reveal_strlit("x-ms-request-id");
    reveal_strlit("date");
    reveal_strlit("x-ms-error-code");
    reveal_strlit("x-ms-client-request-id");
    reveal_strlit("opc-request-id");
    reveal_strlit("opc-client-request-id");
    reveal_strlit("x-amz-request-id");
    reveal_strlit("x-amz-id-2");
    assert("retry-after"@.len() == 11 && APPLIED@.len() == 25);
    assert("content-type"@.len() == 12 && "x-ms-version"@.len() == 12);
    assert("x-ms-request-id"@.len() == 15 && "date"@.len() == 4);
    assert("x-ms-error-code"@.len() == 15 && "x-ms-client-request-id"@.len() == 22);
    assert("opc-request-id"@.len() == 14 && "opc-client-request-id"@.len() == 21);
    assert("x-amz-request-id"@.len() == 16 && "x-amz-id-2"@.len() == 10);
    get_with(Seq::<(Text, Text)>::empty(), "retry-after"@, "1"@, "retry-after"@);
    let first = crate::http::status(code).header("retry-after"@, "1"@);
    get_with(first.headers, APPLIED@, name, APPLIED@);
    header_stays(first, APPLIED@, name, "retry-after"@);
    assert forall|response: ResponseView, other: Text, value: Text|
        other.len() != 11 implies get(
        (#[trigger] response.header(other, value)).headers,
        "retry-after"@,
    ) == get(response.headers, "retry-after"@) by {
        header_stays(response, other, value, "retry-after"@);
    }
    assert forall|response: ResponseView, other: Text, value: Text|
        other.len() != 25 implies get(
        (#[trigger] response.header(other, value)).headers,
        APPLIED@,
    ) == get(response.headers, APPLIED@) by {
        header_stays(response, other, value, APPLIED@);
    }
}

/// Both S3 and Azure Blob throttle by saying that the service is unavailable, and every other
/// front door by saying that there are too many requests.
pub proof fn throttling_is_told_in_two_ways(provider: Text)
    ensures
        error_status("throttle"@, provider) == Some(
            if provider == "s3"@ || provider == "azure-blob"@ {
                503u16
            } else {
                429u16
            },
        ),
{
}

/// A delay that a request asks for changes nothing but the time: behind it, the request is
/// served as it would have been.
pub proof fn delays_change_nothing_else<A: ProviderAdapter>(
    adapters: Seq<A>,
    i: int,
    cx: ContextView,
    woken: Result<(), crate::store::StorageErrorView>,
    tape: TapeView,
)
    requires
        first_match(adapters, cx.req, 0) == Some(i),
        adapters[i].framing(cx.stamp, cx.req) is None,
        cx.req.header(HEADER@) == Some("timeout-before-commit"@),
    ensures
        dispatched(adapters, cx, Seq::empty()) == ServiceView::Perform(
            crate::store::EffectView::Sleep(delay_millis(cx.req) as u64),
        ),
        dispatched(adapters, cx, seq![OutcomeView::Done(woken)] + tape) == sent(
            cx.req,
            adapters[i].serves(cx, tape),
        ),
{
    let all = seq![OutcomeView::Done(woken)] + tape;
    assert(all[0] == OutcomeView::Done(woken));
    assert(all.skip(1) =~= tape);
}

/// What happens after a request was served does not change what is asked of storage.
pub proof fn late_failures_keep_the_effects(req: RequestView, step: StepView)
    ensures
        match step {
            StepView::Perform(effect) => sent(req, step) == ServiceView::Perform(effect),
            StepView::Fail(message) => sent(req, step) == ServiceView::Fail(message),
            StepView::Reply(response) => sent(req, step) == ServiceView::Deliver(
                after_view(req, response),
            ),
        },
{
}

/// A reply is lost or held back only where the request changed something and succeeded; a
/// reply to any other request is sent whole under those two failures.
pub proof fn only_commits_lose_their_reply(req: RequestView, response: ResponseView)
    requires
        !(mutating(req.method) && response.is_success()),
        req.header(HEADER@) == Some("response-loss-after-commit"@) || req.header(HEADER@) == Some(
            "timeout-after-commit"@,
        ),
    ensures
        after_view(req, response) == plain(response),
{
    reveal_strlit("response-loss-after-commit");
    reveal_strlit("timeout-after-commit");
    reveal_strlit("truncate-response");
    reveal_strlit("repeated-pagination-token");
    reveal_strlit("malformed-pagination-token");
    assert("response-loss-after-commit"@.len() == 26);
    assert("timeout-after-commit"@.len() == 20);
    assert("truncate-response"@.len() == 17);
    assert("repeated-pagination-token"@.len() == 25);
    assert("malformed-pagination-token"@.len() == 26);
    assert("response-loss-after-commit"@[0] == 'r');
    assert("malformed-pagination-token"@[0] == 'm');
}

/// A truncated reply has half the body, and declares the length of the whole.
pub proof fn truncation_halves_the_body(response: ResponseView, name: Text)
    requires
        response.body.len() <= usize::MAX,
    ensures
        truncated(response, name).response.body == response.body.take(
            response.body.len() as int / 2,
        ),
        truncated(response, name).cut == Cut::Short(response.body.len() as usize),
{
    assert(truncated(response, name).response.body =~= response.body.take(
        response.body.len() as int / 2,
    ));
}

/// An element whose text is replaced then holds the new text, and everything around it stays.
pub proof fn elements_are_replaced_in_place(text: Text, open: Text, close: Text, value: Text)
    requires
        find_from(text, open, 0) matches Some(start) && (find_from(
            text,
            close,
            start,
        ) matches Some(end) && start + open.len() <= end),
    ensures
        ({
            let start = find_from(text, open, 0)->0;
            let end = find_from(text, close, start)->0;
            let replaced = with_element(text, open, close, value)->0;
            &&& with_element(text, open, close, value) is Some
            &&& replaced.take(start) == text.take(start)
            &&& replaced.subrange(start, start + open.len() + value.len() + close.len()) == open
                + value + close
            &&& replaced.skip((start + open.len() + value.len() + close.len()) as int)
                == text.skip((end + close.len()) as int)
        }),
{
    let start = find_from(text, open, 0)->0;
    let end = find_from(text, close, start)->0;
    find_from_is_place(text, open, 0);
    find_from_is_place(text, close, start);
    let replaced = with_element(text, open, close, value)->0;
    assert(replaced.take(start) =~= text.take(start));
    assert(text.subrange(start, start + open.len()) == open);
    assert(text.subrange(end, end + close.len()) == close);
    assert forall|i: int| 0 <= i < open.len() implies replaced[start + i] == open[i] by {
        assert(text.subrange(start, start + open.len())[i] == text[start + i]);
    }
    assert forall|i: int| 0 <= i < close.len() implies replaced[start + open.len() + value.len() + i]
        == close[i] by {
        assert(text.subrange(end, end + close.len())[i] == text[end + i]);
    }
    assert(replaced.subrange(start, start + open.len() + value.len() + close.len()) =~= open + value
        + close);
    assert(replaced.skip((start + open.len() + value.len() + close.len()) as int) =~= text.skip(
        (end + close.len()) as int,
    ));
}

} // verus!
