//! Failures that a request can ask for, to see how clients take them.

use vstd::prelude::*;
use vstd::string::*;
use vstd::utf8::encode_utf8;
use crate::clock::{format_last_modified_at, http_date, Stamp, StampView};
use crate::gcs::GcsAdapter;
use crate::gcs::basics::{error_as_json, error_json, is_json_api_path};
use crate::http::{status, Method, Request, RequestView, Response, ResponseView};
use crate::json::{
    json_parsed, json_text, object_view, parse_json, write_json, Fields, Json, JsonView,
};
use crate::number::{decimal, read_u64, show_usize, unsigned};
use crate::table::{with, Table};
use crate::text::{
    begins, bytes_of, cat3, characters, copy_bytes, cut, escape_xml, find, find_back, find_from,
    find_last, lossy_text, or_else, or_text, read_lossy, same, starts_with, xml,
};
use crate::views::{seen, settled, Text};

verus! {

/// The header that asks for a failure.
pub const HEADER: &'static str = "x-sqrzl-failpoint";

/// The header that tells which failure was applied.
pub const APPLIED: &'static str = "x-sqrzl-failpoint-applied";

/// What to do before a request is served.
pub enum Before {
    /// Go on.
    Continue,
    /// Go on after so many milliseconds.
    Pause(u64),
    /// Do not serve the request; answer with this.
    Respond(Response),
}

/// The same over characters and bytes.
pub enum BeforeView {
    Continue,
    Pause(u64),
    Respond(ResponseView),
}

impl View for Before {
    type V = BeforeView;

    open spec fn view(&self) -> BeforeView {
        match self {
            Before::Continue => BeforeView::Continue,
            Before::Pause(millis) => BeforeView::Pause(*millis),
            Before::Respond(response) => BeforeView::Respond(response@),
        }
    }
}

/// How much of a response's body is sent.
#[derive(Clone, Copy, PartialEq, Eq, Structural, Debug)]
pub enum Cut {
    /// All of it.
    Whole,
    /// The connection ends before the declared byte.
    Lost,
    /// The body, and then the end of the connection, although more bytes were declared.
    Short(usize),
}

/// A response, with the milliseconds to wait before it is sent and how it ends.
pub struct Delivery {
    pub pause: u64,
    pub response: Response,
    pub cut: Cut,
}

/// A delivery over characters and bytes.
pub struct DeliveryView {
    pub pause: u64,
    pub response: ResponseView,
    pub cut: Cut,
}

impl View for Delivery {
    type V = DeliveryView;

    open spec fn view(&self) -> DeliveryView {
        DeliveryView { pause: self.pause, response: self.response@, cut: self.cut }
    }
}

/// A response that is sent as it is.
pub open spec fn plain(response: ResponseView) -> DeliveryView {
    DeliveryView { pause: 0, response, cut: Cut::Whole }
}

pub fn deliver(response: Response) -> (r: Delivery)
    ensures
        r@ == plain(response@),
{
    Delivery { pause: 0, response, cut: Cut::Whole }
}

/// The status that a redirection answers with.
pub open spec fn redirection(name: Text) -> Option<u16> {
    if name == "redirect-301"@ {
        Some(301)
    } else if name == "redirect-302"@ {
        Some(302)
    } else if name == "redirect-303"@ {
        Some(303)
    } else if name == "redirect-307"@ {
        Some(307)
    } else if name == "redirect-308"@ {
        Some(308)
    } else {
        None
    }
}

pub fn redirect_status(name: &str) -> (r: Option<u16>)
    ensures
        r == redirection(name@),
{
    if same(name, "redirect-301") {
        Some(301)
    } else if same(name, "redirect-302") {
        Some(302)
    } else if same(name, "redirect-303") {
        Some(303)
    } else if same(name, "redirect-307") {
        Some(307)
    } else if same(name, "redirect-308") {
        Some(308)
    } else {
        None
    }
}

/// The milliseconds that a request asks to wait; a second where it does not say.
pub open spec fn delay_millis(req: RequestView) -> int {
    match req.header("x-sqrzl-failpoint-delay-ms"@) {
        Some(value) => match unsigned(value, u64::MAX as int) {
            Some(n) => n,
            None => 1000,
        },
        None => 1000,
    }
}

pub fn delay(req: &Request) -> (r: u64)
    ensures
        r == delay_millis(req@),
{
    match req.header("x-sqrzl-failpoint-delay-ms") {
        Some(value) => match read_u64(value) {
            Some(n) => n,
            None => 1000,
        },
        None => 1000,
    }
}

pub open spec fn mutating(method: Method) -> bool {
    method == Method::Put || method == Method::Post || method == Method::Patch || method
        == Method::Delete
}

pub fn is_mutation(method: Method) -> (r: bool)
    ensures
        r == mutating(method),
{
    method == Method::Put || method == Method::Post || method == Method::Patch || method
        == Method::Delete
}

/// Whether a request writes an S3 object under a condition.
pub open spec fn s3_conditional_write(req: RequestView) -> bool {
    (req.header("if-match"@) is Some || req.header("if-none-match"@) is Some) && match req.method {
        Method::Put => req.param("acl"@) is None && req.param("tagging"@) is None && req.param(
            "partNumber"@,
        ) is None && req.header("x-amz-copy-source"@) is None,
        Method::Post => req.param("uploadId"@) is Some,
        _ => false,
    }
}

pub fn is_s3_conditional_write(req: &Request) -> (r: bool)
    ensures
        r == s3_conditional_write(req@),
{
    if req.header("if-match").is_none() && req.header("if-none-match").is_none() {
        return false;
    }
    match req.method {
        Method::Put => !req.has_query_param("acl") && !req.has_query_param("tagging")
            && !req.has_query_param("partNumber") && req.header("x-amz-copy-source").is_none(),
        Method::Post => req.has_query_param("uploadId"),
        _ => false,
    }
}

/// The status of an error that a request asks for, as a front door gives it.
pub open spec fn error_status(name: Text, provider: Text) -> Option<u16> {
    if name == "throttle"@ {
        if provider == "s3"@ || provider == "azure-blob"@ {
            Some(503)
        } else {
            Some(429)
        }
    } else if name == "transient-500"@ {
        Some(500)
    } else if name == "transient-502"@ {
        Some(502)
    } else if name == "transient-503"@ {
        Some(503)
    } else if name == "transient-504"@ {
        Some(504)
    } else {
        None
    }
}

fn error_status_of(name: &str, provider: &str) -> (r: Option<u16>)
    ensures
        r == error_status(name@, provider@),
{
    if same(name, "throttle") {
        if same(provider, "s3") || same(provider, "azure-blob") {
            Some(503)
        } else {
            Some(429)
        }
    } else if same(name, "transient-500") {
        Some(500)
    } else if same(name, "transient-502") {
        Some(502)
    } else if same(name, "transient-503") {
        Some(503)
    } else if same(name, "transient-504") {
        Some(504)
    } else {
        None
    }
}

/// The body of an S3 error.
pub open spec fn s3_error(stamp: StampView, code: Text, message: Text) -> Text {
    "<?xml version=\"1.0\" encoding=\"UTF-8\"?><Error><Code>"@ + code + "</Code><Message>"@
        + message + "</Message><RequestId>"@ + stamp.request_id + "</RequestId><HostId>"@
        + stamp.host_id + "</HostId></Error>"@
}

fn s3_error_of(stamp: &Stamp, code: &str, message: &str) -> (r: String)
    ensures
        r@ == s3_error(stamp@, code@, message@),
{
    let mut body = "<?xml version=\"1.0\" encoding=\"UTF-8\"?><Error><Code>".to_owned();
    body.append(code);
    body.append("</Code><Message>");
    body.append(message);
    body.append("</Message><RequestId>");
    body.append(&stamp.request_id);
    body.append("</RequestId><HostId>");
    body.append(&stamp.host_id);
    body.append("</HostId></Error>");
    body
}

/// What to do before a request is served by a front door.
pub open spec fn before_view(stamp: StampView, req: RequestView, provider: Text) -> BeforeView {
    match req.header(HEADER@) {
        None => BeforeView::Continue,
        Some(name) => if name == "timeout-before-commit"@ {
            BeforeView::Pause(delay_millis(req) as u64)
        } else {
            match redirection(name) {
                Some(code) => BeforeView::Respond(
                    status(code).header(
                        "location"@,
                        or_text(
                            req.header("x-sqrzl-redirect-location"@),
                            "http://127.0.0.1:1/sqrzl-redirect-target"@,
                        ),
                    ).header(APPLIED@, name),
                ),
                None => if name == "conditional-request-conflict"@ && provider == "s3"@
                    && s3_conditional_write(req) {
                    BeforeView::Respond(
                        status(409).content_type("application/xml"@).header(
                            "x-amz-request-id"@,
                            stamp.request_id,
                        ).header("x-amz-id-2"@, stamp.host_id).header(APPLIED@, name).text(
                            s3_error(
                                stamp,
                                "ConditionalRequestConflict"@,
                                "A conflicting conditional operation is currently in progress against this resource. Please try again."@,
                            ),
                        ),
                    )
                } else {
                    match error_status(name, provider) {
                        Some(code) => BeforeView::Respond(
                            provider_error_view(stamp, provider, code, name, req),
                        ),
                        None => BeforeView::Continue,
                    }
                },
            }
        },
    }
}

pub fn before(stamp: &Stamp, req: &Request, provider: &str) -> (r: Before)
    ensures
        r@ == before_view(stamp@, req@, provider@),
{
    let name = match req.header(HEADER) {
        Some(name) => name,
        None => return Before::Continue,
    };
    if same(name, "timeout-before-commit") {
        return Before::Pause(delay(req));
    }
    match redirect_status(name) {
        Some(code) => {
            let location = or_else(
                req.header("x-sqrzl-redirect-location"),
                "http://127.0.0.1:1/sqrzl-redirect-target",
            );
            return Before::Respond(
                Response::new(code).header("location", location).header(APPLIED, name),
            );
        },
        None => {},
    }
    if same(name, "conditional-request-conflict") && same(provider, "s3")
        && is_s3_conditional_write(req) {
        return Before::Respond(
            Response::new(409).content_type("application/xml").header(
                "x-amz-request-id",
                &stamp.request_id,
            ).header("x-amz-id-2", &stamp.host_id).header(APPLIED, name).text(
                &s3_error_of(
                    stamp,
                    "ConditionalRequestConflict",
                    "A conflicting conditional operation is currently in progress against this resource. Please try again.",
                ),
            ),
        );
    }
    match error_status_of(name, provider) {
        Some(code) => Before::Respond(provider_error(stamp, provider, code, name, req)),
        None => Before::Continue,
    }
}

/// What every error that was asked for says.
pub const MESSAGE: &'static str = "Sqrzl deterministic failpoint";

pub open spec fn azure_error_code(code: u16) -> Text {
    if code == 503 {
        "ServerBusy"@
    } else if code == 504 {
        "OperationTimedOut"@
    } else {
        "InternalError"@
    }
}

pub open spec fn oci_error_code(code: u16) -> Text {
    if code == 429 {
        "TooManyRequests"@
    } else if code == 502 {
        "BadGateway"@
    } else if code == 503 {
        "ServiceUnavailable"@
    } else if code == 504 {
        "GatewayTimeout"@
    } else {
        "InternalServerError"@
    }
}

pub open spec fn s3_error_code(name: Text, code: u16) -> Text {
    if name == "throttle"@ {
        "SlowDown"@
    } else if code == 504 {
        "RequestTimeout"@
    } else if code == 503 {
        "ServiceUnavailable"@
    } else {
        "InternalError"@
    }
}

/// The domain and the reason of an error of the JSON API.
pub open spec fn json_error_reason(code: u16) -> (Text, Text) {
    if code == 429 {
        ("usageLimits"@, "rateLimitExceeded"@)
    } else if code == 503 {
        ("global"@, "backendError"@)
    } else {
        ("global"@, "internalError"@)
    }
}

/// An error that a request asked for, in the form of a front door. Every front door but the
/// ones named here answers in the form of S3.
pub open spec fn provider_error_view(
    stamp: StampView,
    provider: Text,
    code: u16,
    name: Text,
    req: RequestView,
) -> ResponseView {
    let base = status(code).header("retry-after"@, "1"@).header(APPLIED@, name);
    let date = http_date(stamp.now.secs, stamp.now.nanos);
    if provider == "azure-blob"@ {
        base.content_type("application/xml"@).header("x-ms-version"@, "2023-11-03"@).header(
            "x-ms-request-id"@,
            stamp.request_id,
        ).header("date"@, date).header("x-ms-error-code"@, azure_error_code(code)).text(
            "<?xml version=\"1.0\" encoding=\"utf-8\"?><Error><Code>"@ + azure_error_code(code)
                + "</Code><Message>"@ + MESSAGE@ + "\nRequestId:"@ + stamp.request_id
                + "</Message></Error>"@,
        ).echo(req, "x-ms-client-request-id"@)
    } else if provider == "gcs"@ && is_json_api_path(req.path) {
        if code == 502 || code == 504 {
            base
        } else {
            base.content_type("application/json"@).text(
                json_text(
                    error_json(
                        json_error_reason(code).0,
                        json_error_reason(code).1,
                        MESSAGE@,
                        code as u64,
                    ),
                ),
            )
        }
    } else if provider == "gcs"@ {
        base.content_type("application/xml"@).text(
            "<?xml version=\"1.0\" encoding=\"UTF-8\"?><Error><Code>"@ + (if code == 429 {
                "TooManyRequests"@
            } else {
                "InternalError"@
            }) + "</Code><Message>"@ + MESSAGE@ + "</Message></Error>"@,
        )
    } else if provider == "oci-object"@ {
        base.content_type("application/json"@).header("opc-request-id"@, stamp.request_id).header(
            "date"@,
            date,
        ).text(
            json_text(
                JsonView::Object(
                    seq![
                        ("code"@, JsonView::Text(oci_error_code(code))),
                        ("message"@, JsonView::Text(MESSAGE@)),
                    ],
                ),
            ),
        ).echo(req, "opc-client-request-id"@)
    } else {
        base.content_type("application/xml"@).header("x-amz-request-id"@, stamp.request_id).header(
            "x-amz-id-2"@,
            stamp.host_id,
        ).text(s3_error(stamp, s3_error_code(name, code), MESSAGE@))
    }
}

pub fn provider_error(stamp: &Stamp, provider: &str, code: u16, name: &str, req: &Request) -> (r:
    Response)
    ensures
        r@ == provider_error_view(stamp@, provider@, code, name@, req@),
{
    let base = Response::new(code).header("retry-after", "1").header(APPLIED, name);
    let date = format_last_modified_at(&stamp.now);
    if same(provider, "azure-blob") {
        let error_code = if code == 503 {
            "ServerBusy"
        } else if code == 504 {
            "OperationTimedOut"
        } else {
            "InternalError"
        };
        let mut body = "<?xml version=\"1.0\" encoding=\"utf-8\"?><Error><Code>".to_owned();
        body.append(error_code);
        body.append("</Code><Message>");
        body.append(MESSAGE);
        body.append("\nRequestId:");
        body.append(&stamp.request_id);
        body.append("</Message></Error>");
        return base.content_type("application/xml").header("x-ms-version", "2023-11-03").header(
            "x-ms-request-id",
            &stamp.request_id,
        ).header("date", &date).header("x-ms-error-code", error_code).text(&body).echo(req, "x-ms-client-request-id");
    }
    if same(provider, "gcs") {
        if GcsAdapter::is_json_api_path(&req.path) {
            if code == 502 || code == 504 {
                return base;
            }
            let (domain, reason) = if code == 429 {
                ("usageLimits", "rateLimitExceeded")
            } else if code == 503 {
                ("global", "backendError")
            } else {
                ("global", "internalError")
            };
            let json = error_as_json(domain, reason, MESSAGE, code as u64);
            return base.content_type("application/json").text(&write_json(json));
        }
        let error_code = if code == 429 {
            "TooManyRequests"
        } else {
            "InternalError"
        };
        let mut body = "<?xml version=\"1.0\" encoding=\"UTF-8\"?><Error><Code>".to_owned();
        body.append(error_code);
        body.append("</Code><Message>");
        body.append(MESSAGE);
        body.append("</Message></Error>");
        return base.content_type("application/xml").text(&body);
    }
    if same(provider, "oci-object") {
        let error_code = if code == 429 {
            "TooManyRequests"
        } else if code == 502 {
            "BadGateway"
        } else if code == 503 {
            "ServiceUnavailable"
        } else if code == 504 {
            "GatewayTimeout"
        } else {
            "InternalServerError"
        };
        let fields = Fields::new().text("code", error_code).text("message", MESSAGE);
        assert(fields@ =~= seq![
            ("code"@, JsonView::Text(error_code@)),
            ("message"@, JsonView::Text(MESSAGE@)),
        ]);
        return base.content_type("application/json").header(
            "opc-request-id",
            &stamp.request_id,
        ).header("date", &date).text(&write_json(fields.object())).echo(req, "opc-client-request-id");
    }
    let error_code = if same(name, "throttle") {
        "SlowDown"
    } else if code == 504 {
        "RequestTimeout"
    } else if code == 503 {
        "ServiceUnavailable"
    } else {
        "InternalError"
    };
    base.content_type("application/xml").header("x-amz-request-id", &stamp.request_id).header(
        "x-amz-id-2",
        &stamp.host_id,
    ).text(&s3_error_of(stamp, error_code, MESSAGE))
}

// ---------------------------------------------------------------------------
// After a request was served

/// A response that ends halfway through its body.
pub open spec fn truncated(response: ResponseView, name: Text) -> DeliveryView {
    let declared = response.body.len();
    DeliveryView {
        pause: 0,
        response: response.header("content-length"@, decimal(declared as int)).header(
            "connection"@,
            "close"@,
        ).header(APPLIED@, name).bytes(response.body.subrange(0, declared as int / 2)),
        cut: Cut::Short(declared as usize),
    }
}

fn truncate(response: Response, name: &str) -> (r: Delivery)
    ensures
        r@ == truncated(response@, name@),
{
    let declared: usize = response.body.len();
    let kept = copy_bytes(
        vstd::slice::slice_subrange(response.body.as_slice(), 0, declared / 2),
    );
    Delivery {
        pause: 0,
        response: response.header("content-length", &show_usize(declared)).header(
            "connection",
            "close",
        ).header(APPLIED, name).bytes(kept),
        cut: Cut::Short(declared),
    }
}

/// The token that a listing is made to end with.
pub open spec fn fault_token(req: RequestView, name: Text) -> Text {
    if name == "malformed-pagination-token"@ {
        "%%%not-a-valid-token%%%"@
    } else {
        or_text(
            first_param(
                req.param("pageToken"@),
                first_param(
                    req.param("marker"@),
                    first_param(
                        req.param("continuation-token"@),
                        first_param(
                            req.param("key-marker"@),
                            first_param(req.param("start"@), req.param("startAfter"@)),
                        ),
                    ),
                ),
            ),
            "sqrzl-repeated-token"@,
        )
    }
}

pub open spec fn first_param(a: Option<Text>, b: Option<Text>) -> Option<Text> {
    match a {
        Some(a) => Some(a),
        None => b,
    }
}

fn first_param_of<'a>(a: Option<&'a str>, b: Option<&'a str>) -> (r: Option<&'a str>)
    ensures
        seen(r) == first_param(seen(a), seen(b)),
{
    match a {
        Some(a) => Some(a),
        None => b,
    }
}

fn fault_token_of<'a>(req: &'a Request, name: &str) -> (r: &'a str)
    ensures
        r@ == fault_token(req@, name@),
{
    if same(name, "malformed-pagination-token") {
        return "%%%not-a-valid-token%%%";
    }
    let start = first_param_of(req.query_param("start"), req.query_param("startAfter"));
    let key_marker = first_param_of(req.query_param("key-marker"), start);
    let continuation = first_param_of(req.query_param("continuation-token"), key_marker);
    let marker = first_param_of(req.query_param("marker"), continuation);
    or_else(first_param_of(req.query_param("pageToken"), marker), "sqrzl-repeated-token")
}

/// The text with what stands behind the first `open`, up to the next `close`, replaced; as it
/// was where there is no `close`, and none where there is no `open`.
pub open spec fn with_element(text: Text, open: Text, close: Text, value: Text) -> Option<Text> {
    match find_from(text, open, 0) {
        None => None,
        Some(start) => match find_from(text, close, start) {
            Some(end) if start + open.len() <= end => Some(
                text.subrange(0, start + open.len()) + value + text.subrange(
                    end,
                    text.len() as int,
                ),
            ),
            _ => Some(text),
        },
    }
}

fn find_after(s: &str, p: &str, from: usize) -> (r: Option<usize>)
    requires
        from <= s@.len(),
    ensures
        match r {
            Some(i) => find_from(s@, p@, from as int) == Some(i as int) && from <= i && i
                + p@.len() <= s@.len(),
            None => find_from(s@, p@, from as int) is None,
        },
{
    let n: usize = characters(s).len();
    let rest = s.substring_char(from, n);
    proof {
        find_in_suffix(s@, p@, from as int, 0);
        crate::text::find_from_is_place(rest@, p@, 0);
    }
    match find(rest, p) {
        Some(i) => Some(from + i),
        None => None,
    }
}

proof fn find_in_suffix(s: Text, p: Text, from: int, i: int)
    requires
        0 <= from <= s.len(),
        0 <= i,
    ensures
        find_from(s, p, from + i) == match find_from(
            s.subrange(from, s.len() as int),
            p,
            i,
        ) {
            Some(k) => Some(from + k),
            None => None,
        },
    decreases s.len() + 1 - i,
{
    let t = s.subrange(from, s.len() as int);
    if i + p.len() <= t.len() {
        assert(t.subrange(i, i + p.len()) =~= s.subrange(from + i, from + i + p.len()));
        if t.subrange(i, i + p.len()) != p {
            find_in_suffix(s, p, from, i + 1);
        }
    }
}

fn replace_element(text: &str, open: &str, close: &str, value: &str) -> (r: Option<String>)
    ensures
        seen(r) == with_element(text@, open@, close@, value@),
{
    let start: usize = match find(text, open) {
        Some(start) => start,
        None => return None,
    };
    let n: usize = characters(text).len();
    let inner: usize = start + characters(open).len();
    match find_after(text, close, start) {
        Some(end) if inner <= end => Some(
            cat3(text.substring_char(0, inner), value, text.substring_char(end, n)),
        ),
        _ => Some(text.to_owned()),
    }
}

/// The element that a listing names its next page in.
pub open spec fn page_element(req: RequestView) -> (Text, Text) {
    if req.param("list-type"@) is Some {
        ("<NextContinuationToken>"@, "</NextContinuationToken>"@)
    } else if req.param("versions"@) is Some {
        ("<NextKeyMarker>"@, "</NextKeyMarker>"@)
    } else {
        ("<NextMarker>"@, "</NextMarker>"@)
    }
}

/// An XML listing that claims to be truncated and names a page.
pub open spec fn paged_xml(req: RequestView, text: Text, token: Text) -> Text {
    let (open, close) = page_element(req);
    let named = match with_element(text, open, close, xml(token)) {
        Some(named) => named,
        None => match find_back(text, "</"@, text.len() as int) {
            Some(end) => text.subrange(0, end) + (open + xml(token) + close) + text.subrange(
                end,
                text.len() as int,
            ),
            None => text,
        },
    };
    or_text(with_element(named, "<IsTruncated>"@, "</IsTruncated>"@, "true"@), named)
}

fn paged_xml_of(req: &Request, text: &str, token: &str) -> (r: String)
    ensures
        r@ == paged_xml(req@, text@, token@),
{
    let (open, close) = if req.has_query_param("list-type") {
        ("<NextContinuationToken>", "</NextContinuationToken>")
    } else if req.has_query_param("versions") {
        ("<NextKeyMarker>", "</NextKeyMarker>")
    } else {
        ("<NextMarker>", "</NextMarker>")
    };
    let escaped = escape_xml(token);
    let named = match replace_element(text, open, close, &escaped) {
        Some(named) => named,
        None => match find_last(text, "</") {
            Some(end) => {
                let n: usize = characters(text).len();
                cat3(
                    text.substring_char(0, end),
                    &cat3(open, &escaped, close),
                    text.substring_char(end, n),
                )
            },
            None => text.to_owned(),
        },
    };
    match replace_element(&named, "<IsTruncated>", "</IsTruncated>", "true") {
        Some(text) => text,
        None => named,
    }
}

/// The field that a JSON listing names its next page in.
pub open spec fn page_field(req: RequestView) -> Text {
    if starts_with(req.path, "/n/"@) {
        "nextStartWith"@
    } else {
        "nextPageToken"@
    }
}

/// A body that names a page, where it is a listing in JSON or XML: what it holds as JSON, where
/// it does, with the page in its field.
pub open spec fn paged_body(
    req: RequestView,
    text: Text,
    parsed: Result<JsonView, Text>,
    token: Text,
) -> Text {
    match parsed {
        Ok(JsonView::Object(fields)) => json_text(
            JsonView::Object(with(fields, page_field(req), JsonView::Text(token))),
        ),
        Ok(_) => text,
        Err(_) => if starts_with(text, "<"@) {
            paged_xml(req, text, token)
        } else {
            text
        },
    }
}

/// The body, given what it holds as JSON.
pub fn body_with_page(req: &Request, text: &str, parsed: Result<Json, String>, token: &str) -> (r:
    String)
    ensures
        r@ == paged_body(req@, text@, settled(parsed), token@),
{
    match parsed {
        Ok(Json::Object(fields)) => {
            proof {
                object_view(fields);
            }
            let field = if begins(&req.path, "/n/") {
                "nextStartWith"
            } else {
                "nextPageToken"
            };
            let mut table = Table { entries: fields };
            table.insert(field, Json::Text(token.to_owned()));
            proof {
                object_view(table.entries);
            }
            write_json(Json::Object(table.entries))
        },
        Ok(_) => text.to_owned(),
        Err(_) => if begins(text, "<") {
            paged_xml_of(req, text, token)
        } else {
            text.to_owned()
        },
    }
}

/// A listing whose next page was replaced.
pub open spec fn repaged(response: ResponseView, req: RequestView, name: Text) -> DeliveryView {
    let token = fault_token(req, name);
    let text = lossy_text(response.body);
    let body = encode_utf8(
        paged_body(req, text, json_parsed(encode_utf8(text)), token),
    );
    plain(
        response.header("content-length"@, decimal(body.len() as int)).header(
            APPLIED@,
            name,
        ).bytes(body),
    )
}

fn rewrite_pagination(response: Response, req: &Request, name: &str) -> (r: Delivery)
    ensures
        r@ == repaged(response@, req@, name@),
{
    let token = fault_token_of(req, name);
    let text = read_lossy(response.body.as_slice());
    let parsed = parse_json(text.as_str().as_bytes());
    let body = bytes_of(&body_with_page(req, &text, parsed, token));
    deliver(
        response.header("content-length", &show_usize(body.len())).header(APPLIED, name).bytes(
            body,
        ),
    )
}

/// How a response to a request is sent.
pub open spec fn after_view(req: RequestView, response: ResponseView) -> DeliveryView {
    match req.header(HEADER@) {
        None => plain(response),
        Some(name) => {
            let committed = mutating(req.method) && response.is_success();
            if name == "timeout-after-commit"@ && committed {
                DeliveryView { pause: delay_millis(req) as u64, response, cut: Cut::Whole }
            } else if name == "response-loss-after-commit"@ && committed {
                DeliveryView {
                    pause: 0,
                    response: response.header("connection"@, "close"@).header(
                        "content-length"@,
                        "1"@,
                    ).header(APPLIED@, name).bytes(Seq::empty()),
                    cut: Cut::Lost,
                }
            } else if name == "truncate-response"@ {
                truncated(response, name)
            } else if name == "repeated-pagination-token"@ || name
                == "malformed-pagination-token"@ {
                repaged(response, req, name)
            } else {
                plain(response)
            }
        },
    }
}

pub fn after(req: &Request, response: Response) -> (r: Delivery)
    ensures
        r@ == after_view(req@, response@),
{
    let name = match req.header(HEADER) {
        Some(name) => name,
        None => return deliver(response),
    };
    let committed = is_mutation(req.method) && response.is_success();
    if same(name, "timeout-after-commit") && committed {
        return Delivery { pause: delay(req), response, cut: Cut::Whole };
    }
    if same(name, "response-loss-after-commit") && committed {
        return Delivery {
            pause: 0,
            response: response.header("connection", "close").header("content-length", "1").header(
                APPLIED,
                name,
            ).bytes(Vec::new()),
            cut: Cut::Lost,
        };
    }
    if same(name, "truncate-response") {
        return truncate(response, name);
    }
    if same(name, "repeated-pagination-token") || same(name, "malformed-pagination-token") {
        return rewrite_pagination(response, req, name);
    }
    deliver(response)
}

} // verus!
