//! Failures that a request asks for.

use providers::clock::Stamp;
use providers::faults::{after, before, body_with_page, provider_error, Before, Cut, HEADER};
use providers::http::{HeaderText, Method, Request, Response};
use providers::json::Json;
use providers::table::Table;

fn request_with(method: Method, uri: &str, headers: &[(&str, &str)]) -> Request {
    let uri: http::Uri = uri.parse().expect("URI should parse");
    let mut query = Table::new();
    for part in uri.query().unwrap_or("").split('&').filter(|part| !part.is_empty()) {
        let (name, value) = part.split_once('=').unwrap_or((part, ""));
        query.insert(name, urlencoding::decode(value).expect("query should decode").into_owned());
    }
    Request {
        method,
        verb: match method {
            Method::Put => "PUT".to_string(),
            Method::Delete => "DELETE".to_string(),
            _ => "GET".to_string(),
        },
        path: uri.path().to_string(),
        raw_query: uri.query().map(str::to_string),
        query,
        headers: Table {
            entries: headers
                .iter()
                .map(|(name, value)| {
                    (name.to_string(), HeaderText::Text(value.to_string()))
                })
                .collect(),
        },
        scheme: uri.scheme_str().map(str::to_string),
        origin: "http://localhost".to_string(),
        body: Vec::new(),
    }
}

fn request(uri: &str, failpoint: &str) -> Request {
    request_with(Method::Get, uri, &[(HEADER, failpoint)])
}

fn ok(content_type: &str, body: &str) -> Response {
    Response::new(200)
        .header("content-type", content_type)
        .bytes(body.as_bytes().to_vec())
}

fn body(response: Response) -> String {
    String::from_utf8(response.body).expect("response body should be utf8")
}

fn assert_well_formed_xml(xml: &str) {
    let mut reader = quick_xml::Reader::from_str(xml);
    loop {
        match reader.read_event() {
            Ok(quick_xml::events::Event::Eof) => break,
            Ok(_) => {}
            Err(error) => panic!("rewritten response should be well-formed XML: {error}"),
        }
    }
}

#[test]
fn should_limit_conditional_conflict_to_conditional_put_and_completion_requests() {
    // Arrange
    let conditional_put = request_with(
        Method::Put,
        "http://localhost/bucket/object",
        &[(HEADER, "conditional-request-conflict"), ("if-none-match", "*")],
    );
    let unconditional_delete = request_with(
        Method::Delete,
        "http://localhost/bucket/object",
        &[(HEADER, "conditional-request-conflict")],
    );

    // Act
    let put_result = before(&Stamp::take(), &conditional_put, "s3");
    let delete_result = before(&Stamp::take(), &unconditional_delete, "s3");

    // Assert
    assert!(matches!(put_result, Before::Respond(_)));
    assert!(matches!(delete_result, Before::Continue));
}

#[test]
fn should_rewrite_provider_specific_pagination_tokens() {
    // Arrange
    let cases = [
        (
            "http://localhost/storage/v1/b/bucket/o?pageToken=old",
            r#"{"items":[],"nextPageToken":"new"}"#,
            "nextPageToken",
        ),
        (
            "http://localhost/n/ns/b/bucket/o?start=old",
            r#"{"objects":[],"nextStartWith":"new"}"#,
            "nextStartWith",
        ),
    ];

    // Act
    // Assert
    for (uri, original, field) in cases {
        let req = request(uri, "repeated-pagination-token");
        let rewritten = after(&req, ok("application/json", original));
        let json: serde_json::Value = serde_json::from_str(&body(rewritten.response))
            .expect("rewritten response should be json");
        assert_eq!(json[field], "old");
    }
}

#[test]
fn should_rewrite_s3_v2_continuation_token_and_force_more_pages() {
    // Arrange
    let req = request(
        "http://localhost/bucket?list-type=2&continuation-token=opaque",
        "repeated-pagination-token",
    );
    let response = ok(
        "application/xml",
        "<ListBucketResult><IsTruncated>false</IsTruncated></ListBucketResult>",
    );

    // Act
    let rewritten = after(&req, response);

    // Assert
    let rewritten_body = body(rewritten.response);
    assert!(rewritten_body.contains("<NextContinuationToken>opaque</NextContinuationToken>"));
    assert!(rewritten_body.contains("<IsTruncated>true</IsTruncated>"));
}

#[test]
fn should_keep_injected_xml_pagination_tokens_well_formed() {
    // Arrange
    let cases = [
        (
            "http://localhost/bucket?marker=unsafe%3C%26%3E%22%27",
            "repeated-pagination-token",
            "unsafe&lt;&amp;&gt;&quot;&apos;",
        ),
        (
            "http://localhost/bucket",
            "malformed-pagination-token",
            "%%%not-a-valid-token%%%",
        ),
    ];

    // Act
    // Assert
    for (uri, failpoint, expected_token) in cases {
        let req = request(uri, failpoint);
        let response = ok(
            "application/xml",
            "<ListBucketResult><IsTruncated>false</IsTruncated><NextMarker>old</NextMarker></ListBucketResult>",
        );
        let rewritten = after(&req, response);
        let rewritten_body = body(rewritten.response);
        assert!(rewritten_body.contains(&format!("<NextMarker>{expected_token}</NextMarker>")));
        assert!(rewritten_body.contains("<IsTruncated>true</IsTruncated>"));
        assert_well_formed_xml(&rewritten_body);
    }
}

#[test]
fn should_include_provider_correlation_headers_in_fault_responses() {
    // Arrange
    let azure = request_with(
        Method::Get,
        "http://localhost/account/container/blob",
        &[("x-ms-client-request-id", "azure-client-id")],
    );
    let oci = request_with(
        Method::Get,
        "http://localhost/n/ns/b/bucket/o/object",
        &[("opc-client-request-id", "oci-client-id")],
    );
    let s3 = request("http://localhost/bucket/key", "transient-503");

    // Act
    let azure_response = provider_error(&Stamp::take(), "azure-blob", 503, "transient-503", &azure);
    let oci_response = provider_error(&Stamp::take(), "oci-object", 503, "transient-503", &oci);
    let s3_response = provider_error(&Stamp::take(), "s3", 503, "transient-503", &s3);

    // Assert
    let value = |response: &Response, name: &str| response.headers.get(name).cloned();
    assert!(value(&azure_response, "x-ms-request-id").is_some());
    assert_eq!(value(&azure_response, "x-ms-version").as_deref(), Some("2023-11-03"));
    assert_eq!(
        value(&azure_response, "x-ms-client-request-id").as_deref(),
        Some("azure-client-id")
    );
    assert!(value(&oci_response, "opc-request-id").is_some());
    assert_eq!(
        value(&oci_response, "opc-client-request-id").as_deref(),
        Some("oci-client-id")
    );
    let s3_request_id = value(&s3_response, "x-amz-request-id").expect("S3 request ID");
    let s3_host_id = value(&s3_response, "x-amz-id-2").expect("S3 host ID");
    let s3_body = body(s3_response);
    assert!(s3_body.contains(&format!("<RequestId>{s3_request_id}</RequestId>")));
    assert!(s3_body.contains(&format!("<HostId>{s3_host_id}</HostId>")));
}

#[test]
fn should_pass_requests_that_ask_for_no_failure() {
    let req = request_with(Method::Put, "http://localhost/bucket/object", &[]);
    assert!(matches!(before(&Stamp::take(), &req, "gcs"), Before::Continue));
    let delivery = after(&req, ok("text/plain", "kept"));
    assert_eq!(delivery.pause, 0);
    assert!(matches!(delivery.cut, Cut::Whole));
    assert_eq!(body(delivery.response), "kept");
}

#[test]
fn should_pause_a_second_unless_told_how_long() {
    let silent = request("http://localhost/bucket/object", "timeout-before-commit");
    assert!(matches!(before(&Stamp::take(), &silent, "gcs"), Before::Pause(1000)));
    for (value, expected) in [("250", 250), ("+7", 7), ("soon", 1000), ("-1", 1000)] {
        let req = request_with(
            Method::Get,
            "http://localhost/bucket/object",
            &[(HEADER, "timeout-before-commit"), ("x-sqrzl-failpoint-delay-ms", value)],
        );
        match before(&Stamp::take(), &req, "gcs") {
            Before::Pause(millis) => assert_eq!(millis, expected, "{value}"),
            _ => panic!("a pause was asked for"),
        }
    }
}

#[test]
fn should_redirect_to_the_given_place() {
    let req = request_with(
        Method::Get,
        "http://localhost/bucket/object",
        &[(HEADER, "redirect-308"), ("x-sqrzl-redirect-location", "http://elsewhere/")],
    );
    let Before::Respond(response) = before(&Stamp::take(), &req, "gcs") else {
        panic!("a redirection was asked for");
    };
    assert_eq!(response.status, 308);
    assert_eq!(response.headers.get("location").map(String::as_str), Some("http://elsewhere/"));
}

#[test]
fn should_send_half_of_a_truncated_body() {
    let req = request("http://localhost/bucket/object", "truncate-response");
    let delivery = after(&req, ok("text/plain", "seven77"));
    assert_eq!(
        delivery.response.headers.get("content-length").map(String::as_str),
        Some("7")
    );
    assert_eq!(delivery.response.headers.get("connection").map(String::as_str), Some("close"));
    assert_eq!(body(delivery.response), "sev");
    assert!(matches!(delivery.cut, Cut::Short(7)));
}

#[test]
fn should_keep_the_reply_to_a_refused_or_reading_request() {
    let read = request("http://localhost/bucket/object", "response-loss-after-commit");
    assert!(matches!(after(&read, ok("text/plain", "kept")).cut, Cut::Whole));
    let refused = request_with(
        Method::Put,
        "http://localhost/bucket/object",
        &[(HEADER, "response-loss-after-commit")],
    );
    let delivery = after(&refused, Response::new(404).bytes(b"missing".to_vec()));
    assert!(matches!(delivery.cut, Cut::Whole));
    assert_eq!(body(delivery.response), "missing");
}

#[test]
fn should_name_every_fault_as_its_front_door_does() {
    let json = request("http://localhost/storage/v1/b/bucket", "throttle");
    let xml = request("http://localhost/bucket/object", "throttle");
    for (provider, code, req, expected) in [
        ("azure-blob", 503, &xml, "<Code>ServerBusy</Code>"),
        ("azure-blob", 504, &xml, "<Code>OperationTimedOut</Code>"),
        ("azure-blob", 500, &xml, "<Code>InternalError</Code>"),
        ("gcs", 429, &xml, "<Code>TooManyRequests</Code>"),
        ("gcs", 500, &xml, "<Code>InternalError</Code>"),
        ("gcs", 429, &json, "rateLimitExceeded"),
        ("gcs", 503, &json, "backendError"),
        ("gcs", 500, &json, "internalError"),
        ("oci-object", 429, &xml, "TooManyRequests"),
        ("oci-object", 502, &xml, "BadGateway"),
        ("oci-object", 503, &xml, "ServiceUnavailable"),
        ("oci-object", 504, &xml, "GatewayTimeout"),
        ("oci-object", 500, &xml, "InternalServerError"),
        ("s3", 503, &xml, "<Code>SlowDown</Code>"),
    ] {
        let response = provider_error(&Stamp::take(), provider, code, "throttle", req);
        assert_eq!(response.status, code);
        assert!(body(response).contains(expected), "{provider} {code}");
    }
    for (code, expected) in [
        (504, "<Code>RequestTimeout</Code>"),
        (503, "<Code>ServiceUnavailable</Code>"),
        (500, "<Code>InternalError</Code>"),
    ] {
        let response = provider_error(&Stamp::take(), "s3", code, "transient", &xml);
        assert!(body(response).contains(expected), "{code}");
    }
    assert!(provider_error(&Stamp::take(), "gcs", 502, "transient-502", &json).body.is_empty());
}

#[test]
fn should_replace_only_what_cannot_be_read_when_pages_are_rewritten() {
    // A body that is neither JSON nor XML keeps its text.
    let req = request("http://localhost/bucket?marker=m", "repeated-pagination-token");
    let delivery = after(&req, ok("text/plain", "plain"));
    assert_eq!(delivery.response.headers.get("content-length").map(String::as_str), Some("5"));
    assert_eq!(body(delivery.response), "plain");
    // Bytes that are no text are replaced one by one.
    let delivery = after(&req, Response::new(200).bytes(vec![b'a', 0xff, b'b']));
    assert_eq!(body(delivery.response), "a\u{fffd}b");
}

#[test]
fn should_name_the_page_where_the_body_takes_it() {
    let req = request("http://localhost/bucket", "repeated-pagination-token");
    let page = |text: &str, parsed: Result<Json, String>| body_with_page(&req, text, parsed, "t");
    let fields = vec![
        ("nextPageToken".to_string(), Json::Null),
        ("a".to_string(), Json::Array(vec![Json::Number(1)])),
    ];
    assert_eq!(page("{}", Ok(Json::Object(fields))), r#"{"a":[1],"nextPageToken":"t"}"#);
    assert_eq!(page("[1]", Ok(Json::Array(Vec::new()))), "[1]");
    assert_eq!(page("<a></a>", Ok(Json::Null)), "<a></a>");
    assert_eq!(page("text", Err("no JSON".to_string())), "text");
    assert_eq!(
        page("<a></a>", Err("no JSON".to_string())),
        "<a><NextMarker>t</NextMarker></a>"
    );
    let oracle = request("http://localhost/n/space/b/box/o", "repeated-pagination-token");
    assert_eq!(
        body_with_page(&oracle, "{}", Ok(Json::Object(Vec::new())), "t"),
        r#"{"nextStartWith":"t"}"#
    );
    let array = after(&req, ok("application/json", "[1]"));
    assert_eq!(body(array.response), "[1]");
    let listing = "{\"z\":-1.5,\"y\":[-7,1e+300,0.1],\"nextPageToken\":1}";
    let object = after(&req, ok("application/json", listing));
    assert_eq!(
        body(object.response),
        "{\"nextPageToken\":\"sqrzl-repeated-token\",\"y\":[-7,1e+300,0.1],\"z\":-1.5}"
    );
}

#[test]
fn should_echo_client_identifiers_as_they_came() {
    for (provider, name) in [
        ("azure-blob", "x-ms-client-request-id"),
        ("oci-object", "opc-client-request-id"),
    ] {
        let mut req = request("http://localhost/bucket", "transient-503");
        let plain = provider_error(&Stamp::take(), provider, 503, "transient-503", &req);
        assert!(!plain.headers.has(name) && !plain.raw_headers.has(name));
        req.headers.entries.push((name.to_string(), HeaderText::Raw(vec![b'i', 0xff, 0xe9])));
        let raw = provider_error(&Stamp::take(), provider, 503, "transient-503", &req);
        assert_eq!(raw.raw_headers.get(name).map(Vec::as_slice), Some(&[b'i', 0xff, 0xe9][..]));
        assert!(!raw.headers.has(name));
        // Other front doors send nothing back.
        let gcs = provider_error(&Stamp::take(), "gcs", 503, "transient-503", &req);
        assert!(!gcs.raw_headers.has(name));
    }
}
