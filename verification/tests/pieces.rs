//! The parts that the front doors are made of.

use providers::azure::blocks::{resolve, AzureBlockListError, AzureBlockSelector};
use providers::azure::basics::AzureResource;
use providers::azure::AzureBlobAdapter;
use providers::clock::{
    format_last_modified_at, further_apart, is_within, later_by, millis_of, read_pattern,
    read_rfc2822, read_rfc3339, Instant, Stamp, FIRST_SECOND, LAST_SECOND,
};
use providers::codec::{compute_etag, sign_hmac_base64, sign_hmac_sha1_base64};
use providers::gcs::checks::UploadMetadataError;
use providers::gcs::GcsAdapter;
use providers::http::{
    content_length_mismatch, decode_uri_path, AuthConfig, HeaderText, Method, Request, Response,
};
use providers::json::Json;
use providers::number::{read_i64, read_u64, show};
use providers::order::{before, keep, paged, sort, Filter};
use providers::store::{Blocks, Object, ObjectCondition};
use providers::table::Table;
use providers::text::{
    bytes_of, cut, escape_xml, find_last, lowercase, pieces, text_of, trimmed, trimmed_of,
};
use providers::xml::{read_xml, XmlEvent};

fn request(method: Method, path: &str, query: &[(&str, &str)], headers: &[(&str, &str)]) -> Request {
    let mut table = Table::new();
    for (name, value) in query {
        table.insert(name, value.to_string());
    }
    Request {
        method,
        verb: "GET".to_string(),
        path: path.to_string(),
        raw_query: None,
        query: table,
        headers: Table {
            entries: headers
                .iter()
                .map(|(name, value)| {
                    (name.to_string(), HeaderText::Text(value.to_string()))
                })
                .collect(),
        },
        scheme: None,
        origin: "http://localhost".to_string(),
        body: Vec::new(),
    }
}

fn object(key: &str, data: &[u8]) -> Object {
    Object {
        key: key.to_string(),
        data: data.to_vec(),
        size: data.len() as u64,
        etag: compute_etag(data),
        content_type: "text/plain".to_string(),
        last_modified: Instant { secs: 1_767_323_045, nanos: 0 },
        metadata: Table::new(),
        provider_metadata: Table::new(),
        version_id: None,
    }
}

// ---------------------------------------------------------------------------
// Codes

#[test]
fn should_compute_the_digest_of_a_content() {
    assert_eq!(compute_etag(b"hello"), "5d41402abc4b2a76b9719d911017c592");
    assert_eq!(compute_etag(b""), "d41d8cd98f00b204e9800998ecf8427e");
}

#[test]
fn should_sign_with_either_hash() {
    let text = "The quick brown fox jumps over the lazy dog";
    assert_eq!(sign_hmac_base64(b"key", text), "97yD9DBThCSxMpjmqm+xQ+9NWaFJRhdZl0edvC0aPNg=");
    assert_eq!(sign_hmac_sha1_base64(b"key", text), "3nybhbi3iqa8ino29wqQcBydtNk=");
}

#[test]
fn should_compute_the_standard_checksum_of_castagnoli() {
    assert_eq!(GcsAdapter::crc32c(b"123456789"), 0xe306_9283);
    assert_eq!(GcsAdapter::crc32c(b""), 0);
    assert_eq!(GcsAdapter::encoded_crc32c(b"123456789"), "4waSgw==");
}

#[test]
fn should_read_checksums_of_four_bytes_only() {
    let read = |text: &str| GcsAdapter::parse_crc32c(text, "not base64", "not four");
    assert!(matches!(read("4waSgw=="), Ok(0xe306_9283)));
    assert!(matches!(read("%%"), Err(UploadMetadataError::Invalid(m)) if m == "not base64"));
    assert!(matches!(read("AAAA"), Err(UploadMetadataError::Invalid(m)) if m == "not four"));
}

#[test]
fn should_accept_only_matching_checksums() {
    assert!(GcsAdapter::validate_crc32c(None, b"anything").is_ok());
    assert!(GcsAdapter::validate_crc32c(Some(0xe306_9283), b"123456789").is_ok());
    match GcsAdapter::validate_crc32c(Some(1), b"123456789") {
        Err(UploadMetadataError::ChecksumMismatch(message)) => assert_eq!(
            message,
            "Provided CRC32C \"AAAAAQ==\" does not match calculated CRC32C \"4waSgw==\""
        ),
        _ => panic!("a wrong checksum should be told"),
    }
}

#[test]
fn should_collect_checksums_from_hash_headers() {
    let with = |values: &[&str]| {
        let headers: Vec<(&str, &str)> = values.iter().map(|v| ("x-goog-hash", *v)).collect();
        GcsAdapter::request_crc32c(&request(Method::Put, "/", &[], &headers))
    };
    assert!(matches!(with(&[]), Ok(None)));
    assert!(matches!(with(&["crc32c=4waSgw=="]), Ok(Some(0xe306_9283))));
    assert!(matches!(with(&["crc32c=4waSgw==, CRC32C=4waSgw=="]), Ok(Some(0xe306_9283))));
    assert!(matches!(
        with(&["crc32c=4waSgw==", "crc32c=AAAAAQ=="]),
        Err(UploadMetadataError::Invalid(_))
    ));
    assert!(matches!(with(&["md5=AAAA"]), Err(UploadMetadataError::Unsupported(_))));
    assert!(matches!(with(&["crc32c"]), Err(UploadMetadataError::Invalid(_))));
    assert!(matches!(with(&[" "]), Err(UploadMetadataError::Invalid(_))));
}

#[test]
fn should_read_page_tokens_back() {
    let token = GcsAdapter::encode_page_token("objects", "a/b");
    assert_eq!(
        token,
        "b2JqZWN0cwBhL2IAYTUyNGQwZTBkMThlYWM2MDk1MjNlNDIxNDhkNTdjYjdkNzUxNjA0OTQ5OTg5ODJjNGU2YmI1ZjgzMjMwNDg1NQ"
    );
    assert_eq!(GcsAdapter::decode_page_token("objects", &token).as_deref(), Some("a/b"));
    assert_eq!(GcsAdapter::decode_page_token("buckets", &token), None);
    assert_eq!(GcsAdapter::decode_page_token("objects", &token[1..]), None);
    assert_eq!(GcsAdapter::decode_page_token("objects", "%%%"), None);
    assert_eq!(GcsAdapter::decode_page_token("objects", "not-issued"), None);
}

#[test]
fn should_read_only_the_tokens_that_are_made() {
    let kinds = ["objects", "buckets", "xml-objects", ""];
    for marker in ["", "a", "ab", "abc", "a/b c"] {
        for kind in kinds {
            let token = GcsAdapter::encode_page_token(kind, marker);
            for other in kinds {
                let read = GcsAdapter::decode_page_token(other, &token);
                assert_eq!(read.as_deref(), if other == kind { Some(marker) } else { None });
            }
            assert_eq!(GcsAdapter::decode_page_token(kind, &format!("{token}=")), None);
            // The bits behind the last byte are not free.
            let last = token.chars().last().unwrap();
            let rest = &token[..token.len() - 1];
            for symbol in ('A'..='Z').chain('a'..='z').chain('0'..='9').filter(|s| *s != last) {
                let near = format!("{rest}{symbol}");
                assert_eq!(GcsAdapter::decode_page_token(kind, &near), None);
            }
        }
    }
}

#[test]
fn should_decode_paths_once() {
    assert_eq!(decode_uri_path("a%2Fb%20c").as_deref(), Some("a/b c"));
    assert_eq!(decode_uri_path("%2525").as_deref(), Some("%25"));
    assert_eq!(decode_uri_path("bad%2"), None);
    assert_eq!(decode_uri_path("bad%zz"), None);
    assert_eq!(decode_uri_path("%ff"), None);
}

#[test]
fn should_canonicalize_queries_by_decoded_lower_case_names() {
    let mut req = request(Method::Get, "/account/container", &[], &[]);
    req.raw_query = Some("B=%2F2&b=1&%C3%84=x&&flag".to_string());
    assert_eq!(
        AzureBlobAdapter::canonicalized_resource(&req, "account"),
        "/account/account/container\nb:/2,1\nflag:\n\u{e4}:x"
    );
}

#[test]
fn should_keep_percent_signs_that_escape_nothing() {
    let canonical = |query: &str| {
        let mut req = request(Method::Get, "/account/container", &[], &[]);
        req.raw_query = Some(query.to_string());
        AzureBlobAdapter::canonicalized_resource(&req, "account")
    };
    for (query, value) in [
        ("a=%41%61", "Aa"),
        ("a=%", "%"),
        ("a=%4", "%4"),
        ("a=%%41", "%A"),
        ("a=%4%41", "%4A"),
        ("a=%zz", "%zz"),
        ("a=%4z", "%4z"),
        ("a=b+c", "b+c"),
        // Bytes that are no text leave the value as it is.
        ("a=%ff%41", "%ff%41"),
    ] {
        assert_eq!(canonical(query), format!("/account/account/container\na:{value}"), "{query}");
    }
}

#[test]
fn should_read_base64_in_its_one_form() {
    let config = |secret: &str| AuthConfig {
        access_key_id: Some("id".to_string()),
        secret_access_key: Some(secret.to_string()),
        enforce_auth: true,
    };
    let read = |secret: &str| AzureBlobAdapter::shared_key_secret(&config(secret)).unwrap();
    assert_eq!(read("++//"), [0xfb, 0xef, 0xff]);
    assert_eq!(read("AAECAw=="), [0, 1, 2, 3]);
    // Without its padding, with too much of it, or with bits left over it is taken as it is.
    for text in ["AA", "AAA==", "AB==", "AAB=", "--__", "A===", "AA==AA=="] {
        assert_eq!(read(text), text.as_bytes(), "{text}");
    }
    assert_eq!(GcsAdapter::encode_checksum(0), "AAAAAA==");
    assert_eq!(GcsAdapter::encode_checksum(0xfbef_ff3e), "++//Pg==");
}

#[test]
fn should_find_places_in_the_bytes_of_tokens() {
    let token = |kind: &str, marker: &str| {
        let token = GcsAdapter::encode_page_token(kind, marker);
        base64::Engine::decode(&base64::engine::general_purpose::URL_SAFE_NO_PAD, token).unwrap()
    };
    let bytes = token("objects", "a/b");
    assert_eq!(bytes.len(), 7 + 3 + 66);
    assert_eq!(GcsAdapter::marker_in("objects", Some(bytes.clone())).as_deref(), Some("a/b"));
    assert_eq!(GcsAdapter::marker_in("buckets", Some(bytes.clone())), None);
    assert_eq!(GcsAdapter::marker_in("objects", Some(bytes[..75].to_vec())), None);
    assert_eq!(GcsAdapter::marker_in("objects", Some(token("objects", "a\0b"))), None);
    assert_eq!(GcsAdapter::marker_in("objects", Some(vec![0x9e, 0x8b])), None);
    assert_eq!(GcsAdapter::marker_in("objects", None), None);
    // The shortest token there is.
    assert_eq!(GcsAdapter::encode_page_token("", "").len(), 88);
}

#[test]
fn should_measure_identifiers_of_blocks() {
    for (decoded, size) in [
        (None, None),
        (Some(Vec::new()), None),
        (Some(vec![0; 1]), Some(1)),
        (Some(vec![0; 64]), Some(64)),
        (Some(vec![0; 65]), None),
    ] {
        assert_eq!(AzureBlobAdapter::id_size(decoded), size);
    }
}

#[test]
fn should_take_keys_in_base64_or_as_they_are() {
    let config = |secret: &str| AuthConfig {
        access_key_id: Some("id".to_string()),
        secret_access_key: Some(secret.to_string()),
        enforce_auth: true,
    };
    assert_eq!(AzureBlobAdapter::shared_key_secret(&config("aGk=")), Some(b"hi".to_vec()));
    assert_eq!(AzureBlobAdapter::shared_key_secret(&config("not-base64!")), Some(b"not-base64!".to_vec()));
    assert_eq!(
        GcsAdapter::sign(&config("key"), "The quick brown fox jumps over the lazy dog").unwrap(),
        "3nybhbi3iqa8ino29wqQcBydtNk="
    );
}

// ---------------------------------------------------------------------------
// Moments

const MOMENT: Instant = Instant { secs: 1_767_323_045, nanos: 6_789_000 };

#[test]
fn should_write_moments() {
    assert_eq!(format_last_modified_at(&MOMENT), "Fri, 02 Jan 2026 03:04:05 GMT");
    assert_eq!(GcsAdapter::next_gcs_updated(&MOMENT, None), "2026-01-02T03:04:05.006Z");
    assert_eq!(millis_of(&MOMENT), 1_767_323_045_006);
}

#[test]
fn should_read_moments() {
    let seconds = |at: Option<Instant>| at.map(|at| (at.secs, at.nanos));
    assert_eq!(
        seconds(read_rfc2822("Fri, 02 Jan 2026 03:04:05 GMT")),
        Some((1_767_323_045, 0))
    );
    assert_eq!(
        seconds(read_rfc3339("2026-01-02T04:04:05.5+01:00")),
        Some((1_767_323_045, 500_000_000))
    );
    assert_eq!(
        seconds(read_pattern("2026-01-02 03:04:05 +0000", "%Y-%m-%d %H:%M:%S %z")),
        Some((1_767_323_045, 0))
    );
    assert_eq!(seconds(read_rfc2822("soon")), None);
    assert_eq!(seconds(read_rfc3339("soon")), None);
    assert_eq!(seconds(read_pattern("soon", "%Y")), None);
}

#[test]
fn should_add_and_compare_moments() {
    let next = later_by(&MOMENT, 994).expect("there is a later moment");
    assert_eq!((next.secs, next.nanos), (1_767_323_046, 789_000));
    assert!(next.after(&MOMENT));
    assert!(!MOMENT.after(&MOMENT));
    assert!(later_by(&MOMENT, i64::MAX).is_none());
    let quarter = later_by(&MOMENT, 15 * 60 * 1000).unwrap();
    assert!(!further_apart(&MOMENT, &quarter, 15));
    assert!(further_apart(&MOMENT, &later_by(&quarter, 1).unwrap(), 15));
    assert!(is_within(&next, &MOMENT, 1));
    assert!(!is_within(&later_by(&MOMENT, 1000).unwrap(), &MOMENT, 1));
}

#[test]
fn should_tell_moments_up_to_the_bounds_of_the_calendar() {
    let first = Instant { secs: FIRST_SECOND, nanos: 0 };
    let last = Instant { secs: LAST_SECOND, nanos: 999_999_999 };
    assert!(format_last_modified_at(&first).ends_with(", 01 Jan -262143 00:00:00 GMT"));
    assert!(format_last_modified_at(&last).ends_with(", 31 Dec +262142 23:59:59 GMT"));
    assert!(format_last_modified_at(&Instant { secs: FIRST_SECOND - 1, nanos: 0 }).is_empty());
    assert!(format_last_modified_at(&Instant { secs: LAST_SECOND + 1, nanos: 0 }).is_empty());
    assert!(later_by(&last, 1).is_none());
    assert!(later_by(&first, -1).is_none());
    assert!(later_by(&MOMENT, i64::MIN).is_none());
    assert_eq!(later_by(&last, 0).map(|at| at.secs), Some(LAST_SECOND));
    assert!(is_within(&Instant { secs: LAST_SECOND + 1, nanos: 0 }, &MOMENT, 0));
    assert!(!is_within(&MOMENT, &first, 1));
}

#[test]
fn should_move_updates_on_by_a_millisecond_at_least() {
    let same = GcsAdapter::next_gcs_updated(&MOMENT, Some("2026-01-02T03:04:05.006Z"));
    assert_eq!(same, "2026-01-02T03:04:05.007Z");
    let past = GcsAdapter::next_gcs_updated(&MOMENT, Some("2026-01-02T03:04:05.005Z"));
    assert_eq!(past, "2026-01-02T03:04:05.006Z");
    let unreadable = GcsAdapter::next_gcs_updated(&MOMENT, Some("earlier"));
    assert_eq!(unreadable, "2026-01-02T03:04:05.006Z");
}

#[test]
fn should_stamp_requests_apart() {
    let (a, b) = (Stamp::take(), Stamp::take());
    assert_ne!(a.request_id, b.request_id);
    assert_ne!(a.fresh_id, b.fresh_id);
    assert_ne!(a.fresh_tag, b.fresh_tag);
    assert_ne!(a.request_id, a.host_id);
    assert_eq!(a.fresh_id.len(), 36);
    assert_eq!(a.fresh_tag.len(), 32);
    assert!(a.now.secs > MOMENT.secs);
}

// ---------------------------------------------------------------------------
// Who may ask

#[test]
fn should_accept_requests_from_the_last_quarter_of_an_hour() {
    let check = |raw: Option<&str>, date: Option<Instant>| {
        AzureBlobAdapter::check_request_date(&MOMENT, raw, date)
    };
    assert_eq!(check(None, None), Err("Missing required Azure request date".to_string()));
    assert_eq!(check(Some("soon"), None), Err("Invalid Azure request date".to_string()));
    assert_eq!(check(Some("date"), later_by(&MOMENT, -15 * 60 * 1000)), Ok(()));
    assert_eq!(
        check(Some("date"), later_by(&MOMENT, -15 * 60 * 1000 - 1)),
        Err("Azure request date is outside the permitted 15 minute window".to_string())
    );
}

#[test]
fn should_compare_shared_key_signatures() {
    let check = |header: &str, expected: Option<&str>| {
        let req = request(Method::Get, "/", &[], &[("authorization", header)]);
        AzureBlobAdapter::check_shared_key(&req, "account", Ok(()), expected)
    };
    assert_eq!(check("SharedKey account:sig", Some("sig")), Ok(()));
    assert_eq!(
        check("SharedKey account:sig", Some("other")),
        Err("Azure shared key signature mismatch".to_string())
    );
    assert_eq!(check("SharedKey account:sig", None), Err("Missing Azure shared key".to_string()));
    assert_eq!(
        check("SharedKey other:sig", Some("sig")),
        Err("Unsupported Azure authorization scheme".to_string())
    );
    let bare = request(Method::Get, "/", &[], &[]);
    assert_eq!(
        AzureBlobAdapter::check_shared_key(&bare, "account", Ok(()), Some("sig")),
        Err("Missing Authorization header".to_string())
    );
    assert_eq!(
        AzureBlobAdapter::check_shared_key(&bare, "account", Err("late".to_string()), Some("sig")),
        Err("late".to_string())
    );
}

#[test]
fn should_hold_shared_access_signatures_to_what_they_allow() {
    let blob = AzureResource {
        account: "account".to_string(),
        container: Some("box".to_string()),
        blob: Some("blob".to_string()),
    };
    let later = later_by(&MOMENT, 1000);
    let earlier = later_by(&MOMENT, -1000);
    let check = |method: Method, query: &[(&str, &str)], expiry, start, expected| {
        let req = request(method, "/", query, &[]);
        AzureBlobAdapter::check_sas(&MOMENT, &req, &blob, expiry, start, expected)
    };
    let query = [("sig", "s"), ("se", "e"), ("sp", "rd"), ("sr", "b"), ("st", "t")];
    let ok = Some("s");
    assert_eq!(check(Method::Get, &query, later, earlier, ok), Ok(()));
    let refused = |result: Result<(), String>| result.err().unwrap_or_default();
    assert_eq!(refused(check(Method::Get, &[], later, earlier, ok)), "Missing SAS signature");
    assert_eq!(refused(check(Method::Get, &query[..1], later, earlier, ok)), "Missing SAS expiry");
    assert_eq!(refused(check(Method::Get, &query, None, earlier, ok)), "Invalid SAS expiry");
    assert_eq!(refused(check(Method::Get, &query, earlier, earlier, ok)), "SAS token has expired");
    assert_eq!(refused(check(Method::Get, &query, later, None, ok)), "Invalid SAS start time");
    assert_eq!(refused(check(Method::Get, &query, later, later, ok)), "SAS token is not valid yet");
    assert_eq!(
        refused(check(Method::Put, &query, later, earlier, ok)),
        "SAS token lacks required 'w' permission"
    );
    assert_eq!(
        refused(check(Method::Patch, &query, later, earlier, ok)),
        "SAS token does not permit this method"
    );
    assert_eq!(
        refused(check(Method::Get, &query[..3], later, earlier, ok)),
        "SAS resource scope does not match the request"
    );
    assert_eq!(refused(check(Method::Get, &query, later, earlier, None)), "Missing Azure shared key");
    assert_eq!(
        refused(check(Method::Get, &query, later, earlier, Some("other"))),
        "Azure SAS signature mismatch"
    );
    let mut plain = request(Method::Get, "/", &query, &[]);
    plain.query.insert("spr", "https".to_string());
    plain.scheme = Some("http".to_string());
    assert_eq!(
        refused(AzureBlobAdapter::check_sas(&MOMENT, &plain, &blob, later, earlier, ok)),
        "SAS token requires HTTPS"
    );
}

#[test]
fn should_never_weaken_a_locked_policy() {
    let mut blob = object("k", b"1");
    let (sooner, until, later) =
        (later_by(&MOMENT, 1).unwrap(), later_by(&MOMENT, 2).unwrap(), later_by(&MOMENT, 3).unwrap());
    assert!(!AzureBlobAdapter::weakens_lock(&blob, None, &sooner, "Unlocked"));
    blob.provider_metadata.insert("azure_immutability_mode", "Locked".to_string());
    assert!(AzureBlobAdapter::weakens_lock(&blob, Some(until), &sooner, "Locked"));
    assert!(AzureBlobAdapter::weakens_lock(&blob, Some(until), &later, "Unlocked"));
    assert!(AzureBlobAdapter::weakens_lock(&blob, None, &later, "Locked"));
    assert!(!AzureBlobAdapter::weakens_lock(&blob, Some(until), &until, "Locked"));
    assert!(!AzureBlobAdapter::weakens_lock(&blob, Some(until), &later, "Locked"));
}

#[test]
fn should_take_policies_for_the_future_only() {
    let stamp = Stamp::take();
    let policy = |headers: &[(&str, &str)], at: Option<Instant>| {
        AzureBlobAdapter::check_policy(&stamp, &request(Method::Put, "/", &[], headers), at)
            .map(|(_, at, mode)| (at.secs, mode.to_string()))
            .map_err(|refusal| refusal.status)
    };
    let until = ("x-ms-immutability-policy-until-date", "date");
    let future = later_by(&stamp.now, 1000);
    let secs = future.map_or(0, |at| at.secs);
    assert_eq!(policy(&[until], future), Ok((secs, "Unlocked".to_string())));
    assert_eq!(
        policy(&[until, ("x-ms-immutability-policy-mode", "Locked")], future),
        Ok((secs, "Locked".to_string()))
    );
    assert_eq!(policy(&[until, ("x-ms-immutability-policy-mode", "Open")], future), Err(400));
    assert_eq!(policy(&[until], Some(stamp.now)), Err(400));
    assert_eq!(policy(&[until], None), Err(400));
    assert_eq!(policy(&[], future), Err(400));
}

// ---------------------------------------------------------------------------
// Texts, numbers and lists

#[test]
fn should_read_numbers_as_the_standard_library_does() {
    for text in ["0", "7", "+7", "18446744073709551615", "18446744073709551616", "-1", "", "+", "1 "] {
        assert_eq!(read_u64(text), text.parse::<u64>().ok(), "{text}");
    }
    for text in ["-9223372036854775808", "9223372036854775807", "9223372036854775808", "-0", "-", "+5"] {
        assert_eq!(read_i64(text), text.parse::<i64>().ok(), "{text}");
    }
    for n in [0, 9, 10, 18_446_744_073_709_551_615] {
        assert_eq!(show(n), n.to_string());
    }
}

#[test]
fn should_cut_and_trim_texts() {
    assert_eq!(cut("a=b=c", "="), Some(("a", "b=c")));
    assert_eq!(cut("abc", "="), None);
    assert_eq!(trimmed("\u{3000} a b\t"), "a b");
    assert_eq!(trimmed_of("\"\"tag\"", '"'), "tag");
    assert_eq!(pieces("a//b", '/'), vec!["a", "", "b"]);
    assert_eq!(lowercase("ABC\u{c4}"), "abc\u{c4}");
    assert_eq!(find_last("<a></a></b>", "</"), Some(7));
    assert_eq!(find_last("abc", "</"), None);
}

#[test]
fn should_write_and_read_utf8() {
    assert_eq!(bytes_of("\u{e4}"), vec![0xc3, 0xa4]);
    assert_eq!(text_of(&[0xc3, 0xa4]).as_deref(), Some("\u{e4}"));
    assert_eq!(text_of(&[0xc3]), None);
}

#[test]
fn should_escape_what_delimits_xml() {
    let written = escape_xml("<a href=\"x\">'&'</a>");
    assert_eq!(written, "&lt;a href=&quot;x&quot;&gt;&apos;&amp;&apos;&lt;/a&gt;");
    assert!(!written.contains(['<', '>', '"', '\'']));
}

#[test]
fn should_keep_one_value_for_each_name() {
    let mut table = Table::new();
    table.insert("a", "1".to_string());
    table.insert("b", "2".to_string());
    table.insert("a", "3".to_string());
    assert_eq!(table.get("a").map(String::as_str), Some("3"));
    assert_eq!(table.entries.len(), 2);
    table.remove("a");
    assert!(table.get("a").is_none());
    assert_eq!(table.get("b").map(String::as_str), Some("2"));
}

#[test]
fn should_list_names_in_order_and_in_pages() {
    let names = |texts: &[&str]| texts.iter().map(|t| t.to_string()).collect::<Vec<String>>();
    assert!(before("a", "b") && before("a", "aa") && !before("b", "a") && !before("a", "a"));
    let all = sort(names(&["c", "a", "d", "b"]));
    assert_eq!(all, names(&["a", "b", "c", "d"]));
    let (first, next) = paged(all.clone(), 2);
    assert_eq!(first, names(&["a", "b"]));
    assert_eq!(next.as_deref(), Some("c"));
    assert_eq!(keep(all.clone(), &Filter::From("c")), names(&["c", "d"]));
    assert_eq!(keep(all.clone(), &Filter::After("b")), names(&["c", "d"]));
    let (last, none) = paged(keep(all, &Filter::From("c")), 2);
    assert_eq!(last, names(&["c", "d"]));
    assert_eq!(none, None);
    assert_eq!(keep(names(&["a/b", "c"]), &Filter::Under("a/")), names(&["a/b"]));
    assert_eq!(keep(names(&["a/b", "c"]), &Filter::Outside("a/")), names(&["c"]));
}

#[test]
fn should_tell_when_a_body_is_not_as_long_as_declared() {
    let declared = |value: &str| {
        let mut req = request(Method::Put, "/", &[], &[("content-length", value)]);
        req.body = b"four".to_vec();
        content_length_mismatch(&req)
    };
    assert!(!declared("4"));
    assert!(declared("5"));
    assert!(!declared("many"));
}

#[test]
fn should_replace_headers_of_one_name() {
    let response = Response::new(200).header("etag", "a").header("etag", "b").text("x");
    assert_eq!(response.headers.get("etag").map(String::as_str), Some("b"));
    assert_eq!(response.headers.entries.len(), 1);
    assert!(response.is_success());
    assert!(!Response::new(304).is_success());
}

// ---------------------------------------------------------------------------
// Documents

#[test]
fn should_read_xml_up_to_where_it_breaks() {
    let events = read_xml("<?xml version=\"1.0\"?><a> x <b/></a>");
    assert!(matches!(&events[0], XmlEvent::Decl));
    assert!(matches!(&events[1], XmlEvent::Start(name) if name == b"a"));
    assert!(matches!(&events[2], XmlEvent::Text(Some(text)) if text == "x"));
    assert!(matches!(&events[3], XmlEvent::Empty));
    assert!(matches!(&events[4], XmlEvent::End(name) if name == b"a"));
    assert_eq!(events.len(), 5);
    let events = read_xml("<!DOCTYPE a><!-- c --><?p q?><a>&amp;<![CDATA[ d ]]></a>");
    assert!(matches!(&events[0], XmlEvent::DocType));
    assert!(matches!(&events[1], XmlEvent::Comment));
    assert!(matches!(&events[2], XmlEvent::Instruction));
    assert!(matches!(&events[3], XmlEvent::Start(name) if name == b"a"));
    assert!(matches!(&events[4], XmlEvent::Reference));
    assert!(matches!(&events[5], XmlEvent::CData(Some(text)) if text == " d "));
    let broken = read_xml("<a></b>");
    assert!(matches!(broken.last(), Some(XmlEvent::Broken)));
}

fn refused(xml: &str) -> Option<AzureBlockListError> {
    AzureBlobAdapter::parse_block_list(xml).err()
}

#[test]
fn should_read_block_lists() {
    let list = AzureBlobAdapter::parse_block_list(
        "<BlockList><!-- c --><Latest>YQ==</Latest><Committed> Yg== </Committed>\
         <Uncommitted><![CDATA[Yw==]]></Uncommitted></BlockList>",
    )
    .unwrap_or_else(|_| panic!("the list should be read"));
    let entries: Vec<(&str, AzureBlockSelector)> =
        list.iter().map(|entry| (entry.id.as_str(), entry.selector)).collect();
    assert_eq!(
        entries,
        vec![
            ("YQ==", AzureBlockSelector::Latest),
            ("Yg==", AzureBlockSelector::Committed),
            ("Yw==", AzureBlockSelector::Uncommitted),
        ]
    );
}

#[test]
fn should_tell_broken_block_lists_from_wrong_ones() {
    for xml in [
        "",
        "<BlockList></BlockList>",
        "<Other><Latest>YQ==</Latest></Other>",
        "<BlockList><Latest></Latest></BlockList>",
        "<BlockList>text</BlockList>",
        "<BlockList><Newest>YQ==</Newest></BlockList>",
        "<BlockList><Latest/></BlockList>",
    ] {
        assert!(
            matches!(refused(xml), Some(AzureBlockListError::InvalidBlockList)),
            "{xml}"
        );
    }
    for xml in ["<BlockList>", "<BlockList><Latest>YQ==", "<BlockList><Latest>YQ==</Committed>"] {
        assert!(
            matches!(refused(xml), Some(AzureBlockListError::InvalidXmlDocument)),
            "{xml}"
        );
    }
}

#[test]
fn should_resolve_blocks_from_where_their_entries_say() {
    let mut staged = Table::new();
    staged.insert("YQ==", b"staged a".to_vec());
    let committed = Blocks {
        items: vec![
            ("YQ==".to_string(), b"committed a".to_vec()),
            ("Yg==".to_string(), b"committed b".to_vec()),
        ],
    };
    let list = |xml: &str| {
        AzureBlobAdapter::parse_block_list(&format!("<BlockList>{xml}</BlockList>"))
            .unwrap_or_else(|_| panic!("the list should be read"))
    };
    let contents = |xml: &str| {
        resolve(&list(xml), &staged, &committed).map(|blocks| {
            blocks
                .items
                .into_iter()
                .map(|(_, data)| String::from_utf8(data).unwrap())
                .collect::<Vec<String>>()
        })
    };
    assert_eq!(
        contents("<Latest>YQ==</Latest><Latest>Yg==</Latest>"),
        Ok(vec!["staged a".to_string(), "committed b".to_string()])
    );
    assert_eq!(
        contents("<Committed>YQ==</Committed>"),
        Ok(vec!["committed a".to_string()])
    );
    assert_eq!(contents("<Uncommitted>Yg==</Uncommitted>"), Err("Yg==".to_string()));
}

#[test]
fn should_read_upload_metadata() {
    let read = |text: &str| GcsAdapter::parse_json_upload_metadata(text.as_bytes());
    let parsed = read(
        r#"{"name":"n","contentType":"text/plain","metadata":{"k":"v"},"crc32c":"4waSgw=="}"#,
    )
    .unwrap_or_else(|_| panic!("the metadata should be read"));
    assert_eq!(parsed.name.as_deref(), Some("n"));
    assert_eq!(parsed.content_type.as_deref(), Some("text/plain"));
    assert_eq!(parsed.metadata.get("k").map(String::as_str), Some("v"));
    assert_eq!(parsed.crc32c, Some(0xe306_9283));
    assert!(read("").unwrap_or_else(|_| panic!("nothing is fine")).name.is_none());
    assert!(matches!(read("{"), Err(UploadMetadataError::Invalid(_))));
    assert!(matches!(read("[]"), Err(UploadMetadataError::Invalid(_))));
    let as_read = GcsAdapter::document_metadata(&Ok(Json::Object(vec![(
        "name".to_string(),
        Json::Text("given".to_string()),
    )])));
    assert_eq!(as_read.unwrap_or_else(|_| panic!("a name is fine")).name.as_deref(), Some("given"));
}

#[test]
fn should_take_multipart_uploads_apart() {
    let body = b"--b\r\nContent-Type: application/json\r\n\r\n{\"name\":\"n\"}\r\n--b\r\nContent-Type: text/plain\r\n\r\nbytes\r\n--b--";
    let (metadata, content_type, data) =
        GcsAdapter::parse_multipart_upload("multipart/related; boundary=\"b\"", body)
            .unwrap_or_else(|_| panic!("the upload should be read"));
    assert_eq!(metadata.name.as_deref(), Some("n"));
    assert_eq!(content_type, "text/plain");
    assert_eq!(data, b"bytes");
    assert!(GcsAdapter::parse_multipart_upload("multipart/related", body).is_err());
    assert!(GcsAdapter::parse_multipart_upload("multipart/related; boundary=c", body).is_err());
}

// ---------------------------------------------------------------------------
// Ranges and conditions

#[test]
fn should_keep_ranges_inside_objects() {
    let range = AzureBlobAdapter::parse_range_header;
    assert_eq!(range("bytes=2-4", 10), Some((2, 4)));
    assert_eq!(range("bytes=2-", 10), Some((2, 9)));
    assert_eq!(range("bytes=2-99", 10), Some((2, 9)));
    assert_eq!(range("bytes=10-", 10), None);
    assert_eq!(range("bytes=4-2", 10), None);
    assert_eq!(range("bytes=-3", 10), None);
    assert_eq!(range("items=1-2", 10), None);
    assert_eq!(GcsAdapter::parse_range_header("bytes=0-0", 1), Some((0, 0)));
    assert_eq!(AzureBlobAdapter::parse_write_range_header("bytes=0-511"), Some((0, 511)));
    assert_eq!(AzureBlobAdapter::parse_write_range_header("bytes=0-"), None);
    assert!(GcsAdapter::is_complete_resumable_range("bytes 0-6/7", 7));
    assert!(!GcsAdapter::is_complete_resumable_range("bytes 0-5/7", 7));
    assert!(!GcsAdapter::is_complete_resumable_range("bytes */7", 7));
}

#[test]
fn should_turn_condition_headers_into_conditions() {
    let condition = |headers: &[(&str, &str)]| {
        AzureBlobAdapter::write_condition(&Stamp::take(), &request(Method::Put, "/", &[], headers))
    };
    assert!(matches!(condition(&[]), Ok(None)));
    assert!(matches!(
        condition(&[("if-match", "\"tag\"")]),
        Ok(Some(ObjectCondition::Etag(tag))) if tag == "tag"
    ));
    assert!(matches!(
        condition(&[("if-match", "*")]),
        Ok(Some(ObjectCondition::EtagNotIn(tags))) if tags.is_empty()
    ));
    assert!(matches!(
        condition(&[("if-none-match", "*")]),
        Ok(Some(ObjectCondition::Missing))
    ));
    assert!(matches!(
        condition(&[("if-none-match", "W/\"tag\"")]),
        Ok(Some(ObjectCondition::MissingOrEtagNotIn(tags))) if tags == vec!["tag".to_string()]
    ));
    assert!(matches!(
        condition(&[("if-match", "W/\"tag\"")]),
        Ok(Some(ObjectCondition::Etag(tag))) if tag != "tag"
    ));
    for headers in [
        vec![("if-match", "\"a\""), ("if-none-match", "\"b\"")],
        vec![("if-match", "\"a\", \"b\"")],
        vec![("if-none-match", "\"a\", \"b\"")],
    ] {
        assert!(matches!(condition(&headers), Err(refusal) if refusal.status == 400));
    }
}

#[test]
fn should_raise_generations_with_every_write() {
    let first = object("k", b"1");
    let written = |existing: Option<&Object>| {
        GcsAdapter::written_object(
            &MOMENT,
            "k",
            b"2".to_vec(),
            "text/plain".to_string(),
            &Table::new(),
            existing,
        )
    };
    let second = written(Some(&first));
    assert_eq!(GcsAdapter::generation(&first), "1767323045000");
    assert_eq!(GcsAdapter::generation(&second), "1767323045006");
    let third = written(Some(&second));
    assert_eq!(GcsAdapter::generation(&third), "1767323045007");
    assert_eq!(GcsAdapter::metageneration(&third), "1");
    assert_eq!(third.data, b"2");
}

#[test]
fn should_derive_the_tag_from_both_counters() {
    let mut metadata = Table::new();
    assert_eq!(GcsAdapter::json_etag(&metadata, "fallback"), "fallback");
    metadata.insert("__sqrzl_gcs_generation", "7".to_string());
    metadata.insert("__sqrzl_gcs_metageneration", "2".to_string());
    assert_eq!(GcsAdapter::json_etag(&metadata, "fallback"), "YOXSdSvG9nDFv0aDLgFp3Q==");
}

#[test]
fn should_read_protection_that_cannot_be_understood_as_protection() {
    let mut blob = object("k", b"1");
    assert!(!AzureBlobAdapter::is_immutable(&MOMENT, &blob));
    blob.provider_metadata.insert("azure_legal_hold", "false".to_string());
    assert!(!AzureBlobAdapter::is_immutable(&MOMENT, &blob));
    blob.provider_metadata.insert("azure_legal_hold", "False".to_string());
    assert!(AzureBlobAdapter::is_immutable(&MOMENT, &blob));
    blob.provider_metadata.remove("azure_legal_hold");
    blob.provider_metadata.insert("azure_immutability_mode", "Locked".to_string());
    assert!(AzureBlobAdapter::is_immutable(&MOMENT, &blob));
    blob.provider_metadata
        .insert("azure_immutability_until", "Fri, 02 Jan 2026 03:04:05 GMT".to_string());
    assert!(!AzureBlobAdapter::is_immutable(&MOMENT, &blob));
    blob.provider_metadata
        .insert("azure_immutability_until", "Fri, 02 Jan 2026 03:04:06 GMT".to_string());
    assert!(AzureBlobAdapter::is_immutable(&MOMENT, &blob));
}

#[test]
fn should_lease_and_release_blobs() {
    let mut blob = object("k", b"1");
    assert!(!AzureBlobAdapter::has_active_lease(&blob));
    AzureBlobAdapter::set_lease_state(
        &mut blob,
        Some("lease".to_string()),
        "leased",
        "locked",
        Some("infinite".to_string()),
    );
    assert!(AzureBlobAdapter::has_active_lease(&blob));
    assert_eq!(AzureBlobAdapter::lease_id(&blob), Some("lease"));
    let mut replacement = object("k", b"2");
    AzureBlobAdapter::preserve_active_lease(&blob, &mut replacement);
    assert_eq!(AzureBlobAdapter::lease_id(&replacement), Some("lease"));
    AzureBlobAdapter::set_lease_state(&mut blob, None, "available", "unlocked", None);
    assert!(!AzureBlobAdapter::has_active_lease(&blob));
    assert_eq!(AzureBlobAdapter::lease_duration(&blob), None);
    assert_eq!(blob.data, b"1");
}
