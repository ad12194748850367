//! Who may do what: shared keys and shared access signatures.

use vstd::prelude::*;
use vstd::string::*;
use vstd::utf8::encode_utf8;
use crate::azure::AzureBlobAdapter;
use crate::azure::basics::{error_response, refuse, AzureResource, ResourceView};
use crate::clock::{
    apart, further_apart, instant, patterned_moment, read_pattern, read_rfc2822, read_rfc3339,
    rfc2822_moment, rfc3339_moment, Instant, Stamp, StampView,
};
use crate::codec::{
    base64_bytes, base64_decode, lower_unicode, sign_hmac_base64, signature, unicode_lower,
    url_decode, url_decoded,
};
use crate::http::{
    AuthConfig, AuthView, HeaderView, Method, Request, RequestView, Response, ResponseView,
};
use crate::order::{file, filed, keys, keys_of, list_of, listed, sorted, Names};
use crate::table::Table;
use crate::text::{
    after_prefix, begins, bytes_of, cat3, contains, cut, equals, holds, join, joined, lend,
    lowercase, lowered, or_else, or_text, pieces, same, split, split_once, starts_with,
    strip_prefix, words, words_of,
};
use crate::views::{each, seen, settled, Text};

verus! {

/// The values of the first `i` headers whose name starts with `prefix`, by name, with every
/// run of white space as one blank.
pub open spec fn header_groups_upto(headers: Seq<(Text, HeaderView)>, prefix: Text, i: int) -> Seq<
    (Text, Seq<Text>),
>
    decreases i,
{
    if i <= 0 {
        Seq::empty()
    } else {
        let before = header_groups_upto(headers, prefix, i - 1);
        match headers[i - 1].1.text() {
            Some(value) => if starts_with(headers[i - 1].0, prefix) {
                filed(before, lowered(headers[i - 1].0), join(words(value), " "@))
            } else {
                before
            },
            None => before,
        }
    }
}

pub open spec fn header_groups(req: RequestView, prefix: Text) -> Seq<(Text, Seq<Text>)> {
    header_groups_upto(req.headers, prefix, req.headers.len() as int)
}

/// One line `name:value,value` for each of the first `i` names.
pub open spec fn header_lines_upto(groups: Seq<(Text, Seq<Text>)>, names: Seq<Text>, i: int) -> Text
    decreases i,
{
    if i <= 0 {
        ""@
    } else {
        header_lines_upto(groups, names, i - 1) + names[i - 1] + ":"@ + join(
            listed(groups, names[i - 1]),
            ","@,
        ) + "\n"@
    }
}

/// One line for each header whose name starts with `prefix`, in the order of the names.
pub open spec fn header_lines(req: RequestView, prefix: Text) -> Text {
    let groups = header_groups(req, prefix);
    header_lines_upto(groups, sorted::<String>(keys(groups)), groups.len() as int)
}

pub fn lines_of_headers(req: &Request, prefix: &str) -> (r: String)
    ensures
        r@ == header_lines(req@, prefix@),
{
    let mut groups: Table<Names> = Table::new();
    let mut i: usize = 0;
    while i < req.headers.entries.len()
        invariant
            i <= req.headers.entries.len(),
            groups@ == header_groups_upto(req@.headers, prefix@, i as int),
        decreases req.headers.entries.len() - i,
    {
        let entry = &req.headers.entries[i];
        assert(req@.headers[i as int] == entry@);
        match entry.1.text() {
            Some(value) => {
                if begins(&entry.0, prefix) {
                    let name = lowercase(&entry.0);
                    file(&mut groups, &name, joined(&words_of(value), " "));
                }
            },
            None => {},
        }
        i += 1;
    }
    let names = keys_of(&groups).sort();
    proof {
        crate::order::sorted_is_sorted::<String>(keys(groups@));
        crate::azure::auth::same_length(keys(groups@), names@);
    }
    let mut out = "".to_owned();
    let mut j: usize = 0;
    while j < names.items.len()
        invariant
            j <= names.items.len(),
            names@.len() == groups@.len(),
            out@ == header_lines_upto(groups@, names@, j as int),
        decreases names.items.len() - j,
    {
        assert(names@[j as int] == names.items@[j as int]@);
        out.append(&names.items[j]);
        out.append(":");
        out.append(&joined(&list_of(&groups, &names.items[j]).items, ","));
        out.append("\n");
        j += 1;
    }
    out
}

pub proof fn same_length(a: Seq<Text>, b: Seq<Text>)
    requires
        a.to_multiset() == b.to_multiset(),
    ensures
        a.len() == b.len(),
{
    a.to_multiset_ensures();
    b.to_multiset_ensures();
}

pub open spec fn url_text(text: Text) -> Text {
    or_text(url_decoded(text), text)
}

fn url_text_of(text: &str) -> (r: String)
    ensures
        r@ == url_text(text@),
{
    match url_decode(text) {
        Some(decoded) => decoded,
        None => text.to_owned(),
    }
}

/// The decoded values of the first `i` parts of a query, by name in lower case.
pub open spec fn query_groups_upto(parts: Seq<Text>, i: int) -> Seq<(Text, Seq<Text>)>
    decreases i,
{
    if i <= 0 {
        Seq::empty()
    } else {
        let before = query_groups_upto(parts, i - 1);
        let part = parts[i - 1];
        if part.len() == 0 {
            before
        } else {
            let (key, value) = match split_once(part, "="@) {
                Some((key, value)) => (key, value),
                None => (part, ""@),
            };
            filed(before, unicode_lower(url_text(key)), url_text(value))
        }
    }
}

/// `resource` and one line `name:value,value` for each of the first `i` names, the values
/// in order.
pub open spec fn query_lines_upto(
    resource: Text,
    groups: Seq<(Text, Seq<Text>)>,
    names: Seq<Text>,
    i: int,
) -> Text
    decreases i,
{
    if i <= 0 {
        resource
    } else {
        query_lines_upto(resource, groups, names, i - 1) + "\n"@ + names[i - 1] + ":"@ + join(
            sorted::<String>(listed(groups, names[i - 1])),
            ","@,
        )
    }
}

pub open spec fn canonicalized_resource(req: RequestView, account: Text) -> Text {
    let parts = split(or_text(req.raw_query, ""@), '&');
    let groups = query_groups_upto(parts, parts.len() as int);
    query_lines_upto(
        "/"@ + account + req.path,
        groups,
        sorted::<String>(keys(groups)),
        groups.len() as int,
    )
}

pub open spec fn canonicalized_headers(req: RequestView) -> Text {
    header_lines(req, "x-ms-"@)
}

/// The key that requests are signed with: what the secret encodes in Base64, or its bytes.
pub open spec fn shared_key_secret(config: AuthView) -> Option<Seq<u8>> {
    match config.secret_access_key {
        Some(secret) => match base64_bytes(secret) {
            Some(key) => Some(key),
            None => Some(encode_utf8(secret)),
        },
        None => None,
    }
}

pub open spec fn header_or_empty(req: RequestView, name: Text) -> Text {
    or_text(req.header(name), ""@)
}

/// What a shared key signs: the verb, eleven headers, and the canonical headers and
/// resource.
pub open spec fn shared_key_string_to_sign(req: RequestView, account: Text) -> Text {
    let length = if req.method == Method::Get || req.method == Method::Head || req.header(
        "content-length"@,
    ) == Some("0"@) {
        ""@
    } else {
        header_or_empty(req, "content-length"@)
    };
    let date = if req.header("x-ms-date"@) is Some {
        ""@
    } else {
        header_or_empty(req, "date"@)
    };
    req.verb + "\n"@ + header_or_empty(req, "content-encoding"@) + "\n"@ + header_or_empty(
        req,
        "content-language"@,
    ) + "\n"@ + length + "\n"@ + header_or_empty(req, "content-md5"@) + "\n"@ + header_or_empty(
        req,
        "content-type"@,
    ) + "\n"@ + date + "\n"@ + header_or_empty(req, "if-modified-since"@) + "\n"@
        + header_or_empty(req, "if-match"@) + "\n"@ + header_or_empty(req, "if-none-match"@)
        + "\n"@ + header_or_empty(req, "if-unmodified-since"@) + "\n"@ + header_or_empty(
        req,
        "range"@,
    ) + "\n"@ + canonicalized_headers(req) + canonicalized_resource(req, account)
}

/// When a request says that it was sent.
pub open spec fn request_date(req: RequestView) -> Option<Text> {
    match req.header("x-ms-date"@) {
        Some(value) => Some(value),
        None => req.header("date"@),
    }
}

/// Whether a request is recent, given its date and the moment that was read from it.
pub open spec fn date_verdict(now: Instant, raw: Option<Text>, date: Option<Instant>) -> Result<
    (),
    Text,
> {
    match raw {
        None => Err("Missing required Azure request date"@),
        Some(_) => match date {
            None => Err("Invalid Azure request date"@),
            Some(date) => if apart(now, date, 15) {
                Err("Azure request date is outside the permitted 15 minute window"@)
            } else {
                Ok(())
            },
        },
    }
}

pub open spec fn validate_shared_key_date(now: Instant, req: RequestView) -> Result<(), Text> {
    let raw = request_date(req);
    date_verdict(
        now,
        raw,
        match raw {
            Some(raw) => instant(rfc2822_moment(raw)),
            None => None,
        },
    )
}

/// Whether a request is signed with the shared key, given what came of its date and the
/// signature that it has to carry.
pub open spec fn shared_key_verdict(
    req: RequestView,
    account: Text,
    dated: Result<(), Text>,
    expected: Option<Text>,
) -> Result<(), Text> {
    match dated {
        Err(message) => Err(message),
        Ok(_) => match req.header("authorization"@) {
            None => Err("Missing Authorization header"@),
            Some(authorization) => match strip_prefix(
                authorization,
                "SharedKey "@ + account + ":"@,
            ) {
                None => Err("Unsupported Azure authorization scheme"@),
                Some(provided) => match expected {
                    None => Err("Missing Azure shared key"@),
                    Some(expected) => if provided == expected {
                        Ok(())
                    } else {
                        Err("Azure shared key signature mismatch"@)
                    },
                },
            },
        },
    }
}

/// The signature of a text, where there is a key to sign with.
pub open spec fn signed_text(config: AuthView, payload: Text) -> Option<Text> {
    match shared_key_secret(config) {
        Some(key) => Some(signature(key, payload)),
        None => None,
    }
}

/// Whether a request is signed with the shared key.
pub open spec fn validate_shared_key(
    now: Instant,
    req: RequestView,
    config: AuthView,
    account: Text,
) -> Result<(), Text> {
    shared_key_verdict(
        req,
        account,
        validate_shared_key_date(now, req),
        signed_text(config, shared_key_string_to_sign(req, account)),
    )
}

/// What a shared access signature signs.
pub open spec fn sas_string_to_sign(
    resource: Text,
    permissions: Text,
    starts_on: Text,
    expires_on: Text,
    version: Text,
    resource_type: Text,
) -> Text {
    permissions + "\n"@ + starts_on + "\n"@ + expires_on + "\n"@ + resource + "\n\n\n\n"@ + version
        + "\n"@ + resource_type + "\n\n\n\n\n\n"@
}

/// A moment in RFC 3339, or in a form without a zone.
pub open spec fn sas_moment(text: Text) -> Option<Instant> {
    match rfc3339_moment(text) {
        Some(pair) => instant(Some(pair)),
        None => instant(patterned_moment(text, "%Y-%m-%dT%H:%M:%SZ"@)),
    }
}

/// The letter of the permission that a method needs.
pub open spec fn required_permission(method: Method) -> Option<Text> {
    match method {
        Method::Get => Some("r"@),
        Method::Head => Some("r"@),
        Method::Delete => Some("d"@),
        Method::Put => Some("w"@),
        Method::Post => Some("w"@),
        _ => None,
    }
}

pub open spec fn sas_resource(resource: ResourceView) -> Text {
    match resource.container {
        Some(container) => match resource.blob {
            Some(blob) => "/blob/"@ + resource.account + "/"@ + container + "/"@ + blob,
            None => "/blob/"@ + resource.account + "/"@ + container,
        },
        None => "/blob/"@ + resource.account,
    }
}

/// What the shared access signature of a request signs.
pub open spec fn sas_payload(req: RequestView, resource: ResourceView) -> Text {
    sas_string_to_sign(
        sas_resource(resource),
        or_text(req.param("sp"@), ""@),
        or_text(req.param("st"@), ""@),
        or_text(req.param("se"@), ""@),
        or_text(req.param("sv"@), ""@),
        or_text(req.param("sr"@), ""@),
    )
}

/// Whether a shared access signature allows a request, given the moments that were read from
/// its expiry and its start and the signature that it has to be.
pub open spec fn sas_verdict(
    now: Instant,
    req: RequestView,
    resource: ResourceView,
    expiry: Option<Instant>,
    start: Option<Instant>,
    expected: Option<Text>,
) -> Result<(), Text> {
    let starts_on = or_text(req.param("st"@), ""@);
    if req.param("sig"@) is None {
        Err("Missing SAS signature"@)
    } else if req.param("se"@) is None {
        Err("Missing SAS expiry"@)
    } else if expiry is None {
        Err("Invalid SAS expiry"@)
    } else if now.later_than(expiry->0) {
        Err("SAS token has expired"@)
    } else if starts_on.len() > 0 && start is None {
        Err("Invalid SAS start time"@)
    } else if starts_on.len() > 0 && start->0.later_than(now) {
        Err("SAS token is not valid yet"@)
    } else if req.param("spr"@) == Some("https"@) && req.scheme is Some && req.scheme != Some(
        "https"@,
    ) {
        Err("SAS token requires HTTPS"@)
    } else {
        match required_permission(req.method) {
            None => Err("SAS token does not permit this method"@),
            Some(letter) => if !contains(or_text(req.param("sp"@), ""@), letter) {
                Err("SAS token lacks required '"@ + letter + "' permission"@)
            } else if or_text(req.param("sr"@), ""@) != (if resource.blob is Some {
                "b"@
            } else {
                "c"@
            }) {
                Err("SAS resource scope does not match the request"@)
            } else if expected is None {
                Err("Missing Azure shared key"@)
            } else if req.param("sig"@) != expected {
                Err("Azure SAS signature mismatch"@)
            } else {
                Ok(())
            },
        }
    }
}

/// Whether a shared access signature allows a request.
pub open spec fn validate_sas(
    now: Instant,
    req: RequestView,
    config: AuthView,
    resource: ResourceView,
) -> Result<(), Text> {
    sas_verdict(
        now,
        req,
        resource,
        sas_moment(or_text(req.param("se"@), ""@)),
        sas_moment(or_text(req.param("st"@), ""@)),
        signed_text(config, sas_payload(req, resource)),
    )
}

/// Whether a request may go on; where not, what it is answered.
pub open spec fn authorize(
    stamp: StampView,
    req: RequestView,
    config: AuthView,
    resource: ResourceView,
) -> Result<(), ResponseView> {
    if !config.enforce_auth {
        Ok(())
    } else {
        match if req.param("sig"@) is Some {
            validate_sas(stamp.now, req, config, resource)
        } else {
            validate_shared_key(stamp.now, req, config, resource.account)
        } {
            Ok(_) => Ok(()),
            Err(message) => Err(error_response(stamp, 403, "AuthenticationFailed"@, message)),
        }
    }
}

impl AzureBlobAdapter {
    pub fn canonicalized_headers(req: &Request) -> (r: String)
        ensures
            r@ == canonicalized_headers(req@),
    {
        lines_of_headers(req, "x-ms-")
    }

    pub fn canonicalized_resource(req: &Request, account: &str) -> (r: String)
        ensures
            r@ == canonicalized_resource(req@, account@),
    {
        let parts = pieces(or_else(lend(&req.raw_query), ""), '&');
        let mut groups: Table<Names> = Table::new();
        let mut i: usize = 0;
        while i < parts.len()
            invariant
                i <= parts.len(),
                groups@ == query_groups_upto(each(parts@), i as int),
            decreases parts.len() - i,
        {
            let part = parts[i];
            assert(each(parts@)[i as int] == part@);
            if part.unicode_len() > 0 {
                let (key, value) = match cut(part, "=") {
                    Some(pair) => pair,
                    None => (part, ""),
                };
                let key = lower_unicode(&url_text_of(key));
                file(&mut groups, &key, url_text_of(value));
            }
            i += 1;
        }
        let names = keys_of(&groups).sort();
        proof {
            crate::order::sorted_is_sorted::<String>(keys(groups@));
            same_length(keys(groups@), names@);
        }
        let mut out = cat3("/", account, &req.path);
        let ghost resource = out@;
        let mut j: usize = 0;
        while j < names.items.len()
            invariant
                j <= names.items.len(),
                names@.len() == groups@.len(),
                out@ == query_lines_upto(resource, groups@, names@, j as int),
            decreases names.items.len() - j,
        {
            assert(names@[j as int] == names.items@[j as int]@);
            out.append("\n");
            out.append(&names.items[j]);
            out.append(":");
            out.append(&joined(&list_of(&groups, &names.items[j]).sort().items, ","));
            j += 1;
        }
        out
    }

    pub fn shared_key_secret(config: &AuthConfig) -> (r: Option<Vec<u8>>)
        ensures
            seen(r) == shared_key_secret(config@),
    {
        match &config.secret_access_key {
            Some(secret) => match base64_decode(secret) {
                Some(key) => Some(key),
                None => Some(bytes_of(secret)),
            },
            None => None,
        }
    }

    pub fn shared_key_string_to_sign(req: &Request, account: &str) -> (r: String)
        ensures
            r@ == shared_key_string_to_sign(req@, account@),
    {
        let length = if req.is(Method::Get) || req.is(Method::Head) || equals(
            req.header("content-length"),
            "0",
        ) {
            ""
        } else {
            or_else(req.header("content-length"), "")
        };
        let date = if req.header("x-ms-date").is_some() {
            ""
        } else {
            or_else(req.header("date"), "")
        };
        let mut out = req.verb.clone();
        out.append("\n");
        out.append(or_else(req.header("content-encoding"), ""));
        out.append("\n");
        out.append(or_else(req.header("content-language"), ""));
        out.append("\n");
        out.append(length);
        out.append("\n");
        out.append(or_else(req.header("content-md5"), ""));
        out.append("\n");
        out.append(or_else(req.header("content-type"), ""));
        out.append("\n");
        out.append(date);
        out.append("\n");
        out.append(or_else(req.header("if-modified-since"), ""));
        out.append("\n");
        out.append(or_else(req.header("if-match"), ""));
        out.append("\n");
        out.append(or_else(req.header("if-none-match"), ""));
        out.append("\n");
        out.append(or_else(req.header("if-unmodified-since"), ""));
        out.append("\n");
        out.append(or_else(req.header("range"), ""));
        out.append("\n");
        out.append(&Self::canonicalized_headers(req));
        out.append(&Self::canonicalized_resource(req, account));
        out
    }

    fn request_date(req: &Request) -> (r: Option<&str>)
        ensures
            seen(r) == request_date(req@),
    {
        match req.header("x-ms-date") {
            Some(value) => Some(value),
            None => req.header("date"),
        }
    }

    /// Whether a request is recent, given its date and the moment that was read from it.
    pub fn check_request_date(now: &Instant, raw: Option<&str>, date: Option<Instant>) -> (r: Result<
        (),
        String,
    >)
        ensures
            settled(r) == date_verdict(*now, seen(raw), date),
    {
        if raw.is_none() {
            return Err("Missing required Azure request date".to_owned());
        }
        match date {
            None => Err("Invalid Azure request date".to_owned()),
            Some(date) => if further_apart(now, &date, 15) {
                Err("Azure request date is outside the permitted 15 minute window".to_owned())
            } else {
                Ok(())
            },
        }
    }

    pub fn validate_shared_key_date(now: &Instant, req: &Request) -> (r: Result<(), String>)
        ensures
            settled(r) == validate_shared_key_date(*now, req@),
    {
        let raw = Self::request_date(req);
        let date = match raw {
            Some(raw) => read_rfc2822(raw),
            None => None,
        };
        Self::check_request_date(now, raw, date)
    }

    /// The signature of a text, where there is a key to sign with.
    fn signed_text(config: &AuthConfig, payload: &str) -> (r: Option<String>)
        ensures
            seen(r) == signed_text(config@, payload@),
    {
        match Self::shared_key_secret(config) {
            Some(key) => Some(sign_hmac_base64(key.as_slice(), payload)),
            None => None,
        }
    }

    /// Whether a request is signed with the shared key, given what came of its date and the
    /// signature that it has to carry.
    pub fn check_shared_key(
        req: &Request,
        account: &str,
        dated: Result<(), String>,
        expected: Option<&str>,
    ) -> (r: Result<(), String>)
        ensures
            settled(r) == shared_key_verdict(req@, account@, settled(dated), seen(expected)),
    {
        match dated {
            Ok(()) => {},
            Err(message) => return Err(message),
        }
        let authorization = match req.header("authorization") {
            Some(value) => value,
            None => return Err("Missing Authorization header".to_owned()),
        };
        let prefix = cat3("SharedKey ", account, ":");
        let provided = match after_prefix(authorization, &prefix) {
            Some(provided) => provided,
            None => return Err("Unsupported Azure authorization scheme".to_owned()),
        };
        match expected {
            None => Err("Missing Azure shared key".to_owned()),
            Some(expected) => if same(provided, expected) {
                Ok(())
            } else {
                Err("Azure shared key signature mismatch".to_owned())
            },
        }
    }

    pub fn validate_shared_key(now: &Instant, req: &Request, config: &AuthConfig, account: &str)
        -> (r: Result<(), String>)
        ensures
            settled(r) == validate_shared_key(*now, req@, config@, account@),
    {
        let expected = Self::signed_text(config, &Self::shared_key_string_to_sign(req, account));
        Self::check_shared_key(
            req,
            account,
            Self::validate_shared_key_date(now, req),
            lend(&expected),
        )
    }

    pub fn sas_string_to_sign(
        resource: &str,
        permissions: &str,
        starts_on: &str,
        expires_on: &str,
        version: &str,
        resource_type: &str,
    ) -> (r: String)
        ensures
            r@ == sas_string_to_sign(
                resource@,
                permissions@,
                starts_on@,
                expires_on@,
                version@,
                resource_type@,
            ),
    {
        let mut out = permissions.to_owned();
        out.append("\n");
        out.append(starts_on);
        out.append("\n");
        out.append(expires_on);
        out.append("\n");
        out.append(resource);
        out.append("\n\n\n\n");
        out.append(version);
        out.append("\n");
        out.append(resource_type);
        out.append("\n\n\n\n\n\n");
        out
    }

    fn sas_moment(text: &str) -> (r: Option<Instant>)
        ensures
            r == sas_moment(text@),
    {
        match read_rfc3339(text) {
            Some(at) => Some(at),
            None => read_pattern(text, "%Y-%m-%dT%H:%M:%SZ"),
        }
    }

    fn sas_resource(resource: &AzureResource) -> (r: String)
        ensures
            r@ == sas_resource(resource@),
    {
        let mut out = "/blob/".to_owned();
        out.append(&resource.account);
        match &resource.container {
            Some(container) => {
                out.append("/");
                out.append(container);
                match &resource.blob {
                    Some(blob) => {
                        out.append("/");
                        out.append(blob);
                    },
                    None => {},
                }
            },
            None => {},
        }
        out
    }

    /// Whether a shared access signature allows a request, given the moments that were read
    /// from its expiry and its start and the signature that it has to be.
    pub fn check_sas(
        now: &Instant,
        req: &Request,
        resource: &AzureResource,
        expiry: Option<Instant>,
        start: Option<Instant>,
        expected: Option<&str>,
    ) -> (r: Result<(), String>)
        ensures
            settled(r) == sas_verdict(*now, req@, resource@, expiry, start, seen(expected)),
    {
        let provided = match req.query_param("sig") {
            Some(value) => value,
            None => return Err("Missing SAS signature".to_owned()),
        };
        if req.query_param("se").is_none() {
            return Err("Missing SAS expiry".to_owned());
        }
        match expiry {
            None => return Err("Invalid SAS expiry".to_owned()),
            Some(expiry) => if now.after(&expiry) {
                return Err("SAS token has expired".to_owned());
            },
        }
        if or_else(req.query_param("st"), "").unicode_len() > 0 {
            match start {
                None => return Err("Invalid SAS start time".to_owned()),
                Some(start) => if start.after(now) {
                    return Err("SAS token is not valid yet".to_owned());
                },
            }
        }
        if equals(req.query_param("spr"), "https") && req.scheme.is_some() && !equals(
            lend(&req.scheme),
            "https",
        ) {
            return Err("SAS token requires HTTPS".to_owned());
        }
        let letter = match req.method {
            Method::Get | Method::Head => "r",
            Method::Delete => "d",
            Method::Put | Method::Post => "w",
            _ => return Err("SAS token does not permit this method".to_owned()),
        };
        if !holds(or_else(req.query_param("sp"), ""), letter) {
            return Err(cat3("SAS token lacks required '", letter, "' permission"));
        }
        let expected_type = if resource.blob.is_some() {
            "b"
        } else {
            "c"
        };
        if !same(or_else(req.query_param("sr"), ""), expected_type) {
            return Err("SAS resource scope does not match the request".to_owned());
        }
        match expected {
            None => Err("Missing Azure shared key".to_owned()),
            Some(expected) => if same(provided, expected) {
                Ok(())
            } else {
                Err("Azure SAS signature mismatch".to_owned())
            },
        }
    }

    pub fn validate_sas(
        now: &Instant,
        req: &Request,
        config: &AuthConfig,
        resource: &AzureResource,
    ) -> (r: Result<(), String>)
        ensures
            settled(r) == validate_sas(*now, req@, config@, resource@),
    {
        let expires_on = or_else(req.query_param("se"), "");
        let starts_on = or_else(req.query_param("st"), "");
        let payload = Self::sas_string_to_sign(
            &Self::sas_resource(resource),
            or_else(req.query_param("sp"), ""),
            starts_on,
            expires_on,
            or_else(req.query_param("sv"), ""),
            or_else(req.query_param("sr"), ""),
        );
        let expected = Self::signed_text(config, &payload);
        Self::check_sas(
            now,
            req,
            resource,
            Self::sas_moment(expires_on),
            Self::sas_moment(starts_on),
            lend(&expected),
        )
    }

    pub fn authorize(stamp: &Stamp, req: &Request, config: &AuthConfig, resource: &AzureResource)
        -> (r: Result<(), Response>)
        ensures
            settled(r) == authorize(stamp@, req@, config@, resource@),
    {
        if !config.enforce_auth {
            return Ok(());
        }
        let verdict = if req.has_query_param("sig") {
            Self::validate_sas(&stamp.now, req, config, resource)
        } else {
            Self::validate_shared_key(&stamp.now, req, config, &resource.account)
        };
        match verdict {
            Ok(()) => Ok(()),
            Err(message) => Err(refuse(stamp, 403, "AuthenticationFailed", &message)),
        }
    }
}

} // verus!
