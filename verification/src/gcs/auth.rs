//! Who may do what: signed addresses, bearer tokens and signed headers.

use vstd::prelude::*;
use vstd::string::*;
use vstd::utf8::encode_utf8;
use crate::azure::auth::{header_lines_upto, same_length};
use crate::clock::{Stamp, StampView};
use crate::codec::{base64_bytes, base64_decode, sign_hmac_sha1_base64, signature_sha1};
use crate::gcs::GcsAdapter;
use crate::gcs::basics::{error_response, is_json_api_request, json_error, refuse, refuse_json};
use crate::http::{AuthConfig, AuthView, HeaderView, Request, RequestView, Response, ResponseView};
use crate::number::{read_i64, signed};
use crate::order::{file, filed, keys, keys_of, list_of, sorted, Names};
use crate::table::Table;
use crate::text::{
    after_prefix, begins, bytes_of, cat, cat3, equals, joined, lend, lowercase, lowered, or_else,
    or_text, same, starts_with, strip_prefix, trim, trimmed,
};
use crate::views::{seen, settled, Text};

verus! {

/// Whether a header is one of those that are signed.
pub open spec fn is_extension(name: Text) -> bool {
    starts_with(name, "x-goog-"@) && name != "x-goog-encryption-key"@ && name
        != "x-goog-encryption-key-sha256"@
}

/// The values of the headers from place `i` on that are signed, by name, on top of those
/// before; or why they cannot be signed.
pub open spec fn extensions_from(
    groups: Seq<(Text, Seq<Text>)>,
    headers: Seq<(Text, HeaderView)>,
    i: int,
) -> Result<Seq<(Text, Seq<Text>)>, Text>
    decreases headers.len() - i,
{
    if i >= headers.len() {
        Ok(groups)
    } else {
        let name = lowered(headers[i].0);
        if !is_extension(name) {
            extensions_from(groups, headers, i + 1)
        } else {
            match headers[i].1.text() {
                Some(value) => extensions_from(
                    filed(groups, name, trim(value)),
                    headers,
                    i + 1,
                ),
                None => Err("Invalid non-text GCS extension header "@ + name),
            }
        }
    }
}

/// One line for each signed header, in the order of the names.
pub open spec fn canonicalized_extension_headers(req: RequestView) -> Result<Text, Text> {
    match extensions_from(Seq::empty(), req.headers, 0) {
        Ok(groups) => Ok(
            header_lines_upto(groups, sorted::<String>(keys(groups)), groups.len() as int),
        ),
        Err(message) => Err(message),
    }
}

/// What a signature signs.
pub open spec fn string_to_sign(
    req: RequestView,
    bucket: Text,
    object: Option<Text>,
    expires: Text,
) -> Result<Text, Text> {
    let resource = match object {
        Some(object) => "/"@ + bucket + "/"@ + object,
        None => "/"@ + bucket,
    };
    match canonicalized_extension_headers(req) {
        Ok(lines) => Ok(
            req.verb + "\n"@ + or_text(req.header("content-md5"@), ""@) + "\n"@ + or_text(
                req.header("content-type"@),
                ""@,
            ) + "\n"@ + expires + "\n"@ + lines + resource,
        ),
        Err(message) => Err(message),
    }
}

/// The signature of a text, where there is a secret to sign with.
pub open spec fn sign(config: AuthView, payload: Text) -> Result<Text, Text> {
    match config.secret_access_key {
        None => Err("Missing GCS secret key"@),
        Some(secret) => Ok(
            signature_sha1(
                match base64_bytes(secret) {
                    Some(key) => key,
                    None => encode_utf8(secret),
                },
                payload,
            ),
        ),
    }
}

pub open spec fn authorization_error(
    stamp: StampView,
    req: RequestView,
    status: u16,
    xml_code: Text,
    json_reason: Text,
    message: Text,
) -> ResponseView {
    if is_json_api_request(req) {
        json_error(stamp, status, json_reason, message)
    } else {
        error_response(stamp, status, xml_code, message)
    }
}

/// The status for a request without credentials of a known form.
pub open spec fn anonymous_status(req: RequestView) -> u16 {
    if is_json_api_request(req) {
        401
    } else {
        403
    }
}

pub open spec fn denied(stamp: StampView, req: RequestView, message: Text) -> ResponseView {
    authorization_error(stamp, req, 403, "AccessDenied"@, "forbidden"@, message)
}

pub open spec fn wrong_signature(stamp: StampView, req: RequestView, message: Text)
    -> ResponseView {
    authorization_error(stamp, req, 403, "SignatureDoesNotMatch"@, "forbidden"@, message)
}

/// The signature that a request has to carry, or why there is none.
pub open spec fn expected_signature(
    req: RequestView,
    config: AuthView,
    bucket: Text,
    object: Option<Text>,
    expires: Text,
) -> Result<Text, Text> {
    match string_to_sign(req, bucket, object, expires) {
        Err(message) => Err(message),
        Ok(payload) => sign(config, payload),
    }
}

/// Whether a signature is the one that a request has to carry.
pub open spec fn signature_verdict(
    stamp: StampView,
    req: RequestView,
    expected: Result<Text, Text>,
    provided: Text,
    mismatch: Text,
) -> Result<(), ResponseView> {
    match expected {
        Err(message) => Err(wrong_signature(stamp, req, message)),
        Ok(expected) => if provided == expected {
            Ok(())
        } else {
            Err(wrong_signature(stamp, req, mismatch))
        },
    }
}

/// Whether a request may go on; where not, what it is answered.
pub open spec fn authorize(
    stamp: StampView,
    req: RequestView,
    config: AuthView,
    bucket: Text,
    object: Option<Text>,
) -> Result<(), ResponseView> {
    if !config.enforce_auth {
        Ok(())
    } else {
        match (req.param("GoogleAccessId"@), req.param("Expires"@), req.param("Signature"@)) {
            (Some(access_id), Some(expires), Some(provided)) => match signed(expires) {
                Some(at) if at > stamp.now.secs => if config.access_key_id != Some(access_id) {
                    Err(denied(stamp, req, "Invalid access id"@))
                } else {
                    signature_verdict(
                        stamp,
                        req,
                        expected_signature(req, config, bucket, object, expires),
                        provided,
                        "GCS signed URL signature mismatch"@,
                    )
                },
                _ => Err(denied(stamp, req, "Request has expired"@)),
            },
            _ => authorize_header(stamp, req, config, bucket, object),
        }
    }
}

/// Whether the authorization header of a request lets it go on.
pub open spec fn authorize_header(
    stamp: StampView,
    req: RequestView,
    config: AuthView,
    bucket: Text,
    object: Option<Text>,
) -> Result<(), ResponseView> {
    match req.header("authorization"@) {
        None => Err(
            authorization_error(
                stamp,
                req,
                anonymous_status(req),
                "AccessDenied"@,
                "authError"@,
                "Missing authorization"@,
            ),
        ),
        Some(authorization) => match strip_prefix(authorization, "Bearer "@) {
            Some(token) => if config.secret_access_key == Some(token) || config.access_key_id
                == Some(token) {
                Ok(())
            } else {
                Err(
                    authorization_error(
                        stamp,
                        req,
                        401,
                        "AccessDenied"@,
                        "authError"@,
                        "Invalid bearer token"@,
                    ),
                )
            },
            None => match strip_prefix(
                authorization,
                "GOOG1 "@ + or_text(config.access_key_id, ""@) + ":"@,
            ) {
                None => Err(
                    authorization_error(
                        stamp,
                        req,
                        anonymous_status(req),
                        "AccessDenied"@,
                        "authError"@,
                        "Unsupported authorization"@,
                    ),
                ),
                Some(provided) => signature_verdict(
                    stamp,
                    req,
                    expected_signature(
                        req,
                        config,
                        bucket,
                        object,
                        or_text(req.header("date"@), ""@),
                    ),
                    provided,
                    "GCS HMAC signature mismatch"@,
                ),
            },
        },
    }
}

impl GcsAdapter {
    pub fn canonicalized_extension_headers(req: &Request) -> (r: Result<String, String>)
        ensures
            settled(r) == canonicalized_extension_headers(req@),
    {
        let mut groups: Table<Names> = Table::new();
        let mut i: usize = 0;
        while i < req.headers.entries.len()
            invariant
                i <= req.headers.entries.len(),
                extensions_from(Seq::empty(), req@.headers, 0) == extensions_from(
                    groups@,
                    req@.headers,
                    i as int,
                ),
            decreases req.headers.entries.len() - i,
        {
            let entry = &req.headers.entries[i];
            assert(req@.headers[i as int] == entry@);
            let name = lowercase(&entry.0);
            if begins(&name, "x-goog-") && !same(&name, "x-goog-encryption-key") && !same(
                &name,
                "x-goog-encryption-key-sha256",
            ) {
                match entry.1.text() {
                    Some(value) => file(&mut groups, &name, trimmed(value).to_owned()),
                    None => return Err(cat("Invalid non-text GCS extension header ", &name)),
                }
            }
            i += 1;
        }
        let names = keys_of(&groups).sort();
        proof {
            crate::order::sorted_is_sorted::<String>(keys(groups@));
            same_length(keys(groups@), names@);
        }
        let mut out = "".to_owned();
        let mut j: usize = 0;
        while j < names.items.len()
            invariant
                j <= names.items.len(),
                names@.len() == groups@.len(),
                out@ == header_lines_upto(groups@, names@, j as int),
            decreases names.items.len() - j,
        {
            assert(names@[j as int] == names.items@[j as int]@);
            out.append(&names.items[j]);
            out.append(":");
            out.append(&joined(&list_of(&groups, &names.items[j]).items, ","));
            out.append("\n");
            j += 1;
        }
        Ok(out)
    }

    pub fn string_to_sign(req: &Request, bucket: &str, object: Option<&str>, expires: &str) -> (r:
        Result<String, String>)
        ensures
            settled(r) == string_to_sign(req@, bucket@, seen(object), expires@),
    {
        let lines = match Self::canonicalized_extension_headers(req) {
            Ok(lines) => lines,
            Err(message) => return Err(message),
        };
        let mut resource = cat("/", bucket);
        match object {
            Some(object) => {
                resource.append("/");
                resource.append(object);
            },
            None => {},
        }
        let mut out = req.verb.clone();
        out.append("\n");
        out.append(or_else(req.header("content-md5"), ""));
        out.append("\n");
        out.append(or_else(req.header("content-type"), ""));
        out.append("\n");
        out.append(expires);
        out.append("\n");
        out.append(&lines);
        out.append(&resource);
        Ok(out)
    }

    pub fn sign(config: &AuthConfig, payload: &str) -> (r: Result<String, String>)
        ensures
            settled(r) == sign(config@, payload@),
    {
        match &config.secret_access_key {
            None => Err("Missing GCS secret key".to_owned()),
            Some(secret) => {
                let key = match base64_decode(secret) {
                    Some(key) => key,
                    None => bytes_of(secret),
                };
                Ok(sign_hmac_sha1_base64(key.as_slice(), payload))
            },
        }
    }

    pub fn authorization_error(
        stamp: &Stamp,
        req: &Request,
        status: u16,
        xml_code: &str,
        json_reason: &str,
        message: &str,
    ) -> (r: Response)
        ensures
            r@ == authorization_error(
                stamp@,
                req@,
                status,
                xml_code@,
                json_reason@,
                message@,
            ),
    {
        if Self::is_json_api_request(req) {
            refuse_json(stamp, status, json_reason, message)
        } else {
            refuse(stamp, status, xml_code, message)
        }
    }

    fn anonymous_status(req: &Request) -> (r: u16)
        ensures
            r == anonymous_status(req@),
    {
        if Self::is_json_api_request(req) {
            401
        } else {
            403
        }
    }

    fn wrong_signature(stamp: &Stamp, req: &Request, message: &str) -> (r: Response)
        ensures
            r@ == wrong_signature(stamp@, req@, message@),
    {
        Self::authorization_error(
            stamp,
            req,
            403,
            "SignatureDoesNotMatch",
            "forbidden",
            message,
        )
    }

    fn expected_signature(
        req: &Request,
        config: &AuthConfig,
        bucket: &str,
        object: Option<&str>,
        expires: &str,
    ) -> (r: Result<String, String>)
        ensures
            settled(r) == expected_signature(
                req@,
                config@,
                bucket@,
                seen(object),
                expires@,
            ),
    {
        match Self::string_to_sign(req, bucket, object, expires) {
            Ok(payload) => Self::sign(config, &payload),
            Err(message) => Err(message),
        }
    }

    /// Whether a signature is the one that a request has to carry.
    pub fn check_signature(
        stamp: &Stamp,
        req: &Request,
        expected: Result<String, String>,
        provided: &str,
        mismatch: &str,
    ) -> (r: Result<(), Response>)
        ensures
            settled(r) == signature_verdict(
                stamp@,
                req@,
                settled(expected),
                provided@,
                mismatch@,
            ),
    {
        match expected {
            Err(message) => Err(Self::wrong_signature(stamp, req, &message)),
            Ok(expected) => if same(provided, &expected) {
                Ok(())
            } else {
                Err(Self::wrong_signature(stamp, req, mismatch))
            },
        }
    }

    pub fn authorize(
        stamp: &Stamp,
        req: &Request,
        config: &AuthConfig,
        bucket: &str,
        object: Option<&str>,
    ) -> (r: Result<(), Response>)
        ensures
            settled(r) == authorize(stamp@, req@, config@, bucket@, seen(object)),
    {
        if !config.enforce_auth {
            return Ok(());
        }
        match (
            req.query_param("GoogleAccessId"),
            req.query_param("Expires"),
            req.query_param("Signature"),
        ) {
            (Some(access_id), Some(expires), Some(provided)) => {
                match read_i64(expires) {
                    Some(at) if at > stamp.now.secs => {},
                    _ => return Err(
                        Self::authorization_error(
                            stamp,
                            req,
                            403,
                            "AccessDenied",
                            "forbidden",
                            "Request has expired",
                        ),
                    ),
                }
                if !equals(lend(&config.access_key_id), access_id) {
                    return Err(
                        Self::authorization_error(
                            stamp,
                            req,
                            403,
                            "AccessDenied",
                            "forbidden",
                            "Invalid access id",
                        ),
                    );
                }
                Self::check_signature(
                    stamp,
                    req,
                    Self::expected_signature(req, config, bucket, object, expires),
                    provided,
                    "GCS signed URL signature mismatch",
                )
            },
            _ => Self::authorize_header(stamp, req, config, bucket, object),
        }
    }

    fn authorize_header(
        stamp: &Stamp,
        req: &Request,
        config: &AuthConfig,
        bucket: &str,
        object: Option<&str>,
    ) -> (r: Result<(), Response>)
        ensures
            settled(r) == authorize_header(stamp@, req@, config@, bucket@, seen(object)),
    {
        let authorization = match req.header("authorization") {
            Some(value) => value,
            None => return Err(
                Self::authorization_error(
                    stamp,
                    req,
                    Self::anonymous_status(req),
                    "AccessDenied",
                    "authError",
                    "Missing authorization",
                ),
            ),
        };
        match after_prefix(authorization, "Bearer ") {
            Some(token) => {
                return if equals(lend(&config.secret_access_key), token) || equals(
                    lend(&config.access_key_id),
                    token,
                ) {
                    Ok(())
                } else {
                    Err(
                        Self::authorization_error(
                            stamp,
                            req,
                            401,
                            "AccessDenied",
                            "authError",
                            "Invalid bearer token",
                        ),
                    )
                };
            },
            None => {},
        }
        let prefix = cat3("GOOG1 ", or_else(lend(&config.access_key_id), ""), ":");
        match after_prefix(authorization, &prefix) {
            None => Err(
                Self::authorization_error(
                    stamp,
                    req,
                    Self::anonymous_status(req),
                    "AccessDenied",
                    "authError",
                    "Unsupported authorization",
                ),
            ),
            Some(provided) => Self::check_signature(
                stamp,
                req,
                Self::expected_signature(
                    req,
                    config,
                    bucket,
                    object,
                    or_else(req.header("date"), ""),
                ),
                provided,
                "GCS HMAC signature mismatch",
            ),
        }
    }
}

} // verus!
