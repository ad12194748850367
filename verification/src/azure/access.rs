//! Who is admitted.

use vstd::prelude::*;
use vstd::string::*;
use crate::azure::auth::{authorize, sas_moment, shared_key_secret, shared_key_string_to_sign};
use crate::azure::basics::ResourceView;
use crate::azure::pages::{first_place_is_found, occurs_at, occurs_behind};
use crate::clock::{instant, rfc2822_moment, Instant};
use crate::codec::signature;
use crate::http::{ContextView, Method};
use crate::readings::fronts_are_stripped;
use crate::text::{contains, find_from, or_text, strip_prefix};
use crate::views::Text;

verus! {

/// What a shared access signature signs, line by line.
pub open spec fn access_lines(cx: ContextView, resource: ResourceView) -> Text {
    let place = match (resource.container, resource.blob) {
        (Some(container), Some(blob)) => "/blob/"@ + resource.account + "/"@ + container + "/"@
            + blob,
        (Some(container), None) => "/blob/"@ + resource.account + "/"@ + container,
        _ => "/blob/"@ + resource.account,
    };
    or_text(cx.req.param("sp"@), ""@) + "\n"@ + or_text(cx.req.param("st"@), ""@) + "\n"@ + or_text(
        cx.req.param("se"@),
        ""@,
    ) + "\n"@ + place + "\n\n\n\n"@ + or_text(cx.req.param("sv"@), ""@) + "\n"@ + or_text(
        cx.req.param("sr"@),
        ""@,
    ) + "\n\n\n\n\n\n"@
}

/// Where credentials are enforced, a request with a shared access signature is admitted exactly
/// if its signature is the one of what it grants, it grants the method on the kind of resource,
/// and the moment lies in the time for which it does.
pub proof fn access_is_granted_as_signed(
    cx: ContextView,
    resource: ResourceView,
    key: Seq<u8>,
    given: Text,
)
    requires
        cx.auth.enforce_auth,
        cx.req.param("sig"@) == Some(given),
        shared_key_secret(cx.auth) == Some(key),
    ensures
        authorize(cx.stamp, cx.req, cx.auth, resource) is Ok <==> {
            &&& given == signature(key, access_lines(cx, resource))
            &&& cx.req.param("se"@) matches Some(expiry) && (sas_moment(expiry) matches Some(at)
                && !cx.stamp.now.later_than(at))
            &&& cx.req.param("st"@) matches Some(start) ==> start.len() == 0 || (sas_moment(
                start,
            ) matches Some(at) && !at.later_than(cx.stamp.now))
            &&& cx.req.param("spr"@) == Some("https"@) ==> cx.req.scheme is None || cx.req.scheme
                == Some("https"@)
            &&& cx.req.param("sp"@) matches Some(granted) && match cx.req.method {
                Method::Get | Method::Head => occurs_behind(granted, "r"@, 0),
                Method::Put | Method::Post => occurs_behind(granted, "w"@, 0),
                Method::Delete => occurs_behind(granted, "d"@, 0),
                _ => false,
            }
            &&& cx.req.param("sr"@) == Some(
                if resource.blob is Some {
                    "b"@
                } else {
                    "c"@
                },
            )
        },
{
    reveal_strlit("");
    reveal_strlit("r");
    reveal_strlit("w");
    reveal_strlit("d");
    reveal_strlit("b");
    reveal_strlit("c");
    assert(""@.len() == 0 && "r"@.len() == 1 && "w"@.len() == 1 && "d"@.len() == 1);
    assert("b"@.len() == 1 && "c"@.len() == 1);
    let granted = or_text(cx.req.param("sp"@), ""@);
    letters_are_found(granted, "r"@);
    letters_are_found(granted, "w"@);
    letters_are_found(granted, "d"@);
}

proof fn letters_are_found(granted: Text, letter: Text)
    ensures
        contains(granted, letter) <==> occurs_behind(granted, letter, 0),
{
    first_place_is_found(granted, letter, 0);
    if let Some(k) = find_from(granted, letter, 0) {
        assert(occurs_at(granted, letter, k));
    }
}

/// Where credentials are enforced, a request without a shared access signature is admitted
/// exactly if its authorization is the signature of what it is under the configured key, and its
/// date is not more than a quarter of an hour off.
pub proof fn keys_admit_recent_requests(
    cx: ContextView,
    resource: ResourceView,
    key: Seq<u8>,
    at: Instant,
)
    requires
        cx.auth.enforce_auth,
        cx.req.param("sig"@) is None,
        shared_key_secret(cx.auth) == Some(key),
        match cx.req.header("x-ms-date"@) {
            Some(date) => instant(rfc2822_moment(date)) == Some(at),
            None => cx.req.header("date"@) matches Some(date) && instant(rfc2822_moment(date))
                == Some(at),
        },
        at.plain(),
        cx.stamp.now.plain(),
        crate::clock::tellable(at.secs as int),
        crate::clock::tellable(cx.stamp.now.secs as int),
    ensures
        authorize(cx.stamp, cx.req, cx.auth, resource) is Ok <==> {
            &&& cx.req.header("authorization"@) == Some(
                "SharedKey "@ + resource.account + ":"@ + signature(
                    key,
                    shared_key_string_to_sign(cx.req, resource.account),
                ),
            )
            &&& at.total() - cx.stamp.now.total() <= 900_000_000_000
            &&& cx.stamp.now.total() - at.total() <= 900_000_000_000
        },
{
    let lead = "SharedKey "@ + resource.account + ":"@;
    let expected = signature(key, shared_key_string_to_sign(cx.req, resource.account));
    fronts_are_stripped(lead, expected);
    if let Some(authorization) = cx.req.header("authorization"@) {
        if let Some(rest) = strip_prefix(authorization, lead) {
            assert(authorization =~= lead + rest);
        }
    }
}

} // verus!
