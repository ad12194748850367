//! What replies tell of blobs.

use vstd::prelude::*;
use vstd::string::*;
use crate::azure::basics::{blob_response, meta_headers, meta_headers_upto, response};
use crate::clock::{http_date, StampView};
use crate::http::ResponseView;
use crate::number::decimal;
use crate::store::ObjectView;
use crate::table::{get, get_with, lookup_push};
use crate::text::or_text;
use crate::views::{Pairs, Text};

verus! {

/// A header that was set is read, and the others stay.
pub broadcast proof fn header_is_read(response: ResponseView, set: Text, value: Text, name: Text)
    ensures
        #[trigger] get(response.header(set, value).headers, name) == if name == set {
            Some(value)
        } else {
            get(response.headers, name)
        },
{
    get_with(response.headers, set, value, name);
}

/// Whether no key occurs twice.
pub open spec fn once_each<V>(pairs: Seq<(Text, V)>) -> bool {
    forall|i: int, j: int|
        0 <= i < j < pairs.len() ==> (#[trigger] pairs[i]).0 != (#[trigger] pairs[j]).0
}

/// The header for an entry of metadata.
pub open spec fn tagged(prefix: Text, key: Text) -> Text {
    prefix + key
}

/// The header for an entry of a blob's metadata.
pub open spec fn meta_name(key: Text) -> Text {
    tagged("x-ms-meta-"@, key)
}

/// Whether a reply tells what a blob is: its tag, type, time, lease and metadata.
pub open spec fn tells(reply: ResponseView, blob: ObjectView, length: int) -> bool {
    let own = blob.provider_metadata;
    &&& get(reply.headers, "etag"@) == Some("\""@ + blob.etag + "\""@)
    &&& get(reply.headers, "content-type"@) == Some(blob.content_type)
    &&& get(reply.headers, "content-length"@) == Some(decimal(length))
    &&& get(reply.headers, "last-modified"@) == Some(
        http_date(blob.last_modified.secs, blob.last_modified.nanos),
    )
    &&& get(reply.headers, "x-ms-blob-type"@) == Some(
        or_text(get(own, "azure_blob_type"@), "BlockBlob"@),
    )
    &&& get(reply.headers, "x-ms-lease-status"@) == Some(
        or_text(get(own, "azure_lease_status"@), "unlocked"@),
    )
    &&& get(reply.headers, "x-ms-lease-state"@) == Some(
        or_text(get(own, "azure_lease_state"@), "available"@),
    )
    &&& get(reply.headers, "x-ms-lease-duration"@) == get(own, "azure_lease_duration"@)
    &&& get(reply.headers, "x-ms-snapshot"@) == get(own, "azure_snapshot_time"@)
    &&& get(reply.headers, "x-ms-legal-hold"@) == get(own, "azure_legal_hold"@)
    &&& get(reply.headers, "x-ms-immutability-policy-until-date"@) == get(
        own,
        "azure_immutability_until"@,
    )
    &&& get(reply.headers, "x-ms-immutability-policy-mode"@) == get(
        own,
        "azure_immutability_mode"@,
    )
    &&& once_each(blob.metadata) ==> forall|key: Text|
        get(reply.headers, #[trigger] meta_name(key)) == get(blob.metadata, key)
}

proof fn lookups_stop_at_the_end(pairs: Pairs, key: Text, i: int)
    requires
        0 <= i <= pairs.len(),
        forall|j: int| i <= j < pairs.len() ==> (#[trigger] pairs[j]).0 != key,
    ensures
        crate::table::lookup_from(pairs, key, i) is None,
    decreases pairs.len() - i,
{
    if i < pairs.len() {
        assert(pairs[i].0 != key);
        lookups_stop_at_the_end(pairs, key, i + 1);
    }
}

/// Headers for metadata leave the others as they are, the body and the status too.
pub proof fn meta_headers_leave_the_rest(
    base: ResponseView,
    prefix: Text,
    metadata: Pairs,
    name: Text,
    i: int,
)
    requires
        0 <= i <= metadata.len(),
        forall|key: Text| name != #[trigger] tagged(prefix, key),
    ensures
        get(meta_headers_upto(base, prefix, metadata, i).headers, name) == get(base.headers, name),
        meta_headers_upto(base, prefix, metadata, i).status == base.status,
        meta_headers_upto(base, prefix, metadata, i).body == base.body,
    decreases i,
{
    broadcast use header_is_read;

    if i > 0 {
        meta_headers_leave_the_rest(base, prefix, metadata, name, i - 1);
        assert(tagged(prefix, metadata[i - 1].0) != name);
    }
}

/// Headers for metadata show each entry under its own name.
pub proof fn meta_headers_show_entries(
    base: ResponseView,
    prefix: Text,
    metadata: Pairs,
    key: Text,
    i: int,
)
    requires
        0 <= i <= metadata.len(),
        once_each(metadata),
        get(base.headers, tagged(prefix, key)) is None,
    ensures
        get(meta_headers_upto(base, prefix, metadata, i).headers, tagged(prefix, key)) == get(
            metadata.subrange(0, i),
            key,
        ),
    decreases i,
{
    broadcast use header_is_read;

    if i > 0 {
        meta_headers_show_entries(base, prefix, metadata, key, i - 1);
        let before = metadata.subrange(0, i - 1);
        let entry = metadata[i - 1];
        assert(metadata.subrange(0, i) =~= before.push(entry));
        lookup_push(before, entry, key, 0);
        if tagged(prefix, entry.0) == tagged(prefix, key) {
            assert(tagged(prefix, entry.0).skip(prefix.len() as int) =~= entry.0);
            assert(tagged(prefix, key).skip(prefix.len() as int) =~= key);
            assert forall|j: int| 0 <= j < before.len() implies (#[trigger] before[j]).0 != key by {
                assert(before[j] == metadata[j]);
            }
            lookups_stop_at_the_end(before, key, 0);
        }
    } else {
        assert(metadata.subrange(0, 0) =~= Seq::empty());
    }
}

proof fn no_meta_name(name: Text)
    requires
        name.len() < 6 || name[0] != 'x' || name[5] != 'm',
    ensures
        forall|key: Text| name != #[trigger] tagged("x-ms-meta-"@, key),
{
    reveal_strlit("x-ms-meta-");
    assert forall|key: Text| name != #[trigger] tagged("x-ms-meta-"@, key) by {
        assert(meta_name(key)[0] == 'x');
        assert(meta_name(key)[5] == 'm');
    }
}

/// The reply that describes a blob tells what the blob is.
pub proof fn descriptions_tell_the_blob(
    stamp: StampView,
    code: u16,
    blob: ObjectView,
    length: int,
    range: Option<Text>,
    current: Option<bool>,
    shown: bool,
)
    ensures
        blob_response(stamp, code, blob, length, range, current, shown).status == code,
        tells(blob_response(stamp, code, blob, length, range, current, shown), blob, length),
        range is Some ==> get(
            blob_response(stamp, code, blob, length, range, current, shown).headers,
            "content-range"@,
        ) == range,
{
    broadcast use header_is_read;

    reveal_strlit("etag");
    reveal_strlit("date");
    reveal_strlit("content-type");
    reveal_strlit("x-ms-version");
    reveal_strlit("accept-ranges");
    reveal_strlit("last-modified");
    reveal_strlit("x-ms-snapshot");
    reveal_strlit("content-range");
    reveal_strlit("content-length");
    reveal_strlit("x-ms-blob-type");
    reveal_strlit("x-ms-request-id");
    reveal_strlit("x-ms-legal-hold");
    reveal_strlit("x-ms-version-id");
    reveal_strlit("x-ms-lease-state");
    reveal_strlit("x-ms-lease-status");
    reveal_strlit("x-ms-lease-duration");
    reveal_strlit("x-ms-is-current-version");
    reveal_strlit("x-ms-immutability-policy-mode");
    reveal_strlit("x-ms-immutability-policy-until-date");
    no_meta_name("etag"@);
    no_meta_name("date"@);
    no_meta_name("content-type"@);
    no_meta_name("x-ms-version"@);
    no_meta_name("accept-ranges"@);
    no_meta_name("last-modified"@);
    no_meta_name("x-ms-snapshot"@);
    no_meta_name("content-range"@);
    no_meta_name("content-length"@);
    no_meta_name("x-ms-blob-type"@);
    no_meta_name("x-ms-request-id"@);
    no_meta_name("x-ms-legal-hold"@);
    no_meta_name("x-ms-version-id"@);
    no_meta_name("x-ms-lease-state"@);
    no_meta_name("x-ms-lease-status"@);
    no_meta_name("x-ms-lease-duration"@);
    no_meta_name("x-ms-is-current-version"@);
    no_meta_name("x-ms-immutability-policy-mode"@);
    no_meta_name("x-ms-immutability-policy-until-date"@);
    assert("etag"@.len() == 4);
    assert("date"@.len() == 4);
    assert("content-type"@.len() == 12);
    assert("x-ms-version"@.len() == 12);
    assert("accept-ranges"@.len() == 13);
    assert("last-modified"@.len() == 13);
    assert("x-ms-snapshot"@.len() == 13);
    assert("content-range"@.len() == 13);
    assert("content-length"@.len() == 14);
    assert("x-ms-blob-type"@.len() == 14);
    assert("x-ms-request-id"@.len() == 15);
    assert("x-ms-legal-hold"@.len() == 15);
    assert("x-ms-version-id"@.len() == 15);
    assert("x-ms-lease-state"@.len() == 16);
    assert("x-ms-lease-status"@.len() == 17);
    assert("x-ms-lease-duration"@.len() == 19);
    assert("x-ms-is-current-version"@.len() == 23);
    assert("x-ms-immutability-policy-mode"@.len() == 29);
    assert("x-ms-immutability-policy-until-date"@.len() == 35);
    assert("etag"@[0] != "date"@[0]);
    assert("content-type"@[0] != "x-ms-version"@[0]);
    assert("accept-ranges"@[0] != "last-modified"@[0]);
    assert("accept-ranges"@[0] != "x-ms-snapshot"@[0]);
    assert("accept-ranges"@[0] != "content-range"@[0]);
    assert("last-modified"@[0] != "x-ms-snapshot"@[0]);
    assert("last-modified"@[0] != "content-range"@[0]);
    assert("x-ms-snapshot"@[0] != "content-range"@[0]);
    assert("content-length"@[0] != "x-ms-blob-type"@[0]);
    assert("x-ms-request-id"@[5] != "x-ms-legal-hold"@[5]);
    assert("x-ms-request-id"@[5] != "x-ms-version-id"@[5]);
    assert("x-ms-legal-hold"@[5] != "x-ms-version-id"@[5]);
    assert(get(Seq::<(Text, Text)>::empty(), "x-ms-snapshot"@) is None);
    let whole = blob_response(stamp, code, blob, length, range, current, shown);
    let none = blob_response(stamp, code, (ObjectView { metadata: Seq::empty(), ..blob }), length, None, current, shown);
    let n = blob.metadata.len() as int;
    assert(none == meta_headers_upto(none, "x-ms-meta-"@, blob.metadata, 0));
    let shown_meta = meta_headers_upto(none, "x-ms-meta-"@, blob.metadata, n);
    assert forall|name: Text|
        (forall|key: Text| name != #[trigger] tagged("x-ms-meta-"@, key)) implies #[trigger] get(
        shown_meta.headers,
        name,
    ) == get(none.headers, name) by {
        meta_headers_leave_the_rest(none, "x-ms-meta-"@, blob.metadata, name, n);
    }
    meta_headers_leave_the_rest(none, "x-ms-meta-"@, blob.metadata, "etag"@, n);
    assert(whole == match range {
        Some(range) => shown_meta.header("content-range"@, range),
        None => shown_meta,
    });
    assert(get(whole.headers, "etag"@) == get(none.headers, "etag"@));
    assert(get(whole.headers, "content-type"@) == get(none.headers, "content-type"@));
    assert(get(whole.headers, "content-length"@) == get(none.headers, "content-length"@));
    assert(get(whole.headers, "last-modified"@) == get(none.headers, "last-modified"@));
    assert(get(whole.headers, "x-ms-blob-type"@) == get(none.headers, "x-ms-blob-type"@));
    assert(get(whole.headers, "x-ms-lease-status"@) == get(none.headers, "x-ms-lease-status"@));
    assert(get(whole.headers, "x-ms-lease-state"@) == get(none.headers, "x-ms-lease-state"@));
    assert(get(whole.headers, "x-ms-lease-duration"@) == get(none.headers, "x-ms-lease-duration"@));
    assert(get(whole.headers, "x-ms-snapshot"@) == get(none.headers, "x-ms-snapshot"@));
    assert(get(whole.headers, "x-ms-legal-hold"@) == get(none.headers, "x-ms-legal-hold"@));
    assert(get(whole.headers, "x-ms-immutability-policy-until-date"@) == get(none.headers, "x-ms-immutability-policy-until-date"@));
    assert(get(whole.headers, "x-ms-immutability-policy-mode"@) == get(none.headers, "x-ms-immutability-policy-mode"@));
    assert(get(none.headers, "x-ms-lease-duration"@) == get(blob.provider_metadata, "azure_lease_duration"@));
    assert(get(none.headers, "x-ms-snapshot"@) == get(blob.provider_metadata, "azure_snapshot_time"@));
    assert(get(none.headers, "x-ms-legal-hold"@) == get(blob.provider_metadata, "azure_legal_hold"@));
    assert(get(none.headers, "x-ms-immutability-policy-until-date"@) == get(blob.provider_metadata, "azure_immutability_until"@));
    assert(get(none.headers, "x-ms-immutability-policy-mode"@) == get(blob.provider_metadata, "azure_immutability_mode"@));
    assert(get(none.headers, "etag"@) is Some);
    assert(get(none.headers, "content-type"@) is Some);
    assert(get(none.headers, "content-length"@) is Some);
    assert(get(none.headers, "last-modified"@) is Some);
    assert(get(none.headers, "x-ms-blob-type"@) is Some);
    assert(get(none.headers, "x-ms-lease-status"@) is Some);
    assert(get(none.headers, "x-ms-lease-state"@) is Some);
    if once_each(blob.metadata) {
        assert forall|key: Text| get(whole.headers, #[trigger] meta_name(key)) == get(
            blob.metadata,
            key,
        ) by {
            assert(get(none.headers, meta_name(key)) is None);
            meta_headers_show_entries(none, "x-ms-meta-"@, blob.metadata, key, n);
            assert(blob.metadata.subrange(0, n) =~= blob.metadata);
        }
    }
}

/// A description has no body of its own.
pub proof fn descriptions_have_no_body(
    stamp: StampView,
    code: u16,
    blob: ObjectView,
    length: int,
    range: Option<Text>,
    current: Option<bool>,
    shown: bool,
)
    ensures
        blob_response(stamp, code, blob, length, range, current, shown).body.len() == 0,
{
    reveal_strlit("etag");
    no_meta_name("etag"@);
    assert forall|base: ResponseView| #[trigger]
        meta_headers(base, "x-ms-meta-"@, blob.metadata).body == base.body by {
        meta_headers_leave_the_rest(base, "x-ms-meta-"@, blob.metadata, "etag"@, blob.metadata.len() as int);
    }
}

} // verus!
