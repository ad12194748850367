//! What replies tell of objects.

use vstd::prelude::*;
use vstd::string::*;
use crate::azure::basics::meta_headers_upto;
use crate::azure::replies::{
    header_is_read, meta_headers_leave_the_rest, meta_headers_show_entries, once_each, tagged,
};
use crate::clock::StampView;
use crate::gcs::basics::{
    generation, metageneration, object_response, public_metadata, GCS_GENERATION_KEY,
    GCS_METAGENERATION_KEY, GCS_UPDATED_KEY,
};
use crate::gcs::changes::of_a_client;
use crate::gcs::checks::encoded_crc32c;
use crate::gcs::contents::public_entry;
use crate::gcs::objects::{json_object_metadata, pairs_json};
use crate::http::ResponseView;
use crate::json::{field, JsonView};
use crate::number::decimal;
use crate::readings::with_keeps_once_each;
use crate::store::ObjectView;
use crate::table::{get, lookup_from};
use crate::views::{Pairs, Text};

verus! {

/// Whether a reply tells what an object is: its tag, type, counters and metadata.
pub open spec fn tells_object(reply: ResponseView, blob: ObjectView, length: int) -> bool {
    &&& get(reply.headers, "etag"@) == Some("\""@ + blob.etag + "\""@)
    &&& get(reply.headers, "content-type"@) == Some(blob.content_type)
    &&& get(reply.headers, "content-length"@) == Some(decimal(length))
    &&& get(reply.headers, "x-goog-generation"@) == Some(generation(blob))
    &&& get(reply.headers, "x-goog-metageneration"@) == Some(metageneration(blob))
    &&& once_each(blob.metadata) ==> forall|key: Text|
        get(reply.headers, #[trigger] tagged("x-goog-meta-"@, key)) == if of_a_client(key) {
            get(blob.metadata, key)
        } else {
            None
        }
}

proof fn no_goog_meta(name: Text)
    requires
        name.len() < 12 || name[0] != 'x' || name[7] != 'm' || name[11] != '-',
    ensures
        forall|key: Text| name != #[trigger] tagged("x-goog-meta-"@, key),
{
    reveal_strlit("x-goog-meta-");
    assert forall|key: Text| name != #[trigger] tagged("x-goog-meta-"@, key) by {
        assert(tagged("x-goog-meta-"@, key)[0] == 'x');
        assert(tagged("x-goog-meta-"@, key)[7] == 'm');
        assert(tagged("x-goog-meta-"@, key)[11] == '-');
    }
}

/// The reply that describes an object tells what the object is.
pub proof fn replies_tell_the_object(
    stamp: StampView,
    code: u16,
    blob: ObjectView,
    length: int,
    range: Option<Text>,
)
    ensures
        object_response(stamp, code, blob, length, range).status == code,
        object_response(stamp, code, blob, length, range).body.len() == 0,
        tells_object(object_response(stamp, code, blob, length, range), blob, length),
        range is Some ==> get(
            object_response(stamp, code, blob, length, range).headers,
            "content-range"@,
        ) == range,
{
    broadcast use header_is_read;

    reveal_strlit("etag");
    reveal_strlit("date");
    reveal_strlit("content-type");
    reveal_strlit("accept-ranges");
    reveal_strlit("content-range");
    reveal_strlit("content-length");
    reveal_strlit("x-goog-generation");
    reveal_strlit("x-goog-metageneration");
    reveal_strlit("x-guploader-uploadid");
    assert("etag"@.len() == 4);
    assert("date"@.len() == 4);
    assert("content-type"@.len() == 12);
    assert("accept-ranges"@.len() == 13);
    assert("content-range"@.len() == 13);
    assert("content-length"@.len() == 14);
    assert("x-goog-generation"@.len() == 17);
    assert("x-goog-metageneration"@.len() == 21);
    assert("x-guploader-uploadid"@.len() == 20);
    assert("etag"@[0] != "date"@[0]);
    assert("accept-ranges"@[0] != "content-range"@[0]);
    assert("x-goog-metageneration"@[11] == 'g');
    no_goog_meta("etag"@);
    no_goog_meta("date"@);
    no_goog_meta("content-type"@);
    no_goog_meta("accept-ranges"@);
    no_goog_meta("content-range"@);
    no_goog_meta("content-length"@);
    no_goog_meta("x-goog-generation"@);
    no_goog_meta("x-goog-metageneration"@);
    assert("x-guploader-uploadid"@[7] == 'a');
    no_goog_meta("x-guploader-uploadid"@);
    let whole = object_response(stamp, code, blob, length, range);
    let none = object_response(
        stamp,
        code,
        (ObjectView { metadata: Seq::empty(), ..blob }),
        length,
        None,
    );
    let base = crate::gcs::basics::response(stamp, code).header("accept-ranges"@, "bytes"@).header(
        "content-length"@,
        decimal(length),
    ).header("content-type"@, blob.content_type).header(
        "etag"@,
        crate::azure::basics::quoted(blob.etag),
    ).header("x-goog-generation"@, generation(blob)).header(
        "x-goog-metageneration"@,
        metageneration(blob),
    );
    let metadata = public_metadata(blob.metadata);
    let n = metadata.len() as int;
    let shown = meta_headers_upto(base, "x-goog-meta-"@, metadata, n);
    assert forall|name: Text|
        (forall|key: Text| name != #[trigger] tagged("x-goog-meta-"@, key)) implies #[trigger] get(
        shown.headers,
        name,
    ) == get(base.headers, name) by {
        meta_headers_leave_the_rest(base, "x-goog-meta-"@, metadata, name, n);
    }
    meta_headers_leave_the_rest(base, "x-goog-meta-"@, metadata, "etag"@, n);
    assert(whole == match range {
        Some(range) => shown.header("content-range"@, range),
        None => shown,
    });
    assert(get(whole.headers, "etag"@) == get(base.headers, "etag"@));
    assert(get(whole.headers, "content-type"@) == get(base.headers, "content-type"@));
    assert(get(whole.headers, "content-length"@) == get(base.headers, "content-length"@));
    assert(get(whole.headers, "x-goog-generation"@) == get(base.headers, "x-goog-generation"@));
    assert(get(whole.headers, "x-goog-metageneration"@) == get(
        base.headers,
        "x-goog-metageneration"@,
    ));
    if once_each(blob.metadata) {
        let a = crate::table::without(blob.metadata, GCS_GENERATION_KEY@);
        let b = crate::table::without(a, GCS_METAGENERATION_KEY@);
        with_keeps_once_each(blob.metadata, GCS_GENERATION_KEY@, ""@);
        with_keeps_once_each(a, GCS_METAGENERATION_KEY@, ""@);
        with_keeps_once_each(b, GCS_UPDATED_KEY@, ""@);
        assert forall|key: Text| get(whole.headers, #[trigger] tagged("x-goog-meta-"@, key))
            == if of_a_client(key) {
            get(blob.metadata, key)
        } else {
            None
        } by {
            assert(get(base.headers, tagged("x-goog-meta-"@, key)) is None);
            meta_headers_show_entries(base, "x-goog-meta-"@, metadata, key, n);
            assert(metadata.subrange(0, n) =~= metadata);
            public_entry(blob.metadata, key);
        }
    }
}

/// Whether a description in JSON tells what an object is.
pub open spec fn describes(json: JsonView, bucket: Text, blob: ObjectView) -> bool {
    &&& field(json, "kind"@) == Some(JsonView::Text("storage#object"@))
    &&& field(json, "name"@) == Some(JsonView::Text(blob.key))
    &&& field(json, "bucket"@) == Some(JsonView::Text(bucket))
    &&& field(json, "size"@) == Some(JsonView::Text(decimal(blob.size as int)))
    &&& get(blob.provider_metadata, "__sqrzl_gcs_crc32c"@) is None ==> field(json, "crc32c"@)
        == Some(JsonView::Text(encoded_crc32c(blob.data)))
    &&& field(json, "generation"@) == Some(JsonView::Text(generation(blob)))
    &&& field(json, "metageneration"@) == Some(JsonView::Text(metageneration(blob)))
    &&& field(json, "contentType"@) == Some(JsonView::Text(blob.content_type))
    &&& field(json, "metadata"@) matches Some(shown) && forall|key: Text|
        #![trigger field(shown, key)]
        field(shown, key) == if of_a_client(key) {
            match get(blob.metadata, key) {
                Some(value) => Some(JsonView::Text(value)),
                None => None,
            }
        } else {
            None
        }
}

proof fn pairs_are_fields(pairs: Pairs, key: Text, i: int)
    requires
        0 <= i <= pairs.len(),
    ensures
        lookup_from(pairs_json(pairs)->Object_0, key, i) == match lookup_from(pairs, key, i) {
            Some(value) => Some(JsonView::Text(value)),
            None => None,
        },
    decreases pairs.len() - i,
{
    if i < pairs.len() {
        pairs_are_fields(pairs, key, i + 1);
    }
}

/// What the JSON API tells of an object describes it.
pub proof fn descriptions_describe_the_object(bucket: Text, blob: ObjectView)
    ensures
        describes(json_object_metadata(bucket, blob), bucket, blob),
{
    reveal_strlit("kind");
    reveal_strlit("name");
    reveal_strlit("bucket");
    reveal_strlit("size");
    reveal_strlit("crc32c");
    reveal_strlit("etag");
    reveal_strlit("generation");
    reveal_strlit("metageneration");
    reveal_strlit("updated");
    reveal_strlit("contentType");
    reveal_strlit("metadata");
    assert("kind"@.len() == 4 && "name"@.len() == 4 && "size"@.len() == 4 && "etag"@.len() == 4);
    assert("kind"@[0] == 'k' && "name"@[0] == 'n' && "size"@[0] == 's' && "etag"@[0] == 'e');
    assert("bucket"@.len() == 6 && "crc32c"@.len() == 6);
    assert("bucket"@[0] == 'b' && "crc32c"@[0] == 'c');
    assert("generation"@.len() == 10 && "metageneration"@.len() == 14);
    assert("updated"@.len() == 7 && "contentType"@.len() == 11 && "metadata"@.len() == 8);
    reveal_with_fuel(lookup_from, 12);
    let json = json_object_metadata(bucket, blob);
    let shown = pairs_json(public_metadata(blob.metadata));
    assert(field(json, "metadata"@) == Some(shown));
    assert forall|key: Text|
        #![trigger field(shown, key)]
        field(shown, key) == if of_a_client(key) {
            match get(blob.metadata, key) {
                Some(value) => Some(JsonView::Text(value)),
                None => None,
            }
        } else {
            None
        } by {
        pairs_are_fields(public_metadata(blob.metadata), key, 0);
        public_entry(blob.metadata, key);
    }
}

} // verus!
