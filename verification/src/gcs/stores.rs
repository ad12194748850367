//! What uploads and the XML API store and give, served to their end.

use vstd::prelude::*;
use vstd::string::*;
use crate::azure::basics::header_metadata;
use crate::azure::replies::{header_is_read, once_each};
use crate::azure::runs::keeps_no_history;
use crate::codec::content_etag;
use crate::gcs::adapter::handle_request;
use crate::gcs::auth::authorize;
use crate::gcs::basics::{
    current_generation, foreign_data_protection, generation, is_json_api_request, json_response,
    metageneration, parse_path, segments, GCS_METAGENERATION_KEY,
};
use crate::gcs::changes::{content_runs, gives_content, of_a_client, served};
use crate::gcs::checks::{
    encoded_crc32c, request_crc32c, validate_crc32c, xml_condition, xml_condition_refusal,
};
use crate::gcs::contents::{
    generations_rise, objects_are_made_as_given, public_entry, state_is_read_back,
};
use crate::gcs::multipart::parse_multipart_upload;
use crate::gcs::objects::{
    json_object_metadata, media_response, put_blob_over, put_blob_with_generation_match,
    write_condition, written_object, BlobWriteView,
};
use crate::gcs::replies::{
    describes, descriptions_describe_the_object, replies_tell_the_object, tells_object,
};
use crate::gcs::uploads::{handle_resumable_start, start_upload, store_upload, upload_refusal};
use crate::gcs::xml_api::{
    delete_xml_object, delete_xml_over, get_xml_object, handle_xml_object_request, head_xml_object,
    put_xml_object, unsupported_subresource, xml_object_written,
};
use crate::http::{ContextView, Method};
use crate::json::JsonView;
use crate::number::unsigned;
use crate::readings::metadata_is_read;
use crate::store::{ConditionView, EffectView, ObjectView, OutcomeView, StepView, TapeView};
use crate::table::get;
use crate::text::{or_text, starts_with};
use crate::views::Text;
use crate::world::{ends, led, led_is_read, run, run_steps, run_stops, runs_agree, World};

verus! {

/// Whether an object is one that was just written: with a content and its size, tag and
/// checksum, a first metageneration, and a generation above that of what it replaces.
pub open spec fn just_written(
    cx: ContextView,
    object: ObjectView,
    key: Text,
    data: Seq<u8>,
    existing: Option<ObjectView>,
) -> bool {
    &&& object.key == key
    &&& object.data == data
    &&& object.size == data.len() as u64
    &&& object.etag == content_etag(data)
    &&& object.last_modified == cx.stamp.now
    &&& get(object.provider_metadata, "__sqrzl_gcs_crc32c"@) == Some(encoded_crc32c(data))
    &&& metageneration(object) == "1"@
    &&& current_generation(existing) < u64::MAX ==> (unsigned(
        generation(object),
        u64::MAX as int,
    ) matches Some(n) && n > 0 && (existing matches Some(before) ==> (unsigned(
        generation(before),
        u64::MAX as int,
    ) matches Some(m) ==> n > m)))
}

/// Whether the entries of clients in an object's metadata are those of a request's headers.
pub open spec fn has_metadata_of(cx: ContextView, object: ObjectView) -> bool {
    forall|name: Text|
        of_a_client(name) ==> #[trigger] get(object.metadata, name) == cx.req.header(
            "x-goog-meta-"@ + name,
        )
}

proof fn written_objects_are_just_written(
    cx: ContextView,
    key: Text,
    data: Seq<u8>,
    content_type: Text,
    metadata: Seq<(Text, Text)>,
    existing: Option<ObjectView>,
)
    ensures
        ({
            let object = written_object(cx.stamp.now, key, data, content_type, metadata, existing);
            &&& just_written(cx, object, key, data, existing)
            &&& object.content_type == content_type
            &&& forall|name: Text|
                of_a_client(name) ==> #[trigger] get(object.metadata, name) == get(metadata, name)
        }),
{
    let object = written_object(cx.stamp.now, key, data, content_type, metadata, existing);
    objects_are_made_as_given(cx.stamp.now, key, data, content_type, metadata, existing);
    if current_generation(existing) < u64::MAX {
        generations_rise(cx.stamp.now, existing);
    }
    let next = crate::gcs::basics::next_generation(cx.stamp.now, existing);
    assert forall|name: Text| of_a_client(name) implies #[trigger] get(object.metadata, name)
        == get(metadata, name) by {
        state_is_read_back(metadata, next, "1"@, cx.stamp.now, None, name);
        public_entry(object.metadata, name);
        public_entry(metadata, name);
    }
}

// ---------------------------------------------------------------------------
// Uploads

/// Whether an upload may go to a bucket that is there and in which nobody keeps history.
pub open spec fn reaches_upload(world: World, cx: ContextView, bucket: Text) -> bool {
    let parts = segments(cx.req.path);
    &&& world.sound()
    &&& is_json_api_request(cx.req)
    &&& starts_with(cx.req.path, "/upload/storage/v1/b/"@)
    &&& parts.len() >= 6
    &&& parts.take(5) == seq!["upload"@, "storage"@, "v1"@, "b"@, bucket]
    &&& cx.req.method == Method::Post
    &&& authorize(cx.stamp, cx.req, cx.auth, bucket, None) is Ok
    &&& world.buckets.contains_key(bucket)
    &&& keeps_no_history(world.buckets[bucket])
}

proof fn upload_paths_are_told_apart(path: Text)
    requires
        starts_with(path, "/upload/storage/v1/b/"@),
    ensures
        !starts_with(path, "/storage/v1/"@),
        !starts_with(path, "/download/storage/v1/"@),
{
    reveal_strlit("/upload/storage/v1/b/");
    reveal_strlit("/storage/v1/");
    reveal_strlit("/download/storage/v1/");
    assert(path.subrange(0, "/upload/storage/v1/b/"@.len() as int)[1] == 'u');
    assert(path[1] == 'u');
    if starts_with(path, "/storage/v1/"@) {
        assert(path.subrange(0, "/storage/v1/"@.len() as int)[1] == 's');
    }
    if starts_with(path, "/download/storage/v1/"@) {
        assert(path.subrange(0, "/download/storage/v1/"@.len() as int)[1] == 'd');
    }
}

/// An upload comes to its operation behind two questions after its bucket.
proof fn uploads_reach_their_bucket(world: World, cx: ContextView, bucket: Text, effects: nat)
    requires
        reaches_upload(world, cx, bucket),
        effects >= 2,
    ensures
        served(world, cx, effects) == run(
            world,
            |tape: TapeView| start_upload(cx, bucket, tape),
            Seq::empty(),
            (effects - 2) as nat,
        ),
{
    broadcast use led_is_read;

    upload_paths_are_told_apart(cx.req.path);
    let parts = segments(cx.req.path);
    let front = parts.take(5);
    assert(parts[0] == front[0] && parts[1] == front[1] && parts[2] == front[2]);
    assert(parts[3] == front[3] && parts[4] == front[4]);
    let found = world.buckets[bucket];
    assert(!foreign_data_protection(Some(found)));
    let handler = |tape: TapeView| handle_request(cx, tape);
    let inner = |tape: TapeView| handle_resumable_start(cx, bucket, tape);
    runs_agree(world, handler, inner, effects);
    let ask = EffectView::GetBucket(bucket);
    let outcome = OutcomeView::Bucket(Ok(found));
    let second = |tape: TapeView| inner(led(outcome, tape));
    run_steps(world, inner, ask, second, effects);
    let rest = |tape: TapeView| start_upload(cx, bucket, tape);
    run_steps(world, second, ask, rest, (effects - 1) as nat);
}

/// What a write comes to: stored, or kept off by its preconditions.
proof fn storing_runs(
    world: World,
    cx: ContextView,
    bucket: Text,
    key: Text,
    write: BlobWriteView,
    effects: nat,
)
    requires
        world.buckets.contains_key(bucket),
        keeps_no_history(world.buckets[bucket]),
        effects >= 6,
    ensures
        ({
            let existing = world.object(bucket, key);
            let object = written_object(
                cx.stamp.now,
                key,
                write.data,
                write.content_type,
                write.metadata,
                existing,
            );
            let outcome = run(
                world,
                |tape: TapeView| store_upload(cx, bucket, key, write, tape),
                Seq::empty(),
                effects,
            );
            match write_condition(write.expected, write.rejected, existing) {
                Some(condition) if condition matches Some(condition) ==> condition.holds_of(
                    existing,
                ) => outcome == (
                    world.with_object(bucket, key, object),
                    StepView::Reply(
                        json_response(cx.stamp, 200, json_object_metadata(bucket, object)),
                    ),
                ),
                _ => ends(
                    outcome,
                    world,
                    if write.rejected is Some {
                        304
                    } else {
                        412
                    },
                ),
            }
        }),
{
    broadcast use led_is_read;

    let existing = world.object(bucket, key);
    let found = world.buckets[bucket];
    let object = written_object(
        cx.stamp.now,
        key,
        write.data,
        write.content_type,
        write.metadata,
        existing,
    );
    let ask = EffectView::GetObject(bucket, key);
    let ask_bucket = EffectView::GetBucket(bucket);
    let answer = world.answer(ask);
    let place = OutcomeView::Bucket(Ok(found));
    assert(world.answer(ask_bucket) == place);
    let h0 = |tape: TapeView| store_upload(cx, bucket, key, write, tape);
    let rejected = write.rejected is Some;
    let inner = |tape: TapeView|
        match put_blob_with_generation_match(cx.stamp.now, bucket, key, write, tape) {
            crate::store::KnownView::Halt(step) => step,
            crate::store::KnownView::Got(written, _) => StepView::Reply(
                crate::gcs::uploads::upload_reply(cx.stamp, bucket, rejected, written),
            ),
        };
    let over = |tape: TapeView|
        match put_blob_over(cx.stamp.now, bucket, key, write, existing, tape) {
            crate::store::KnownView::Halt(step) => step,
            crate::store::KnownView::Got(written, _) => StepView::Reply(
                crate::gcs::uploads::upload_reply(cx.stamp, bucket, rejected, written),
            ),
        };
    let left: nat = match existing {
        Some(before) => {
            assert(!crate::gcs::basics::is_retained(cx.stamp.now, Some(found), before));
            let h1 = |tape: TapeView| h0(led(answer, tape));
            run_steps(world, h0, ask, h1, effects);
            run_steps(world, h1, ask_bucket, inner, (effects - 1) as nat);
            let h2 = |tape: TapeView| inner(led(answer, tape));
            run_steps(world, inner, ask, h2, (effects - 2) as nat);
            run_steps(world, h2, ask_bucket, over, (effects - 3) as nat);
            (effects - 4) as nat
        },
        None => {
            run_steps(world, h0, ask, inner, effects);
            run_steps(world, inner, ask, over, (effects - 1) as nat);
            (effects - 2) as nat
        },
    };
    match write_condition(write.expected, write.rejected, existing) {
        None => {
            run_stops(world, over, left);
        },
        Some(condition) => {
            let put = match condition {
                Some(condition) => EffectView::PutObjectIf(bucket, key, object, condition),
                None => EffectView::PutObject(bucket, key, object),
            };
            let h3 = |tape: TapeView| over(led(world.answer(put), tape));
            run_steps(world, over, put, h3, left);
            let after = world.after(put);
            if world.answer(put) == OutcomeView::Flag(Ok(false)) {
                run_stops(world, h3, (left - 1) as nat);
            } else {
                assert(after.object(bucket, key) == Some(object));
                let last = |tape: TapeView|
                    StepView::Reply(
                        json_response(cx.stamp, 200, json_object_metadata(bucket, object)),
                    );
                run_steps(after, h3, ask, last, (left - 1) as nat);
                run_stops(after, last, (left - 2) as nat);
            }
        },
    }
}

/// Whether the generation preconditions of an upload hold of the object in place: `match` asks
/// for its generation, where zero means that there is none, and `not match` for another.
pub open spec fn upload_preconditions_hold(
    expected: Option<Text>,
    rejected: Option<Text>,
    existing: Option<ObjectView>,
) -> bool {
    &&& expected matches Some(value) ==> match existing {
        Some(object) => value == generation(object) && value != "0"@,
        None => value == "0"@,
    }
    &&& rejected matches Some(value) ==> (existing matches Some(object) && value != generation(
        object,
    ))
}

proof fn upload_conditions_mean_so(
    expected: Option<Text>,
    rejected: Option<Text>,
    existing: Option<ObjectView>,
)
    requires
        expected is None || rejected is None,
    ensures
        upload_preconditions_hold(expected, rejected, existing) <==> (write_condition(
            expected,
            rejected,
            existing,
        ) matches Some(condition) && (condition matches Some(condition) ==> condition.holds_of(
            existing,
        ))),
{
}

proof fn upload_types_differ()
    ensures
        "media"@ != "multipart"@,
        "media"@ != "resumable"@,
        "multipart"@ != "resumable"@,
{
    reveal_strlit("media");
    reveal_strlit("multipart");
    reveal_strlit("resumable");
    assert("media"@.len() == 5 && "multipart"@.len() == 9 && "resumable"@.len() == 9);
    assert("multipart"@[0] != "resumable"@[0]);
}

/// An upload of media stores its body as the content of the object that it names, with the
/// content type and the metadata of its headers, and describes it. Under preconditions that do
/// not hold of the object in place, nothing is changed.
pub proof fn media_is_stored_as_sent(
    world: World,
    cx: ContextView,
    bucket: Text,
    key: Text,
    effects: nat,
)
    requires
        reaches_upload(world, cx, bucket),
        cx.req.param("uploadType"@) == Some("media"@),
        cx.req.param("name"@) == Some(key),
        once_each(cx.req.headers),
        upload_refusal(cx) is None,
        cx.req.param("ifGenerationMatch"@) is None || cx.req.param("ifGenerationNotMatch"@) is None,
        request_crc32c(cx.req) matches Ok(sum) && validate_crc32c(sum, cx.req.body) is Ok,
        effects >= 8,
    ensures
        ({
            let existing = world.object(bucket, key);
            let object = served(world, cx, effects).0.objects[(bucket, key)];
            let rejected = cx.req.param("ifGenerationNotMatch"@);
            if upload_preconditions_hold(
                cx.req.param("ifGenerationMatch"@),
                rejected,
                existing,
            ) {
                &&& ends(
                    served(world, cx, effects),
                    world.with_object(bucket, key, object),
                    200,
                )
                &&& just_written(cx, object, key, cx.req.body, existing)
                &&& object.content_type == or_text(
                    cx.req.header("content-type"@),
                    "application/octet-stream"@,
                )
                &&& has_metadata_of(cx, object)
                &&& exists|json: JsonView| #[trigger]
                    describes(json, bucket, object) && served(world, cx, effects).1
                        == StepView::Reply(json_response(cx.stamp, 200, json))
            } else {
                ends(
                    served(world, cx, effects),
                    world,
                    if rejected is Some {
                        304
                    } else {
                        412
                    },
                )
            }
        }),
{
    upload_types_differ();
    uploads_reach_their_bucket(world, cx, bucket, effects);
    let existing = world.object(bucket, key);
    let expected = cx.req.param("ifGenerationMatch"@);
    let rejected = cx.req.param("ifGenerationNotMatch"@);
    let content_type = or_text(cx.req.header("content-type"@), "application/octet-stream"@);
    let metadata = header_metadata(cx.req, "x-goog-meta-"@);
    let write = BlobWriteView { data: cx.req.body, content_type, metadata, expected, rejected };
    let outer = |tape: TapeView| start_upload(cx, bucket, tape);
    let inner = |tape: TapeView| store_upload(cx, bucket, key, write, tape);
    runs_agree(world, outer, inner, (effects - 2) as nat);
    storing_runs(world, cx, bucket, key, write, (effects - 2) as nat);
    upload_conditions_mean_so(expected, rejected, existing);
    written_objects_are_just_written(cx, key, cx.req.body, content_type, metadata, existing);
    let object = written_object(
        cx.stamp.now,
        key,
        cx.req.body,
        content_type,
        metadata,
        existing,
    );
    assert forall|name: Text| of_a_client(name) implies #[trigger] get(object.metadata, name)
        == cx.req.header("x-goog-meta-"@ + name) by {
        metadata_is_read(cx.req, "x-goog-meta-"@, name);
    }
    descriptions_describe_the_object(bucket, object);
    assert(describes(json_object_metadata(bucket, object), bucket, object));
}

/// An upload in parts stores the content of its media part under the name that the request or
/// its metadata gives, with the metadata of its first part.
pub proof fn parts_are_stored_as_sent(
    world: World,
    cx: ContextView,
    bucket: Text,
    key: Text,
    metadata: crate::gcs::multipart::UploadMetadataView,
    content_type: Text,
    data: Seq<u8>,
    effects: nat,
)
    requires
        reaches_upload(world, cx, bucket),
        cx.req.param("uploadType"@) == Some("multipart"@),
        upload_refusal(cx) is None,
        cx.req.header("x-goog-hash"@) is None,
        parse_multipart_upload(
            or_text(cx.req.header("content-type"@), "multipart/related"@),
            cx.req.body,
        ) == Ok::<_, crate::gcs::checks::UploadErrorView>((metadata, content_type, data)),
        validate_crc32c(metadata.crc32c, data) is Ok,
        match cx.req.param("name"@) {
            Some(name) => name == key,
            None => metadata.name == Some(key),
        },
        cx.req.param("ifGenerationMatch"@) is None || cx.req.param("ifGenerationNotMatch"@) is None,
        upload_preconditions_hold(
            cx.req.param("ifGenerationMatch"@),
            cx.req.param("ifGenerationNotMatch"@),
            world.object(bucket, key),
        ),
        effects >= 8,
    ensures
        ({
            let existing = world.object(bucket, key);
            let object = served(world, cx, effects).0.objects[(bucket, key)];
            &&& ends(served(world, cx, effects), world.with_object(bucket, key, object), 200)
            &&& just_written(cx, object, key, data, existing)
            &&& object.content_type == content_type
            &&& forall|name: Text|
                of_a_client(name) ==> #[trigger] get(object.metadata, name) == get(
                    metadata.metadata,
                    name,
                )
            &&& exists|json: JsonView| #[trigger]
                describes(json, bucket, object) && served(world, cx, effects).1 == StepView::Reply(
                    json_response(cx.stamp, 200, json),
                )
        }),
{
    upload_types_differ();
    uploads_reach_their_bucket(world, cx, bucket, effects);
    let existing = world.object(bucket, key);
    let expected = cx.req.param("ifGenerationMatch"@);
    let rejected = cx.req.param("ifGenerationNotMatch"@);
    let write = BlobWriteView {
        data,
        content_type,
        metadata: metadata.metadata,
        expected,
        rejected,
    };
    let outer = |tape: TapeView| start_upload(cx, bucket, tape);
    let inner = |tape: TapeView| store_upload(cx, bucket, key, write, tape);
    runs_agree(world, outer, inner, (effects - 2) as nat);
    storing_runs(world, cx, bucket, key, write, (effects - 2) as nat);
    upload_conditions_mean_so(expected, rejected, existing);
    written_objects_are_just_written(cx, key, data, content_type, metadata.metadata, existing);
    let object = written_object(
        cx.stamp.now,
        key,
        data,
        content_type,
        metadata.metadata,
        existing,
    );
    descriptions_describe_the_object(bucket, object);
    assert(describes(json_object_metadata(bucket, object), bucket, object));
}

// ---------------------------------------------------------------------------
// The XML API

/// Whether a request of the XML API may go to an object, or to where one would be, in a bucket
/// that is there and in which nobody keeps history.
pub open spec fn reaches_xml_object(
    world: World,
    cx: ContextView,
    bucket: Text,
    key: Text,
) -> bool {
    &&& world.sound()
    &&& !is_json_api_request(cx.req)
    &&& parse_path(cx.req) == Ok::<_, Text>((Some(bucket), Some(key)))
    &&& authorize(cx.stamp, cx.req, cx.auth, bucket, Some(key)) is Ok
    &&& unsupported_subresource(cx.req, true) is None
    &&& cx.req.param("generation"@) is None
    &&& world.buckets.contains_key(bucket)
    &&& keeps_no_history(world.buckets[bucket])
}

/// A request of the XML API for an object comes to its operation behind two questions after its
/// bucket.
proof fn xml_requests_reach_their_object(
    world: World,
    cx: ContextView,
    bucket: Text,
    key: Text,
    effects: nat,
)
    requires
        reaches_xml_object(world, cx, bucket, key),
        effects >= 2,
    ensures
        ({
            let left = (effects - 2) as nat;
            let outcome = served(world, cx, effects);
            match cx.req.method {
                Method::Put => outcome == run(
                    world,
                    |tape: TapeView| put_xml_object(cx, bucket, key, tape),
                    Seq::empty(),
                    left,
                ),
                Method::Get => outcome == run(
                    world,
                    |tape: TapeView| get_xml_object(cx, bucket, key, tape),
                    Seq::empty(),
                    left,
                ),
                Method::Head => outcome == run(
                    world,
                    |tape: TapeView| head_xml_object(cx, bucket, key, tape),
                    Seq::empty(),
                    left,
                ),
                Method::Delete => outcome == run(
                    world,
                    |tape: TapeView| delete_xml_object(cx, bucket, key, tape),
                    Seq::empty(),
                    left,
                ),
                _ => true,
            }
        }),
{
    broadcast use led_is_read;

    let found = world.buckets[bucket];
    assert(!foreign_data_protection(Some(found)));
    let ask = EffectView::GetBucket(bucket);
    let outcome = OutcomeView::Bucket(Ok(found));
    let handler = |tape: TapeView| handle_request(cx, tape);
    let second = |tape: TapeView| handle_xml_object_request(cx, bucket, key, tape);
    run_steps(world, handler, ask, second, effects);
    let left = (effects - 1) as nat;
    match cx.req.method {
        Method::Put => {
            run_steps(
                world,
                second,
                ask,
                |tape: TapeView| put_xml_object(cx, bucket, key, tape),
                left,
            );
        },
        Method::Get => {
            run_steps(
                world,
                second,
                ask,
                |tape: TapeView| get_xml_object(cx, bucket, key, tape),
                left,
            );
        },
        Method::Head => {
            run_steps(
                world,
                second,
                ask,
                |tape: TapeView| head_xml_object(cx, bucket, key, tape),
                left,
            );
        },
        Method::Delete => {
            run_steps(
                world,
                second,
                ask,
                |tape: TapeView| delete_xml_object(cx, bucket, key, tape),
                left,
            );
        },
        _ => {},
    }
}

/// A run of Put Object.
proof fn xml_putting_runs(
    world: World,
    cx: ContextView,
    bucket: Text,
    key: Text,
    object: ObjectView,
    effects: nat,
)
    requires
        world.buckets.contains_key(bucket),
        keeps_no_history(world.buckets[bucket]),
        xml_condition_refusal(cx.stamp, cx.req, true) is None,
        object == written_object(
            cx.stamp.now,
            key,
            cx.req.body,
            or_text(cx.req.header("content-type"@), "application/octet-stream"@),
            header_metadata(cx.req, "x-goog-meta-"@),
            world.object(bucket, key),
        ),
        effects >= 6,
    ensures
        ({
            let existing = world.object(bucket, key);
            let outcome = run(
                world,
                |tape: TapeView| put_xml_object(cx, bucket, key, tape),
                Seq::empty(),
                effects,
            );
            match xml_condition(cx.req, existing) {
                Some(condition) if !condition.holds_of(existing) => ends(outcome, world, 412),
                _ => outcome == (
                    world.with_object(bucket, key, object),
                    xml_object_written(
                        cx,
                        bucket,
                        key,
                        led(OutcomeView::Object(Ok(object)), Seq::empty()),
                    ),
                ),
            }
        }),
{
    broadcast use led_is_read;

    let existing = world.object(bucket, key);
    let found = world.buckets[bucket];
    let ask = EffectView::GetObject(bucket, key);
    let ask_bucket = EffectView::GetBucket(bucket);
    let answer = world.answer(ask);
    assert(world.answer(ask_bucket) == OutcomeView::Bucket(Ok(found)));
    let h0 = |tape: TapeView| put_xml_object(cx, bucket, key, tape);
    let left: nat;
    let h2: spec_fn(TapeView) -> StepView;
    match existing {
        Some(before) => {
            assert(!crate::gcs::basics::is_retained(cx.stamp.now, Some(found), before));
            let h1 = |tape: TapeView| h0(led(answer, tape));
            run_steps(world, h0, ask, h1, effects);
            h2 = |tape: TapeView| h1(led(OutcomeView::Bucket(Ok(found)), tape));
            run_steps(world, h1, ask_bucket, h2, (effects - 1) as nat);
            left = (effects - 2) as nat;
        },
        None => {
            h2 = |tape: TapeView| h0(led(answer, tape));
            run_steps(world, h0, ask, h2, effects);
            left = (effects - 1) as nat;
        },
    }
    let h3 = |tape: TapeView| h2(led(answer, tape));
    run_steps(world, h2, ask, h3, left);
    let put = match xml_condition(cx.req, existing) {
        Some(condition) => EffectView::PutObjectIf(bucket, key, object, condition),
        None => EffectView::PutObject(bucket, key, object),
    };
    let h4 = |tape: TapeView| h3(led(world.answer(put), tape));
    run_steps(world, h3, put, h4, (left - 1) as nat);
    let after = world.after(put);
    if world.answer(put) == OutcomeView::Flag(Ok(false)) {
        run_stops(world, h4, (left - 2) as nat);
    } else {
        assert(after.object(bucket, key) == Some(object));
        let h5 = |tape: TapeView| xml_object_written(cx, bucket, key, tape);
        runs_agree(after, h4, h5, (left - 2) as nat);
        let last = |tape: TapeView| h5(led(OutcomeView::Object(Ok(object)), tape));
        run_steps(after, h5, ask, last, (left - 2) as nat);
        run_stops(after, last, (left - 3) as nat);
    }
}

/// Put Object stores its body as the content of the object that it names, with the content type
/// and the metadata of its headers. Under a condition that does not hold of the object in place
/// nothing is changed.
pub proof fn xml_objects_are_stored(
    world: World,
    cx: ContextView,
    bucket: Text,
    key: Text,
    effects: nat,
)
    requires
        reaches_xml_object(world, cx, bucket, key),
        cx.req.method == Method::Put,
        once_each(cx.req.headers),
        xml_condition_refusal(cx.stamp, cx.req, true) is None,
        effects >= 8,
    ensures
        ({
            let existing = world.object(bucket, key);
            let object = served(world, cx, effects).0.objects[(bucket, key)];
            match xml_condition(cx.req, existing) {
                Some(condition) if !condition.holds_of(existing) => ends(
                    served(world, cx, effects),
                    world,
                    412,
                ),
                _ => {
                    &&& ends(
                        served(world, cx, effects),
                        world.with_object(bucket, key, object),
                        200,
                    )
                    &&& just_written(cx, object, key, cx.req.body, existing)
                    &&& object.content_type == or_text(
                        cx.req.header("content-type"@),
                        "application/octet-stream"@,
                    )
                    &&& has_metadata_of(cx, object)
                    &&& served(world, cx, effects).1 matches StepView::Reply(reply) && get(
                        reply.headers,
                        "x-goog-generation"@,
                    ) == Some(generation(object)) && get(reply.headers, "etag"@) == Some(
                        "\""@ + object.etag + "\""@,
                    )
                },
            }
        }),
{
    broadcast use led_is_read;
    broadcast use header_is_read;

    reveal_strlit("etag");
    reveal_strlit("x-goog-generation");
    reveal_strlit("x-goog-metageneration");
    assert("etag"@.len() == 4 && "x-goog-generation"@.len() == 17);
    assert("x-goog-metageneration"@.len() == 21);
    xml_requests_reach_their_object(world, cx, bucket, key, effects);
    let effects = (effects - 2) as nat;
    let existing = world.object(bucket, key);
    let content_type = or_text(cx.req.header("content-type"@), "application/octet-stream"@);
    let metadata = header_metadata(cx.req, "x-goog-meta-"@);
    let object = written_object(
        cx.stamp.now,
        key,
        cx.req.body,
        content_type,
        metadata,
        existing,
    );
    written_objects_are_just_written(cx, key, cx.req.body, content_type, metadata, existing);
    objects_are_made_as_given(
        cx.stamp.now,
        key,
        cx.req.body,
        content_type,
        metadata,
        existing,
    );
    state_is_read_back(
        metadata,
        crate::gcs::basics::next_generation(cx.stamp.now, existing),
        "1"@,
        cx.stamp.now,
        None,
        ""@,
    );
    assert forall|name: Text| of_a_client(name) implies #[trigger] get(object.metadata, name)
        == cx.req.header("x-goog-meta-"@ + name) by {
        metadata_is_read(cx.req, "x-goog-meta-"@, name);
    }
    xml_putting_runs(world, cx, bucket, key, object, effects);
}

/// Get Object gives the content of an object, or the range of it that is asked for, and Head
/// Object tells what it is. Where there is none, both say so. Nothing is changed.
pub proof fn xml_reads_give_the_object(
    world: World,
    cx: ContextView,
    bucket: Text,
    key: Text,
    effects: nat,
)
    requires
        reaches_xml_object(world, cx, bucket, key),
        cx.req.method == Method::Get || cx.req.method == Method::Head,
        world.object(bucket, key) matches Some(blob) ==> blob.size == blob.data.len() && blob.size
            <= usize::MAX,
        effects >= 4,
    ensures
        served(world, cx, effects).0 == world,
        served(world, cx, effects).1 matches StepView::Reply(reply) && match world.object(
            bucket,
            key,
        ) {
            None => reply.status == 404,
            Some(blob) => if cx.req.method == Method::Get {
                gives_content(cx, reply, blob)
            } else {
                reply.status == 200 && reply.body.len() == 0 && tells_object(
                    reply,
                    blob,
                    blob.data.len() as int,
                )
            },
        },
{
    broadcast use led_is_read;

    xml_requests_reach_their_object(world, cx, bucket, key, effects);
    let effects = (effects - 2) as nat;
    let ask = EffectView::GetObject(bucket, key);
    let get_handler = |tape: TapeView| get_xml_object(cx, bucket, key, tape);
    let head_handler = |tape: TapeView| head_xml_object(cx, bucket, key, tape);
    let handler = if cx.req.method == Method::Get {
        get_handler
    } else {
        head_handler
    };
    match world.object(bucket, key) {
        None => {
            let last = |tape: TapeView| handler(led(world.answer(ask), tape));
            run_steps(world, handler, ask, last, effects);
            run_stops(world, last, (effects - 1) as nat);
        },
        Some(blob) => if cx.req.method == Method::Get {
            let second = |tape: TapeView| media_response(cx, bucket, key, blob, tape);
            run_steps(world, handler, ask, second, effects);
            content_runs(world, cx, bucket, key, blob, (effects - 1) as nat);
        } else {
            replies_tell_the_object(cx.stamp, 200, blob, blob.size as int, None);
            let last = |tape: TapeView| handler(led(OutcomeView::Object(Ok(blob)), tape));
            run_steps(world, handler, ask, last, effects);
            run_stops(world, last, (effects - 1) as nat);
        },
    }
}

/// Delete Object takes the object that it names and nothing else. Under a condition that does
/// not hold of it nothing is changed.
pub proof fn xml_deletions_take_the_object(
    world: World,
    cx: ContextView,
    bucket: Text,
    key: Text,
    blob: ObjectView,
    effects: nat,
)
    requires
        reaches_xml_object(world, cx, bucket, key),
        cx.req.method == Method::Delete,
        xml_condition_refusal(cx.stamp, cx.req, false) is None,
        world.object(bucket, key) == Some(blob),
        effects >= 5,
    ensures
        match xml_condition(cx.req, Some(blob)) {
            Some(condition) if !condition.holds_of(Some(blob)) => ends(
                served(world, cx, effects),
                world,
                412,
            ),
            _ => ends(
                served(world, cx, effects),
                world.without_object(bucket, key),
                204,
            ),
        },
{
    broadcast use led_is_read;

    xml_requests_reach_their_object(world, cx, bucket, key, effects);
    let effects = (effects - 2) as nat;
    let found = world.buckets[bucket];
    let ask = EffectView::GetObject(bucket, key);
    let ask_bucket = EffectView::GetBucket(bucket);
    assert(!crate::gcs::basics::is_retained(cx.stamp.now, Some(found), blob));
    let h0 = |tape: TapeView| delete_xml_object(cx, bucket, key, tape);
    let h1 = |tape: TapeView| h0(led(OutcomeView::Object(Ok(blob)), tape));
    run_steps(world, h0, ask, h1, effects);
    let h2 = |tape: TapeView| delete_xml_over(cx, bucket, key, Some(blob), tape);
    run_steps(world, h1, ask_bucket, h2, (effects - 1) as nat);
    let take = match xml_condition(cx.req, Some(blob)) {
        Some(condition) => EffectView::DeleteObjectIf(bucket, key, condition),
        None => EffectView::DeleteObject(bucket, key),
    };
    let last = |tape: TapeView| h2(led(world.answer(take), tape));
    run_steps(world, h2, take, last, (effects - 2) as nat);
    run_stops(world.after(take), last, (effects - 3) as nat);
}

/// The headers of the XML API for conditions mean what they say of the object in place.
pub proof fn xml_conditions_compare_the_counters(cx: ContextView, existing: Option<ObjectView>)
    ensures
        (xml_condition(cx.req, existing) matches Some(condition) ==> condition.holds_of(existing))
            <==> {
            &&& cx.req.header("x-goog-if-generation-match"@) matches Some(value)
                ==> match existing {
                Some(object) => value == generation(object) && value != "0"@,
                None => value == "0"@,
            }
            &&& cx.req.header("x-goog-if-metageneration-match"@) matches Some(value) ==> (
            existing matches Some(object) && value == metageneration(object))
        },
{
    reveal_with_fuel(ConditionView::holds_of, 2);
    crate::gcs::contents::state_keys_differ();
    let g = cx.req.header("x-goog-if-generation-match"@);
    let m = cx.req.header("x-goog-if-metageneration-match"@);
    if g is Some && m is Some {
        let parts = seq![
            crate::gcs::checks::generation_condition(existing, g->0),
            crate::gcs::checks::counter_condition(existing, GCS_METAGENERATION_KEY@, m->0),
        ];
        assert(xml_condition(cx.req, existing) == Some(ConditionView::All(parts)));
        assert(parts[0] == crate::gcs::checks::generation_condition(existing, g->0));
        assert(parts[1] == crate::gcs::checks::counter_condition(
            existing,
            GCS_METAGENERATION_KEY@,
            m->0,
        ));
    }
}

} // verus!
