//! What is stored for objects, and what is read back.

use vstd::prelude::*;
use vstd::string::*;
use crate::azure::basics::{header_metadata, meta_headers, range_of};
use crate::azure::contents::{meta_headers_keep_the_status, put_by};
use crate::clock::{millis, shifted, Instant, StampView};
use crate::codec::content_etag;
use crate::gcs::adapter::handle_request;
use crate::gcs::auth::authorize;
use crate::gcs::basics::{
    current_generation, foreign_data_protection, generation, is_json_api_request,
    metadata_with_gcs_state, metageneration, next_gcs_updated, next_generation,
    next_generation_number, parse_path, public_metadata, update_after, GCS_CRC32C_KEY,
    GCS_GENERATION_KEY, GCS_METAGENERATION_KEY, GCS_UPDATED_KEY,
};
use crate::gcs::checks::{
    check_gcs_preconditions, crc32c, encoded_crc32c, json_mutation_condition, request_crc32c,
    validate_crc32c, xml_condition,
};
use crate::gcs::json_api::{get_json_object, next_metageneration, patched_object};
use crate::gcs::objects::{
    object_crc32c, put_blob_with_generation_match, write_condition, written_object, BlobWriteView,
};
use crate::gcs::uploads::{
    complete_resumable_upload, complete_session, handle_media_upload, handle_resumable_start,
    store_session, store_upload, upload_refusal,
};
use crate::gcs::xml_api::{
    delete_xml_object, get_xml_object, put_xml_object, unsupported_subresource,
};
use crate::http::{ContextView, Method, RequestView, ResponseView};
use crate::json::FieldsView;
use crate::number::{decimal, reading_undoes_writing, unsigned, unsigned_is_not_negative};
use crate::store::{
    perhaps, BucketView, ConditionView, EffectView, KnownView, Object, ObjectView, OutcomeView,
    StepView, TapeView, UploadSessionView,
};
use crate::table::{get, get_with, get_without, with};
use crate::text::or_text;
use crate::views::{Pairs, Text};

verus! {

// ---------------------------------------------------------------------------
// Writing and reading

/// The keys of the counters and of the time of an update are three.
pub proof fn state_keys_differ()
    ensures
        GCS_GENERATION_KEY@ != GCS_METAGENERATION_KEY@,
        GCS_GENERATION_KEY@ != GCS_UPDATED_KEY@,
        GCS_METAGENERATION_KEY@ != GCS_UPDATED_KEY@,
{
    reveal_strlit("__sqrzl_gcs_generation");
    reveal_strlit("__sqrzl_gcs_metageneration");
    reveal_strlit("__sqrzl_gcs_updated");
    assert(GCS_GENERATION_KEY@.len() == 22);
    assert(GCS_METAGENERATION_KEY@.len() == 26);
    assert(GCS_UPDATED_KEY@.len() == 19);
}

/// The counters and the time of an update are read back from metadata as they were put in,
/// and the client's metadata is the one that was given.
pub proof fn state_is_read_back(
    metadata: Pairs,
    generation: Text,
    metageneration: Text,
    now: Instant,
    previous: Option<Text>,
    key: Text,
)
    ensures
        ({
            let kept = metadata_with_gcs_state(metadata, generation, metageneration, now, previous);
            &&& get(kept, GCS_GENERATION_KEY@) == Some(generation)
            &&& get(kept, GCS_METAGENERATION_KEY@) == Some(metageneration)
            &&& get(kept, GCS_UPDATED_KEY@) == Some(next_gcs_updated(now, previous))
            &&& get(public_metadata(kept), key) == get(public_metadata(metadata), key)
        }),
{
    state_keys_differ();
    let base = public_metadata(metadata);
    let a = with(base, GCS_GENERATION_KEY@, generation);
    let b = with(a, GCS_METAGENERATION_KEY@, metageneration);
    let time = next_gcs_updated(now, previous);
    let kept = with(b, GCS_UPDATED_KEY@, time);
    get_with(base, GCS_GENERATION_KEY@, generation, GCS_GENERATION_KEY@);
    get_with(a, GCS_METAGENERATION_KEY@, metageneration, GCS_GENERATION_KEY@);
    get_with(b, GCS_UPDATED_KEY@, time, GCS_GENERATION_KEY@);
    get_with(a, GCS_METAGENERATION_KEY@, metageneration, GCS_METAGENERATION_KEY@);
    get_with(b, GCS_UPDATED_KEY@, time, GCS_METAGENERATION_KEY@);
    get_with(b, GCS_UPDATED_KEY@, time, GCS_UPDATED_KEY@);
    get_with(base, GCS_GENERATION_KEY@, generation, key);
    get_with(a, GCS_METAGENERATION_KEY@, metageneration, key);
    get_with(b, GCS_UPDATED_KEY@, time, key);
    public_entry(kept, key);
    public_entry(base, key);
    public_entry(metadata, key);
}

/// What clients see of metadata is all but the counters and the time of an update.
pub proof fn public_entry(metadata: Pairs, key: Text)
    ensures
        get(public_metadata(metadata), key) == if key == GCS_GENERATION_KEY@ || key
            == GCS_METAGENERATION_KEY@ || key == GCS_UPDATED_KEY@ {
            None
        } else {
            get(metadata, key)
        },
{
    let a = crate::table::without(metadata, GCS_GENERATION_KEY@);
    let b = crate::table::without(a, GCS_METAGENERATION_KEY@);
    get_without(metadata, GCS_GENERATION_KEY@, key);
    get_without(a, GCS_METAGENERATION_KEY@, key);
    get_without(b, GCS_UPDATED_KEY@, key);
}

/// A write makes an object of the content that it is given, with the checksum of that content
/// and the next generation.
pub proof fn objects_are_made_as_given(
    now: Instant,
    key: Text,
    data: Seq<u8>,
    content_type: Text,
    metadata: Pairs,
    existing: Option<ObjectView>,
)
    ensures
        ({
            let object = written_object(now, key, data, content_type, metadata, existing);
            &&& object.key == key
            &&& object.data == data
            &&& object.size == data.len() as u64
            &&& object.etag == content_etag(data)
            &&& object.content_type == content_type
            &&& object.last_modified == now
            &&& get(object.provider_metadata, GCS_CRC32C_KEY@) == Some(encoded_crc32c(data))
            &&& generation(object) == next_generation(now, existing)
            &&& metageneration(object) == "1"@
        }),
{
    state_is_read_back(metadata, next_generation(now, existing), "1"@, now, None, ""@);
    get_with(
        Seq::<(Text, Text)>::empty(),
        GCS_CRC32C_KEY@,
        encoded_crc32c(data),
        GCS_CRC32C_KEY@,
    );
}

/// What Put Object changes through the XML API is the object it names: there it puts the
/// body.
pub proof fn xml_objects_are_stored_as_sent(
    cx: ContextView,
    bucket: Text,
    object: Text,
    tape: TapeView,
)
    ensures
        put_xml_object(cx, bucket, object, tape) matches StepView::Perform(effect) ==> (
        effect.mutates() ==> (put_by(effect) matches Some(put) && put.0 == bucket && put.1 == object
            && put.2.key == object && put.2.data == cx.req.body && put.2.size
            == cx.req.body.len() as u64 && put.2.content_type == or_text(
            cx.req.header("content-type"@),
            "application/octet-stream"@,
        ))),
{
}

/// What a write through the JSON API changes is the object it names: there it puts the
/// content of the upload.
pub proof fn json_objects_are_stored_as_sent(
    cx: ContextView,
    bucket: Text,
    key: Text,
    write: BlobWriteView,
    tape: TapeView,
)
    ensures
        store_upload(cx, bucket, key, write, tape) matches StepView::Perform(effect) ==> (
        effect.mutates() ==> (put_by(effect) matches Some(put) && put.0 == bucket && put.1 == key
            && put.2.key == key && put.2.data == write.data && put.2.size
            == write.data.len() as u64 && put.2.content_type == write.content_type)),
{
}

/// What the content of an announced upload changes is the object that it was announced for.
pub proof fn announced_objects_are_stored_as_sent(
    cx: ContextView,
    id: Text,
    session: UploadSessionView,
    tape: TapeView,
)
    ensures
        store_session(cx, id, session, tape) matches StepView::Perform(effect) ==> (
        effect.mutates() ==> (put_by(effect) matches Some(put) && put.0 == session.bucket && put.1
            == session.key && put.2.key == session.key && put.2.data == cx.req.body && put.2.size
            == cx.req.body.len() as u64 && put.2.content_type == session.content_type)),
{
}

/// An object is read as it was written, through either API: where storage has what a write
/// put, a read of the whole gives its content, and a read of a part the bytes of that part.
pub proof fn objects_are_read_as_they_were_written(
    read: ContextView,
    bucket: Text,
    key: Text,
    effect: EffectView,
    stored: ObjectView,
    tape: TapeView,
)
    requires
        put_by(effect) matches Some(put) && stored == (ObjectView {
            version_id: stored.version_id,
            ..put.2
        }),
        tape.len() > 0,
        tape[0] == OutcomeView::Object(Ok(stored)),
        tape.len() > 1 ==> (tape[1] matches OutcomeView::Payload(Ok(payload)) ==> (
        read.req.header("range"@) matches Some(range) && range_of(range, stored.size as int) matches
            Some(span) && payload.data == stored.data.subrange(span.0, span.1 + 1))),
    ensures
        get_xml_object(read, bucket, key, tape) matches StepView::Reply(reply) ==> gives(
            read,
            (put_by(effect)->0).2,
            reply,
        ),
        crate::gcs::json_api::checked_json_blob(read, bucket, key, tape) is Got ==> (
        get_json_object(read, bucket, key, true, tape) matches StepView::Reply(reply) ==> gives(
            read,
            (put_by(effect)->0).2,
            reply,
        )),
{
    if tape.len() > 1 {
        assert(tape.skip(1)[0] == tape[1]);
    }
    assert forall|described: ObjectView, base: ResponseView| #![trigger meta_headers(
        base,
        "x-goog-meta-"@,
        public_metadata(described.metadata),
    )] meta_headers(base, "x-goog-meta-"@, public_metadata(described.metadata)).status
        == base.status by {
        meta_headers_keep_the_status(
            base,
            "x-goog-meta-"@,
            public_metadata(described.metadata),
            public_metadata(described.metadata).len() as int,
        );
    }
}

/// Whether a reply gives the content of an object, or the part that a request asks for.
pub open spec fn gives(read: ContextView, object: ObjectView, reply: ResponseView) -> bool {
    match read.req.header("range"@) {
        None => reply.status == 200 && reply.body == object.data,
        Some(range) => match range_of(range, object.size as int) {
            Some(span) if span.1 <= usize::MAX => reply.status == 206 && reply.body
                == object.data.subrange(span.0, span.1 + 1),
            _ => reply.status == 416,
        },
    }
}

/// A request of the XML API for an object comes to the operation of its method, once storage
/// has said that the bucket exists and keeps no history for another front door.
pub proof fn xml_requests_come_to_their_object(
    cx: ContextView,
    bucket: Text,
    object: Text,
    found: BucketView,
    tape: TapeView,
)
    requires
        !is_json_api_request(cx.req),
        parse_path(cx.req) == Ok::<_, Text>((Some(bucket), Some(object))),
        authorize(cx.stamp, cx.req, cx.auth, bucket, Some(object)) is Ok,
        unsupported_subresource(cx.req, true) is None,
        cx.req.param("generation"@) is None,
        !foreign_data_protection(Some(found)),
        cx.req.method == Method::Put || cx.req.method == Method::Get || cx.req.method
            == Method::Delete,
    ensures
        handle_request(
            cx,
            seq![OutcomeView::Bucket(Ok(found)), OutcomeView::Bucket(Ok(found))] + tape,
        ) == match cx.req.method {
            Method::Put => put_xml_object(cx, bucket, object, tape),
            Method::Get => get_xml_object(cx, bucket, object, tape),
            _ => delete_xml_object(cx, bucket, object, tape),
        },
{
    let first = seq![OutcomeView::Bucket(Ok(found)), OutcomeView::Bucket(Ok(found))];
    let all = first + tape;
    assert(all[0] == first[0] && all[1] == first[1]);
    assert(all.skip(1)[0] == all[1]);
    assert(all.skip(1).skip(1) =~= tape);
}

/// An upload whose body is the content comes to a write of that content, once storage has said
/// that the bucket exists and keeps no history for another front door.
pub proof fn media_uploads_come_to_their_object(
    cx: ContextView,
    bucket: Text,
    key: Text,
    found: BucketView,
    tape: TapeView,
)
    requires
        cx.req.method == Method::Post,
        cx.req.param("uploadType"@) == Some("media"@),
        cx.req.param("name"@) == Some(key),
        authorize(cx.stamp, cx.req, cx.auth, bucket, None) is Ok,
        !foreign_data_protection(Some(found)),
        upload_refusal(cx) is None,
        request_crc32c(cx.req) matches Ok(sum) && validate_crc32c(sum, cx.req.body) is Ok,
    ensures
        handle_resumable_start(
            cx,
            bucket,
            seq![OutcomeView::Bucket(Ok(found)), OutcomeView::Bucket(Ok(found))] + tape,
        ) == store_upload(
            cx,
            bucket,
            key,
            (BlobWriteView {
                data: cx.req.body,
                content_type: or_text(
                    cx.req.header("content-type"@),
                    "application/octet-stream"@,
                ),
                metadata: header_metadata(cx.req, "x-goog-meta-"@),
                expected: cx.req.param("ifGenerationMatch"@),
                rejected: cx.req.param("ifGenerationNotMatch"@),
            }),
            tape,
        ),
{
    let first = seq![OutcomeView::Bucket(Ok(found)), OutcomeView::Bucket(Ok(found))];
    let all = first + tape;
    assert(all[0] == first[0] && all[1] == first[1]);
    assert(all.skip(1)[0] == all[1]);
    assert(all.skip(1).skip(1) =~= tape);
}

// ---------------------------------------------------------------------------
// Generations

/// Each write gives an object a higher generation, as long as there are numbers left.
pub proof fn generations_rise(now: Instant, existing: Option<ObjectView>)
    requires
        current_generation(existing) < u64::MAX,
    ensures
        unsigned(next_generation(now, existing), u64::MAX as int) matches Some(next) && next
            > current_generation(existing) && next > 0,
{
    if let Some(object) = existing {
        unsigned_is_not_negative(generation(object), u64::MAX as int);
    }
    reading_undoes_writing(next_generation_number(now, existing), u64::MAX as int);
}

/// A generation that a reply gave can be fed back, whether it is stored with the object or
/// made from its time: a write with it is asked of storage under a condition that holds of the
/// object as it was read, in both APIs. Of whatever object is there by then it holds if that
/// one has the generation stored, or, where none was stored, if it has the tag that was read.
pub proof fn generations_can_be_fed_back(
    req: RequestView,
    blob: ObjectView,
    current: Option<ObjectView>,
)
    requires
        generation(blob) != "0"@,
    ensures
        write_condition(Some(generation(blob)), None, Some(blob)) matches Some(Some(condition)) && (
        condition.holds_of(Some(blob))) && (condition.holds_of(current) <==> (current matches Some(
            object,
        ) && if get(blob.metadata, GCS_GENERATION_KEY@) is Some {
            get(object.metadata, GCS_GENERATION_KEY@) == Some(generation(blob))
        } else {
            object.etag == blob.etag
        })) && (req.header("x-goog-if-generation-match"@) == Some(generation(blob))
            && req.header("x-goog-if-metageneration-match"@) is None ==> xml_condition(
            req,
            Some(blob),
        ) == Some(condition)),
        req.header("x-goog-if-generation-match"@) == Some(generation(blob)) && req.header(
            "x-goog-if-metageneration-match"@,
        ) == Some(metageneration(blob)) ==> (xml_condition(req, Some(blob)) matches Some(condition)
            && condition.holds_of(Some(blob))),
{
    reveal_with_fuel(ConditionView::holds_of, 2);
    state_keys_differ();
}

/// A write with generation zero happens where there is no object, in both APIs.
pub proof fn generation_zero_means_no_object(
    req: RequestView,
    existing: Option<ObjectView>,
    current: Option<ObjectView>,
)
    ensures
        write_condition(Some("0"@), None, existing) matches Some(Some(condition)) && (
        condition.holds_of(current) <==> current is None),
        req.header("x-goog-if-generation-match"@) == Some("0"@) && req.header(
            "x-goog-if-metageneration-match"@,
        ) is None ==> (xml_condition(req, existing) matches Some(condition) && (condition.holds_of(
            current,
        ) <==> current is None)),
{
}

/// A write that must not replace a generation never replaces it: where the object that was read
/// is reported with it the write is given up, or asked of storage under a condition that does
/// not hold of the object.
pub proof fn unwanted_generations_are_kept(blob: ObjectView)
    ensures
        write_condition(None, Some(generation(blob)), Some(blob)) matches Some(wanted) ==> (
        wanted matches Some(condition) && !condition.holds_of(Some(blob))),
{
}

/// A deletion through the JSON API is asked of storage under a condition that holds of the
/// object as it was read, whenever the preconditions of the request do: so a request without
/// any is not refused for want of stored counters.
pub proof fn met_preconditions_hold_in_storage(
    stamp: StampView,
    req: RequestView,
    blob: ObjectView,
)
    requires
        check_gcs_preconditions(stamp, req, blob) is Ok,
    ensures
        json_mutation_condition(req, blob).holds_of(Some(blob)),
{
    reveal_with_fuel(ConditionView::holds_of, 2);
    state_keys_differ();
}

/// A write under a generation that a request names is only ever asked of storage under the
/// condition that this generation sets over the object that the write found.
pub proof fn generations_go_to_storage(
    now: Instant,
    bucket: Text,
    key: Text,
    write: BlobWriteView,
    tape: TapeView,
)
    requires
        write.expected is Some || write.rejected is Some,
    ensures
        put_blob_with_generation_match(now, bucket, key, write, tape) matches KnownView::Halt(
            StepView::Perform(effect),
        ) ==> (effect.mutates() ==> (perhaps::<Object>(
            tape,
            EffectView::GetObject(bucket, key),
        ) matches KnownView::Got(existing, _) && (effect matches EffectView::PutObjectIf(
            _,
            _,
            _,
            condition,
        ) && write_condition(write.expected, write.rejected, existing) == Some(Some(condition))))),
{
}

/// Changing an object's metadata keeps its content and its generation, raises its
/// metageneration as long as there are numbers left, and so changes what its tag is made of.
pub proof fn metadata_changes_keep_the_generation(
    now: Instant,
    payload: FieldsView,
    blob: ObjectView,
)
    ensures
        patched_object(now, payload, blob) matches Ok(updated) ==> {
            &&& updated.key == blob.key
            &&& updated.data == blob.data
            &&& updated.size == blob.size
            &&& updated.etag == blob.etag
            &&& updated.version_id == blob.version_id
            &&& updated.last_modified == blob.last_modified
            &&& updated.provider_metadata == blob.provider_metadata
            &&& generation(updated) == generation(blob)
            &&& metageneration(updated) == decimal(next_metageneration(blob))
            &&& unsigned(metageneration(updated), u64::MAX as int) == Some(
                next_metageneration(blob),
            )
            &&& unsigned(metageneration(blob), u64::MAX as int) matches Some(n) ==> (n < u64::MAX
                ==> next_metageneration(blob) == n + 1 && metageneration(updated)
                != metageneration(blob))
        },
{
    if let Ok(metadata) = crate::gcs::json_api::patched_metadata(payload, blob) {
        state_is_read_back(
            metadata,
            generation(blob),
            decimal(next_metageneration(blob)),
            now,
            Some(crate::gcs::basics::gcs_updated(blob.metadata, blob.last_modified)),
            ""@,
        );
    }
    if let Some(value) = get(blob.metadata, GCS_METAGENERATION_KEY@) {
        unsigned_is_not_negative(value, u64::MAX as int);
    } else {
        reveal_strlit("1");
        reading_undoes_writing(1, u64::MAX as int);
        assert(decimal(1) =~= "1"@);
    }
    reading_undoes_writing(next_metageneration(blob), u64::MAX as int);
}

/// Each update lies in a later millisecond than the one before it, as long as there is one.
pub proof fn updates_move_on(now: Instant, previous: Instant)
    requires
        previous.plain(),
        shifted(previous, 1) is Some,
    ensures
        millis(update_after(now, Some(previous))) > millis(previous),
{
}

// ---------------------------------------------------------------------------
// Checksums and sessions

/// A content passes exactly where it has the checksum that is asked for, if one is.
pub proof fn checksums_are_checked(expected: Option<u32>, data: Seq<u8>)
    ensures
        validate_crc32c(expected, data) is Ok <==> (expected matches Some(sum) ==> sum == crc32c(
            data,
        )),
{
}

/// The checksum that is told of an object is that of its content: of one that this front door
/// wrote, of one whose metadata it changed since, and of any that has none stored with it.
pub proof fn told_checksums_are_of_the_content(
    now: Instant,
    key: Text,
    data: Seq<u8>,
    content_type: Text,
    metadata: Pairs,
    existing: Option<ObjectView>,
    payload: FieldsView,
    blob: ObjectView,
)
    ensures
        object_crc32c(written_object(now, key, data, content_type, metadata, existing))
            == encoded_crc32c(data),
        get(blob.provider_metadata, GCS_CRC32C_KEY@) is None ==> object_crc32c(blob)
            == encoded_crc32c(blob.data),
        patched_object(now, payload, blob) matches Ok(updated) ==> (object_crc32c(blob)
            == encoded_crc32c(blob.data) ==> object_crc32c(updated) == encoded_crc32c(
            updated.data,
        )),
{
    objects_are_made_as_given(now, key, data, content_type, metadata, existing);
    metadata_changes_keep_the_generation(now, payload, blob);
}

/// A content that does not have its checksum is refused without a question to storage.
pub proof fn wrong_checksums_store_nothing(cx: ContextView, bucket: Text, tape: TapeView)
    requires
        request_crc32c(cx.req) matches Ok(Some(sum)) && sum != crc32c(cx.req.body),
    ensures
        handle_media_upload(cx, bucket, tape).is_refusal(),
{
}

/// A final request whose checksum is wrong leaves its session, and everything else, as it
/// was recorded.
pub proof fn wrong_checksums_keep_the_session(
    cx: ContextView,
    id: Text,
    session: UploadSessionView,
    header_crc: Option<u32>,
    tape: TapeView,
)
    requires
        (session.crc32c matches Some(sum) && sum != crc32c(cx.req.body)) || (
        header_crc matches Some(sum) && sum != crc32c(cx.req.body)),
    ensures
        complete_session(cx, id, session, header_crc, tape).is_refusal(),
{
}

/// A session's record is dropped only once storage has written the object and read it back.
pub proof fn sessions_end_after_the_write(cx: ContextView, id: Text, tape: TapeView)
    ensures
        complete_resumable_upload(cx, id, tape) matches StepView::Perform(effect) ==> (
        effect is DropUpload ==> tape.len() >= 2 && (tape[tape.len() - 1] matches
            OutcomeView::Object(Ok(_))) && (tape[tape.len() - 2] == OutcomeView::Done(Ok(()))
            || tape[tape.len() - 2] == OutcomeView::Flag(Ok(true)))),
{
}

} // verus!
