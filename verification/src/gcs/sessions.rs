//! What becomes of an upload session over several requests.

use vstd::prelude::*;
use vstd::string::*;
use crate::azure::basics::header_metadata;
use crate::gcs::adapter::handle_request;
use crate::gcs::basics::{
    foreign_data_protection, is_json_api_path, is_retained, json_response, request_host_bucket,
    response, segments, segments_upto,
};
use crate::gcs::checks::{
    combined_crc32c, free_of, invalid_json_mutation_headers, is_complete_resumable_range,
    request_crc32c, split_piece, validate_crc32c, UploadErrorView,
};
use crate::gcs::multipart::{parse_json_upload_metadata, UploadMetadataView};
use crate::gcs::objects::{json_object_metadata, write_condition, written_object};
use crate::gcs::runs::{found, run, run_ends, run_goes_on, Kept};
use crate::gcs::uploads::{
    complete_resumable_upload, create_resumable_session, handle_resumable, merged, new_session,
    store_session, upload_name, upload_refusal,
};
use crate::http::{ContextView, Method};
use crate::store::{EffectView, ObjectView, OutcomeView, StepView, TapeView, UploadSessionView};
use crate::text::{split, starts_with};
use crate::views::Text;

verus! {

/// The content of an upload is taken: what there is behind the request, and its reply.
pub open spec fn completed(kept: Kept, cx: ContextView, id: Text) -> (Kept, StepView) {
    run(kept, |tape: TapeView| complete_resumable_upload(cx, id, tape), Seq::empty(), 10)
}

/// Whether a final request is one that its session is not asked for: it is no `PUT`, it
/// has conditions on tags, only part of the content, or a checksum that cannot be read.
pub open spec fn refused_at_once(cx: ContextView) -> bool {
    let range = cx.req.header("content-range"@);
    cx.req.method != Method::Put || invalid_json_mutation_headers(cx.stamp, cx.req) is Some || (
    range is Some && !is_complete_resumable_range(range->0, cx.req.body.len() as int))
        || request_crc32c(cx.req) is Err
}

/// Whether a final request does not fit its session: its checksum is not that of the session
/// or of the content.
pub open spec fn refused_by_checksum(cx: ContextView, session: UploadSessionView) -> bool {
    request_crc32c(cx.req) matches Ok(header) && (combined_crc32c(session.crc32c, header)
        matches Ok(expected) ==> validate_crc32c(expected, cx.req.body) is Err)
}

/// Whether nothing in storage stands against the content of an upload.
pub open spec fn may_be_written(kept: Kept, cx: ContextView, session: UploadSessionView) -> bool {
    let bucket = found(kept.buckets, session.bucket);
    let existing = found(kept.objects, (session.bucket, session.key));
    &&& bucket is Some
    &&& !foreign_data_protection(bucket)
    &&& existing matches Some(object) ==> !is_retained(cx.stamp.now, bucket, object)
    &&& write_condition(
        session.if_generation_match,
        session.if_generation_not_match,
        existing,
    ) matches Some(condition) && kept.admits(session.bucket, session.key, condition)
}

/// The session that a final request finds.
pub open spec fn session_of(kept: Kept, id: Text) -> Option<UploadSessionView> {
    match found(kept.memory, id) {
        Some(session) => Some(session),
        None => found(kept.records, id),
    }
}

proof fn place_has_three_parts(path: Text, id: Text)
    requires
        path == "/upload/resumable/"@ + id,
        id.len() > 0,
        free_of(id, '/'),
    ensures
        segments(path) == seq!["upload"@, "resumable"@, id],
{
    reveal_strlit("/upload/resumable/");
    reveal_strlit("upload");
    reveal_strlit("resumable");
    let n = path.len() as int;
    assert(path.subrange(0, 18) =~= "/upload/resumable/"@);
    assert forall|k: int| 0 <= k < 18 implies path[k] == "/upload/resumable/"@[k] by {}
    assert forall|k: int| 18 <= k < n implies path[k] != '/' by {
        assert(path[k] == id[k - 18]);
    }
    split_piece(path, '/', 0, 0, 0);
    split_piece(path, '/', 1, 1, 7);
    split_piece(path, '/', 8, 8, 17);
    split_piece(path, '/', 18, 18, n);
    assert(path.subrange(0, 0) =~= Seq::empty());
    assert(path.subrange(1, 7) =~= "upload"@);
    assert(path.subrange(8, 17) =~= "resumable"@);
    assert(path.subrange(18, n) =~= id);
    let parts = split(path, '/');
    assert(parts =~= seq![Seq::empty(), "upload"@, "resumable"@, id]);
    reveal_with_fuel(segments_upto, 5);
    assert(segments(path) =~= seq!["upload"@, "resumable"@, id]);
}

proof fn place_is_of_the_json_api(path: Text, id: Text)
    requires
        path == "/upload/resumable/"@ + id,
    ensures
        is_json_api_path(path),
        starts_with(path, "/upload/resumable/"@),
        !starts_with(path, "/storage/v1/"@),
        !starts_with(path, "/download/storage/v1/"@),
{
    reveal_strlit("/upload/resumable/");
    reveal_strlit("/storage/v1/");
    reveal_strlit("/download/storage/v1/");
    assert(path.subrange(0, 18) =~= "/upload/resumable/"@);
    assert(path[1] == 'u');
    assert("/storage/v1/"@[1] == 's' && "/download/storage/v1/"@[1] == 'd');
}

/// A request for the place that the announcement of an upload was answered with comes to the
/// session of that identifier, without credentials.
pub proof fn requests_come_to_their_session(cx: ContextView, id: Text, tape: TapeView)
    requires
        cx.req.path == "/upload/resumable/"@ + id,
        request_host_bucket(cx.req) is None,
        id.len() > 0,
        free_of(id, '/'),
    ensures
        handle_request(cx, tape) == complete_resumable_upload(cx, id, tape),
{
    place_is_of_the_json_api(cx.req.path, id);
    place_has_three_parts(cx.req.path, id);
    reveal_strlit("resumable");
    reveal_strlit("storage");
    assert("resumable"@.len() == 9 && "storage"@.len() == 7);
    assert(handle_request(cx, tape) == handle_resumable(cx, tape));
}

/// The first two questions are after the session.
proof fn session_is_found(kept: Kept, cx: ContextView, id: Text)
    requires
        !refused_at_once(cx),
    ensures
        ({
            let handler = |tape: TapeView| complete_resumable_upload(cx, id, tape);
            completed(kept, cx, id) == run(
                kept.forgetting(id),
                handler,
                seq![
                    OutcomeView::Upload(Ok(found(kept.memory, id))),
                    OutcomeView::Upload(Ok(found(kept.records, id))),
                ],
                8,
            )
        }),
{
    let handler = |tape: TapeView| complete_resumable_upload(cx, id, tape);
    let t0 = Seq::<OutcomeView>::empty();
    assert(handler(t0) == StepView::Perform(EffectView::TakeUpload(id)));
    run_goes_on(kept, handler, t0, 10, EffectView::TakeUpload(id));
    let t1 = t0.push(OutcomeView::Upload(Ok(found(kept.memory, id))));
    assert(t1.skip(1) =~= Seq::empty());
    assert(handler(t1) == StepView::Perform(EffectView::LoadUpload(id)));
    run_goes_on(kept.forgetting(id), handler, t1, 9, EffectView::LoadUpload(id));
    assert(t1.push(OutcomeView::Upload(Ok(found(kept.records, id)))) =~= seq![
        OutcomeView::Upload(Ok(found(kept.memory, id))),
        OutcomeView::Upload(Ok(found(kept.records, id))),
    ]);
}

/// A final request that is refused stores nothing and leaves the record of its session.
pub proof fn refused_content_changes_nothing(
    kept: Kept,
    cx: ContextView,
    id: Text,
    session: UploadSessionView,
)
    requires
        session_of(kept, id) == Some(session),
        refused_at_once(cx) || refused_by_checksum(cx, session),
    ensures
        completed(kept, cx, id).0 == kept || completed(kept, cx, id).0 == kept.forgetting(id),
        completed(kept, cx, id).1 matches StepView::Reply(reply) && reply.status >= 400,
{
    reveal(run);
    if !refused_at_once(cx) {
        session_is_found(kept, cx, id);
    }
}

/// A final request without a session is answered so.
pub proof fn content_without_a_session_is_refused(kept: Kept, cx: ContextView, id: Text)
    requires
        !refused_at_once(cx),
        session_of(kept, id) is None,
    ensures
        completed(kept, cx, id).0.objects == kept.objects,
        completed(kept, cx, id).0.records == kept.records,
        completed(kept, cx, id).1 matches StepView::Reply(reply) && reply.status == 404,
{
    reveal(run);
    session_is_found(kept, cx, id);
}

/// What is written for the upload of a session.
pub open spec fn uploaded(kept: Kept, cx: ContextView, session: UploadSessionView) -> ObjectView {
    written_object(
        cx.stamp.now,
        session.key,
        cx.req.body,
        session.content_type,
        merged(session.metadata, header_metadata(cx.req, "x-goog-meta-"@)),
        found(kept.objects, (session.bucket, session.key)),
    )
}

/// How a write that may happen is asked for.
spec fn write_effect(kept: Kept, cx: ContextView, session: UploadSessionView) -> EffectView {
    match write_condition(
        session.if_generation_match,
        session.if_generation_not_match,
        found(kept.objects, (session.bucket, session.key)),
    ) {
        Some(Some(condition)) => EffectView::PutObjectIf(
            session.bucket,
            session.key,
            uploaded(kept, cx, session),
            condition,
        ),
        _ => EffectView::PutObject(session.bucket, session.key, uploaded(kept, cx, session)),
    }
}

/// Whether these are answers behind which the content of a session is written.
#[verifier::opaque]
spec fn leads_to_the_write(cx: ContextView, session: UploadSessionView, head: TapeView) -> bool {
    &&& !refused_at_once(cx)
    &&& !refused_by_checksum(cx, session)
    &&& head.len() == 3
    &&& head[0] matches OutcomeView::Upload(Ok(memory)) && (
    head[1] matches OutcomeView::Upload(Ok(record)) && (match memory {
        Some(session) => Some(session),
        None => record,
    }) == Some(session))
    &&& head[2] matches OutcomeView::Bucket(Ok(bucket)) && !foreign_data_protection(Some(bucket))
}

/// Behind the questions after the session and its bucket, the content is written.
proof fn session_is_written(
    cx: ContextView,
    id: Text,
    session: UploadSessionView,
    head: TapeView,
    rest: TapeView,
)
    requires
        leads_to_the_write(cx, session, head),
    ensures
        complete_resumable_upload(cx, id, head + rest) == store_session(cx, id, session, rest),
{
    reveal(leads_to_the_write);
    let tape = head + rest;
    assert(tape[0] == head[0]);
    assert(tape.skip(1)[0] == head[1]);
    assert(tape.skip(1).skip(1)[0] == head[2]);
    assert(tape.skip(1).skip(1).skip(1) =~= rest);
}

/// The third question is after the bucket.
proof fn bucket_is_found(kept: Kept, cx: ContextView, id: Text, session: UploadSessionView)
    requires
        session_of(kept, id) == Some(session),
        !refused_at_once(cx),
        !refused_by_checksum(cx, session),
        may_be_written(kept, cx, session),
    ensures
        ({
            let handler = |tape: TapeView| complete_resumable_upload(cx, id, tape);
            let head = seq![
                OutcomeView::Upload(Ok(found(kept.memory, id))),
                OutcomeView::Upload(Ok(found(kept.records, id))),
                kept.forgetting(id).answer(EffectView::GetBucket(session.bucket)),
            ];
            leads_to_the_write(cx, session, head) && completed(kept, cx, id) == run(
                kept.forgetting(id),
                handler,
                head,
                7,
            )
        }),
{
    let handler = |tape: TapeView| complete_resumable_upload(cx, id, tape);
    session_is_found(kept, cx, id);
    let t2 = seq![
        OutcomeView::Upload(Ok(found(kept.memory, id))),
        OutcomeView::Upload(Ok(found(kept.records, id))),
    ];
    let bucket = EffectView::GetBucket(session.bucket);
    let k = kept.forgetting(id);
    assert(t2.skip(1).skip(1) =~= Seq::empty());
    assert(handler(t2) == StepView::Perform(bucket));
    run_goes_on(k, handler, t2, 8, bucket);
    reveal(leads_to_the_write);
    assert(t2.push(k.answer(bucket)) =~= seq![t2[0], t2[1], k.answer(bucket)]);
}

/// What a write over an object asks, and what it replies.
proof fn steps_over_an_object(
    kept: Kept,
    cx: ContextView,
    id: Text,
    session: UploadSessionView,
    u: TapeView,
)
    requires
        may_be_written(kept, cx, session),
        found(kept.objects, (session.bucket, session.key)) is Some,
        u.len() == 7,
        u[0] == OutcomeView::Object(Ok(kept.objects[(session.bucket, session.key)])),
        u[1] == OutcomeView::Bucket(Ok(kept.buckets[session.bucket])),
        u[2] == u[0],
        u[3] == u[1],
        u[4] == kept.answer(write_effect(kept, cx, session)),
        u[5] == OutcomeView::Object(Ok(uploaded(kept, cx, session))),
        u[6] == OutcomeView::Done(Ok(())),
    ensures
        ({
            let object = StepView::Perform(EffectView::GetObject(session.bucket, session.key));
            let bucket = StepView::Perform(EffectView::GetBucket(session.bucket));
            &&& store_session(cx, id, session, u.take(0)) == object
            &&& store_session(cx, id, session, u.take(1)) == bucket
            &&& store_session(cx, id, session, u.take(2)) == object
            &&& store_session(cx, id, session, u.take(3)) == bucket
            &&& store_session(cx, id, session, u.take(4)) == StepView::Perform(
                write_effect(kept, cx, session),
            )
            &&& store_session(cx, id, session, u.take(5)) == object
            &&& store_session(cx, id, session, u.take(6)) == StepView::Perform(
                EffectView::DropUpload(id),
            )
            &&& store_session(cx, id, session, u) == StepView::Reply(
                json_response(
                    cx.stamp,
                    200,
                    json_object_metadata(session.bucket, uploaded(kept, cx, session)),
                ),
            )
        }),
{
}

/// What a write where there is no object asks, and what it replies.
proof fn steps_over_nothing(
    kept: Kept,
    cx: ContextView,
    id: Text,
    session: UploadSessionView,
    u: TapeView,
)
    requires
        may_be_written(kept, cx, session),
        found(kept.objects, (session.bucket, session.key)) is None,
        u.len() == 5,
        u[0] matches OutcomeView::Object(Err(_)),
        u[1] == u[0],
        u[2] == kept.answer(write_effect(kept, cx, session)),
        u[3] == OutcomeView::Object(Ok(uploaded(kept, cx, session))),
        u[4] == OutcomeView::Done(Ok(())),
    ensures
        ({
            let object = StepView::Perform(EffectView::GetObject(session.bucket, session.key));
            &&& store_session(cx, id, session, u.take(0)) == object
            &&& store_session(cx, id, session, u.take(1)) == object
            &&& store_session(cx, id, session, u.take(2)) == StepView::Perform(
                write_effect(kept, cx, session),
            )
            &&& store_session(cx, id, session, u.take(3)) == object
            &&& store_session(cx, id, session, u.take(4)) == StepView::Perform(
                EffectView::DropUpload(id),
            )
            &&& store_session(cx, id, session, u) == StepView::Reply(
                json_response(
                    cx.stamp,
                    200,
                    json_object_metadata(session.bucket, uploaded(kept, cx, session)),
                ),
            )
        }),
{
}

/// A final request that fits its session, with nothing in storage against it, stores its body
/// as the content of the object that the session is for, and ends the session.
pub proof fn content_ends_its_session(
    kept: Kept,
    cx: ContextView,
    id: Text,
    session: UploadSessionView,
)
    requires
        session_of(kept, id) == Some(session),
        !refused_at_once(cx),
        !refused_by_checksum(cx, session),
        may_be_written(kept, cx, session),
    ensures
        completed(kept, cx, id).0 == (Kept {
            objects: kept.objects.insert(
                (session.bucket, session.key),
                uploaded(kept, cx, session),
            ),
            records: kept.records.remove(id),
            memory: kept.memory.remove(id),
            ..kept
        }),
        uploaded(kept, cx, session).data == cx.req.body,
        completed(kept, cx, id).1 == StepView::Reply(
            json_response(
                cx.stamp,
                200,
                json_object_metadata(session.bucket, uploaded(kept, cx, session)),
            ),
        ),
{
    let handler = |tape: TapeView| complete_resumable_upload(cx, id, tape);
    let bucket = EffectView::GetBucket(session.bucket);
    let object = EffectView::GetObject(session.bucket, session.key);
    let put = write_effect(kept, cx, session);
    let drop = EffectView::DropUpload(id);
    let k = kept.forgetting(id);
    let written = k.after(put);
    let head = seq![
        OutcomeView::Upload(Ok(found(kept.memory, id))),
        OutcomeView::Upload(Ok(found(kept.records, id))),
        k.answer(bucket),
    ];
    bucket_is_found(kept, cx, id, session);
    assert(written == k.holding(session.bucket, session.key, uploaded(kept, cx, session)));
    let u = match found(kept.objects, (session.bucket, session.key)) {
        Some(_) => seq![
            k.answer(object),
            k.answer(bucket),
            k.answer(object),
            k.answer(bucket),
            k.answer(put),
            written.answer(object),
            written.answer(drop),
        ],
        None => seq![
            k.answer(object),
            k.answer(object),
            k.answer(put),
            written.answer(object),
            written.answer(drop),
        ],
    };
    assert(head + u.take(0) =~= head);
    match found(kept.objects, (session.bucket, session.key)) {
        Some(_) => {
            steps_over_an_object(kept, cx, id, session, u);
            session_runs(k, cx, id, session, head, u, 0, 7, object);
            session_runs(k, cx, id, session, head, u, 1, 6, bucket);
            session_runs(k, cx, id, session, head, u, 2, 5, object);
            session_runs(k, cx, id, session, head, u, 3, 4, bucket);
            session_runs(k, cx, id, session, head, u, 4, 3, put);
            session_runs(written, cx, id, session, head, u, 5, 2, object);
            session_runs(written, cx, id, session, head, u, 6, 1, drop);
            assert(u.take(7) =~= u);
            session_is_written(cx, id, session, head, u);
            run_ends(written.after(drop), handler, head + u, 0);
        },
        None => {
            steps_over_nothing(kept, cx, id, session, u);
            session_runs(k, cx, id, session, head, u, 0, 7, object);
            session_runs(k, cx, id, session, head, u, 1, 6, object);
            session_runs(k, cx, id, session, head, u, 2, 5, put);
            session_runs(written, cx, id, session, head, u, 3, 4, object);
            session_runs(written, cx, id, session, head, u, 4, 3, drop);
            assert(u.take(5) =~= u);
            session_is_written(cx, id, session, head, u);
            run_ends(written.after(drop), handler, head + u, 2);
        },
    }
}

/// One more effect of a session that is being written.
proof fn session_runs(
    kept: Kept,
    cx: ContextView,
    id: Text,
    session: UploadSessionView,
    head: TapeView,
    rest: TapeView,
    n: int,
    effects: nat,
    effect: EffectView,
)
    requires
        0 <= n < rest.len(),
        rest[n] == kept.answer(effect),
        effects > 0,
        leads_to_the_write(cx, session, head),
        store_session(cx, id, session, rest.take(n)) == StepView::Perform(effect),
    ensures
        ({
            let handler = |tape: TapeView| complete_resumable_upload(cx, id, tape);
            run(kept, handler, head + rest.take(n), effects) == run(
                kept.after(effect),
                handler,
                head + rest.take(n + 1),
                (effects - 1) as nat,
            )
        }),
{
    let handler = |tape: TapeView| complete_resumable_upload(cx, id, tape);
    session_is_written(cx, id, session, head, rest.take(n));
    run_goes_on(kept, handler, head + rest.take(n), effects, effect);
    assert((head + rest.take(n)).push(rest[n]) =~= head + rest.take(n + 1));
}

/// An upload is announced: what there is behind the request, and its reply.
pub open spec fn announced(kept: Kept, cx: ContextView, bucket: Text) -> (Kept, StepView) {
    run(kept, |tape: TapeView| create_resumable_session(cx, bucket, tape), Seq::empty(), 2)
}

/// An upload that is announced has its session recorded and remembered, under the identifier
/// that the reply gives the place of. Nothing is stored yet.
pub proof fn announcing_makes_a_session(
    kept: Kept,
    cx: ContextView,
    bucket: Text,
    metadata: UploadMetadataView,
    key: Text,
)
    requires
        upload_refusal(cx) is None,
        cx.req.header("x-goog-hash"@) is None,
        parse_json_upload_metadata(cx.req.body) == Ok::<_, UploadErrorView>(metadata),
        upload_name(cx, metadata) == Some(key),
    ensures
        announced(kept, cx, bucket).0 == (Kept {
            records: kept.records.insert(
                cx.stamp.fresh_id,
                new_session(cx, bucket, key, metadata),
            ),
            memory: kept.memory.insert(cx.stamp.fresh_id, new_session(cx, bucket, key, metadata)),
            ..kept
        }),
        announced(kept, cx, bucket).1 == StepView::Reply(
            response(cx.stamp, 200).header(
                "location"@,
                cx.req.origin + "/upload/resumable/"@ + cx.stamp.fresh_id,
            ),
        ),
{
    let handler = |tape: TapeView| create_resumable_session(cx, bucket, tape);
    let id = cx.stamp.fresh_id;
    let session = new_session(cx, bucket, key, metadata);
    let save = EffectView::SaveUpload(id, session);
    let remember = EffectView::RememberUpload(id, session);
    let t0 = Seq::<OutcomeView>::empty();
    run_goes_on(kept, handler, t0, 2, save);
    let t1 = t0.push(kept.answer(save));
    assert(t1.skip(1) =~= Seq::empty());
    run_goes_on(kept.after(save), handler, t1, 1, remember);
    let t2 = t1.push(kept.answer(remember));
    assert(t2.skip(1)[0] == t2[1]);
    run_ends(kept.after(save).after(remember), handler, t2, 0);
}

/// A final request that is refused, for conditions on tags, for part of the content or for a
/// checksum, stores nothing and leaves its session usable: a good one that follows, on the
/// same adapter or on a new one over the same storage, stores exactly its body. With that the
/// session is over, and whatever content comes for it finds none.
pub proof fn refused_content_can_be_sent_again(
    kept: Kept,
    bad: ContextView,
    good: ContextView,
    further: ContextView,
    id: Text,
    session: UploadSessionView,
    anew: bool,
)
    requires
        found(kept.records, id) == Some(session),
        found(kept.memory, id) matches Some(remembered) ==> remembered == session,
        refused_at_once(bad) || refused_by_checksum(bad, session),
        !refused_at_once(good),
        !refused_by_checksum(good, session),
        may_be_written(kept, good, session),
        !refused_at_once(further),
    ensures
        ({
            let first = completed(kept, bad, id);
            let left = if anew {
                first.0.restarted()
            } else {
                first.0
            };
            let second = completed(left, good, id);
            let third = completed(second.0, further, id);
            &&& first.1 matches StepView::Reply(reply) && reply.status >= 400
            &&& first.0.objects == kept.objects
            &&& first.0.records == kept.records
            &&& second.1 matches StepView::Reply(reply) && reply.status == 200
            &&& uploaded(kept, good, session).data == good.req.body
            &&& second.0.objects == kept.objects.insert(
                (session.bucket, session.key),
                uploaded(kept, good, session),
            )
            &&& third.1 matches StepView::Reply(reply) && reply.status == 404
            &&& third.0.objects == second.0.objects
        }),
{
    let first = completed(kept, bad, id);
    refused_content_changes_nothing(kept, bad, id, session);
    let left = if anew {
        first.0.restarted()
    } else {
        first.0
    };
    content_ends_its_session(left, good, id, session);
    let second = completed(left, good, id);
    content_without_a_session_is_refused(second.0, further, id);
}

} // verus!
