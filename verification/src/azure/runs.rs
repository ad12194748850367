//! Requests that are served to their end, over storage that does what it is asked.

use vstd::prelude::*;
use vstd::string::*;
use crate::azure::adapter::handle_request;
use crate::azure::auth::authorize;
use crate::azure::basics::{
    blob_response, conditions_match, history_conflict, history_visible, parse_resource, range_of,
    requested_range, snapshot_storage_key, write_condition, ResourceView,
    AZURE_IMMUTABILITY_MODE_KEY, AZURE_IMMUTABILITY_UNTIL_KEY, AZURE_LEASE_ID_KEY,
    AZURE_LEGAL_HOLD_KEY, AZURE_SOFT_DELETE_DAYS_KEY, AZURE_VERSIONING_KEY,
    GCS_RETENTION_SECONDS_KEY, GCS_SOFT_DELETE_SECONDS_KEY, S3_OBJECT_LOCK_ENABLED_KEY,
    S3_VERSIONING_STATUS_KEY,
};
use crate::azure::blobs::{
    bucket_if_known, content_range, get_blob, get_blob_range, handle_blob_crud, handle_blob_request,
    head_blob, lookup, ranged_reply, version_marks,
};
use crate::azure::replies::{descriptions_have_no_body, descriptions_tell_the_blob, tells};
use crate::http::{ContextView, Method};
use crate::number::{decimal, unsigned_is_not_negative};
use crate::readings::ranges_are_read;
use crate::store::{BucketView, EffectView, KnownView, ObjectView, OutcomeView, StepView, TapeView};
use crate::table::get;
use crate::text::{split_once, strip_prefix};
use crate::views::Text;
use crate::world::{
    held, led, led_is_read, run, run_behind, run_follows, run_steps, run_stops, runs_agree, World,
};

verus! {

/// A request of this front door, served with at most so many effects: what there is behind it,
/// and where it ends.
pub open spec fn served(world: World, cx: ContextView, effects: nat) -> (World, StepView) {
    run(world, |tape: TapeView| handle_request(cx, tape), Seq::empty(), effects)
}

/// Whether nobody keeps history in a bucket.
pub open spec fn keeps_no_history(bucket: BucketView) -> bool {
    &&& !bucket.versioning_enabled
    &&& get(bucket.metadata, AZURE_VERSIONING_KEY@) is None
    &&& get(bucket.metadata, AZURE_SOFT_DELETE_DAYS_KEY@) is None
    &&& get(bucket.metadata, S3_VERSIONING_STATUS_KEY@) is None
    &&& get(bucket.metadata, S3_OBJECT_LOCK_ENABLED_KEY@) is None
    &&& get(bucket.metadata, GCS_SOFT_DELETE_SECONDS_KEY@) is None
    &&& get(bucket.metadata, GCS_RETENTION_SECONDS_KEY@) is None
}

/// Whether a request may go to a blob, or to where one would be, in a container that is there
/// and in which nobody else keeps history.
pub open spec fn reaches(
    world: World,
    cx: ContextView,
    account: Text,
    container: Text,
    key: Text,
) -> bool {
    let resource = ResourceView { account, container: Some(container), blob: Some(key) };
    &&& world.sound()
    &&& parse_resource(cx.req.path) == Ok::<_, Text>(resource)
    &&& authorize(cx.stamp, cx.req, cx.auth, resource) is Ok
    &&& cx.req.param("restype"@) is None
    &&& !world.deletions.contains_key(container)
    &&& world.buckets.contains_key(container)
    &&& !history_conflict(Some(world.buckets[container]))
}

/// Whether neither a policy, nor a hold, nor a lease guards a blob.
pub open spec fn unguarded(blob: ObjectView) -> bool {
    &&& get(blob.provider_metadata, AZURE_IMMUTABILITY_MODE_KEY@) is None
    &&& get(blob.provider_metadata, AZURE_IMMUTABILITY_UNTIL_KEY@) is None
    &&& get(blob.provider_metadata, AZURE_LEGAL_HOLD_KEY@) is None
    &&& get(blob.provider_metadata, AZURE_LEASE_ID_KEY@) is None
}

/// Whether the conditions of a request, if it has any, hold of a blob.
pub open spec fn conditions_hold(cx: ContextView, blob: ObjectView) -> bool {
    &&& conditions_match(cx.req, blob.etag)
    &&& write_condition(cx.stamp, cx.req) matches Ok(condition) && (condition matches Some(
        condition,
    ) ==> condition.holds_of(Some(blob)))
}

/// A request for a blob comes to it behind four questions after its container.
pub proof fn requests_reach_their_blob(
    world: World,
    cx: ContextView,
    account: Text,
    container: Text,
    key: Text,
    effects: nat,
)
    requires
        reaches(world, cx, account, container, key),
        effects >= 4,
    ensures
        served(world, cx, effects) == run(
            world,
            |tape: TapeView| handle_blob_request(cx, account, container, key, tape),
            Seq::empty(),
            (effects - 4) as nat,
        ),
{
    let handler = |tape: TapeView| handle_request(cx, tape);
    let rest = |tape: TapeView| handle_blob_request(cx, account, container, key, tape);
    let bucket = world.buckets[container];
    let head = seq![
        OutcomeView::Deletion(Ok(None)),
        OutcomeView::Deletion(Ok(None)),
        OutcomeView::Bucket(Ok(bucket)),
        OutcomeView::Bucket(Ok(bucket)),
    ];
    assert(!history_conflict(Some(bucket)));
    let worlds = seq![world, world, world, world, world];
    assert forall|i: int| 0 <= i < 4 implies #[trigger] crate::world::leads(
        handler,
        worlds,
        head,
        i,
    ) by {
        let t = head.take(i);
        if i > 0 {
            assert(t[0] == head[0]);
        }
        if i > 1 {
            assert(t.skip(1)[0] == head[1]);
        }
        if i > 2 {
            assert(t.skip(1).skip(1)[0] == head[2]);
        }
        if i == 1 {
            assert(t.skip(1) =~= Seq::empty());
        } else if i == 2 {
            assert(t.skip(1).skip(1) =~= Seq::empty());
        } else if i == 3 {
            assert(t.skip(1).skip(1).skip(1) =~= Seq::empty());
        }
    }
    run_follows(handler, worlds, head, effects, 4);
    assert(head.take(4) =~= head);
    assert forall|tape: TapeView| #[trigger] handler(head + tape) == rest(tape) by {
        let all = head + tape;
        assert(all[0] == head[0] && all[1] == head[1] && all[2] == head[2] && all[3] == head[3]);
        assert(all.skip(1)[0] == all[1]);
        assert(all.skip(1).skip(1)[0] == all[2]);
        assert(all.skip(1).skip(1).skip(1)[0] == all[3]);
        assert(all.skip(1).skip(1).skip(1).skip(1) =~= tape);
    }
    assert(head + Seq::<OutcomeView>::empty() =~= head);
    run_behind(world, handler, rest, head, Seq::empty(), (effects - 4) as nat);
}

proof fn plain_requests_are_for_the_blob(
    cx: ContextView,
    account: Text,
    container: Text,
    key: Text,
    tape: TapeView,
)
    requires
        cx.req.param("comp"@) is None,
        cx.req.method == Method::Put ==> cx.req.param("snapshot"@) is None && cx.req.param(
            "versionid"@,
        ) is None && cx.req.header("x-ms-copy-source"@) is None,
    ensures
        handle_blob_request(cx, account, container, key, tape) == handle_blob_crud(
            cx,
            container,
            key,
            tape,
        ),
{
}

/// A request for a blob itself is served by the operation of its method.
pub proof fn requests_are_served(
    world: World,
    cx: ContextView,
    account: Text,
    container: Text,
    key: Text,
    effects: nat,
)
    requires
        reaches(world, cx, account, container, key),
        cx.req.param("comp"@) is None,
        cx.req.method == Method::Put ==> cx.req.param("snapshot"@) is None && cx.req.param(
            "versionid"@,
        ) is None && cx.req.header("x-ms-copy-source"@) is None,
        effects >= 4,
    ensures
        served(world, cx, effects) == run(
            world,
            |tape: TapeView| handle_blob_crud(cx, container, key, tape),
            Seq::empty(),
            (effects - 4) as nat,
        ),
{
    requests_reach_their_blob(world, cx, account, container, key, effects);
    let handler = |tape: TapeView| handle_blob_request(cx, account, container, key, tape);
    let inner = |tape: TapeView| handle_blob_crud(cx, container, key, tape);
    assert forall|tape: TapeView| #[trigger] handler(tape) == inner(tape) by {
        plain_requests_are_for_the_blob(cx, account, container, key, tape);
    }
    runs_agree(world, handler, inner, (effects - 4) as nat);
}

// ---------------------------------------------------------------------------
// Reading

/// The object that a request for a blob selects: a version of it, a snapshot, or the blob as it
/// is now.
pub open spec fn selected_blob(
    world: World,
    container: Text,
    key: Text,
    snapshot: Option<Text>,
    version: Option<Text>,
) -> Option<ObjectView> {
    match (version, snapshot) {
        (Some(version), _) => held(world.versions, (container, key, version)),
        (None, Some(snapshot)) => world.object(container, snapshot_storage_key(key, snapshot)),
        (None, None) => world.object(container, key),
    }
}

/// The range that a request asks for: the header of this front door comes first.
pub open spec fn wanted_range(cx: ContextView) -> Option<Text> {
    if cx.req.header("x-ms-range"@) is Some {
        cx.req.header("x-ms-range"@)
    } else {
        cx.req.header("range"@)
    }
}

/// A range that a request is given lies inside the blob.
pub proof fn ranges_are_inside(value: Text, size: int)
    ensures
        range_of(value, size) matches Some(span) ==> 0 <= span.0 <= span.1 < size,
{
    if let Some(range) = strip_prefix(value, "bytes="@) {
        if let Some((start, end)) = split_once(range, "-"@) {
            unsigned_is_not_negative(start, u64::MAX as int);
            unsigned_is_not_negative(end, u64::MAX as int);
        }
    }
}

/// Whether versions are shown, and if so whether a blob is the current one.
spec fn marks(world: World, container: Text, key: Text, blob: ObjectView) -> (bool, Option<bool>) {
    if !history_visible(Some(world.buckets[container])) {
        (false, None)
    } else {
        (
            true,
            match blob.version_id {
                None => None,
                Some(id) => Some(
                    world.object(container, key) matches Some(current) && current.version_id
                        == Some(id),
                ),
            },
        )
    }
}

/// How many questions that takes.
spec fn questions(world: World, container: Text, blob: ObjectView) -> nat {
    if history_visible(Some(world.buckets[container])) && blob.version_id is Some {
        2
    } else {
        1
    }
}

/// A run that first finds out about versions.
proof fn marks_run(
    world: World,
    container: Text,
    key: Text,
    blob: ObjectView,
    handler: spec_fn(TapeView) -> StepView,
    rest: spec_fn((bool, Option<bool>), TapeView) -> StepView,
    effects: nat,
)
    requires
        world.buckets.contains_key(container),
        effects >= 2,
        forall|tape: TapeView| #[trigger]
            handler(tape) == match version_marks(container, key, blob, tape) {
                KnownView::Halt(step) => step,
                KnownView::Got(found, tape) => rest(found, tape),
            },
    ensures
        run(world, handler, Seq::empty(), effects) == run(
            world,
            |tape: TapeView| rest(marks(world, container, key, blob), tape),
            Seq::empty(),
            (effects - questions(world, container, blob)) as nat,
        ),
{
    broadcast use led_is_read;

    let bucket = world.buckets[container];
    let ask = EffectView::GetBucket(container);
    let found = OutcomeView::Bucket(Ok(bucket));
    assert(world.answer(ask) == found);
    let last = |tape: TapeView| rest(marks(world, container, key, blob), tape);
    if history_visible(Some(bucket)) && blob.version_id is Some {
        let second = |tape: TapeView| handler(led(found, tape));
        run_steps(world, handler, ask, second, effects);
        run_steps(
            world,
            second,
            EffectView::GetObject(container, key),
            last,
            (effects - 1) as nat,
        );
    } else {
        run_steps(world, handler, ask, last, effects);
    }
}

proof fn reading_runs(
    world: World,
    cx: ContextView,
    container: Text,
    key: Text,
    snapshot: Option<Text>,
    effects: nat,
)
    requires
        world.sound(),
        world.buckets.contains_key(container),
        effects >= 5,
        selected_blob(world, container, key, snapshot, cx.req.param("versionid"@)) matches Some(
            blob,
        ) ==> blob.size == blob.data.len() && blob.size <= usize::MAX,
    ensures
        ({
            let selected = selected_blob(
                world,
                container,
                key,
                snapshot,
                cx.req.param("versionid"@),
            );
            let (left, step) = run(
                world,
                |tape: TapeView| get_blob(cx, container, key, snapshot, tape),
                Seq::empty(),
                effects,
            );
            left == world && (step matches StepView::Reply(reply) && match selected {
                None => reply.status == 404,
                Some(blob) => match wanted_range(cx) {
                    None => reply.status == 200 && reply.body == blob.data && tells(
                        reply,
                        blob,
                        blob.data.len() as int,
                    ),
                    Some(range) => match range_of(range, blob.size as int) {
                        None => reply.status == 416,
                        Some((start, end)) => reply.status == 206 && reply.body
                            == blob.data.subrange(start, end + 1) && tells(
                            reply,
                            blob,
                            end + 1 - start,
                        ) && get(reply.headers, "content-range"@) == Some(
                            "bytes "@ + decimal(start) + "-"@ + decimal(end) + "/"@ + decimal(
                                blob.data.len() as int,
                            ),
                        ),
                    },
                },
            })
        }),
{
    broadcast use led_is_read;

    let version = cx.req.param("versionid"@);
    let handler = |tape: TapeView| get_blob(cx, container, key, snapshot, tape);
    let ask = lookup(container, key, snapshot, version);
    let bucket = world.buckets[container];
    let get_bucket = EffectView::GetBucket(container);
    assert(world.answer(get_bucket) == OutcomeView::Bucket(Ok(bucket)));
    match selected_blob(world, container, key, snapshot, version) {
        None => {
            let end = |tape: TapeView| handler(led(world.answer(ask), Seq::empty()));
            run_steps(world, handler, ask, end, effects);
            run_stops(world, end, (effects - 1) as nat);
        },
        Some(blob) => match requested_range(cx.req) {
            None => {
                let (shown, current) = marks(world, container, key, blob);
                let size = blob.size as int;
                descriptions_tell_the_blob(cx.stamp, 200, blob, size, None, current, shown);
                let rest = |found: (bool, Option<bool>), tape: TapeView|
                    StepView::Reply(
                        blob_response(cx.stamp, 200, blob, size, None, found.1, found.0).bytes(
                            blob.data,
                        ),
                    );
                let second = |tape: TapeView|
                    match version_marks(container, key, blob, tape) {
                        KnownView::Halt(step) => step,
                        KnownView::Got(found, tape) => rest(found, tape),
                    };
                run_steps(world, handler, ask, second, effects);
                marks_run(world, container, key, blob, second, rest, (effects - 1) as nat);
                let end = |tape: TapeView| rest((shown, current), tape);
                run_stops(
                    world,
                    end,
                    (effects - 1 - questions(world, container, blob)) as nat,
                );
            },
            Some(range) => {
                let chosen = snapshot is Some || version is Some;
                let second = |tape: TapeView|
                    get_blob_range(cx, container, key, chosen, blob, range, tape);
                run_steps(world, handler, ask, second, effects);
                match range_of(range, blob.size as int) {
                    None => {
                        run_stops(world, second, (effects - 1) as nat);
                    },
                    Some((start, end)) => {
                        ranges_are_inside(range, blob.size as int);
                        let data = blob.data.subrange(start, end + 1);
                        let shown = content_range(start, end, blob.size as int);
                        let third = |tape: TapeView|
                            ranged_reply(cx, container, key, blob, blob, data, shown, tape);
                        let (_, current) = marks(world, container, key, blob);
                        let visible = history_visible(Some(bucket));
                        descriptions_tell_the_blob(
                            cx.stamp,
                            206,
                            blob,
                            data.len() as int,
                            Some(shown),
                            current,
                            visible,
                        );
                        let rest = |found: (bool, Option<bool>), tape: TapeView|
                            match bucket_if_known(container, tape) {
                                KnownView::Halt(step) => step,
                                KnownView::Got(bucket, _) => StepView::Reply(
                                    blob_response(
                                        cx.stamp,
                                        206,
                                        blob,
                                        data.len() as int,
                                        Some(shown),
                                        found.1,
                                        history_visible(bucket),
                                    ).bytes(data),
                                ),
                            };
                        let left = if chosen {
                            runs_agree(world, second, third, (effects - 1) as nat);
                            (effects - 1) as nat
                        } else {
                            run_steps(
                                world,
                                second,
                                EffectView::GetRange(container, key, start as u64, end as u64),
                                third,
                                (effects - 1) as nat,
                            );
                            (effects - 2) as nat
                        };
                        marks_run(world, container, key, blob, third, rest, left);
                        let now = (left - questions(world, container, blob)) as nat;
                        let fourth = |tape: TapeView|
                            rest(marks(world, container, key, blob), tape);
                        let end_step = |tape: TapeView|
                            fourth(led(OutcomeView::Bucket(Ok(bucket)), tape));
                        run_steps(world, fourth, get_bucket, end_step, now);
                        run_stops(world, end_step, (now - 1) as nat);
                    },
                }
            },
        },
    }
}

/// Get Blob gives the bytes of the blob that is selected: a version of it, a snapshot, or the
/// blob as it is now. A read of the whole gives all of them, a read of a range exactly those of
/// the range, and what is told is told of that blob. Nothing is changed.
pub proof fn reads_give_what_is_selected(
    world: World,
    cx: ContextView,
    account: Text,
    container: Text,
    key: Text,
    effects: nat,
)
    requires
        reaches(world, cx, account, container, key),
        cx.req.method == Method::Get,
        cx.req.param("comp"@) is None,
        cx.req.param("snapshot"@) is None || cx.req.param("versionid"@) is None,
        effects >= 9,
        selected_blob(
            world,
            container,
            key,
            cx.req.param("snapshot"@),
            cx.req.param("versionid"@),
        ) matches Some(blob) ==> blob.size == blob.data.len() && blob.size <= usize::MAX,
    ensures
        served(world, cx, effects).0 == world,
        served(world, cx, effects).1 matches StepView::Reply(reply) && match selected_blob(
            world,
            container,
            key,
            cx.req.param("snapshot"@),
            cx.req.param("versionid"@),
        ) {
            None => reply.status == 404,
            Some(blob) => match wanted_range(cx) {
                None => reply.status == 200 && reply.body == blob.data && tells(
                    reply,
                    blob,
                    blob.data.len() as int,
                ),
                Some(range) => match range_of(range, blob.data.len() as int) {
                    None => reply.status == 416,
                    Some((start, end)) => reply.status == 206 && reply.body == blob.data.subrange(
                        start,
                        end + 1,
                    ) && tells(reply, blob, end + 1 - start) && get(
                        reply.headers,
                        "content-range"@,
                    ) == Some(
                        "bytes "@ + decimal(start) + "-"@ + decimal(end) + "/"@ + decimal(
                            blob.data.len() as int,
                        ),
                    ),
                },
            },
        },
{
    requests_are_served(world, cx, account, container, key, effects);
    let snapshot = cx.req.param("snapshot"@);
    let handler = |tape: TapeView| handle_blob_crud(cx, container, key, tape);
    let inner = |tape: TapeView| get_blob(cx, container, key, snapshot, tape);
    runs_agree(world, handler, inner, (effects - 4) as nat);
    reading_runs(world, cx, container, key, snapshot, (effects - 4) as nat);
}

/// Get Blob with `bytes=a-b` gives the bytes from `a` to `b` of what is selected.
pub proof fn ranges_give_their_bytes(
    world: World,
    cx: ContextView,
    account: Text,
    container: Text,
    key: Text,
    blob: ObjectView,
    a: int,
    b: int,
    effects: nat,
)
    requires
        reaches(world, cx, account, container, key),
        cx.req.method == Method::Get,
        cx.req.param("comp"@) is None,
        cx.req.param("snapshot"@) is None || cx.req.param("versionid"@) is None,
        effects >= 9,
        selected_blob(
            world,
            container,
            key,
            cx.req.param("snapshot"@),
            cx.req.param("versionid"@),
        ) == Some(blob),
        blob.size == blob.data.len(),
        blob.size <= usize::MAX,
        0 <= a <= b < blob.data.len(),
        wanted_range(cx) == Some("bytes="@ + (decimal(a) + "-"@ + decimal(b))),
    ensures
        served(world, cx, effects).1 matches StepView::Reply(reply) && reply.status == 206
            && reply.body.len() == b + 1 - a && forall|i: int|
            a <= i <= b ==> reply.body[i - a] == #[trigger] blob.data[i],
{
    ranges_are_read(a, b, blob.data.len() as int);
    reads_give_what_is_selected(world, cx, account, container, key, effects);
    let body = blob.data.subrange(a, b + 1);
    assert forall|i: int| a <= i <= b implies body[i - a] == #[trigger] blob.data[i] by {}
}

/// Head Blob tells of the blob that is selected what Get Blob tells, without the bytes.
pub proof fn heads_tell_what_is_selected(
    world: World,
    cx: ContextView,
    account: Text,
    container: Text,
    key: Text,
    effects: nat,
)
    requires
        reaches(world, cx, account, container, key),
        cx.req.method == Method::Head,
        cx.req.param("comp"@) is None,
        cx.req.param("snapshot"@) is None || cx.req.param("versionid"@) is None,
        effects >= 9,
        selected_blob(
            world,
            container,
            key,
            cx.req.param("snapshot"@),
            cx.req.param("versionid"@),
        ) matches Some(blob) ==> blob.size == blob.data.len() && blob.size <= usize::MAX,
    ensures
        served(world, cx, effects).0 == world,
        served(world, cx, effects).1 matches StepView::Reply(reply) && reply.body.len() == 0
            && match selected_blob(
            world,
            container,
            key,
            cx.req.param("snapshot"@),
            cx.req.param("versionid"@),
        ) {
            None => reply.status == 404,
            Some(blob) => reply.status == 200 && tells(reply, blob, blob.data.len() as int),
        },
{
    broadcast use led_is_read;

    requests_are_served(world, cx, account, container, key, effects);
    let snapshot = cx.req.param("snapshot"@);
    let version = cx.req.param("versionid"@);
    let outer = |tape: TapeView| handle_blob_crud(cx, container, key, tape);
    let handler = |tape: TapeView| head_blob(cx, container, key, snapshot, tape);
    let effects = (effects - 4) as nat;
    runs_agree(world, outer, handler, effects);
    let ask = lookup(container, key, snapshot, version);
    match selected_blob(world, container, key, snapshot, version) {
        None => {
            let end = |tape: TapeView| handler(led(world.answer(ask), Seq::empty()));
            run_steps(world, handler, ask, end, effects);
            run_stops(world, end, (effects - 1) as nat);
        },
        Some(blob) => {
            let length = blob.size as int;
            let (shown, current) = marks(world, container, key, blob);
            let rest = |found: (bool, Option<bool>), tape: TapeView|
                StepView::Reply(
                    blob_response(cx.stamp, 200, blob, length, None, found.1, found.0),
                );
            let second = |tape: TapeView|
                match version_marks(container, key, blob, tape) {
                    KnownView::Halt(step) => step,
                    KnownView::Got(found, tape) => rest(found, tape),
                };
            run_steps(world, handler, ask, second, effects);
            marks_run(world, container, key, blob, second, rest, (effects - 1) as nat);
            let end = |tape: TapeView| rest((shown, current), tape);
            run_stops(
                world,
                end,
                (effects - 1 - questions(world, container, blob)) as nat,
            );
            descriptions_tell_the_blob(cx.stamp, 200, blob, length, None, current, shown);
            descriptions_have_no_body(cx.stamp, 200, blob, length, None, current, shown);
        },
    }
}

} // verus!
