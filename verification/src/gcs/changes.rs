//! What requests of the JSON API for an object change and tell, served to their end.

use vstd::prelude::*;
use vstd::string::*;
use crate::azure::basics::range_of;
use crate::azure::replies::once_each;
use crate::azure::runs::ranges_are_inside;
use crate::gcs::adapter::handle_request;
use crate::gcs::auth::authorize;
use crate::gcs::basics::{
    decode_object_path, foreign_data_protection, generation, is_json_api_request, is_retained,
    json_response, metageneration, object_response, public_metadata, segments,
};
use crate::gcs::checks::{
    check_current_generation_selector, check_gcs_preconditions, json_mutation_condition,
};
use crate::gcs::contents::{
    met_preconditions_hold_in_storage, public_entry, state_is_read_back, state_keys_differ,
};
use crate::gcs::json_api::{
    delete_json_object, document_patch, get_json_object, handle_json_object_item,
    next_metageneration, patch_json_object, patched_from, patched_metadata, patched_object, rest_of,
    unpatchable_from,
};
use crate::gcs::objects::{json_object_metadata, media_response};
use crate::gcs::replies::{
    describes, descriptions_describe_the_object, replies_tell_the_object, tells_object,
};
use crate::http::{ContextView, Method, ResponseView};
use crate::json::{json_parsed, FieldsView, JsonView};
use crate::number::{decimal, unsigned};
use crate::store::{EffectView, Object, ObjectView, OutcomeView, StepView, TapeView};
use crate::table::{get, get_with, get_without, lookup_from, with, without};
use crate::text::starts_with;
use crate::views::{Pairs, Text};
use crate::world::{led, led_is_read, run, run_steps, run_stops, runs_agree, World};

verus! {

/// A request of this front door, served with at most so many effects: what there is behind it,
/// and where it ends.
pub open spec fn served(world: World, cx: ContextView, effects: nat) -> (World, StepView) {
    run(world, |tape: TapeView| handle_request(cx, tape), Seq::empty(), effects)
}

/// Whether a request of the JSON API may go to an object, or to where one would be, in a bucket
/// that is there and in which nobody else keeps history.
pub open spec fn reaches_object(world: World, cx: ContextView, bucket: Text, key: Text) -> bool {
    let parts = segments(cx.req.path);
    &&& world.sound()
    &&& is_json_api_request(cx.req)
    &&& starts_with(cx.req.path, "/storage/v1/"@)
    &&& parts.len() > 5
    &&& parts.take(5) == seq!["storage"@, "v1"@, "b"@, bucket, "o"@]
    &&& decode_object_path(rest_of(parts, 5)) == Ok::<Text, Text>(key)
    &&& authorize(cx.stamp, cx.req, cx.auth, bucket, None) is Ok
    &&& authorize(cx.stamp, cx.req, cx.auth, bucket, Some(key)) is Ok
    &&& world.buckets.contains_key(bucket)
    &&& !foreign_data_protection(Some(world.buckets[bucket]))
}

/// A request for an object comes to it behind one question after its bucket.
pub proof fn requests_reach_their_object(
    world: World,
    cx: ContextView,
    bucket: Text,
    key: Text,
    effects: nat,
)
    requires
        reaches_object(world, cx, bucket, key),
        effects >= 1,
    ensures
        served(world, cx, effects) == run(
            world,
            |tape: TapeView|
                handle_json_object_item(
                    cx,
                    bucket,
                    key,
                    cx.req.param("alt"@) == Some("media"@),
                    tape,
                ),
            Seq::empty(),
            (effects - 1) as nat,
        ),
{
    broadcast use led_is_read;

    let handler = |tape: TapeView| handle_request(cx, tape);
    let rest = |tape: TapeView|
        handle_json_object_item(cx, bucket, key, cx.req.param("alt"@) == Some("media"@), tape);
    let parts = segments(cx.req.path);
    let front = parts.take(5);
    assert(parts[0] == front[0] && parts[1] == front[1] && parts[2] == front[2]);
    assert(parts[3] == front[3] && parts[4] == front[4]);
    reveal_strlit("o");
    reveal_strlit("lockRetentionPolicy");
    assert("o"@.len() == 1 && "lockRetentionPolicy"@.len() == 19);
    run_steps(world, handler, EffectView::GetBucket(bucket), rest, effects);
}

/// Whether the preconditions of a request, if it has any, hold of an object.
pub open spec fn preconditions_hold(cx: ContextView, blob: ObjectView) -> bool {
    &&& check_current_generation_selector(cx.stamp, cx.req, blob) is Ok
    &&& check_gcs_preconditions(cx.stamp, cx.req, blob) is Ok
    &&& cx.req.header("if-match"@) is None
    &&& cx.req.header("if-none-match"@) is None
}

// ---------------------------------------------------------------------------
// Patching

/// Whether a key is one of a client, and not of the counters or the time of an update.
pub open spec fn of_a_client(key: Text) -> bool {
    key != "__sqrzl_gcs_generation"@ && key != "__sqrzl_gcs_metageneration"@ && key
        != "__sqrzl_gcs_updated"@
}

/// Whether a value may stand for an entry of metadata in a patch.
pub open spec fn text_or_null(value: JsonView) -> bool {
    value is Text || value is Null
}

/// What a patch makes of the value of a key.
pub open spec fn patched_value(values: FieldsView, key: Text, before: Option<Text>) -> Option<Text> {
    match get(values, key) {
        Some(JsonView::Text(text)) => Some(text),
        Some(_) => None,
        None => before,
    }
}

proof fn patches_go_field_by_field(table: Pairs, values: FieldsView, i: int, key: Text)
    requires
        0 <= i <= values.len(),
        once_each(values),
        forall|k: int| 0 <= k < values.len() ==> text_or_null((#[trigger] values[k]).1),
    ensures
        patched_from(table, values, i) matches Ok(out) && get(out, key) == match lookup_from(
            values,
            key,
            i,
        ) {
            Some(JsonView::Text(text)) => Some(text),
            Some(_) => None,
            None => get(table, key),
        },
    decreases values.len() - i,
{
    if i < values.len() {
        assert(text_or_null(values[i].1));
        let name = values[i].0;
        match values[i].1 {
            JsonView::Text(text) => {
                get_with(table, name, text, key);
                patches_go_field_by_field(with(table, name, text), values, i + 1, key);
            },
            _ => {
                get_without(table, name, key);
                patches_go_field_by_field(without(table, name), values, i + 1, key);
            },
        }
        if name == key {
            lookup_ends(values, key, i + 1);
        }
    }
}

proof fn lookup_ends(values: FieldsView, key: Text, from: int)
    requires
        0 < from <= values.len(),
        once_each(values),
        exists|k: int| 0 <= k < from && (#[trigger] values[k]).0 == key,
    ensures
        lookup_from(values, key, from) is None,
    decreases values.len() - from,
{
    let k = choose|k: int| 0 <= k < from && (#[trigger] values[k]).0 == key;
    if from < values.len() {
        assert(values[k].0 != values[from].0);
        assert(values[k].0 == key);
        lookup_ends(values, key, from + 1);
    }
}

/// A patch that is run: the object is replaced by the patched one, or the patch is refused.
proof fn patching_runs(
    world: World,
    cx: ContextView,
    bucket: Text,
    key: Text,
    blob: ObjectView,
    effects: nat,
)
    requires
        reaches_object(world, cx, bucket, key),
        cx.req.method == Method::Patch,
        world.object(bucket, key) == Some(blob),
        preconditions_hold(cx, blob),
        effects >= 4,
    ensures
        match document_patch(cx.stamp.now, json_parsed(cx.req.body), blob) {
            Ok(updated) => served(world, cx, effects) == (
                world.with_object(bucket, key, updated),
                StepView::Reply(
                    json_response(cx.stamp, 200, json_object_metadata(bucket, updated)),
                ),
            ),
            Err((status, _)) => served(world, cx, effects).0 == world && (
            served(world, cx, effects).1 matches StepView::Reply(reply) && reply.status == status),
        },
{
    broadcast use led_is_read;

    requests_reach_their_object(world, cx, bucket, key, effects);
    let media = cx.req.param("alt"@) == Some("media"@);
    let outer = |tape: TapeView| handle_json_object_item(cx, bucket, key, media, tape);
    let handler = |tape: TapeView| patch_json_object(cx, bucket, key, tape);
    runs_agree(world, outer, handler, (effects - 1) as nat);
    let ask = EffectView::GetObject(bucket, key);
    let patch = document_patch(cx.stamp.now, json_parsed(cx.req.body), blob);
    let second = |tape: TapeView| patch_json_object(cx, bucket, key, led(world.answer(ask), tape));
    run_steps(world, handler, ask, second, (effects - 1) as nat);
    match patch {
        Err((status, message)) => {
            run_stops(world, second, (effects - 2) as nat);
        },
        Ok(updated) => {
            let put = EffectView::ReplaceMetadata(bucket, key, blob, updated);
            let after = world.after(put);
            assert(after == world.with_object(bucket, key, updated));
            let third = |tape: TapeView| second(led(OutcomeView::Flag(Ok(true)), tape));
            run_steps(world, second, put, third, (effects - 2) as nat);
            let end = |tape: TapeView|
                StepView::Reply(
                    json_response(cx.stamp, 200, json_object_metadata(bucket, updated)),
                );
            assert(after.object(bucket, key) == Some(updated));
            run_steps(after, third, ask, end, (effects - 3) as nat);
            run_stops(after, end, (effects - 4) as nat);
        },
    }
}

/// A patch of metadata keeps what it does not name: for every key of a client the object has the
/// text that the patch gives for the key, nothing where the patch gives null, and otherwise what
/// it had. Its content, its generation and every other object stay, and its metageneration goes
/// up by one.
pub proof fn patches_keep_what_they_do_not_name(
    world: World,
    cx: ContextView,
    bucket: Text,
    key: Text,
    blob: ObjectView,
    payload: FieldsView,
    values: FieldsView,
    effects: nat,
)
    requires
        reaches_object(world, cx, bucket, key),
        cx.req.method == Method::Patch,
        world.object(bucket, key) == Some(blob),
        preconditions_hold(cx, blob),
        json_parsed(cx.req.body) == Ok::<_, Text>(JsonView::Object(payload)),
        payload == seq![("metadata"@, JsonView::Object(values))],
        once_each(values),
        forall|k: int| 0 <= k < values.len() ==> text_or_null((#[trigger] values[k]).1),
        effects >= 4,
    ensures
        ({
            let (left, step) = served(world, cx, effects);
            let updated = left.objects[(bucket, key)];
            &&& left == world.with_object(bucket, key, updated)
            &&& forall|name: Text|
                of_a_client(name) ==> #[trigger] get(updated.metadata, name) == patched_value(
                    values,
                    name,
                    get(blob.metadata, name),
                )
            &&& updated == (ObjectView { metadata: updated.metadata, ..blob })
            &&& get(updated.metadata, "__sqrzl_gcs_generation"@) == Some(generation(blob))
            &&& generation(updated) == generation(blob)
            &&& metageneration(updated) == decimal(
                match unsigned(metageneration(blob), u64::MAX as int) {
                    Some(n) => if n < u64::MAX {
                        n + 1
                    } else {
                        n
                    },
                    None => 2,
                },
            )
            &&& step == StepView::Reply(
                json_response(cx.stamp, 200, json_object_metadata(bucket, updated)),
            )
        }),
{
    patching_runs(world, cx, bucket, key, blob, effects);
    reveal_strlit("metadata");
    reveal_strlit("contentType");
    reveal_strlit("1");
    assert("metadata"@.len() == 8 && "contentType"@.len() == 11);
    assert(get(payload, "metadata"@) == Some(JsonView::Object(values)));
    assert(lookup_from(payload, "contentType"@, 1) is None);
    assert(get(payload, "contentType"@) is None);
    assert(unpatchable_from(payload, 1) is None);
    assert(unpatchable_from(payload, 0) is None);
    let table = public_metadata(blob.metadata);
    patches_go_field_by_field(table, values, 0, ""@);
    let patched = patched_from(table, values, 0)->Ok_0;
    let now = cx.stamp.now;
    let updated = patched_object(now, payload, blob)->Ok_0;
    let previous = Some(crate::gcs::basics::gcs_updated(blob.metadata, blob.last_modified));
    let metageneration_text = decimal(next_metageneration(blob));
    state_keys_differ();
    state_is_read_back(patched, generation(blob), metageneration_text, now, previous, ""@);
    assert forall|name: Text| of_a_client(name) implies #[trigger] get(updated.metadata, name)
        == patched_value(values, name, get(blob.metadata, name)) by {
        patches_go_field_by_field(table, values, 0, name);
        state_is_read_back(patched, generation(blob), metageneration_text, now, previous, name);
        public_entry(updated.metadata, name);
        public_entry(patched, name);
        public_entry(blob.metadata, name);
    }
    crate::number::reading_undoes_writing(1, u64::MAX as int);
    assert(decimal(1) =~= "1"@);
}

/// A patch with null for the metadata takes all entries of clients out, one without metadata
/// leaves them, and either can set the content type, which null sets to the default one.
pub proof fn patches_clear_and_leave(
    world: World,
    cx: ContextView,
    bucket: Text,
    key: Text,
    blob: ObjectView,
    payload: FieldsView,
    effects: nat,
)
    requires
        reaches_object(world, cx, bucket, key),
        cx.req.method == Method::Patch,
        world.object(bucket, key) == Some(blob),
        preconditions_hold(cx, blob),
        json_parsed(cx.req.body) == Ok::<_, Text>(JsonView::Object(payload)),
        get(payload, "metadata"@) matches Some(value) ==> value == JsonView::Null,
        get(payload, "contentType"@) matches Some(value) ==> value == JsonView::Null || (
        value matches JsonView::Text(text) && text.len() > 0),
        forall|k: int|
            0 <= k < payload.len() ==> (#[trigger] payload[k]).0 == "metadata"@ || payload[k].0
                == "contentType"@,
        effects >= 4,
    ensures
        ({
            let (left, step) = served(world, cx, effects);
            let updated = left.objects[(bucket, key)];
            &&& left == world.with_object(bucket, key, updated)
            &&& step matches StepView::Reply(reply) && reply.status == 200
            &&& updated == (ObjectView {
                metadata: updated.metadata,
                content_type: updated.content_type,
                ..blob
            })
            &&& updated.content_type == match get(payload, "contentType"@) {
                Some(JsonView::Text(text)) => text,
                Some(_) => "application/octet-stream"@,
                None => blob.content_type,
            }
            &&& forall|name: Text|
                of_a_client(name) ==> #[trigger] get(updated.metadata, name) == if get(
                    payload,
                    "metadata"@,
                ) is Some {
                    None
                } else {
                    get(blob.metadata, name)
                }
            &&& generation(updated) == generation(blob)
        }),
{
    patching_runs(world, cx, bucket, key, blob, effects);
    all_is_patchable(payload, 0);
    let now = cx.stamp.now;
    let patched = patched_metadata(payload, blob)->Ok_0;
    let updated = patched_object(now, payload, blob)->Ok_0;
    let previous = Some(crate::gcs::basics::gcs_updated(blob.metadata, blob.last_modified));
    let metageneration_text = decimal(next_metageneration(blob));
    state_is_read_back(patched, generation(blob), metageneration_text, now, previous, ""@);
    assert forall|name: Text| of_a_client(name) implies #[trigger] get(updated.metadata, name)
        == if get(payload, "metadata"@) is Some {
        None
    } else {
        get(blob.metadata, name)
    } by {
        state_is_read_back(patched, generation(blob), metageneration_text, now, previous, name);
        public_entry(updated.metadata, name);
        public_entry(patched, name);
        public_entry(blob.metadata, name);
    }
}

proof fn all_is_patchable(payload: FieldsView, i: int)
    requires
        0 <= i <= payload.len(),
        forall|k: int|
            0 <= k < payload.len() ==> (#[trigger] payload[k]).0 == "metadata"@ || payload[k].0
                == "contentType"@,
    ensures
        unpatchable_from(payload, i) is None,
    decreases payload.len() - i,
{
    if i < payload.len() {
        assert(payload[i].0 == "metadata"@ || payload[i].0 == "contentType"@);
        all_is_patchable(payload, i + 1);
    }
}

// ---------------------------------------------------------------------------
// Reading and deleting

/// Whether a reply has the content of an object, or the range of it that a request asks for.
pub open spec fn gives_content(cx: ContextView, reply: ResponseView, blob: ObjectView) -> bool {
    match cx.req.header("range"@) {
        None => reply.status == 200 && reply.body == blob.data && tells_object(
            reply,
            blob,
            blob.data.len() as int,
        ),
        Some(range) => match range_of(range, blob.data.len() as int) {
            None => reply.status == 416,
            Some((start, end)) => reply.status == 206 && reply.body == blob.data.subrange(
                start,
                end + 1,
            ) && tells_object(reply, blob, end + 1 - start) && get(reply.headers, "content-range"@)
                == Some(
                "bytes "@ + decimal(start) + "-"@ + decimal(end) + "/"@ + decimal(
                    blob.data.len() as int,
                ),
            ),
        },
    }
}

/// A run that gives the content of an object that was read.
pub proof fn content_runs(
    world: World,
    cx: ContextView,
    bucket: Text,
    key: Text,
    blob: ObjectView,
    effects: nat,
)
    requires
        world.object(bucket, key) == Some(blob),
        blob.size == blob.data.len(),
        blob.size <= usize::MAX,
        effects >= 1,
    ensures
        ({
            let (left, step) = run(
                world,
                |tape: TapeView| media_response(cx, bucket, key, blob, tape),
                Seq::empty(),
                effects,
            );
            left == world && (step matches StepView::Reply(reply) && gives_content(
                cx,
                reply,
                blob,
            ))
        }),
{
    broadcast use led_is_read;

    let handler = |tape: TapeView| media_response(cx, bucket, key, blob, tape);
    let size = blob.size as int;
    match cx.req.header("range"@) {
        None => {
            replies_tell_the_object(cx.stamp, 200, blob, size, None);
            run_stops(world, handler, effects);
        },
        Some(range) => match range_of(range, size) {
            None => {
                run_stops(world, handler, effects);
            },
            Some((start, end)) => {
                ranges_are_inside(range, size);
                let data = blob.data.subrange(start, end + 1);
                let shown = crate::azure::blobs::content_range(start, end, size);
                replies_tell_the_object(cx.stamp, 206, blob, data.len() as int, Some(shown));
                let ask = EffectView::GetRange(bucket, key, start as u64, end as u64);
                let last = |tape: TapeView|
                    StepView::Reply(
                        object_response(
                            cx.stamp,
                            206,
                            blob,
                            data.len() as int,
                            Some(shown),
                        ).bytes(data),
                    );
                run_steps(world, handler, ask, last, effects);
                run_stops(world, last, (effects - 1) as nat);
            },
        },
    }
}

/// A read of an object tells what it is, or gives its content, or the range of it that is asked
/// for. Where there is none, it says so. Nothing is changed.
pub proof fn reads_give_the_object(
    world: World,
    cx: ContextView,
    bucket: Text,
    key: Text,
    effects: nat,
)
    requires
        reaches_object(world, cx, bucket, key),
        cx.req.method == Method::Get,
        world.object(bucket, key) matches Some(blob) ==> check_current_generation_selector(
            cx.stamp,
            cx.req,
            blob,
        ) is Ok && check_gcs_preconditions(cx.stamp, cx.req, blob) is Ok && blob.size
            == blob.data.len() && blob.size <= usize::MAX,
        effects >= 3,
    ensures
        served(world, cx, effects).0 == world,
        served(world, cx, effects).1 matches StepView::Reply(reply) && match world.object(
            bucket,
            key,
        ) {
            None => reply.status == 404,
            Some(blob) => if cx.req.param("alt"@) == Some("media"@) {
                gives_content(cx, reply, blob)
            } else {
                exists|json: JsonView| #[trigger]
                    describes(json, bucket, blob) && reply == json_response(cx.stamp, 200, json)
            },
        },
{
    broadcast use led_is_read;

    requests_reach_their_object(world, cx, bucket, key, effects);
    let effects = (effects - 1) as nat;
    let media = cx.req.param("alt"@) == Some("media"@);
    let outer = |tape: TapeView| handle_json_object_item(cx, bucket, key, media, tape);
    let handler = |tape: TapeView| get_json_object(cx, bucket, key, media, tape);
    runs_agree(world, outer, handler, effects);
    let ask = EffectView::GetObject(bucket, key);
    match world.object(bucket, key) {
        None => {
            let end = |tape: TapeView| handler(led(world.answer(ask), Seq::empty()));
            run_steps(world, handler, ask, end, effects);
            run_stops(world, end, (effects - 1) as nat);
        },
        Some(blob) => if media {
            let second = |tape: TapeView| media_response(cx, bucket, key, blob, tape);
            run_steps(world, handler, ask, second, effects);
            content_runs(world, cx, bucket, key, blob, (effects - 1) as nat);
        } else {
            let json = json_object_metadata(bucket, blob);
            let end = |tape: TapeView| StepView::Reply(json_response(cx.stamp, 200, json));
            run_steps(world, handler, ask, end, effects);
            run_stops(world, end, (effects - 1) as nat);
            descriptions_describe_the_object(bucket, blob);
            assert(describes(json, bucket, blob));
        },
    }
}

/// A deletion takes the object that it names and nothing else, and says so where there is none.
pub proof fn deletions_take_the_object(
    world: World,
    cx: ContextView,
    bucket: Text,
    key: Text,
    effects: nat,
)
    requires
        reaches_object(world, cx, bucket, key),
        cx.req.method == Method::Delete,
        cx.req.header("if-match"@) is None,
        cx.req.header("if-none-match"@) is None,
        world.object(bucket, key) matches Some(blob) ==> preconditions_hold(cx, blob)
            && !is_retained(cx.stamp.now, Some(world.buckets[bucket]), blob),
        effects >= 4,
    ensures
        match world.object(bucket, key) {
            None => served(world, cx, effects).0 == world && (
            served(world, cx, effects).1 matches StepView::Reply(reply) && reply.status == 404),
            Some(_) => served(world, cx, effects).0 == world.without_object(bucket, key) && (
            served(world, cx, effects).1 matches StepView::Reply(reply) && reply.status == 204),
        },
{
    broadcast use led_is_read;

    requests_reach_their_object(world, cx, bucket, key, effects);
    let effects = (effects - 1) as nat;
    let media = cx.req.param("alt"@) == Some("media"@);
    let outer = |tape: TapeView| handle_json_object_item(cx, bucket, key, media, tape);
    let handler = |tape: TapeView| delete_json_object(cx, bucket, key, tape);
    runs_agree(world, outer, handler, effects);
    let ask = EffectView::GetObject(bucket, key);
    match world.object(bucket, key) {
        None => {
            let end = |tape: TapeView| handler(led(world.answer(ask), Seq::empty()));
            run_steps(world, handler, ask, end, effects);
            run_stops(world, end, (effects - 1) as nat);
        },
        Some(blob) => {
            met_preconditions_hold_in_storage(cx.stamp, cx.req, blob);
            let found = world.buckets[bucket];
            let second = |tape: TapeView| handler(led(OutcomeView::Object(Ok(blob)), tape));
            run_steps(world, handler, ask, second, effects);
            let third = |tape: TapeView| second(led(OutcomeView::Bucket(Ok(found)), tape));
            run_steps(
                world,
                second,
                EffectView::GetBucket(bucket),
                third,
                (effects - 1) as nat,
            );
            let take = EffectView::DeleteObjectIf(
                bucket,
                key,
                json_mutation_condition(cx.req, blob),
            );
            let end = |tape: TapeView| third(led(OutcomeView::Flag(Ok(true)), tape));
            run_steps(world, third, take, end, (effects - 2) as nat);
            run_stops(world.after(take), end, (effects - 3) as nat);
        },
    }
}

/// Preconditions on the counters of an object mean what they say: of the four, those that ask
/// for a number hold of an object with that number, and the other two of one with another.
pub proof fn preconditions_compare_the_counters(cx: ContextView, blob: ObjectView)
    requires
        cx.req.param("ifGenerationMatch"@) is None || cx.req.param("ifGenerationNotMatch"@) is None,
        cx.req.param("ifMetagenerationMatch"@) is None || cx.req.param(
            "ifMetagenerationNotMatch"@,
        ) is None,
        forall|name: Text|
            (name == "ifGenerationMatch"@ || name == "ifGenerationNotMatch"@ || name
                == "ifMetagenerationMatch"@ || name == "ifMetagenerationNotMatch"@) ==> (
            #[trigger] cx.req.param(name) matches Some(value) ==> unsigned(value, u64::MAX as int)
                is Some),
    ensures
        check_gcs_preconditions(cx.stamp, cx.req, blob) is Ok <==> {
            &&& cx.req.param("ifGenerationMatch"@) matches Some(value) ==> value == generation(blob)
            &&& cx.req.param("ifGenerationNotMatch"@) matches Some(value) ==> value != generation(
                blob,
            )
            &&& cx.req.param("ifMetagenerationMatch"@) matches Some(value) ==> value
                == metageneration(blob)
            &&& cx.req.param("ifMetagenerationNotMatch"@) matches Some(value) ==> value
                != metageneration(blob)
        },
        check_gcs_preconditions(cx.stamp, cx.req, blob) matches Err(refusal) ==> refusal.status
            == 412 || refusal.status == 304,
        cx.req.param("ifGenerationMatch"@) matches Some(value) ==> (value != generation(blob) ==> (
        check_gcs_preconditions(cx.stamp, cx.req, blob) matches Err(refusal) && refusal.status
            == 412)),
{
}

} // verus!
