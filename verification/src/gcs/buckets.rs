//! What becomes of buckets, and how they are listed, served to the end.

use vstd::prelude::*;
use vstd::string::*;
use crate::azure::accounts::buckets_are_all_there;
use crate::azure::pages::sorted_contains;
use crate::azure::runs::keeps_no_history;
use crate::clock::rfc3339_date;
use crate::gcs::adapter::handle_request;
use crate::gcs::auth::authorize;
use crate::gcs::basics::{foreign_data_protection, is_json_api_request, json_response, segments};
use crate::gcs::changes::served;
use crate::gcs::checks::{free_of, page_token, tokens_are_read_back, valid_bucket_name};
use crate::gcs::json_api::{
    bucket_data_protection_requested, bucket_items, bucket_json, create_named_bucket,
    delete_json_bucket, get_json_bucket, inner_field, json_unsigned_integer, last_bucket,
    list_json_buckets, listed_buckets, patch_json_bucket, protect_json_bucket, soft_delete_seconds,
    validate_bucket_data_protection, with_retention, with_token,
};
use crate::gcs::pages::{asks_for_objects, object_pages_are_sized};
use crate::http::{ContextView, Method, RequestView};
use crate::json::{field, json_parsed, JsonView};
use crate::number::decimal;
use crate::order::{
    first_of, in_order, kept, precedes, sorted, sorted_is_sorted, sorting_keeps_distinct,
    texts_are_in_order, FilterView,
};
use crate::store::{Bucket, BucketView, EffectView, OutcomeView, StepView, TapeView};
use crate::table::{get, get_with, get_without, lookup_from, with};
use crate::text::{or_text, starts_with};
use crate::views::Text;
use crate::world::{
    ends, held, kept_contains, led, led_is_read, new_bucket, run, run_steps, run_stops, runs_agree,
    World,
};

verus! {

/// Whether a request of the JSON API may go to all buckets.
pub open spec fn reaches_buckets(world: World, cx: ContextView) -> bool {
    &&& world.sound()
    &&& is_json_api_request(cx.req)
    &&& starts_with(cx.req.path, "/storage/v1/"@)
    &&& segments(cx.req.path) == seq!["storage"@, "v1"@, "b"@]
    &&& authorize(cx.stamp, cx.req, cx.auth, ""@, None) is Ok
    &&& cx.req.param("project"@) is Some
}

/// Whether a request of the JSON API may go to a bucket, or to where one would be, in which
/// nobody keeps history if it is there.
pub open spec fn reaches_bucket(world: World, cx: ContextView, bucket: Text) -> bool {
    &&& world.sound()
    &&& is_json_api_request(cx.req)
    &&& starts_with(cx.req.path, "/storage/v1/"@)
    &&& segments(cx.req.path) == seq!["storage"@, "v1"@, "b"@, bucket]
    &&& authorize(cx.stamp, cx.req, cx.auth, bucket, None) is Ok
    &&& world.buckets.contains_key(bucket) ==> keeps_no_history(world.buckets[bucket])
}

/// Whether a document tells what a bucket is.
pub open spec fn describes_bucket(json: JsonView, bucket: BucketView) -> bool {
    &&& field(json, "kind"@) == Some(JsonView::Text("storage#bucket"@))
    &&& field(json, "name"@) == Some(JsonView::Text(bucket.name))
    &&& field(json, "timeCreated"@) == Some(
        JsonView::Text(rfc3339_date(bucket.created_at.secs, bucket.created_at.nanos)),
    )
    &&& match get(bucket.metadata, "gcs_soft_delete_seconds"@) {
        Some(seconds) => inner_field(json, "softDeletePolicy"@, "retentionDurationSeconds"@)
            == Some(JsonView::Text(seconds)),
        None => field(json, "softDeletePolicy"@) == Some(JsonView::Null),
    }
    &&& match get(bucket.metadata, "gcs_retention_seconds"@) {
        Some(seconds) => inner_field(json, "retentionPolicy"@, "retentionPeriod"@) == Some(
            JsonView::Text(seconds),
        ),
        None => field(json, "retentionPolicy"@) == Some(JsonView::Null),
    }
}

proof fn bucket_documents_describe(bucket: BucketView)
    ensures
        describes_bucket(bucket_json(bucket), bucket),
{
    reveal_strlit("kind");
    reveal_strlit("name");
    reveal_strlit("timeCreated");
    reveal_strlit("softDeletePolicy");
    reveal_strlit("retentionPolicy");
    assert("kind"@.len() == 4 && "name"@.len() == 4 && "kind"@[0] != "name"@[0]);
    assert("timeCreated"@.len() == 11 && "softDeletePolicy"@.len() == 16);
    assert("retentionPolicy"@.len() == 15);
    reveal_with_fuel(lookup_from, 6);
}

/// The protection that a document asks for, on top of what a bucket has.
pub open spec fn is_protected(
    bucket: BucketView,
    before: BucketView,
    payload: JsonView,
) -> bool {
    let asked = match inner_field(payload, "softDeletePolicy"@, "retentionDurationSeconds"@) {
        Some(JsonView::Text(text)) => Some(text),
        Some(JsonView::Number(n)) => Some(decimal(n as int)),
        _ => None,
    };
    &&& bucket.name == before.name
    &&& bucket.created_at == before.created_at
    &&& bucket.versioning_enabled == (before.versioning_enabled || asked is Some)
    &&& get(bucket.metadata, "gcs_soft_delete_seconds"@) == match asked {
        Some(seconds) => Some(seconds),
        None => get(before.metadata, "gcs_soft_delete_seconds"@),
    }
    &&& field(payload, "retentionPolicy"@) is None ==> get(
        bucket.metadata,
        "gcs_retention_seconds"@,
    ) == get(before.metadata, "gcs_retention_seconds"@)
    &&& field(payload, "retentionPolicy"@) == Some(JsonView::Null) ==> get(
        bucket.metadata,
        "gcs_retention_seconds"@,
    ) is None
    &&& inner_field(payload, "retentionPolicy"@, "retentionPeriod"@) matches Some(value) ==> (
    json_unsigned_integer(value) matches Some(seconds) ==> get(
        bucket.metadata,
        "gcs_retention_seconds"@,
    ) == Some(decimal(seconds)))
    &&& forall|key: Text|
        key != "gcs_soft_delete_seconds"@ && key != "gcs_retention_seconds"@ ==> #[trigger] get(
            bucket.metadata,
            key,
        ) == get(before.metadata, key)
}

/// The bucket that protecting one comes to.
spec fn protected(before: BucketView, payload: JsonView) -> BucketView {
    match soft_delete_seconds(payload) {
        None => BucketView { metadata: with_retention(before.metadata, payload), ..before },
        Some(seconds) => BucketView {
            versioning_enabled: true,
            metadata: with_retention(
                with(before.metadata, "gcs_soft_delete_seconds"@, seconds),
                payload,
            ),
            ..before
        },
    }
}

proof fn protected_is_so(before: BucketView, payload: JsonView)
    ensures
        is_protected(protected(before, payload), before, payload),
{
    reveal_strlit("gcs_soft_delete_seconds");
    reveal_strlit("gcs_retention_seconds");
    assert("gcs_soft_delete_seconds"@.len() == 23 && "gcs_retention_seconds"@.len() == 21);
    let soft = match soft_delete_seconds(payload) {
        None => before.metadata,
        Some(seconds) => with(before.metadata, "gcs_soft_delete_seconds"@, seconds),
    };
    let bucket = protected(before, payload);
    assert(bucket.metadata == with_retention(soft, payload));
    assert forall|key: Text| #[trigger] get(soft, key) == if key == "gcs_soft_delete_seconds"@
        && soft_delete_seconds(payload) is Some {
        soft_delete_seconds(payload)
    } else {
        get(before.metadata, key)
    } by {
        if let Some(seconds) = soft_delete_seconds(payload) {
            get_with(before.metadata, "gcs_soft_delete_seconds"@, seconds, key);
        }
    }
    assert forall|key: Text| key != "gcs_retention_seconds"@ implies #[trigger] get(
        bucket.metadata,
        key,
    ) == get(soft, key) by {
        retention_entry(soft, payload, key);
    }
    retention_entry(soft, payload, "gcs_retention_seconds"@);
}

proof fn retention_entry(metadata: Seq<(Text, Text)>, payload: JsonView, key: Text)
    ensures
        get(with_retention(metadata, payload), key) == if key != "gcs_retention_seconds"@ {
            get(metadata, key)
        } else {
            match field(payload, "retentionPolicy"@) {
                None => get(metadata, key),
                Some(policy) => if policy == JsonView::Null {
                    None
                } else {
                    match inner_field(payload, "retentionPolicy"@, "retentionPeriod"@) {
                        Some(value) => match json_unsigned_integer(value) {
                            Some(seconds) => Some(decimal(seconds)),
                            None => get(metadata, key),
                        },
                        None => get(metadata, key),
                    }
                },
            }
        },
{
    let name = "gcs_retention_seconds"@;
    get_without(metadata, name, key);
    if let Some(value) = inner_field(payload, "retentionPolicy"@, "retentionPeriod"@) {
        if let Some(seconds) = json_unsigned_integer(value) {
            get_with(metadata, name, decimal(seconds), key);
        }
    }
}

/// The outcomes up to the change of a bucket's metadata.
spec fn before_update(before: BucketView, payload: JsonView, tape: TapeView) -> TapeView {
    let found = OutcomeView::Bucket(Ok(before));
    if soft_delete_seconds(payload) is Some {
        led(found, led(OutcomeView::Done(Ok(())), tape))
    } else {
        led(found, tape)
    }
}

/// A run that protects a bucket and then tells of it.
proof fn protecting_runs(
    world: World,
    cx: ContextView,
    bucket: Text,
    payload: JsonView,
    handler: spec_fn(TapeView) -> StepView,
    effects: nat,
)
    requires
        world.buckets.contains_key(bucket),
        effects >= 4,
        handler(Seq::empty()) == StepView::Perform(EffectView::GetBucket(bucket)),
        soft_delete_seconds(payload) is Some ==> handler(
            led(OutcomeView::Bucket(Ok(world.buckets[bucket])), Seq::empty()),
        ) == StepView::Perform(EffectView::EnableVersioning(bucket)),
        handler(before_update(world.buckets[bucket], payload, Seq::empty())) == StepView::Perform(
            EffectView::UpdateBucketMetadata(
                bucket,
                protected(world.buckets[bucket], payload).metadata,
            ),
        ),
        handler(
            before_update(
                world.buckets[bucket],
                payload,
                led(OutcomeView::Done(Ok(())), Seq::empty()),
            ),
        ) == StepView::Perform(EffectView::GetBucket(bucket)),
        handler(
            before_update(
                world.buckets[bucket],
                payload,
                led(
                    OutcomeView::Done(Ok(())),
                    led(
                        OutcomeView::Bucket(Ok(protected(world.buckets[bucket], payload))),
                        Seq::empty(),
                    ),
                ),
            ),
        ) == StepView::Reply(
            json_response(
                cx.stamp,
                200,
                bucket_json(protected(world.buckets[bucket], payload)),
            ),
        ),
    ensures
        ({
            let after = protected(world.buckets[bucket], payload);
            run(world, handler, Seq::empty(), effects) == (
                (World { buckets: world.buckets.insert(bucket, after), ..world }),
                StepView::Reply(json_response(cx.stamp, 200, bucket_json(after))),
            )
        }),
{
    let before = world.buckets[bucket];
    let ask = EffectView::GetBucket(bucket);
    let found = OutcomeView::Bucket(Ok(before));
    let done = OutcomeView::Done(Ok(()));
    let after = protected(before, payload);
    let h1 = |tape: TapeView| handler(led(found, tape));
    run_steps(world, handler, ask, h1, effects);
    let w1: World;
    let h2: spec_fn(TapeView) -> StepView;
    let left: nat;
    match soft_delete_seconds(payload) {
        None => {
            w1 = world;
            h2 = h1;
            left = (effects - 1) as nat;
        },
        Some(_) => {
            let enable = EffectView::EnableVersioning(bucket);
            h2 = |tape: TapeView| h1(led(done, tape));
            run_steps(world, h1, enable, h2, (effects - 1) as nat);
            w1 = world.after(enable);
            left = (effects - 2) as nat;
        },
    }
    let update = EffectView::UpdateBucketMetadata(bucket, after.metadata);
    let h3 = |tape: TapeView| h2(led(done, tape));
    run_steps(w1, h2, update, h3, left);
    let w2 = w1.after(update);
    assert(w2.buckets =~= world.buckets.insert(bucket, after));
    assert(w2 == (World { buckets: world.buckets.insert(bucket, after), ..world }));
    let h4 = |tape: TapeView| h3(led(OutcomeView::Bucket(Ok(after)), tape));
    run_steps(w2, h3, ask, h4, (left - 1) as nat);
    run_stops(w2, h4, (left - 2) as nat);
}

/// A bucket that a request creates is there under the name that its document gives, with the
/// protection that it asks for, and the reply describes it. One that is there is not created
/// again.
pub proof fn buckets_are_created(
    world: World,
    cx: ContextView,
    bucket: Text,
    payload: JsonView,
    effects: nat,
)
    requires
        reaches_buckets(world, cx),
        cx.req.method == Method::Post,
        json_parsed(cx.req.body) == Ok::<_, Text>(payload),
        validate_bucket_data_protection(cx.stamp, cx.req, payload) is None,
        field(payload, "name"@) == Some(JsonView::Text(bucket)),
        valid_bucket_name(bucket),
        effects >= 5,
    ensures
        if world.buckets.contains_key(bucket) {
            ends(served(world, cx, effects), world, 409)
        } else {
            let created = served(world, cx, effects).0.buckets[bucket];
            &&& served(world, cx, effects).0 == (World {
                buckets: world.buckets.insert(bucket, created),
                ..world
            })
            &&& is_protected(created, new_bucket(bucket, world.clock), payload)
            &&& exists|json: JsonView| #[trigger]
                describes_bucket(json, created) && served(world, cx, effects).1 == StepView::Reply(
                    json_response(cx.stamp, 200, json),
                )
        },
{
    broadcast use led_is_read;

    let parts = segments(cx.req.path);
    assert(parts.len() == 3 && parts[0] == "storage"@ && parts[1] == "v1"@ && parts[2] == "b"@);
    let outer = |tape: TapeView| handle_request(cx, tape);
    let handler = |tape: TapeView| create_named_bucket(cx, bucket, payload, tape);
    runs_agree(world, outer, handler, effects);
    let create = EffectView::CreateBucket(bucket);
    let second = |tape: TapeView| handler(led(world.answer(create), tape));
    run_steps(world, handler, create, second, effects);
    if world.buckets.contains_key(bucket) {
        run_stops(world, second, (effects - 1) as nat);
    } else {
        let made = world.after(create);
        let fresh = new_bucket(bucket, world.clock);
        let after = protected(fresh, payload);
        protecting_runs(made, cx, bucket, payload, second, (effects - 1) as nat);
        assert(made.buckets.insert(bucket, after) =~= world.buckets.insert(bucket, after));
        protected_is_so(fresh, payload);
        bucket_documents_describe(after);
        assert(describes_bucket(bucket_json(after), after));
    }
}

proof fn item_requests_are_served(world: World, cx: ContextView, bucket: Text, effects: nat)
    requires
        reaches_bucket(world, cx, bucket),
    ensures
        cx.req.method == Method::Get ==> served(world, cx, effects) == run(
            world,
            |tape: TapeView| get_json_bucket(cx, bucket, tape),
            Seq::empty(),
            effects,
        ),
        cx.req.method == Method::Delete ==> served(world, cx, effects) == run(
            world,
            |tape: TapeView| delete_json_bucket(cx, bucket, tape),
            Seq::empty(),
            effects,
        ),
        cx.req.method == Method::Patch ==> served(world, cx, effects) == run(
            world,
            |tape: TapeView| patch_json_bucket(cx, bucket, tape),
            Seq::empty(),
            effects,
        ),
{
    let parts = segments(cx.req.path);
    assert(parts.len() == 4 && parts[0] == "storage"@ && parts[1] == "v1"@ && parts[2] == "b"@);
    assert(parts[3] == bucket);
    let outer = |tape: TapeView| handle_request(cx, tape);
    if cx.req.method == Method::Get {
        runs_agree(world, outer, |tape: TapeView| get_json_bucket(cx, bucket, tape), effects);
    } else if cx.req.method == Method::Delete {
        runs_agree(world, outer, |tape: TapeView| delete_json_bucket(cx, bucket, tape), effects);
    } else if cx.req.method == Method::Patch {
        runs_agree(world, outer, |tape: TapeView| patch_json_bucket(cx, bucket, tape), effects);
    }
}

/// A read of a bucket describes it, and says so where there is none. Nothing is changed.
pub proof fn buckets_are_described(world: World, cx: ContextView, bucket: Text, effects: nat)
    requires
        reaches_bucket(world, cx, bucket),
        cx.req.method == Method::Get,
        effects >= 1,
    ensures
        match held(world.buckets, bucket) {
            None => ends(served(world, cx, effects), world, 404),
            Some(found) => served(world, cx, effects).0 == world && exists|json: JsonView|
                #[trigger]
                describes_bucket(json, found) && served(world, cx, effects).1 == StepView::Reply(
                    json_response(cx.stamp, 200, json),
                ),
        },
{
    broadcast use led_is_read;

    item_requests_are_served(world, cx, bucket, effects);
    let handler = |tape: TapeView| get_json_bucket(cx, bucket, tape);
    let ask = EffectView::GetBucket(bucket);
    let last = |tape: TapeView| handler(led(world.answer(ask), tape));
    run_steps(world, handler, ask, last, effects);
    run_stops(world, last, (effects - 1) as nat);
    if let Some(found) = held(world.buckets, bucket) {
        bucket_documents_describe(found);
        assert(describes_bucket(bucket_json(found), found));
    }
}

/// A bucket is deleted where it is empty, and otherwise stays.
pub proof fn empty_buckets_are_deleted(world: World, cx: ContextView, bucket: Text, effects: nat)
    requires
        reaches_bucket(world, cx, bucket),
        cx.req.method == Method::Delete,
        effects >= 2,
    ensures
        if !world.buckets.contains_key(bucket) {
            ends(served(world, cx, effects), world, 404)
        } else if world.holds_objects(bucket) {
            ends(served(world, cx, effects), world, 409)
        } else {
            ends(
                served(world, cx, effects),
                (World { buckets: world.buckets.remove(bucket), ..world }),
                204,
            )
        },
{
    broadcast use led_is_read;

    item_requests_are_served(world, cx, bucket, effects);
    let handler = |tape: TapeView| delete_json_bucket(cx, bucket, tape);
    let ask = EffectView::GetBucket(bucket);
    let take = EffectView::DeleteBucket(bucket);
    if let Some(found) = held(world.buckets, bucket) {
        assert(!foreign_data_protection(Some(found)));
    }
    let second = |tape: TapeView| handler(led(world.answer(ask), tape));
    run_steps(world, handler, ask, second, effects);
    let last = |tape: TapeView| second(led(world.answer(take), tape));
    run_steps(world, second, take, last, (effects - 1) as nat);
    run_stops(world.after(take), last, (effects - 2) as nat);
    if !world.buckets.contains_key(bucket) {
        assert(world.buckets.remove(bucket) =~= world.buckets);
    }
}

/// A patch gives a bucket the protection that it asks for and leaves the rest of it.
pub proof fn buckets_are_protected_as_asked(
    world: World,
    cx: ContextView,
    bucket: Text,
    payload: JsonView,
    effects: nat,
)
    requires
        reaches_bucket(world, cx, bucket),
        cx.req.method == Method::Patch,
        world.buckets.contains_key(bucket),
        json_parsed(cx.req.body) == Ok::<_, Text>(payload),
        validate_bucket_data_protection(cx.stamp, cx.req, payload) is None,
        effects >= 6,
    ensures
        ({
            let changed = served(world, cx, effects).0.buckets[bucket];
            &&& served(world, cx, effects).0 == (World {
                buckets: world.buckets.insert(bucket, changed),
                ..world
            })
            &&& is_protected(changed, world.buckets[bucket], payload)
            &&& exists|json: JsonView| #[trigger]
                describes_bucket(json, changed) && served(world, cx, effects).1 == StepView::Reply(
                    json_response(cx.stamp, 200, json),
                )
        }),
{
    broadcast use led_is_read;

    item_requests_are_served(world, cx, bucket, effects);
    let handler = |tape: TapeView| patch_json_bucket(cx, bucket, tape);
    let ask = EffectView::GetBucket(bucket);
    let found = world.buckets[bucket];
    assert(!foreign_data_protection(Some(found)));
    let rest = |tape: TapeView| protect_json_bucket(cx, bucket, payload, tape);
    let left: nat = if bucket_data_protection_requested(payload) {
        let second = |tape: TapeView| handler(led(OutcomeView::Bucket(Ok(found)), tape));
        run_steps(world, handler, ask, second, effects);
        run_steps(world, second, ask, rest, (effects - 1) as nat);
        (effects - 2) as nat
    } else {
        run_steps(world, handler, ask, rest, effects);
        (effects - 1) as nat
    };
    let after = protected(found, payload);
    protecting_runs(world, cx, bucket, payload, rest, left);
    protected_is_so(found, payload);
    bucket_documents_describe(after);
    assert(describes_bucket(bucket_json(after), after));
}

// ---------------------------------------------------------------------------
// Listing

/// Whether a listing of buckets has one: it is there, under the prefix and behind the marker.
pub open spec fn is_listed(
    world: World,
    req: RequestView,
    marker: Option<Text>,
    bucket: BucketView,
) -> bool {
    &&& held(world.buckets, bucket.name) == Some(bucket)
    &&& starts_with(bucket.name, or_text(req.param("prefix"@), ""@))
    &&& marker matches Some(marker) ==> precedes(marker, bucket.name)
}

/// Whether these are the buckets of a listing, in order and each once.
pub open spec fn are_listed(
    world: World,
    req: RequestView,
    marker: Option<Text>,
    buckets: Seq<BucketView>,
) -> bool {
    &&& forall|i: int, j: int|
        0 <= i < j < buckets.len() ==> precedes(
            (#[trigger] buckets[i]).name,
            (#[trigger] buckets[j]).name,
        )
    &&& forall|bucket: BucketView| #[trigger]
        buckets.contains(bucket) <==> is_listed(world, req, marker, bucket)
}

/// Whether a document lists the first of some buckets and leads to the others, if there are any.
pub open spec fn lists_buckets(json: JsonView, buckets: Seq<BucketView>, limit: int) -> bool {
    &&& field(json, "items"@) matches Some(JsonView::Array(items)) && items.len() == (
    if buckets.len() > limit {
        limit
    } else {
        buckets.len() as int
    }) && forall|i: int|
        0 <= i < items.len() ==> field(#[trigger] items[i], "name"@) == Some(
            JsonView::Text(buckets[i].name),
        )
    &&& field(json, "nextPageToken"@) == if buckets.len() > limit {
        Some(JsonView::Text(page_token("buckets"@, buckets[limit - 1].name)))
    } else {
        None
    }
}

proof fn listed_buckets_are_listed(world: World, req: RequestView, marker: Option<Text>)
    requires
        world.sound(),
    ensures
        are_listed(world, req, marker, listed_buckets(req, marker, world.all_buckets())),
{
    let buckets = world.all_buckets();
    buckets_are_all_there(world);
    let prefix = FilterView::Under(or_text(req.param("prefix"@), ""@));
    let under = kept::<Bucket>(buckets, prefix);
    let left = match marker {
        Some(marker) => kept::<Bucket>(under, FilterView::After(marker)),
        None => under,
    };
    crate::order::sorting_keeps_distinct::<Bucket>(buckets);
    buckets_are_in_order(world);
    crate::order::keeping_keeps_order::<Bucket>(buckets, prefix);
    if let Some(marker) = marker {
        crate::order::keeping_keeps_order::<Bucket>(under, FilterView::After(marker));
    }
    let all = sorted::<Bucket>(left);
    sorted_is_sorted::<Bucket>(left);
    sorting_keeps_distinct::<Bucket>(left);
    assert forall|i: int, j: int| 0 <= i < j < all.len() implies precedes(
        (#[trigger] all[i]).name,
        (#[trigger] all[j]).name,
    ) by {
        assert(all[i].name != all[j].name);
        assert(!precedes(all[j].name, all[i].name));
        texts_are_in_order(all[i].name, all[j].name);
    }
    assert forall|bucket: BucketView| #[trigger] all.contains(bucket) <==> is_listed(
        world,
        req,
        marker,
        bucket,
    ) by {
        sorted_contains::<Bucket>(left, bucket);
        kept_contains::<Bucket>(buckets, prefix, bucket);
        if let Some(marker) = marker {
            kept_contains::<Bucket>(under, FilterView::After(marker), bucket);
        }
    }
}

proof fn buckets_are_in_order(world: World)
    ensures
        in_order::<Bucket>(world.all_buckets()),
{
    sorted_is_sorted::<Bucket>(
        Set::new(
            |bucket: BucketView|
                world.buckets.contains_key(bucket.name) && world.buckets[bucket.name] == bucket,
        ).to_seq(),
    );
}

/// A listing of buckets shows those under its prefix that come behind its token, in order, as
/// many as it asks for. It has a token for the next page exactly where buckets are left, which
/// stands for the place of the last one that it shows.
pub proof fn bucket_listings_show_their_page(
    world: World,
    cx: ContextView,
    marker: Option<Text>,
    limit: int,
    effects: nat,
)
    requires
        reaches_buckets(world, cx),
        cx.req.method == Method::Get,
        match marker {
            None => cx.req.param("pageToken"@) is None,
            Some(marker) => cx.req.param("pageToken"@) == Some(page_token("buckets"@, marker))
                && free_of(marker, '\0'),
        },
        asks_for_objects(cx, limit),
        effects >= 1,
    ensures
        served(world, cx, effects).0 == world,
        exists|buckets: Seq<BucketView>, json: JsonView|
            #![trigger are_listed(world, cx.req, marker, buckets), lists_buckets(
                json,
                buckets,
                limit,
            )]
            are_listed(world, cx.req, marker, buckets) && lists_buckets(json, buckets, limit)
                && served(world, cx, effects).1 == StepView::Reply(
                json_response(cx.stamp, 200, json),
            ),
{
    broadcast use led_is_read;

    object_pages_are_sized(cx, limit);
    reveal_strlit("buckets");
    assert(free_of("buckets"@, '\0'));
    if let Some(marker) = marker {
        tokens_are_read_back("buckets"@, marker, "buckets"@);
    }
    let parts = segments(cx.req.path);
    assert(parts.len() == 3 && parts[0] == "storage"@ && parts[1] == "v1"@ && parts[2] == "b"@);
    let outer = |tape: TapeView| handle_request(cx, tape);
    let handler = |tape: TapeView| list_json_buckets(cx, tape);
    runs_agree(world, outer, handler, effects);
    let all = listed_buckets(cx.req, marker, world.all_buckets());
    let json = JsonView::Object(
        with_token(
            seq![
                ("kind"@, JsonView::Text("storage#buckets"@)),
                ("items"@, JsonView::Array(bucket_items(first_of(all, limit)))),
            ],
            match last_bucket(all, limit) {
                Some(last) => Some(page_token("buckets"@, last)),
                None => None,
            },
        ),
    );
    let last = |tape: TapeView| StepView::Reply(json_response(cx.stamp, 200, json));
    run_steps(world, handler, EffectView::ListBuckets, last, effects);
    run_stops(world, last, (effects - 1) as nat);
    listed_buckets_are_listed(world, cx.req, marker);
    bucket_documents_list(all, limit, json);
    assert(are_listed(world, cx.req, marker, all));
}

proof fn bucket_documents_list(all: Seq<BucketView>, limit: int, json: JsonView)
    requires
        1 <= limit,
        json == JsonView::Object(
            with_token(
                seq![
                    ("kind"@, JsonView::Text("storage#buckets"@)),
                    ("items"@, JsonView::Array(bucket_items(first_of(all, limit)))),
                ],
                match last_bucket(all, limit) {
                    Some(last) => Some(page_token("buckets"@, last)),
                    None => None,
                },
            ),
        ),
    ensures
        lists_buckets(json, all, limit),
{
    reveal_strlit("kind");
    reveal_strlit("items");
    reveal_strlit("nextPageToken");
    assert("kind"@.len() == 4 && "items"@.len() == 5 && "nextPageToken"@.len() == 13);
    reveal_with_fuel(lookup_from, 5);
    let items = bucket_items(first_of(all, limit));
    assert(field(json, "items"@) == Some(JsonView::Array(items)));
}

} // verus!
