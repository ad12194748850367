//! What becomes of containers and of the lists of blocks, served to the end.

use vstd::prelude::*;
use vstd::string::*;
use vstd::utf8::encode_utf8;
use crate::azure::adapter::handle_request;
use crate::azure::auth::authorize;
use crate::azure::basics::{
    conditions_match, has_active_lease, parse_resource, requested_local_retention_modes,
    valid_container_name, ResourceView, AZURE_SOFT_DELETE_DAYS_KEY, AZURE_VERSIONING_KEY,
};
use crate::azure::blobs::handle_blob_request;
use crate::azure::blocks::{block_items, block_items_upto, get_block_list, session_or_new};
use crate::azure::commits::{committed, place_of, staged};
use crate::azure::containers::{create_container, get_container, retention_metadata};
use crate::azure::pages::{in_a_row, reaches_container, reads_reach_their_container};
use crate::azure::replies::header_is_read;
use crate::azure::rules::blob_state_key;
use crate::azure::runs::{reaches, requests_reach_their_blob, served, unguarded};
use crate::clock::http_date;
use crate::codec::content_etag;
use crate::http::{ContextView, Method, ResponseView};
use crate::number::{decimal, reading_undoes_writing};
use crate::order::{in_order, sorted, sorted_is_sorted};
use crate::store::{BucketView, EffectView, ObjectView, OutcomeView, StepView, TapeView};
use crate::table::{get, get_with, with};
use crate::text::xml;
use crate::views::Text;
use crate::world::{
    ends, held, led, led_is_read, new_bucket, run_steps, run_stops, runs_agree, World,
};

verus! {

/// Whether a request may create a container, or finds one of its name.
pub open spec fn creates(
    world: World,
    cx: ContextView,
    resource: ResourceView,
    container: Text,
) -> bool {
    &&& world.sound()
    &&& parse_resource(cx.req.path) == Ok::<_, Text>(resource)
    &&& resource.container == Some(container)
    &&& authorize(cx.stamp, cx.req, cx.auth, resource) is Ok
    &&& cx.req.method == Method::Put
    &&& cx.req.param("restype"@) == Some("container"@)
    &&& cx.req.param("comp"@) is None
    &&& !world.deletions.contains_key(container)
    &&& valid_container_name(container)
}

/// Whether a request asks for versions to be kept, and for how many days deleted blobs are.
pub open spec fn asks_for_history(
    cx: ContextView,
    versioning: bool,
    days: Option<u64>,
) -> bool {
    &&& versioning == (cx.req.header("x-sqrzl-azure-versioning-enabled"@) == Some("true"@))
    &&& cx.req.header("x-sqrzl-azure-versioning-enabled"@) matches Some(value) ==> value
        == "true"@ || value == "false"@
    &&& match days {
        Some(days) => 1 <= days <= 365 && cx.req.header("x-sqrzl-azure-soft-delete-days"@) == Some(
            decimal(days as int),
        ),
        None => cx.req.header("x-sqrzl-azure-soft-delete-days"@) is None,
    }
}

/// Create Container makes a container of the name that the request gives. It keeps history only
/// where the request asks for it, and then as it asks.
pub proof fn containers_are_created(
    world: World,
    cx: ContextView,
    resource: ResourceView,
    container: Text,
    versioning: bool,
    days: Option<u64>,
    effects: nat,
)
    requires
        creates(world, cx, resource, container),
        asks_for_history(cx, versioning, days),
        !world.buckets.contains_key(container),
        effects >= 7,
    ensures
        ({
            let made = served(world, cx, effects).0.buckets[container];
            &&& ends(
                served(world, cx, effects),
                (World { buckets: world.buckets.insert(container, made), ..world }),
                201,
            )
            &&& made.name == container
            &&& made.versioning_enabled == (versioning || days is Some)
            &&& get(made.metadata, "azure_versioning_enabled"@) == if versioning {
                Some("true"@)
            } else {
                None
            }
            &&& get(made.metadata, "azure_soft_delete_days"@) == match days {
                Some(days) => Some(decimal(days as int)),
                None => None,
            }
            &&& forall|key: Text|
                key != "azure_versioning_enabled"@ && key != "azure_soft_delete_days"@ ==> (
                #[trigger] get(made.metadata, key)) is None
        }),
{
    broadcast use led_is_read;

    if let Some(days) = days {
        reading_undoes_writing(days as int, u64::MAX as int);
    }
    reveal_strlit("true");
    reveal_strlit("false");
    assert("true"@.len() == 4 && "false"@.len() == 5);
    assert(requested_local_retention_modes(cx.stamp, cx.req) == Ok::<_, ResponseView>(
        (versioning, days),
    ));
    let none = OutcomeView::Deletion(Ok(None));
    let ask = EffectView::LoadDeletion(container);
    let h0 = |tape: TapeView| handle_request(cx, tape);
    let h1 = |tape: TapeView| h0(led(none, tape));
    run_steps(world, h0, ask, h1, effects);
    let h3 = |tape: TapeView| create_container(cx, container, tape);
    let left: nat = if versioning || days is Some {
        let h2 = |tape: TapeView| h1(led(none, tape));
        run_steps(world, h1, ask, h2, (effects - 1) as nat);
        run_steps(world, h2, EffectView::GetBucket(container), h3, (effects - 2) as nat);
        (effects - 3) as nat
    } else {
        run_steps(world, h1, ask, h3, (effects - 1) as nat);
        (effects - 2) as nat
    };
    let create = EffectView::CreateBucket(container);
    let fresh = new_bucket(container, world.clock);
    let w1 = world.after(create);
    let h4 = |tape: TapeView| h3(led(OutcomeView::Bucket(Ok(fresh)), tape));
    run_steps(world, h3, create, h4, left);
    let metadata = retention_metadata(Seq::empty(), versioning, days);
    retention_entries(versioning, days);
    if versioning || days is Some {
        let done = OutcomeView::Done(Ok(()));
        let enable = EffectView::EnableVersioning(container);
        let h5 = |tape: TapeView| h4(led(done, tape));
        run_steps(w1, h4, enable, h5, (left - 1) as nat);
        let w2 = w1.after(enable);
        let kept = BucketView { versioning_enabled: true, ..fresh };
        let h6 = |tape: TapeView| h5(led(OutcomeView::Bucket(Ok(kept)), tape));
        run_steps(w2, h5, EffectView::GetBucket(container), h6, (left - 2) as nat);
        let update = EffectView::UpdateBucketMetadata(container, metadata);
        let h7 = |tape: TapeView| h6(led(done, tape));
        run_steps(w2, h6, update, h7, (left - 3) as nat);
        let w3 = w2.after(update);
        run_stops(w3, h7, (left - 4) as nat);
        let made = BucketView { metadata, ..kept };
        assert(w3.buckets =~= world.buckets.insert(container, made));
    } else {
        run_stops(w1, h4, (left - 1) as nat);
    }
}

proof fn retention_entries(versioning: bool, days: Option<u64>)
    ensures
        ({
            let metadata = retention_metadata(Seq::empty(), versioning, days);
            &&& get(metadata, "azure_versioning_enabled"@) == if versioning {
                Some("true"@)
            } else {
                None
            }
            &&& get(metadata, "azure_soft_delete_days"@) == match days {
                Some(days) => Some(decimal(days as int)),
                None => None,
            }
            &&& forall|key: Text|
                key != "azure_versioning_enabled"@ && key != "azure_soft_delete_days"@ ==> (
                #[trigger] get(metadata, key)) is None
        }),
{
    reveal_strlit("azure_versioning_enabled");
    reveal_strlit("azure_soft_delete_days");
    assert("azure_versioning_enabled"@.len() == 24 && "azure_soft_delete_days"@.len() == 22);
    let none = Seq::<(Text, Text)>::empty();
    let metadata = retention_metadata(none, versioning, days);
    let versioned = if versioning {
        with(none, AZURE_VERSIONING_KEY@, "true"@)
    } else {
        none
    };
    assert forall|key: Text| #[trigger] get(metadata, key) == if key
        == "azure_soft_delete_days"@ && days is Some {
        Some(decimal(days->0 as int))
    } else if key == "azure_versioning_enabled"@ && versioning {
        Some("true"@)
    } else {
        None
    } by {
        assert(get(none, key) is None);
        get_with(none, AZURE_VERSIONING_KEY@, "true"@, key);
        if let Some(days) = days {
            get_with(versioned, AZURE_SOFT_DELETE_DAYS_KEY@, decimal(days as int), key);
        }
    }
}

/// A container that is there is not created again.
pub proof fn containers_are_created_once(
    world: World,
    cx: ContextView,
    resource: ResourceView,
    container: Text,
    effects: nat,
)
    requires
        creates(world, cx, resource, container),
        asks_for_history(cx, false, None),
        world.buckets.contains_key(container),
        effects >= 3,
    ensures
        ends(served(world, cx, effects), world, 409),
{
    broadcast use led_is_read;

    reveal_strlit("true");
    reveal_strlit("false");
    assert("true"@.len() == 4 && "false"@.len() == 5);
    let none = OutcomeView::Deletion(Ok(None));
    let ask = EffectView::LoadDeletion(container);
    let h0 = |tape: TapeView| handle_request(cx, tape);
    let h1 = |tape: TapeView| h0(led(none, tape));
    run_steps(world, h0, ask, h1, effects);
    let h2 = |tape: TapeView| create_container(cx, container, tape);
    run_steps(world, h1, ask, h2, (effects - 1) as nat);
    let create = EffectView::CreateBucket(container);
    let h3 = |tape: TapeView| h2(led(world.answer(create), tape));
    run_steps(world, h2, create, h3, (effects - 2) as nat);
    run_stops(world, h3, (effects - 3) as nat);
}

/// A container that is being deleted is not there for any request but the one that would create
/// it, which is told so. Nothing is changed.
pub proof fn deleted_containers_are_gone(
    world: World,
    cx: ContextView,
    resource: ResourceView,
    container: Text,
    effects: nat,
)
    requires
        world.sound(),
        parse_resource(cx.req.path) == Ok::<_, Text>(resource),
        resource.container == Some(container),
        authorize(cx.stamp, cx.req, cx.auth, resource) is Ok,
        world.deletions.contains_key(container),
        world.deletions[container].later_than(cx.stamp.now),
        effects >= 2,
    ensures
        ends(
            served(world, cx, effects),
            world,
            if cx.req.method == Method::Put && cx.req.param("restype"@) == Some("container"@) {
                409
            } else {
                404
            },
        ),
{
    broadcast use led_is_read;

    let at = OutcomeView::Deletion(Ok(Some(world.deletions[container])));
    let ask = EffectView::LoadDeletion(container);
    let h0 = |tape: TapeView| handle_request(cx, tape);
    let h1 = |tape: TapeView| h0(led(at, tape));
    run_steps(world, h0, ask, h1, effects);
    let h2 = |tape: TapeView| h1(led(at, tape));
    run_steps(world, h1, ask, h2, (effects - 1) as nat);
    run_stops(world, h2, (effects - 2) as nat);
}

/// A read of a container tells its tag and its time. Nothing is changed.
pub proof fn containers_are_described(
    world: World,
    cx: ContextView,
    resource: ResourceView,
    container: Text,
    effects: nat,
)
    requires
        reaches_container(world, cx, resource, container),
        cx.req.method == Method::Get,
        cx.req.param("comp"@) is None,
        effects >= 3,
    ensures
        ends(served(world, cx, effects), world, 200),
        served(world, cx, effects).1 matches StepView::Reply(reply) && get(
            reply.headers,
            "etag"@,
        ) == Some("\""@ + content_etag(encode_utf8(container)) + "\""@) && get(
            reply.headers,
            "last-modified"@,
        ) == Some(
            http_date(
                world.buckets[container].created_at.secs,
                world.buckets[container].created_at.nanos,
            ),
        ),
{
    broadcast use led_is_read;
    broadcast use header_is_read;

    reveal_strlit("etag");
    reveal_strlit("last-modified");
    assert("etag"@.len() == 4 && "last-modified"@.len() == 13);
    reads_reach_their_container(world, cx, resource, container, effects);
    let found = world.buckets[container];
    let handler = |tape: TapeView| get_container(cx, container, tape);
    let last = |tape: TapeView| handler(led(OutcomeView::Bucket(Ok(found)), tape));
    run_steps(
        world,
        handler,
        EffectView::GetBucket(container),
        last,
        (effects - 2) as nat,
    );
    run_stops(world, last, (effects - 3) as nat);
}

// ---------------------------------------------------------------------------
// Lists of blocks

/// How a block is written.
pub open spec fn block_text(block: (Text, Seq<u8>)) -> Text {
    "<Block><Name>"@ + xml(block.0) + "</Name><Size>"@ + decimal(block.1.len() as int)
        + "</Size></Block>"@
}

/// How blocks are written.
pub open spec fn block_texts(blocks: Seq<(Text, Seq<u8>)>) -> Text {
    in_a_row(Seq::new(blocks.len(), |i: int| block_text(blocks[i])))
}

proof fn block_items_are_in_a_row(blocks: Seq<(Text, Seq<u8>)>, n: int)
    requires
        0 <= n <= blocks.len(),
    ensures
        block_items_upto(blocks, n) == in_a_row(Seq::new(n as nat, |i: int| block_text(blocks[i]))),
    decreases n,
{
    let texts = Seq::new(n as nat, |i: int| block_text(blocks[i]));
    if n > 0 {
        block_items_are_in_a_row(blocks, n - 1);
        let before = block_items_upto(blocks, n - 1);
        assert(texts.drop_last() =~= Seq::new((n - 1) as nat, |i: int| block_text(blocks[i])));
        assert(block_items_upto(blocks, n) =~= before + block_text(blocks[n - 1]));
    } else {
        reveal_strlit("");
        assert(""@ =~= Seq::empty());
        assert(texts.len() == 0);
    }
}

/// Get Block List shows the blocks that a blob was committed from in their order, the staged
/// ones in the order of their identifiers, or both, as it is asked for; without a word it shows
/// the committed ones.
pub proof fn block_lists_show_the_blocks(
    world: World,
    cx: ContextView,
    account: Text,
    container: Text,
    key: Text,
    blob: ObjectView,
    which: Text,
    effects: nat,
)
    requires
        reaches(world, cx, account, container, key),
        cx.req.method == Method::Get,
        cx.req.param("comp"@) == Some("blocklist"@),
        cx.req.param("snapshot"@) is None,
        cx.req.param("versionid"@) is None,
        match cx.req.param("blocklisttype"@) {
            Some(given) => given == which,
            None => which == "committed"@,
        },
        which == "committed"@ || which == "uncommitted"@ || which == "all"@,
        world.object(container, key) == Some(blob),
        unguarded(blob),
        get(blob.provider_metadata, "azure_blob_type"@) is None || get(
            blob.provider_metadata,
            "azure_blob_type"@,
        ) == Some("BlockBlob"@),
        conditions_match(cx.req, blob.etag),
        world.remembered_blocks.contains_key(place_of(account, container, key)),
        effects >= 8,
    ensures
        served(world, cx, effects).0 == world,
        ({
            let place = place_of(account, container, key);
            served(world, cx, effects).1 matches StepView::Reply(reply) && reply.status == 200
                && exists|waiting: Seq<(Text, Seq<u8>)>|
                #![trigger block_texts(waiting)]
                in_order::<(String, Vec<u8>)>(waiting) && waiting.to_multiset() == staged(
                    world,
                    place,
                ).to_multiset() && reply.body == encode_utf8(
                    "<?xml version=\"1.0\" encoding=\"utf-8\"?><BlockList>"@ + (if which
                        == "uncommitted"@ {
                        ""@
                    } else {
                        "<CommittedBlocks>"@ + block_texts(committed(world, place))
                            + "</CommittedBlocks>"@
                    }) + (if which == "committed"@ {
                        ""@
                    } else {
                        "<UncommittedBlocks>"@ + block_texts(waiting) + "</UncommittedBlocks>"@
                    }) + "</BlockList>"@,
                )
        }),
{
    broadcast use led_is_read;

    reveal_strlit("committed");
    reveal_strlit("uncommitted");
    reveal_strlit("all");
    assert("committed"@.len() == 9 && "uncommitted"@.len() == 11 && "all"@.len() == 3);
    reveal_strlit("blocklist");
    reveal_strlit("immutabilityPolicies");
    assert("blocklist"@.len() == 9 && "immutabilityPolicies"@.len() == 20);
    let place = place_of(account, container, key);
    assert(place == blob_state_key(account, container, key));
    requests_reach_their_blob(world, cx, account, container, key, effects);
    let effects = (effects - 4) as nat;
    let outer = |tape: TapeView| handle_blob_request(cx, account, container, key, tape);
    let h0 = |tape: TapeView| get_block_list(cx, account, container, key, tape);
    runs_agree(world, outer, h0, effects);
    let a = EffectView::RecallBlocks(place);
    let b = EffectView::RecallSession(place);
    let c = EffectView::LoadSession(place);
    let d = EffectView::GetObject(container, key);
    let h1 = |tape: TapeView| h0(led(world.answer(a), tape));
    run_steps(world, h0, a, h1, effects);
    let h2 = |tape: TapeView| h1(led(world.answer(b), tape));
    run_steps(world, h1, b, h2, (effects - 1) as nat);
    let h3 = |tape: TapeView| h2(led(world.answer(c), tape));
    run_steps(world, h2, c, h3, (effects - 2) as nat);
    let h4 = |tape: TapeView| h3(led(world.answer(d), tape));
    run_steps(world, h3, d, h4, (effects - 3) as nat);
    assert(!has_active_lease(blob));
    run_stops(world, h4, (effects - 4) as nat);
    let session = match held(world.remembered_sessions, place) {
        Some(session) => Some(session),
        None => held(world.sessions, place),
    };
    assert(session_or_new(session).blocks == staged(world, place));
    let waiting = sorted::<(String, Vec<u8>)>(staged(world, place));
    sorted_is_sorted::<(String, Vec<u8>)>(staged(world, place));
    let done = committed(world, place);
    block_items_are_in_a_row(waiting, waiting.len() as int);
    block_items_are_in_a_row(done, done.len() as int);
    assert(block_items(waiting) == block_texts(waiting));
    assert(block_items(done) == block_texts(done));
}

} // verus!
