//! What writes to a blob come to.

use vstd::prelude::*;
use vstd::string::*;
use crate::azure::basics::{conditions_match, has_active_lease, is_immutable, write_condition};
use crate::azure::blobs::{
    append_block, create_snapshot, created_blob, handle_blob_crud, handle_blob_request,
    handle_lease, put_blob, put_immutability_policy, put_legal_hold, put_page, update_metadata,
    write_blob, write_pages,
};
use crate::azure::commits::{holds_content, is_as_requested, may_write};
use crate::azure::replies::{header_is_read, once_each};
use crate::azure::rules::{blob_for_type, validate_blob_create_request};
use crate::azure::runs::{
    reaches, requests_are_served, requests_reach_their_blob, served, unguarded, wanted_range,
};
use crate::codec::content_etag;
use crate::http::{ContextView, Method, ResponseView};
use crate::number::{decimal, reading_undoes_writing};
use crate::readings::{metadata_is_read, ranges_are_read};
use crate::store::{ConditionView, EffectView, ObjectView, OutcomeView, StepView, TapeView};
use crate::table::{get, get_with};
use crate::views::Text;
use crate::world::{ends, led, led_is_read, run, run_steps, run_stops, runs_agree, World};

verus! {

/// A request that writes to a blob itself, not to a snapshot or a version.
pub open spec fn writes_to(
    world: World,
    cx: ContextView,
    account: Text,
    container: Text,
    key: Text,
    comp: Option<Text>,
) -> bool {
    &&& reaches(world, cx, account, container, key)
    &&& cx.req.method == Method::Put
    &&& cx.req.param("comp"@) == comp
    &&& cx.req.param("snapshot"@) is None
    &&& cx.req.param("versionid"@) is None
    &&& cx.req.header("x-ms-copy-source"@) is None
}

/// The content that a request to create a blob gives it: its body, or for a page blob as many
/// zeros as it says.
pub open spec fn gives(cx: ContextView, kind: Text, data: Seq<u8>) -> bool {
    if kind == "PageBlob"@ {
        exists|n: int|
            0 <= n <= usize::MAX && n % 512 == 0 && cx.req.header("x-ms-blob-content-length"@)
                == Some(#[trigger] decimal(n)) && cx.req.body.len() == 0 && data == Seq::new(
                n as nat,
                |i: int| 0u8,
            )
    } else {
        &&& kind == "BlockBlob"@ || kind == "AppendBlob"@ && cx.req.body.len() == 0
        &&& cx.req.header("x-ms-blob-content-length"@) is None
        &&& data == cx.req.body
    }
}

proof fn kinds_differ()
    ensures
        "PageBlob"@ != "BlockBlob"@,
        "PageBlob"@ != "AppendBlob"@,
        "BlockBlob"@ != "AppendBlob"@,
{
    reveal_strlit("PageBlob");
    reveal_strlit("BlockBlob");
    reveal_strlit("AppendBlob");
    assert("PageBlob"@.len() == 8 && "BlockBlob"@.len() == 9 && "AppendBlob"@.len() == 10);
}

proof fn new_blobs_are_as_requested(cx: ContextView, key: Text, kind: Text, data: Seq<u8>)
    requires
        cx.req.header("x-ms-blob-type"@) == Some(kind),
        gives(cx, kind, data),
        once_each(cx.req.headers),
    ensures
        ({
            let object = blob_for_type(cx.stamp, cx.req, key);
            &&& validate_blob_create_request(cx.stamp, cx.req) is None
            &&& object.key == key
            &&& is_as_requested(cx, object)
            &&& holds_content(cx, object, data)
            &&& get(object.provider_metadata, "azure_blob_type"@) == Some(kind)
        }),
{
    kinds_differ();
    if kind == "PageBlob"@ {
        let n = choose|n: int|
            0 <= n <= usize::MAX && n % 512 == 0 && cx.req.header("x-ms-blob-content-length"@)
                == Some(#[trigger] decimal(n)) && cx.req.body.len() == 0 && data == Seq::new(
                n as nat,
                |i: int| 0u8,
            );
        reading_undoes_writing(n, usize::MAX as int);
    }
    let object = blob_for_type(cx.stamp, cx.req, key);
    get_with(Seq::<(Text, Text)>::empty(), "azure_blob_type"@, kind, "azure_blob_type"@);
    assert forall|name: Text| #[trigger] get(object.metadata, name) == cx.req.header(
        "x-ms-meta-"@ + name,
    ) by {
        metadata_is_read(cx.req, "x-ms-meta-"@, name);
    }
    metadata_is_read(cx.req, "x-ms-meta-"@, ""@);
}

/// A run of Put Blob.
proof fn putting_runs(
    world: World,
    cx: ContextView,
    account: Text,
    container: Text,
    key: Text,
    effects: nat,
)
    requires
        writes_to(world, cx, account, container, key, None),
        validate_blob_create_request(cx.stamp, cx.req) is None,
        world.object(container, key) matches Some(blob) ==> !is_immutable(cx.stamp.now, blob) && (
        has_active_lease(blob) ==> cx.req.header("x-ms-lease-id"@)
            == crate::azure::basics::lease_id(blob)),
        world.object(container, key) is None ==> cx.req.header("if-match"@) is None,
        write_condition(cx.stamp, cx.req) is Ok,
        effects >= 8,
    ensures
        ({
            let existing = world.object(container, key);
            let object = created_blob(cx, key, existing);
            match write_condition(cx.stamp, cx.req)->Ok_0 {
                Some(condition) if !condition.holds_of(existing) => ends(
                    served(world, cx, effects),
                    world,
                    412,
                ),
                _ => ends(
                    served(world, cx, effects),
                    world.with_object(container, key, object),
                    201,
                ),
            }
        }),
{
    broadcast use led_is_read;

    requests_are_served(world, cx, account, container, key, effects);
    let effects = (effects - 4) as nat;
    let outer = |tape: TapeView| handle_blob_crud(cx, container, key, tape);
    let handler = |tape: TapeView| put_blob(cx, container, key, None, tape);
    runs_agree(world, outer, handler, effects);
    let existing = world.object(container, key);
    let object = created_blob(cx, key, existing);
    let ask = EffectView::GetObject(container, key);
    let third = |tape: TapeView| write_blob(cx, container, key, existing, tape);
    let left: nat = if existing is Some {
        let second = |tape: TapeView| handler(led(world.answer(ask), tape));
        run_steps(world, handler, ask, second, effects);
        run_steps(world, second, EffectView::GetBucket(container), third, (effects - 1) as nat);
        (effects - 2) as nat
    } else {
        run_steps(world, handler, ask, third, effects);
        (effects - 1) as nat
    };
    let put = match write_condition(cx.stamp, cx.req)->Ok_0 {
        Some(condition) => EffectView::PutObjectIf(container, key, object, condition),
        None => EffectView::PutObject(container, key, object),
    };
    let fourth = |tape: TapeView| third(led(world.answer(put), tape));
    run_steps(world, third, put, fourth, left);
    let after = world.after(put);
    if world.answer(put) == OutcomeView::Flag(Ok(false)) {
        run_stops(world, fourth, (left - 1) as nat);
    } else {
        assert(after.object(container, key) == Some(object));
        let end = |tape: TapeView| fourth(led(OutcomeView::Object(Ok(object)), Seq::empty()));
        run_steps(after, fourth, ask, end, (left - 1) as nat);
        run_stops(after, end, (left - 2) as nat);
    }
}

/// Put Blob makes a blob at the key that the request names, with the content, the type, the
/// content type and the metadata that it gives. Everything else stays.
pub proof fn blobs_are_made_as_sent(
    world: World,
    cx: ContextView,
    account: Text,
    container: Text,
    key: Text,
    kind: Text,
    data: Seq<u8>,
    effects: nat,
)
    requires
        writes_to(world, cx, account, container, key, None),
        cx.req.header("x-ms-blob-type"@) == Some(kind),
        gives(cx, kind, data),
        once_each(cx.req.headers),
        may_write(world, cx, container, key),
        effects >= 8,
    ensures
        ({
            let object = served(world, cx, effects).0.objects[(container, key)];
            &&& ends(
                served(world, cx, effects),
                world.with_object(container, key, object),
                201,
            )
            &&& object.key == key
            &&& is_as_requested(cx, object)
            &&& holds_content(cx, object, data)
            &&& object.provider_metadata == seq![("azure_blob_type"@, kind)]
            &&& object.version_id is None
        }),
{
    new_blobs_are_as_requested(cx, key, kind, data);
    putting_runs(world, cx, account, container, key, effects);
    if let Some(blob) = world.object(container, key) {
        assert(!has_active_lease(blob));
    }
    assert(crate::table::without(Seq::<(Text, Text)>::empty(), "azure_blob_type"@) =~= Seq::<
        (Text, Text),
    >::empty());
    assert(Seq::<(Text, Text)>::empty().push(("azure_blob_type"@, kind)) =~= seq![
        ("azure_blob_type"@, kind),
    ]);
}

/// Put Blob under a condition that does not hold of the blob in place changes nothing.
pub proof fn failed_conditions_keep_the_blob(
    world: World,
    cx: ContextView,
    account: Text,
    container: Text,
    key: Text,
    kind: Text,
    data: Seq<u8>,
    condition: ConditionView,
    effects: nat,
)
    requires
        writes_to(world, cx, account, container, key, None),
        cx.req.header("x-ms-blob-type"@) == Some(kind),
        gives(cx, kind, data),
        once_each(cx.req.headers),
        world.object(container, key) matches Some(blob) ==> unguarded(blob),
        write_condition(cx.stamp, cx.req) == Ok::<_, ResponseView>(Some(condition)),
        !condition.holds_of(world.object(container, key)),
        effects >= 8,
    ensures
        ends(served(world, cx, effects), world, 412),
{
    broadcast use led_is_read;

    new_blobs_are_as_requested(cx, key, kind, data);
    if world.object(container, key) is None && cx.req.header("if-match"@) is Some {
        requests_are_served(world, cx, account, container, key, effects);
        let outer = |tape: TapeView| handle_blob_crud(cx, container, key, tape);
        let ask = EffectView::GetObject(container, key);
        let end = |tape: TapeView| outer(led(world.answer(ask), Seq::empty()));
        run_steps(world, outer, ask, end, (effects - 4) as nat);
        run_stops(world, end, (effects - 5) as nat);
    } else {
        putting_runs(world, cx, account, container, key, effects);
    }
}

// ---------------------------------------------------------------------------
// Parts of a blob's state

proof fn parts_differ()
    ensures
        "metadata"@ != "snapshot"@,
        "block"@ != "lease"@,
        "blocklist"@ != "legalhold"@,
        "metadata"@.len() == 8,
        "snapshot"@.len() == 8,
        "block"@.len() == 5,
        "lease"@.len() == 5,
        "blocklist"@.len() == 9,
        "legalhold"@.len() == 9,
        "appendblock"@.len() == 11,
        "page"@.len() == 4,
        "immutabilityPolicies"@.len() == 20,
{
    reveal_strlit("metadata");
    reveal_strlit("snapshot");
    reveal_strlit("block");
    reveal_strlit("lease");
    reveal_strlit("blocklist");
    reveal_strlit("legalhold");
    reveal_strlit("appendblock");
    reveal_strlit("page");
    reveal_strlit("immutabilityPolicies");
    assert("metadata"@[0] != "snapshot"@[0]);
    assert("block"@[0] != "lease"@[0]);
    assert("blocklist"@[0] != "legalhold"@[0]);
}

/// A request to write a part of a blob's state is served by the operation of that part.
pub proof fn parts_are_served(
    world: World,
    cx: ContextView,
    account: Text,
    container: Text,
    key: Text,
    comp: Text,
    effects: nat,
)
    requires
        writes_to(world, cx, account, container, key, Some(comp)),
        effects >= 4,
    ensures
        comp == "metadata"@ ==> served(world, cx, effects) == run(
            world,
            |tape: TapeView| update_metadata(cx, container, key, tape),
            Seq::empty(),
            (effects - 4) as nat,
        ),
        comp == "appendblock"@ ==> served(world, cx, effects) == run(
            world,
            |tape: TapeView| append_block(cx, container, key, tape),
            Seq::empty(),
            (effects - 4) as nat,
        ),
        comp == "page"@ ==> served(world, cx, effects) == run(
            world,
            |tape: TapeView| put_page(cx, container, key, tape),
            Seq::empty(),
            (effects - 4) as nat,
        ),
        comp == "snapshot"@ ==> served(world, cx, effects) == run(
            world,
            |tape: TapeView| create_snapshot(cx, container, key, tape),
            Seq::empty(),
            (effects - 4) as nat,
        ),
        comp == "lease"@ ==> served(world, cx, effects) == run(
            world,
            |tape: TapeView| handle_lease(cx, container, key, tape),
            Seq::empty(),
            (effects - 4) as nat,
        ),
        comp == "legalhold"@ ==> served(world, cx, effects) == run(
            world,
            |tape: TapeView| put_legal_hold(cx, container, key, tape),
            Seq::empty(),
            (effects - 4) as nat,
        ),
        comp == "immutabilityPolicies"@ ==> served(world, cx, effects) == run(
            world,
            |tape: TapeView| put_immutability_policy(cx, container, key, tape),
            Seq::empty(),
            (effects - 4) as nat,
        ),
{
    parts_differ();
    requests_reach_their_blob(world, cx, account, container, key, effects);
    let outer = |tape: TapeView| handle_blob_request(cx, account, container, key, tape);
    let left = (effects - 4) as nat;
    if comp == "metadata"@ {
        runs_agree(world, outer, |tape: TapeView| update_metadata(cx, container, key, tape), left);
    } else if comp == "appendblock"@ {
        runs_agree(world, outer, |tape: TapeView| append_block(cx, container, key, tape), left);
    } else if comp == "page"@ {
        runs_agree(world, outer, |tape: TapeView| put_page(cx, container, key, tape), left);
    } else if comp == "snapshot"@ {
        runs_agree(world, outer, |tape: TapeView| create_snapshot(cx, container, key, tape), left);
    } else if comp == "lease"@ {
        runs_agree(world, outer, |tape: TapeView| handle_lease(cx, container, key, tape), left);
    } else if comp == "legalhold"@ {
        runs_agree(world, outer, |tape: TapeView| put_legal_hold(cx, container, key, tape), left);
    } else if comp == "immutabilityPolicies"@ {
        runs_agree(
            world,
            outer,
            |tape: TapeView| put_immutability_policy(cx, container, key, tape),
            left,
        );
    }
}

/// Set Blob Metadata gives a blob the metadata of the request in place of its own, and a new
/// tag. Its content and everything else stay.
pub proof fn metadata_is_replaced(
    world: World,
    cx: ContextView,
    account: Text,
    container: Text,
    key: Text,
    blob: ObjectView,
    effects: nat,
)
    requires
        writes_to(world, cx, account, container, key, Some("metadata"@)),
        once_each(cx.req.headers),
        world.object(container, key) == Some(blob),
        unguarded(blob),
        conditions_match(cx.req, blob.etag),
        effects >= 7,
    ensures
        ({
            let object = served(world, cx, effects).0.objects[(container, key)];
            &&& ends(
                served(world, cx, effects),
                world.with_object(container, key, object),
                200,
            )
            &&& forall|name: Text| #[trigger]
                get(object.metadata, name) == cx.req.header("x-ms-meta-"@ + name)
            &&& object == (ObjectView {
                metadata: object.metadata,
                etag: cx.stamp.fresh_tag,
                last_modified: cx.stamp.now,
                ..blob
            })
        }),
{
    broadcast use led_is_read;

    parts_are_served(world, cx, account, container, key, "metadata"@, effects);
    let effects = (effects - 4) as nat;
    let handler = |tape: TapeView| update_metadata(cx, container, key, tape);
    let updated = ObjectView {
        metadata: crate::azure::basics::metadata_from_headers(cx.req),
        etag: cx.stamp.fresh_tag,
        last_modified: cx.stamp.now,
        ..blob
    };
    rewriting_runs(world, cx, container, key, blob, updated, handler, effects);
    assert forall|name: Text| #[trigger] get(updated.metadata, name) == cx.req.header(
        "x-ms-meta-"@ + name,
    ) by {
        metadata_is_read(cx.req, "x-ms-meta-"@, name);
    }
}

/// A run that reads a blob, writes it where it still has its tag, and reads it again.
proof fn rewriting_runs(
    world: World,
    cx: ContextView,
    container: Text,
    key: Text,
    blob: ObjectView,
    updated: ObjectView,
    handler: spec_fn(TapeView) -> StepView,
    effects: nat,
)
    requires
        world.object(container, key) == Some(blob),
        effects >= 3,
        handler(Seq::empty()) == StepView::Perform(EffectView::GetObject(container, key)),
        handler(led(OutcomeView::Object(Ok(blob)), Seq::empty())) == StepView::Perform(
            EffectView::PutObjectIf(container, key, updated, ConditionView::Etag(blob.etag)),
        ),
        handler(
            led(
                OutcomeView::Object(Ok(blob)),
                led(OutcomeView::Flag(Ok(true)), Seq::empty()),
            ),
        ) == StepView::Perform(EffectView::GetObject(container, key)),
        handler(
            led(
                OutcomeView::Object(Ok(blob)),
                led(
                    OutcomeView::Flag(Ok(true)),
                    led(OutcomeView::Object(Ok(updated)), Seq::empty()),
                ),
            ),
        ) is Reply,
    ensures
        run(world, handler, Seq::empty(), effects) == (
            world.with_object(container, key, updated),
            handler(
                led(
                    OutcomeView::Object(Ok(blob)),
                    led(
                        OutcomeView::Flag(Ok(true)),
                        led(OutcomeView::Object(Ok(updated)), Seq::empty()),
                    ),
                ),
            ),
        ),
{
    let ask = EffectView::GetObject(container, key);
    let put = EffectView::PutObjectIf(container, key, updated, ConditionView::Etag(blob.etag));
    let second = |tape: TapeView| handler(led(OutcomeView::Object(Ok(blob)), tape));
    run_steps(world, handler, ask, second, effects);
    let third = |tape: TapeView| second(led(OutcomeView::Flag(Ok(true)), tape));
    run_steps(world, second, put, third, (effects - 1) as nat);
    let after = world.after(put);
    assert(after == world.with_object(container, key, updated));
    assert(after.object(container, key) == Some(updated));
    let end = |tape: TapeView| third(led(OutcomeView::Object(Ok(updated)), tape));
    run_steps(after, third, ask, end, (effects - 2) as nat);
    run_stops(after, end, (effects - 3) as nat);
}

/// Append Block puts the body behind the content of an append blob and says where it starts.
/// What was there, the metadata and everything else stay.
pub proof fn appended_blocks_come_last(
    world: World,
    cx: ContextView,
    account: Text,
    container: Text,
    key: Text,
    blob: ObjectView,
    effects: nat,
)
    requires
        writes_to(world, cx, account, container, key, Some("appendblock"@)),
        world.object(container, key) == Some(blob),
        unguarded(blob),
        conditions_match(cx.req, blob.etag),
        get(blob.provider_metadata, "azure_blob_type"@) == Some("AppendBlob"@),
        blob.data.len() + cx.req.body.len() <= u64::MAX,
        effects >= 7,
    ensures
        ({
            let object = served(world, cx, effects).0.objects[(container, key)];
            &&& ends(
                served(world, cx, effects),
                world.with_object(container, key, object),
                201,
            )
            &&& holds_content(cx, object, blob.data + cx.req.body)
            &&& object == (ObjectView {
                data: object.data,
                size: object.size,
                etag: object.etag,
                last_modified: object.last_modified,
                ..blob
            })
            &&& served(world, cx, effects).1 matches StepView::Reply(reply) && get(
                reply.headers,
                "x-ms-blob-append-offset"@,
            ) == Some(decimal(blob.data.len() as int)) && get(reply.headers, "etag"@) == Some(
                "\""@ + object.etag + "\""@,
            )
        }),
{
    broadcast use led_is_read;
    broadcast use header_is_read;

    reveal_strlit("etag");
    reveal_strlit("x-ms-blob-append-offset");
    reveal_strlit("x-ms-blob-committed-block-count");
    assert("etag"@.len() == 4 && "x-ms-blob-append-offset"@.len() == 23);
    assert("x-ms-blob-committed-block-count"@.len() == 31);
    parts_are_served(world, cx, account, container, key, "appendblock"@, effects);
    let effects = (effects - 4) as nat;
    let handler = |tape: TapeView| append_block(cx, container, key, tape);
    let data = blob.data + cx.req.body;
    let updated = ObjectView {
        data,
        size: data.len() as u64,
        etag: content_etag(data),
        last_modified: cx.stamp.now,
        ..blob
    };
    rewriting_runs(world, cx, container, key, blob, updated, handler, effects);
}

/// Put Page replaces the bytes of its range by the body, or clears them, and leaves the others.
pub proof fn pages_are_written_in_place(
    world: World,
    cx: ContextView,
    account: Text,
    container: Text,
    key: Text,
    blob: ObjectView,
    a: int,
    b: int,
    clear: bool,
    effects: nat,
)
    requires
        writes_to(world, cx, account, container, key, Some("page"@)),
        world.object(container, key) == Some(blob),
        unguarded(blob),
        conditions_match(cx.req, blob.etag),
        get(blob.provider_metadata, "azure_blob_type"@) == Some("PageBlob"@),
        0 <= a <= b < blob.data.len(),
        b < usize::MAX,
        a % 512 == 0,
        (b + 1) % 512 == 0,
        wanted_range(cx) == Some("bytes="@ + (decimal(a) + "-"@ + decimal(b))),
        cx.req.header("x-ms-page-write"@) == Some(
            if clear {
                "clear"@
            } else {
                "update"@
            },
        ),
        cx.req.body.len() == if clear {
            0
        } else {
            b + 1 - a
        },
        effects >= 7,
    ensures
        ({
            let object = served(world, cx, effects).0.objects[(container, key)];
            &&& ends(
                served(world, cx, effects),
                world.with_object(container, key, object),
                201,
            )
            &&& object.data.len() == blob.data.len()
            &&& forall|i: int|
                0 <= i < object.data.len() ==> #[trigger] object.data[i] == if a <= i <= b {
                    if clear {
                        0u8
                    } else {
                        cx.req.body[i - a]
                    }
                } else {
                    blob.data[i]
                }
            &&& object.etag == content_etag(object.data)
            &&& object == (ObjectView {
                data: object.data,
                etag: object.etag,
                last_modified: cx.stamp.now,
                ..blob
            })
        }),
{
    broadcast use led_is_read;

    reveal_strlit("clear");
    reveal_strlit("update");
    assert("clear"@.len() == 5 && "update"@.len() == 6);
    parts_are_served(world, cx, account, container, key, "page"@, effects);
    ranges_are_read(a, b, blob.data.len() as int);
    let effects = (effects - 4) as nat;
    let outer = |tape: TapeView| put_page(cx, container, key, tape);
    let handler = |tape: TapeView| write_pages(cx, container, key, a, b, clear, tape);
    runs_agree(world, outer, handler, effects);
    let data = crate::azure::blobs::with_pages(blob.data, a, b, clear, cx.req.body);
    let updated = ObjectView {
        data,
        etag: content_etag(data),
        last_modified: cx.stamp.now,
        ..blob
    };
    rewriting_runs(world, cx, container, key, blob, updated, handler, effects);
}

} // verus!
