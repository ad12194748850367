//! What staging and committing blocks come to.

use vstd::prelude::*;
use vstd::string::*;
use crate::azure::basics::{
    conditions_match, content_type, has_active_lease, is_immutable, write_condition,
};
use crate::azure::blobs::handle_blob_request;
use crate::azure::blocks::{
    commit_block_list, commit_blocks, committed_blob, consistent, content, content_upto, last_upto,
    parse_block_list, put_block, record_committed_block_session, resolved, same_id_length, selected,
    session_or_new, stage_block, untaken, written_response, AzureBlockSelector, ReferencesView,
};
use crate::azure::contents::{block_lists_resolve_in_order, commits_take_the_listed_blocks};
use crate::azure::replies::once_each;
use crate::azure::rules::blob_state_key;
use crate::azure::runs::{conditions_hold, reaches, requests_reach_their_blob, served, unguarded};
use crate::codec::{base64_bytes, content_etag};
use crate::http::{ContextView, Method};
use crate::readings::metadata_is_read;
use crate::store::{
    BlockSessionView, ConditionView, EffectView, KnownView, ObjectView, OutcomeView, StepView,
    TapeView,
};
use crate::table::{get, get_with, with};
use crate::text::{or_text, utf8_text};
use crate::views::Text;
use crate::world::{held, led, led_is_read, run, run_steps, run_stops, runs_agree, World};

verus! {

/// Under which name the blocks of a blob are kept.
pub open spec fn place_of(account: Text, container: Text, key: Text) -> Text {
    account + "/"@ + container + "/"@ + key
}

/// The blocks that are staged for a blob: what is remembered, or else what is recorded.
pub open spec fn staged(world: World, place: Text) -> Seq<(Text, Seq<u8>)> {
    if world.remembered_sessions.contains_key(place) {
        world.remembered_sessions[place].blocks
    } else if world.sessions.contains_key(place) {
        world.sessions[place].blocks
    } else {
        Seq::empty()
    }
}

/// The blocks that a blob was committed from: what is remembered, or else what is recorded.
pub open spec fn committed(world: World, place: Text) -> Seq<(Text, Seq<u8>)> {
    if world.remembered_blocks.contains_key(place) {
        world.remembered_blocks[place]
    } else if world.blocks.contains_key(place) {
        world.blocks[place]
    } else {
        Seq::empty()
    }
}

/// Whether a block list may take such a content for an entry: `Uncommitted` takes the staged
/// block, `Committed` one that the blob was committed from, and `Latest` the staged one if there
/// is one.
pub open spec fn may_take(
    entry: (Text, AzureBlockSelector),
    staged: Seq<(Text, Seq<u8>)>,
    committed: Seq<(Text, Seq<u8>)>,
    data: Seq<u8>,
) -> bool {
    let from_staged = get(staged, entry.0) == Some(data);
    let from_committed = committed.contains((entry.0, data));
    match entry.1 {
        AzureBlockSelector::Uncommitted => from_staged,
        AzureBlockSelector::Committed => from_committed,
        AzureBlockSelector::Latest => if get(staged, entry.0) is Some {
            from_staged
        } else {
            from_committed
        },
    }
}

/// Whether there is a block for an entry.
pub open spec fn is_there(
    entry: (Text, AzureBlockSelector),
    staged: Seq<(Text, Seq<u8>)>,
    committed: Seq<(Text, Seq<u8>)>,
) -> bool {
    exists|data: Seq<u8>| may_take(entry, staged, committed, data)
}

/// Contents one behind the other.
pub open spec fn in_sequence(parts: Seq<Seq<u8>>) -> Seq<u8>
    decreases parts.len(),
{
    if parts.len() == 0 {
        Seq::empty()
    } else {
        in_sequence(parts.drop_last()) + parts.last()
    }
}

proof fn last_is_one_of_them(blocks: Seq<(Text, Seq<u8>)>, id: Text, n: int)
    requires
        0 <= n <= blocks.len(),
    ensures
        match last_upto(blocks, id, n) {
            Some(data) => blocks.contains((id, data)),
            None => forall|i: int| 0 <= i < n ==> (#[trigger] blocks[i]).0 != id,
        },
    decreases n,
{
    if n > 0 {
        if blocks[n - 1].0 == id {
            assert(blocks[n - 1] == (id, blocks[n - 1].1));
        } else {
            last_is_one_of_them(blocks, id, n - 1);
        }
    }
}

proof fn selections_may_be_taken(
    entry: (Text, AzureBlockSelector),
    staged: Seq<(Text, Seq<u8>)>,
    committed: Seq<(Text, Seq<u8>)>,
)
    ensures
        match selected(entry, staged, committed) {
            Some(data) => may_take(entry, staged, committed, data),
            None => !is_there(entry, staged, committed),
        },
{
    last_is_one_of_them(committed, entry.0, committed.len() as int);
    if selected(entry, staged, committed) is None && is_there(entry, staged, committed) {
        let data = choose|data: Seq<u8>| may_take(entry, staged, committed, data);
        if committed.contains((entry.0, data)) {
            let i = choose|i: int| 0 <= i < committed.len() && committed[i] == (entry.0, data);
            assert(committed[i].0 == entry.0);
        }
    }
}

proof fn contents_are_in_sequence(blocks: Seq<(Text, Seq<u8>)>, n: int)
    requires
        0 <= n <= blocks.len(),
    ensures
        content_upto(blocks, n) == in_sequence(Seq::new(n as nat, |i: int| blocks[i].1)),
    decreases n,
{
    let parts = Seq::new(n as nat, |i: int| blocks[i].1);
    if n > 0 {
        contents_are_in_sequence(blocks, n - 1);
        assert(parts.drop_last() =~= Seq::new((n - 1) as nat, |i: int| blocks[i].1));
    }
}

// ---------------------------------------------------------------------------
// Staging

/// Whether the identifiers of some blocks are Base64 for as many bytes each.
pub open spec fn ids_are_as_long(blocks: Seq<(Text, Seq<u8>)>, n: int) -> bool {
    forall|i: int|
        0 <= i < blocks.len() ==> ((#[trigger] base64_bytes(blocks[i].0)) matches Some(id)
            && id.len() == n)
}

/// Put Block stages its body under its identifier. The other staged blocks stay, and no blob is
/// changed.
pub proof fn blocks_are_staged_as_sent(
    world: World,
    cx: ContextView,
    account: Text,
    container: Text,
    key: Text,
    id: Text,
    decoded: Seq<u8>,
    effects: nat,
)
    requires
        reaches(world, cx, account, container, key),
        cx.req.method == Method::Put,
        cx.req.param("comp"@) == Some("block"@),
        cx.req.param("blockid"@) == Some(id),
        cx.req.param("snapshot"@) is None,
        cx.req.param("versionid"@) is None,
        cx.req.header("x-ms-copy-source"@) is None,
        base64_bytes(id) == Some(decoded),
        1 <= decoded.len() <= 64,
        ids_are_as_long(staged(world, place_of(account, container, key)), decoded.len() as int),
        match world.object(container, key) {
            Some(blob) => unguarded(blob) && conditions_match(cx.req, blob.etag),
            None => cx.req.header("if-match"@) is None,
        },
        effects >= 9,
    ensures
        ({
            let place = place_of(account, container, key);
            let (left, step) = served(world, cx, effects);
            &&& step matches StepView::Reply(reply) && reply.status == 201
            &&& left.objects == world.objects
            &&& left.buckets == world.buckets
            &&& left.blocks == world.blocks
            &&& left.remembered_blocks == world.remembered_blocks
            &&& left.sessions.contains_key(place)
            &&& left.sessions[place].blocks == staged(left, place)
            &&& forall|other: Text| #[trigger]
                get(staged(left, place), other) == if other == id {
                    Some(cx.req.body)
                } else {
                    get(staged(world, place), other)
                }
            &&& forall|other: Text|
                other != place ==> #[trigger] staged(left, other) == staged(world, other)
        }),
{
    broadcast use led_is_read;

    reveal_strlit("block");
    reveal_strlit("lease");
    reveal_strlit("snapshot");
    reveal_strlit("immutabilityPolicies");
    reveal_strlit("legalhold");
    assert("block"@.len() == 5 && "lease"@.len() == 5 && "block"@[0] != "lease"@[0]);
    assert("snapshot"@.len() == 8 && "immutabilityPolicies"@.len() == 20);
    assert("legalhold"@.len() == 9);
    let place = place_of(account, container, key);
    assert(place == blob_state_key(account, container, key));
    requests_reach_their_blob(world, cx, account, container, key, effects);
    let effects = (effects - 4) as nat;
    let n = decoded.len() as int;
    let outer = |tape: TapeView| handle_blob_request(cx, account, container, key, tape);
    let handler = |tape: TapeView| put_block(cx, account, container, key, tape);
    runs_agree(world, outer, handler, effects);
    let ask = EffectView::GetObject(container, key);
    let second = |tape: TapeView| stage_block(cx, account, container, key, id, n, tape);
    run_steps(world, handler, ask, second, effects);
    let recall = EffectView::RecallSession(place);
    let load = EffectView::LoadSession(place);
    let third = |tape: TapeView| second(led(world.answer(recall), tape));
    run_steps(world, second, recall, third, (effects - 1) as nat);
    let fourth = |tape: TapeView| third(led(world.answer(load), tape));
    run_steps(world, third, load, fourth, (effects - 2) as nat);
    let session = session_or_new(
        match held(world.remembered_sessions, place) {
            Some(session) => Some(session),
            None => held(world.sessions, place),
        },
    );
    assert(session.blocks == staged(world, place));
    let now = BlockSessionView {
        blocks: with(session.blocks, id, cx.req.body),
        ..session
    };
    let save = EffectView::SaveSession(place, now);
    let done = OutcomeView::Done(Ok(()));
    let fifth = |tape: TapeView| fourth(led(done, tape));
    assert(same_id_length(session.blocks, n));
    run_steps(world, fourth, save, fifth, (effects - 3) as nat);
    let saved = world.after(save);
    let remember = EffectView::RememberSession(place, now);
    let end = |tape: TapeView| StepView::Reply(crate::azure::basics::response(cx.stamp, 201));
    run_steps(saved, fifth, remember, end, (effects - 4) as nat);
    let left = saved.after(remember);
    run_stops(left, end, (effects - 5) as nat);
    assert forall|other: Text| #[trigger] get(staged(left, place), other) == if other == id {
        Some(cx.req.body)
    } else {
        get(staged(world, place), other)
    } by {
        get_with(session.blocks, id, cx.req.body, other);
    }
}

// ---------------------------------------------------------------------------
// Committing

/// What is there once a blob is committed.
spec fn behind_commit(
    world: World,
    container: Text,
    key: Text,
    place: Text,
    object: ObjectView,
    blocks: Seq<(Text, Seq<u8>)>,
    remaining: BlockSessionView,
) -> World {
    let kept = World {
        objects: world.objects.insert((container, key), object),
        blocks: world.blocks.insert(place, blocks),
        remembered_blocks: world.remembered_blocks.insert(place, blocks),
        ..world
    };
    if remaining.blocks.len() == 0 {
        World {
            sessions: world.sessions.remove(place),
            remembered_sessions: world.remembered_sessions.remove(place),
            ..kept
        }
    } else {
        World {
            sessions: world.sessions.insert(place, remaining),
            remembered_sessions: world.remembered_sessions.insert(place, remaining),
            ..kept
        }
    }
}

/// The session that a commit finds.
spec fn session_at(world: World, place: Text) -> BlockSessionView {
    session_or_new(
        match held(world.remembered_sessions, place) {
            Some(session) => Some(session),
            None => held(world.sessions, place),
        },
    )
}

/// The last questions of a commit.
proof fn commit_is_recorded(
    world: World,
    cx: ContextView,
    container: Text,
    key: Text,
    place: Text,
    object: ObjectView,
    blocks: Seq<(Text, Seq<u8>)>,
    remaining: BlockSessionView,
    effects: nat,
)
    requires
        world.object(container, key) == Some(object),
        effects >= 5,
    ensures
        ({
            let (left, step) = run(
                world,
                |tape: TapeView|
                    match record_committed_block_session(place, blocks, remaining, tape) {
                        KnownView::Halt(step) => step,
                        KnownView::Got(_, tape) => match crate::store::known::<
                            crate::store::Object,
                        >(tape, EffectView::GetObject(container, key)) {
                            KnownView::Halt(step) => step,
                            KnownView::Got(stored, _) => StepView::Reply(
                                written_response(cx.stamp, 201, stored).maybe_header(
                                    "x-ms-version-id"@,
                                    stored.version_id,
                                ),
                            ),
                        },
                    },
                Seq::empty(),
                effects,
            );
            left == behind_commit(world, container, key, place, object, blocks, remaining) && (
            step matches StepView::Reply(reply) && reply.status == 201)
        }),
{
    broadcast use led_is_read;

    let handler = |tape: TapeView|
        match record_committed_block_session(place, blocks, remaining, tape) {
            KnownView::Halt(step) => step,
            KnownView::Got(_, tape) => match crate::store::known::<crate::store::Object>(
                tape,
                EffectView::GetObject(container, key),
            ) {
                KnownView::Halt(step) => step,
                KnownView::Got(stored, _) => StepView::Reply(
                    written_response(cx.stamp, 201, stored).maybe_header(
                        "x-ms-version-id"@,
                        stored.version_id,
                    ),
                ),
            },
        };
    let done = OutcomeView::Done(Ok(()));
    let remember = EffectView::RememberBlocks(place, blocks);
    let save = EffectView::SaveBlocks(place, blocks);
    let second = |tape: TapeView| handler(led(done, tape));
    run_steps(world, handler, remember, second, effects);
    let w1 = world.after(remember);
    let third = |tape: TapeView| second(led(done, tape));
    run_steps(w1, second, save, third, (effects - 1) as nat);
    let w2 = w1.after(save);
    let (a, b) = if remaining.blocks.len() == 0 {
        (EffectView::ForgetSession(place), EffectView::DropSession(place))
    } else {
        (
            EffectView::SaveSession(place, remaining),
            EffectView::RememberSession(place, remaining),
        )
    };
    let fourth = |tape: TapeView| third(led(done, tape));
    run_steps(w2, third, a, fourth, (effects - 2) as nat);
    let w3 = w2.after(a);
    let fifth = |tape: TapeView| fourth(led(done, tape));
    run_steps(w3, fourth, b, fifth, (effects - 3) as nat);
    let w4 = w3.after(b);
    let ask = EffectView::GetObject(container, key);
    let end = |tape: TapeView|
        StepView::Reply(
            written_response(cx.stamp, 201, object).maybe_header(
                "x-ms-version-id"@,
                object.version_id,
            ),
        );
    assert(w4.object(container, key) == Some(object));
    run_steps(w4, fifth, ask, end, (effects - 4) as nat);
    run_stops(w4, end, (effects - 5) as nat);
    assert(world.objects.insert((container, key), object) =~= world.objects);
    assert(w4 == behind_commit(world, container, key, place, object, blocks, remaining));
}

proof fn commit_runs(
    world: World,
    cx: ContextView,
    account: Text,
    container: Text,
    key: Text,
    list: ReferencesView,
    condition: ConditionView,
    existing: Option<ObjectView>,
    blocks: Seq<(Text, Seq<u8>)>,
    effects: nat,
)
    requires
        world.object(container, key) == existing,
        condition.holds_of(existing),
        resolved(
            list,
            staged(world, place_of(account, container, key)),
            committed(world, place_of(account, container, key)),
        ) == Ok::<_, Text>(blocks),
        effects >= 11,
    ensures
        ({
            let place = place_of(account, container, key);
            let session = session_at(world, place);
            let (left, step) = run(
                world,
                |tape: TapeView|
                    commit_blocks(cx, account, container, key, list, condition, existing, tape),
                Seq::empty(),
                effects,
            );
            left == behind_commit(
                world,
                container,
                key,
                place,
                committed_blob(cx, key, blocks, existing),
                blocks,
                (BlockSessionView { blocks: untaken(list, session.blocks), ..session }),
            ) && (step matches StepView::Reply(reply) && reply.status == 201)
        }),
{
    broadcast use led_is_read;

    let place = place_of(account, container, key);
    assert(place == blob_state_key(account, container, key));
    let session = session_at(world, place);
    assert(session.blocks == staged(world, place));
    let remaining = BlockSessionView { blocks: untaken(list, session.blocks), ..session };
    let object = committed_blob(cx, key, blocks, existing);
    let handler = |tape: TapeView|
        commit_blocks(cx, account, container, key, list, condition, existing, tape);
    let recall = EffectView::RecallSession(place);
    let load = EffectView::LoadSession(place);
    let second = |tape: TapeView| handler(led(world.answer(recall), tape));
    run_steps(world, handler, recall, second, effects);
    let third = |tape: TapeView| second(led(world.answer(load), tape));
    run_steps(world, second, load, third, (effects - 1) as nat);
    let put = EffectView::PutObjectIf(container, key, object, condition);
    let fourth = |tape: TapeView|
        match crate::store::known::<bool>(tape, put) {
            KnownView::Halt(step) => step,
            KnownView::Got(false, _) => StepView::Reply(
                crate::azure::basics::condition_failed(cx.stamp),
            ),
            KnownView::Got(true, tape) => match record_committed_block_session(
                place,
                blocks,
                remaining,
                tape,
            ) {
                KnownView::Halt(step) => step,
                KnownView::Got(_, tape) => match crate::store::known::<crate::store::Object>(
                    tape,
                    EffectView::GetObject(container, key),
                ) {
                    KnownView::Halt(step) => step,
                    KnownView::Got(stored, _) => StepView::Reply(
                        written_response(cx.stamp, 201, stored).maybe_header(
                            "x-ms-version-id"@,
                            stored.version_id,
                        ),
                    ),
                },
            },
        };
    let recall_blocks = EffectView::RecallBlocks(place);
    let load_blocks = EffectView::LoadBlocks(place);
    let remember = EffectView::RememberBlocks(place, committed(world, place));
    let known = world.remembered_blocks.contains_key(place);
    let w: World;
    let left: nat;
    if known {
        run_steps(world, third, recall_blocks, fourth, (effects - 2) as nat);
        w = world;
        left = (effects - 3) as nat;
    } else {
        let a = |tape: TapeView| third(led(world.answer(recall_blocks), tape));
        run_steps(world, third, recall_blocks, a, (effects - 2) as nat);
        let b = |tape: TapeView| a(led(world.answer(load_blocks), tape));
        run_steps(world, a, load_blocks, b, (effects - 3) as nat);
        run_steps(world, b, remember, fourth, (effects - 4) as nat);
        w = world.after(remember);
        left = (effects - 5) as nat;
    }
    let fifth = |tape: TapeView|
        match record_committed_block_session(place, blocks, remaining, tape) {
            KnownView::Halt(step) => step,
            KnownView::Got(_, tape) => match crate::store::known::<crate::store::Object>(
                tape,
                EffectView::GetObject(container, key),
            ) {
                KnownView::Halt(step) => step,
                KnownView::Got(stored, _) => StepView::Reply(
                    written_response(cx.stamp, 201, stored).maybe_header(
                        "x-ms-version-id"@,
                        stored.version_id,
                    ),
                ),
            },
        };
    assert(w.object(container, key) == existing);
    run_steps(w, fourth, put, fifth, left);
    let written = w.after(put);
    assert(written.object(container, key) == Some(object));
    commit_is_recorded(
        written,
        cx,
        container,
        key,
        place,
        object,
        blocks,
        remaining,
        (left - 1) as nat,
    );
    let last = behind_commit(written, container, key, place, object, blocks, remaining);
    let wanted = behind_commit(world, container, key, place, object, blocks, remaining);
    assert(last.objects =~= wanted.objects);
    assert(last.remembered_blocks =~= wanted.remembered_blocks);
}

/// Whether a write may happen: nothing guards the blob in place, if there is one, and the
/// conditions of the request hold.
pub open spec fn may_write(world: World, cx: ContextView, container: Text, key: Text) -> bool {
    match world.object(container, key) {
        Some(blob) => unguarded(blob) && conditions_hold(cx, blob),
        None => cx.req.header("if-match"@) is None && (write_condition(cx.stamp, cx.req) matches Ok(
            condition,
        ) && (condition matches Some(condition) ==> condition.holds_of(None))),
    }
}

/// Whether an object has the content type and the metadata that a request gives.
pub open spec fn is_as_requested(cx: ContextView, object: ObjectView) -> bool {
    &&& object.content_type == match cx.req.header("x-ms-blob-content-type"@) {
        Some(given) => given,
        None => or_text(cx.req.header("content-type"@), "application/octet-stream"@),
    }
    &&& forall|name: Text| #[trigger]
        get(object.metadata, name) == cx.req.header("x-ms-meta-"@ + name)
    &&& once_each(object.metadata)
}

/// Whether an object has a content, with its size and tag, from a moment.
pub open spec fn holds_content(cx: ContextView, object: ObjectView, data: Seq<u8>) -> bool {
    &&& object.data == data
    &&& object.size == data.len() as u64
    &&& object.etag == content_etag(data)
    &&& object.last_modified == cx.stamp.now
}

proof fn commit_comes_to_its_blocks(
    world: World,
    cx: ContextView,
    account: Text,
    container: Text,
    key: Text,
    document: Text,
    list: ReferencesView,
    blocks: Seq<(Text, Seq<u8>)>,
    effects: nat,
)
    requires
        reaches(world, cx, account, container, key),
        cx.req.method == Method::Put,
        cx.req.param("comp"@) == Some("blocklist"@),
        cx.req.param("snapshot"@) is None,
        cx.req.param("versionid"@) is None,
        cx.req.header("x-ms-copy-source"@) is None,
        utf8_text(cx.req.body) == Some(document),
        parse_block_list(document) == Ok::<_, crate::azure::blocks::AzureBlockListError>(list),
        consistent(list),
        may_write(world, cx, container, key),
        resolved(
            list,
            staged(world, place_of(account, container, key)),
            committed(world, place_of(account, container, key)),
        ) == Ok::<_, Text>(blocks),
        effects >= 17,
    ensures
        ({
            let place = place_of(account, container, key);
            let session = session_at(world, place);
            let (left, step) = served(world, cx, effects);
            left == behind_commit(
                world,
                container,
                key,
                place,
                committed_blob(cx, key, blocks, world.object(container, key)),
                blocks,
                (BlockSessionView { blocks: untaken(list, session.blocks), ..session }),
            ) && (step matches StepView::Reply(reply) && reply.status == 201)
        }),
{
    broadcast use led_is_read;

    reveal_strlit("blocklist");
    reveal_strlit("block");
    reveal_strlit("lease");
    reveal_strlit("snapshot");
    reveal_strlit("immutabilityPolicies");
    reveal_strlit("legalhold");
    assert("blocklist"@.len() == 9 && "lease"@.len() == 5 && "block"@.len() == 5);
    assert("snapshot"@.len() == 8 && "immutabilityPolicies"@.len() == 20);
    assert("legalhold"@.len() == 9 && "blocklist"@[0] != "legalhold"@[0]);
    requests_reach_their_blob(world, cx, account, container, key, effects);
    let effects = (effects - 4) as nat;
    let outer = |tape: TapeView| handle_blob_request(cx, account, container, key, tape);
    let handler = |tape: TapeView|
        commit_block_list(cx, account, container, key, list, tape);
    runs_agree(world, outer, handler, effects);
    let existing = world.object(container, key);
    let given = write_condition(cx.stamp, cx.req)->Ok_0;
    let ask = EffectView::GetObject(container, key);
    match existing {
        Some(blob) => {
            let condition = match given {
                Some(condition) => condition,
                None => ConditionView::Etag(blob.etag),
            };
            let second = |tape: TapeView| handler(led(world.answer(ask), tape));
            run_steps(world, handler, ask, second, effects);
            let rest = |tape: TapeView|
                commit_blocks(cx, account, container, key, list, condition, existing, tape);
            assert(!is_immutable(cx.stamp.now, blob));
            assert(!has_active_lease(blob));
            run_steps(
                world,
                second,
                EffectView::GetBucket(container),
                rest,
                (effects - 1) as nat,
            );
            commit_runs(
                world,
                cx,
                account,
                container,
                key,
                list,
                condition,
                existing,
                blocks,
                (effects - 2) as nat,
            );
        },
        None => {
            let condition = match given {
                Some(condition) => condition,
                None => ConditionView::Missing,
            };
            let rest = |tape: TapeView|
                commit_blocks(cx, account, container, key, list, condition, existing, tape);
            run_steps(world, handler, ask, rest, effects);
            commit_runs(
                world,
                cx,
                account,
                container,
                key,
                list,
                condition,
                existing,
                blocks,
                (effects - 1) as nat,
            );
        },
    }
}

/// Put Block List makes a block blob at the key that the request names. Its content are the
/// blocks of the list in their order, one behind the other, and its content type and metadata
/// are those of the request. Other objects stay. The blocks that were taken are no longer
/// staged, the others are, and the blocks of the blob are recorded in the order of the list.
pub proof fn blocks_are_committed_as_listed(
    world: World,
    cx: ContextView,
    account: Text,
    container: Text,
    key: Text,
    document: Text,
    list: ReferencesView,
    effects: nat,
)
    requires
        reaches(world, cx, account, container, key),
        cx.req.method == Method::Put,
        cx.req.param("comp"@) == Some("blocklist"@),
        cx.req.param("snapshot"@) is None,
        cx.req.param("versionid"@) is None,
        cx.req.header("x-ms-copy-source"@) is None,
        once_each(cx.req.headers),
        utf8_text(cx.req.body) == Some(document),
        parse_block_list(document) == Ok::<_, crate::azure::blocks::AzureBlockListError>(list),
        consistent(list),
        may_write(world, cx, container, key),
        forall|i: int|
            0 <= i < list.len() ==> is_there(
                #[trigger] list[i],
                staged(world, place_of(account, container, key)),
                committed(world, place_of(account, container, key)),
            ),
        effects >= 17,
    ensures
        ({
            let place = place_of(account, container, key);
            let (left, step) = served(world, cx, effects);
            let object = left.objects[(container, key)];
            let parts = Seq::new(list.len(), |i: int| left.blocks[place][i].1);
            &&& step matches StepView::Reply(reply) && reply.status == 201
            &&& left.objects == world.objects.insert((container, key), object)
            &&& left.buckets == world.buckets
            &&& object.key == key
            &&& is_as_requested(cx, object)
            &&& get(object.provider_metadata, "azure_blob_type"@) == Some("BlockBlob"@)
            &&& left.blocks[place].len() == list.len()
            &&& left.remembered_blocks[place] == left.blocks[place]
            &&& forall|i: int|
                0 <= i < list.len() ==> (#[trigger] left.blocks[place][i]).0 == list[i].0
                    && may_take(
                    list[i],
                    staged(world, place),
                    committed(world, place),
                    left.blocks[place][i].1,
                )
            &&& holds_content(cx, object, in_sequence(parts))
            &&& forall|id: Text| #[trigger]
                get(staged(left, place), id) == if exists|i: int|
                    0 <= i < list.len() && (#[trigger] list[i]).0 == id && list[i].1
                        != AzureBlockSelector::Committed {
                    None
                } else {
                    get(staged(world, place), id)
                }
        }),
{
    let place = place_of(account, container, key);
    let now = staged(world, place);
    let before = committed(world, place);
    block_lists_resolve_in_order(list, now, before);
    assert forall|i: int| 0 <= i < list.len() implies selected(#[trigger] list[i], now, before)
        is Some by {
        selections_may_be_taken(list[i], now, before);
        assert(is_there(list[i], now, before));
    }
    let blocks = resolved(list, now, before)->Ok_0;
    commit_comes_to_its_blocks(
        world,
        cx,
        account,
        container,
        key,
        document,
        list,
        blocks,
        effects,
    );
    let existing = world.object(container, key);
    let object = committed_blob(cx, key, blocks, existing);
    let session = session_at(world, place);
    let remaining = BlockSessionView { blocks: untaken(list, session.blocks), ..session };
    let left = behind_commit(world, container, key, place, object, blocks, remaining);
    assert(session.blocks == now);
    assert forall|i: int| 0 <= i < list.len() implies (#[trigger] left.blocks[place][i]).0
        == list[i].0 && may_take(list[i], now, before, left.blocks[place][i].1) by {
        assert(blocks[i].0 == list[i].0);
        selections_may_be_taken(list[i], now, before);
    }
    let parts = Seq::new(list.len(), |i: int| left.blocks[place][i].1);
    contents_are_in_sequence(blocks, blocks.len() as int);
    assert(parts =~= Seq::new(blocks.len(), |i: int| blocks[i].1));
    if let Some(blob) = existing {
        assert(!has_active_lease(blob));
    }
    get_with(
        Seq::<(Text, Text)>::empty(),
        "azure_blob_type"@,
        "BlockBlob"@,
        "azure_blob_type"@,
    );
    assert forall|name: Text| #[trigger] get(object.metadata, name) == cx.req.header(
        "x-ms-meta-"@ + name,
    ) by {
        metadata_is_read(cx.req, "x-ms-meta-"@, name);
    }
    metadata_is_read(cx.req, "x-ms-meta-"@, ""@);
    assert forall|id: Text| #[trigger] get(staged(left, place), id) == if exists|i: int|
        0 <= i < list.len() && (#[trigger] list[i]).0 == id && list[i].1
            != AzureBlockSelector::Committed {
        None
    } else {
        get(now, id)
    } by {
        commits_take_the_listed_blocks(list, now, id);
        if remaining.blocks.len() == 0 {
            assert(staged(left, place) =~= Seq::empty());
            assert(remaining.blocks =~= Seq::empty());
        }
        if exists|i: int|
            0 <= i < list.len() && (#[trigger] list[i]).0 == id && list[i].1
                != AzureBlockSelector::Committed {
            let i = choose|i: int|
                0 <= i < list.len() && (#[trigger] list[i]).0 == id && list[i].1
                    != AzureBlockSelector::Committed;
            if !crate::azure::blocks::takes_staged(list[i], now) {
                assert(get(now, id) is None);
            }
        }
    }
}

} // verus!
