//! What Delete Blob takes away.

use vstd::prelude::*;
use vstd::string::*;
use crate::azure::basics::{snapshot_prefix, write_condition};
use crate::azure::blobs::{
    delete_blob, delete_current, delete_snapshots, handle_blob_crud, snapshot_keys,
};
use crate::azure::containers::object_keys;
use crate::azure::runs::{conditions_hold, reaches, requests_are_served, served, unguarded};
use crate::http::{ContextView, Method};
use crate::store::{EffectView, KnownView, ObjectView, OutcomeView, PageView, StepView, TapeView};
use crate::text::starts_with;
use crate::views::Text;
use crate::world::{
    leads, pages, pages_go_on, past, run, run_replies, runs_agree, shelves_hold_the_objects, World,
};

verus! {

/// Pages as outcomes.
pub open spec fn shown(pages: Seq<PageView>) -> TapeView {
    Seq::new(pages.len(), |i: int| OutcomeView::Page(Ok(pages[i])))
}

/// So many effects that were done.
pub open spec fn dones(n: nat) -> TapeView {
    Seq::new(n, |i: int| OutcomeView::Done(Ok(())))
}

/// The snapshots of a blob are asked for page by page, and all of them are found.
proof fn snapshots_are_found(
    world: World,
    container: Text,
    prefix: Text,
    marker: Option<Text>,
    so_far: Seq<Text>,
    fuel: nat,
)
    requires
        world.sound(),
        world.buckets.contains_key(container),
        past(world.shelf(container, Some(prefix)), marker).len() <= fuel,
    ensures
        ({
            let shelf = world.shelf(container, Some(prefix));
            let tape = shown(pages(shelf, marker, 1000, fuel));
            &&& 1 <= tape.len() <= fuel + 1
            &&& forall|i: int|
                0 <= i < tape.len() ==> (#[trigger] snapshot_keys(
                    container,
                    prefix,
                    marker,
                    so_far,
                    tape.take(i),
                ) matches KnownView::Halt(StepView::Perform(effect)) && world.answer(effect)
                    == tape[i] && world.after(effect) == world)
            &&& forall|rest: TapeView| #[trigger]
                snapshot_keys(container, prefix, marker, so_far, tape + rest) == KnownView::Got(
                    so_far + object_keys(past(shelf, marker)),
                    rest,
                )
        }),
    decreases fuel,
{
    let shelf = world.shelf(container, Some(prefix));
    shelves_hold_the_objects(world, container, Some(prefix));
    let left = past(shelf, marker);
    let list = pages(shelf, marker, 1000, fuel);
    let tape = shown(list);
    if left.len() > 1000 {
        let next = left[999].key;
        let keys = so_far + object_keys(list[0].objects);
        pages_go_on(shelf, marker, 1000);
        snapshots_are_found(world, container, prefix, Some(next), keys, (fuel - 1) as nat);
        let others = shown(pages(shelf, Some(next), 1000, (fuel - 1) as nat));
        assert(list[0].next_marker == Some(next));
        assert(tape[0] == OutcomeView::Page(Ok(list[0])));
        assert(list.skip(1) =~= pages(shelf, Some(next), 1000, (fuel - 1) as nat));
        assert forall|i: int| 1 <= i < tape.len() implies tape[i] == #[trigger] others[i - 1] by {
            assert(list[i] == list.skip(1)[i - 1]);
        }
        assert(tape.skip(1) =~= others);
        assert forall|i: int| 0 <= i < tape.len() implies (#[trigger] snapshot_keys(
            container,
            prefix,
            marker,
            so_far,
            tape.take(i),
        ) matches KnownView::Halt(StepView::Perform(effect)) && world.answer(effect) == tape[i]
            && world.after(effect) == world) by {
            if i > 0 {
                assert(tape.take(i)[0] == tape[0]);
                assert(tape.take(i).skip(1) =~= others.take(i - 1));
                assert(tape[i] == others[i - 1]);
                assert(snapshot_keys(container, prefix, Some(next), keys, others.take(i - 1))
                    is Halt);
                assert(snapshot_keys(container, prefix, marker, so_far, tape.take(i))
                    == snapshot_keys(container, prefix, Some(next), keys, others.take(i - 1)));
            } else {
                assert(tape.take(0) =~= Seq::empty());
            }
        }
        assert forall|rest: TapeView| #[trigger]
            snapshot_keys(container, prefix, marker, so_far, tape + rest) == KnownView::Got(
                so_far + object_keys(left),
                rest,
            ) by {
            assert((tape + rest)[0] == tape[0]);
            assert((tape + rest).skip(1) =~= others + rest);
            assert(snapshot_keys(container, prefix, marker, so_far, tape + rest) == snapshot_keys(
                container,
                prefix,
                Some(next),
                keys,
                others + rest,
            ));
            assert(keys + object_keys(past(shelf, Some(next))) =~= so_far + object_keys(left));
        }
    } else {
        assert(list.len() == 1);
        assert forall|rest: TapeView| #[trigger]
            snapshot_keys(container, prefix, marker, so_far, tape + rest) == KnownView::Got(
                so_far + object_keys(left),
                rest,
            ) by {
            assert((tape + rest)[0] == tape[0]);
            assert((tape + rest).skip(1) =~= rest);
        }
    }
}

/// The world without the first `n` of some objects of a bucket.
pub open spec fn cleared(world: World, bucket: Text, keys: Seq<Text>, n: int) -> World
    decreases n,
{
    if n <= 0 {
        world
    } else {
        cleared(world, bucket, keys, n - 1).without_object(bucket, keys[n - 1])
    }
}

proof fn cleared_lacks_the_keys(
    world: World,
    bucket: Text,
    keys: Seq<Text>,
    n: int,
    place: (Text, Text),
)
    requires
        0 <= n <= keys.len(),
    ensures
        cleared(world, bucket, keys, n).object(place.0, place.1) == if place.0 == bucket && exists|
            i: int,
        | 0 <= i < n && #[trigger] keys[i] == place.1 {
            None
        } else {
            world.object(place.0, place.1)
        },
        cleared(world, bucket, keys, n) == (World {
            objects: cleared(world, bucket, keys, n).objects,
            ..world
        }),
    decreases n,
{
    if n > 0 {
        cleared_lacks_the_keys(world, bucket, keys, n - 1, place);
        assert(keys[n - 1] == keys[n - 1]);
    }
}

/// Snapshots are deleted one by one.
proof fn snapshots_are_deleted(container: Text, keys: Seq<Text>, i: int, n: int)
    requires
        0 <= i <= keys.len(),
        0 <= n <= keys.len() - i,
    ensures
        delete_snapshots(container, keys, i, dones((keys.len() - i) as nat).take(n)) == if n
            < keys.len() - i {
            KnownView::Halt(
                StepView::Perform(EffectView::DeleteObject(container, keys[i + n])),
            )
        } else {
            KnownView::Got((), Seq::<OutcomeView>::empty())
        },
    decreases n,
{
    let tape = dones((keys.len() - i) as nat).take(n);
    if n > 0 {
        assert(tape.skip(1) =~= dones((keys.len() - i - 1) as nat).take(n - 1));
        snapshots_are_deleted(container, keys, i + 1, n - 1);
    } else {
        assert(tape =~= Seq::empty());
    }
}

/// Whether a key is that of a snapshot of a blob.
pub open spec fn snapshot_of_blob(key: Text, stored: Text) -> bool {
    starts_with(stored, snapshot_prefix(key))
}

/// Whether a blob has a snapshot.
pub open spec fn has_snapshots(world: World, container: Text, key: Text) -> bool {
    exists|stored: Text| #[trigger]
        world.objects.contains_key((container, stored)) && snapshot_of_blob(key, stored)
}

/// What there is, and what is replied, once the snapshots of a blob are known.
spec fn deletion_ends(
    world: World,
    cx: ContextView,
    container: Text,
    key: Text,
    keys: Seq<Text>,
) -> (World, u16) {
    let mode = cx.req.header("x-ms-delete-snapshots"@);
    if mode is None && keys.len() > 0 {
        (world, 409)
    } else if mode is Some && mode != Some("include"@) && mode != Some("only"@) {
        (world, 400)
    } else if mode == Some("only"@) {
        (cleared(world, container, keys, keys.len() as int), 202)
    } else {
        (cleared(world.without_object(container, key), container, keys, keys.len() as int), 202)
    }
}

#[verifier::rlimit(40)]
proof fn deletion_runs(
    world: World,
    cx: ContextView,
    container: Text,
    key: Text,
    blob: ObjectView,
    effects: nat,
)
    requires
        world.sound(),
        world.buckets.contains_key(container),
        world.object(container, key) == Some(blob),
        unguarded(blob),
        conditions_hold(cx, blob),
        cx.req.param("versionid"@) is None,
        effects >= 3 + 2 * world.shelf(container, Some(snapshot_prefix(key))).len(),
    ensures
        ({
            let keys = object_keys(world.shelf(container, Some(snapshot_prefix(key))));
            let (left, step) = run(
                world,
                |tape: TapeView| delete_blob(cx, container, key, None, tape),
                Seq::empty(),
                effects,
            );
            let (end, status) = deletion_ends(world, cx, container, key, keys);
            left == end && (step matches StepView::Reply(reply) && reply.status == status)
        }),
{
    let handler = |tape: TapeView| delete_blob(cx, container, key, None, tape);
    let prefix = snapshot_prefix(key);
    let shelf = world.shelf(container, Some(prefix));
    let n = shelf.len();
    let keys = object_keys(shelf);
    let mode = cx.req.header("x-ms-delete-snapshots"@);
    let listed = shown(pages(shelf, None, 1000, n));
    snapshots_are_found(world, container, prefix, None, Seq::empty(), n);
    assert(Seq::<Text>::empty() + keys =~= keys);
    let first = seq![OutcomeView::Object(Ok(blob))];
    let refused = (mode is None && keys.len() > 0) || (mode is Some && mode != Some("include"@)
        && mode != Some("only"@));
    let only = mode == Some("only"@);
    let condition = write_condition(cx.stamp, cx.req)->Ok_0;
    let gone = world.without_object(container, key);
    let taken: TapeView = if refused || only {
        Seq::empty()
    } else if condition is Some {
        seq![OutcomeView::Flag(Ok(true))]
    } else {
        seq![OutcomeView::Done(Ok(()))]
    };
    let base = if only {
        world
    } else {
        gone
    };
    let others = if refused {
        dones(0)
    } else {
        dones(n)
    };
    let tail = taken + others;
    let rest = listed + tail;
    let tape = first + rest;
    let front = 1 + listed.len();
    let m = front + taken.len();
    let worlds = Seq::new(
        tape.len() + 1,
        |i: int|
            if i < m || refused {
                world
            } else {
                cleared(base, container, keys, i - m)
            },
    );
    assert(worlds[0] == world);
    assert forall|k: int| 0 <= k <= tail.len() implies #[trigger] handler(
        first + (listed + tail.take(k)),
    ) == delete_current(cx, container, key, blob, keys, tail.take(k)) by {
        let all = first + (listed + tail.take(k));
        assert(all[0] == first[0]);
        assert(all.skip(1) =~= listed + tail.take(k));
        assert(snapshot_keys(container, prefix, None, Seq::empty(), listed + tail.take(k))
            == KnownView::Got(keys, tail.take(k)));
    }
    assert forall|i: int| 0 <= i < tape.len() implies #[trigger] leads(
        handler,
        worlds,
        tape,
        i,
    ) by {
        let t = tape.take(i);
        if i == 0 {
            assert(t =~= Seq::empty());
        } else if i < front {
            assert(t[0] == first[0]);
            assert(t.skip(1) =~= listed.take(i - 1));
            assert(tape[i] == listed[i - 1]);
            assert(snapshot_keys(container, prefix, None, Seq::empty(), listed.take(i - 1))
                is Halt);
        } else {
            let k = i - front;
            assert(t =~= first + (listed + tail.take(k)));
            assert(tape[i] == tail[k]);
            assert(handler(t) == delete_current(cx, container, key, blob, keys, tail.take(k)));
            if k < taken.len() {
                assert(tail.take(k) =~= Seq::empty());
            } else {
                let j = k - taken.len();
                if taken.len() > 0 {
                    assert(tail.take(k)[0] == taken[0]);
                    assert(tail.take(k).skip(1) =~= others.take(j));
                } else {
                    assert(tail.take(k) =~= others.take(j));
                }
                snapshots_are_deleted(container, keys, 0, j);
                assert(worlds[i] == cleared(base, container, keys, j));
                assert(worlds[i + 1] == cleared(base, container, keys, j + 1));
            }
        }
    }
    assert(tail.take(tail.len() as int) =~= tail);
    assert(handler(first + (listed + tail.take(tail.len() as int))) == delete_current(
        cx,
        container,
        key,
        blob,
        keys,
        tail,
    ));
    if !refused {
        if taken.len() > 0 {
            assert(tail[0] == taken[0]);
            assert(tail.skip(1) =~= others);
        } else {
            assert(tail =~= others);
        }
        snapshots_are_deleted(container, keys, 0, n as int);
        assert(others.take(n as int) =~= others);
    }
    run_replies(handler, worlds, tape, effects);
}

/// Delete Blob takes what it names, and nothing else: the blob with all its snapshots, or with
/// `only` its snapshots while the blob stays as it was. A blob with snapshots is not deleted
/// unless the request says what becomes of them, in one of these two ways.
pub proof fn deletions_take_what_they_name(
    world: World,
    cx: ContextView,
    account: Text,
    container: Text,
    key: Text,
    blob: ObjectView,
    place: (Text, Text),
    effects: nat,
)
    requires
        reaches(world, cx, account, container, key),
        cx.req.method == Method::Delete,
        cx.req.param("comp"@) is None,
        cx.req.param("snapshot"@) is None,
        cx.req.param("versionid"@) is None,
        world.object(container, key) == Some(blob),
        unguarded(blob),
        conditions_hold(cx, blob),
        effects >= 7 + 2 * world.shelf(container, Some(snapshot_prefix(key))).len(),
    ensures
        ({
            let mode = cx.req.header("x-ms-delete-snapshots"@);
            let (left, step) = served(world, cx, effects);
            let snapshot = place.0 == container && snapshot_of_blob(key, place.1);
            let named = place == (container, key);
            step matches StepView::Reply(reply) && {
                &&& left.buckets == world.buckets
                &&& left.versions == world.versions
                &&& mode == Some("only"@) ==> reply.status == 202 && left.object(place.0, place.1)
                    == if snapshot {
                    None
                } else {
                    world.object(place.0, place.1)
                }
                &&& mode == Some("include"@) || mode is None && !has_snapshots(
                    world,
                    container,
                    key,
                ) ==> reply.status == 202 && left.object(place.0, place.1) == if named || snapshot {
                    None
                } else {
                    world.object(place.0, place.1)
                }
                &&& mode is None && has_snapshots(world, container, key) ==> reply.status == 409
                    && left == world
                &&& mode is Some && mode != Some("only"@) && mode != Some("include"@)
                    ==> reply.status == 400 && left == world
            }
        }),
{
    requests_are_served(world, cx, account, container, key, effects);
    let handler = |tape: TapeView| handle_blob_crud(cx, container, key, tape);
    let inner = |tape: TapeView| delete_blob(cx, container, key, None, tape);
    runs_agree(world, handler, inner, (effects - 4) as nat);
    deletion_runs(world, cx, container, key, blob, (effects - 4) as nat);
    deletions_clear(world, cx, container, key, place);
}

/// What is cleared is what a deletion names.
proof fn deletions_clear(
    world: World,
    cx: ContextView,
    container: Text,
    key: Text,
    place: (Text, Text),
)
    requires
        world.sound(),
    ensures
        ({
            let mode = cx.req.header("x-ms-delete-snapshots"@);
            let keys = object_keys(world.shelf(container, Some(snapshot_prefix(key))));
            let (left, status) = deletion_ends(world, cx, container, key, keys);
            let snapshot = place.0 == container && snapshot_of_blob(key, place.1);
            let named = place == (container, key);
            &&& left.buckets == world.buckets
            &&& left.versions == world.versions
            &&& mode == Some("only"@) ==> status == 202 && left.object(place.0, place.1)
                == if snapshot {
                None
            } else {
                world.object(place.0, place.1)
            }
            &&& mode == Some("include"@) || mode is None && !has_snapshots(world, container, key)
                ==> status == 202 && left.object(place.0, place.1) == if named || snapshot {
                None
            } else {
                world.object(place.0, place.1)
            }
            &&& mode is None && has_snapshots(world, container, key) ==> status == 409 && left
                == world
            &&& mode is Some && mode != Some("only"@) && mode != Some("include"@) ==> status == 400
                && left == world
        }),
{
    reveal_strlit("only");
    reveal_strlit("include");
    assert("only"@.len() == 4 && "include"@.len() == 7);
    let prefix = snapshot_prefix(key);
    let shelf = world.shelf(container, Some(prefix));
    let keys = object_keys(shelf);
    shelves_hold_the_objects(world, container, Some(prefix));
    let gone = world.without_object(container, key);
    cleared_lacks_the_keys(world, container, keys, keys.len() as int, place);
    cleared_lacks_the_keys(gone, container, keys, keys.len() as int, place);
    if place.0 == container && snapshot_of_blob(key, place.1) && world.objects.contains_key(place) {
        let object = world.objects[place];
        assert(shelf.contains(object));
        let i = choose|i: int| 0 <= i < shelf.len() && shelf[i] == object;
        assert(keys[i] == place.1);
    }
    assert forall|i: int| 0 <= i < keys.len() implies snapshot_of_blob(key, #[trigger] keys[i])
        && world.objects.contains_key((container, keys[i])) by {
        assert(shelf.contains(shelf[i]));
    }
    if has_snapshots(world, container, key) {
        let stored = choose|stored: Text| #[trigger]
            world.objects.contains_key((container, stored)) && snapshot_of_blob(key, stored);
        assert(shelf.contains(world.objects[(container, stored)]));
    } else if keys.len() > 0 {
        assert(snapshot_of_blob(key, keys[0]));
    }
}

} // verus!
