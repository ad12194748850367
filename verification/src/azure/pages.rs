//! What the documents of listings show.

use vstd::prelude::*;
use vstd::string::*;
use vstd::utf8::encode_utf8;
use crate::azure::adapter::handle_request;
use crate::azure::auth::authorize;
use crate::azure::basics::{max_results, parse_resource, ResourceView, AZURE_SNAPSHOT_PREFIX};
use crate::azure::containers::{
    delimiter_of, entries_of, entries_upto, entry_item, entry_items_upto, gather_objects,
    get_container, list_blobs_xml, rolled_up, AzureListEntry, EntryView,
};
use crate::azure::deletions::shown;
use crate::azure::listings::{blob_pages_follow_each_other, entries_are_distinct};
use crate::azure::runs::served;
use crate::clock::http_date;
use crate::http::{ContextView, Method, RequestView, ResponseView};
use crate::number::{decimal, reading_undoes_writing};
use crate::order::{
    distinct, first_of, keeping_keeps_order, kept, name_at, nothing_precedes_itself, precedes,
    sorted, sorted_is_sorted, sorting_keeps_distinct, FilterView, Named,
};
use crate::store::{EffectView, KnownView, Object, ObjectView, OutcomeView, StepView, TapeView};
use crate::table::get;
use crate::text::{find_from, or_text, starts_with, xml};
use crate::views::Text;
use crate::world::{
    kept_contains, kept_of_both, leads, led, led_is_read, pages, pages_go_on, past, run,
    run_replies, run_steps, shelves_hold_the_objects, World,
};

verus! {

/// Whether a request may go to a container that is there and is not being deleted.
pub open spec fn reaches_container(
    world: World,
    cx: ContextView,
    resource: ResourceView,
    container: Text,
) -> bool {
    &&& world.sound()
    &&& parse_resource(cx.req.path) == Ok::<_, Text>(resource)
    &&& resource.container == Some(container)
    &&& authorize(cx.stamp, cx.req, cx.auth, resource) is Ok
    &&& cx.req.param("restype"@) == Some("container"@)
    &&& !world.deletions.contains_key(container)
    &&& world.buckets.contains_key(container)
}

/// A request to read a container comes to it behind two questions.
pub proof fn reads_reach_their_container(
    world: World,
    cx: ContextView,
    resource: ResourceView,
    container: Text,
    effects: nat,
)
    requires
        reaches_container(world, cx, resource, container),
        cx.req.method == Method::Get,
        cx.req.param("comp"@) is None || cx.req.param("comp"@) == Some("list"@),
        effects >= 2,
    ensures
        served(world, cx, effects) == run(
            world,
            |tape: TapeView| get_container(cx, container, tape),
            Seq::empty(),
            (effects - 2) as nat,
        ),
{
    broadcast use led_is_read;

    let handler = |tape: TapeView| handle_request(cx, tape);
    let ask = EffectView::LoadDeletion(container);
    let none = OutcomeView::Deletion(Ok(None));
    assert(world.answer(ask) == none);
    let second = |tape: TapeView| handle_request(cx, led(none, tape));
    let rest = |tape: TapeView| get_container(cx, container, tape);
    run_steps(world, handler, ask, second, effects);
    run_steps(world, second, ask, rest, (effects - 1) as nat);
}

// ---------------------------------------------------------------------------
// What is listed

/// Whether a text occurs in another at a place or behind it.
pub open spec fn occurs_behind(text: Text, mark: Text, from: int) -> bool {
    exists|k: int| from <= k && occurs_at(text, mark, k)
}

pub open spec fn occurs_at(text: Text, mark: Text, k: int) -> bool {
    0 <= k && k + mark.len() <= text.len() && text.subrange(k, k + mark.len()) == mark
}

/// Whether a blob is in a listing: it is in the container, no snapshot, and under the prefix.
pub open spec fn in_listing(
    world: World,
    container: Text,
    req: RequestView,
    object: ObjectView,
) -> bool {
    &&& world.object(container, object.key) == Some(object)
    &&& starts_with(object.key, or_text(req.param("prefix"@), ""@))
    &&& !starts_with(object.key, "__sqrzl_azure_snapshot__"@)
}

/// Whether a listing has an entry. A blob stands for itself, unless the delimiter occurs behind
/// the prefix: then what its key has up to and with the first delimiter stands for it and all
/// others that start so. Entries before the marker are left out.
pub open spec fn is_entry(
    world: World,
    container: Text,
    req: RequestView,
    entry: EntryView,
) -> bool {
    let from = or_text(req.param("prefix"@), ""@).len() as int;
    let mark = or_text(req.param("delimiter"@), ""@);
    &&& req.param("marker"@) matches Some(marker) ==> !precedes(entry_name(entry), marker)
    &&& match entry {
        EntryView::Blob(object) => in_listing(world, container, req, object) && (mark.len() == 0
            || !occurs_behind(object.key, mark, from)),
        EntryView::Prefix(common) => mark.len() > 0 && exists|object: ObjectView, k: int|
            #![trigger in_listing(world, container, req, object), occurs_at(object.key, mark, k)]
            in_listing(world, container, req, object) && from <= k && occurs_at(
                object.key,
                mark,
                k,
            ) && !occurs_between(object.key, mark, from, k) && common == object.key.subrange(
                0,
                k + mark.len(),
            ),
    }
}

pub open spec fn occurs_between(text: Text, mark: Text, from: int, to: int) -> bool {
    exists|k: int| from <= k < to && occurs_at(text, mark, k)
}

pub open spec fn entry_name(entry: EntryView) -> Text {
    match entry {
        EntryView::Blob(object) => object.key,
        EntryView::Prefix(common) => common,
    }
}

/// Whether these are the entries of a listing, in order and each once.
pub open spec fn is_listing(
    world: World,
    container: Text,
    req: RequestView,
    entries: Seq<EntryView>,
) -> bool {
    &&& forall|i: int, j: int|
        0 <= i < j < entries.len() ==> precedes(
            entry_name(#[trigger] entries[i]),
            entry_name(#[trigger] entries[j]),
        )
    &&& forall|entry: EntryView| #[trigger]
        entries.contains(entry) <==> is_entry(world, container, req, entry)
}

/// How an entry is written.
pub open spec fn written(entry: EntryView) -> Text {
    match entry {
        EntryView::Prefix(common) => "<BlobPrefix><Name>"@ + xml(common)
            + "</Name></BlobPrefix>"@,
        EntryView::Blob(blob) => "<Blob><Name>"@ + xml(blob.key)
            + "</Name><Properties><Content-Length>"@ + decimal(blob.size as int)
            + "</Content-Length><Content-Type>"@ + xml(blob.content_type)
            + "</Content-Type><Etag>\""@ + xml(blob.etag) + "\"</Etag><BlobType>"@ + xml(
            or_text(get(blob.provider_metadata, "azure_blob_type"@), "BlockBlob"@),
        ) + "</BlobType><Last-Modified>"@ + http_date(
            blob.last_modified.secs,
            blob.last_modified.nanos,
        ) + "</Last-Modified></Properties></Blob>"@,
    }
}

/// Texts one behind the other.
pub open spec fn in_a_row(texts: Seq<Text>) -> Text
    decreases texts.len(),
{
    if texts.len() == 0 {
        Seq::empty()
    } else {
        in_a_row(texts.drop_last()) + texts.last()
    }
}

/// Whether a reply is a page with the first `limit` of some entries: it shows those, and its
/// marker is the name of the first that is left out, if any is.
pub open spec fn shows_page(reply: ResponseView, entries: Seq<EntryView>, limit: int) -> bool {
    let shown = if entries.len() > limit {
        entries.take(limit)
    } else {
        entries
    };
    let marker = if entries.len() > limit {
        xml(entry_name(entries[limit]))
    } else {
        ""@
    };
    &&& reply.status == 200
    &&& exists|head: Text|
        reply.body == encode_utf8(
            #[trigger] (head + "<Blobs>"@) + in_a_row(
                Seq::new(shown.len(), |i: int| written(shown[i])),
            ) + "</Blobs><NextMarker>"@ + marker + "</NextMarker></EnumerationResults>"@,
        )
}

/// Whether a request asks for pages of so many entries; without a number they have five
/// thousand, and never more.
pub open spec fn asks_for(req: RequestView, limit: int) -> bool {
    match req.param("maxresults"@) {
        None => limit == 5000,
        Some(raw) => exists|n: int|
            1 <= n <= usize::MAX && raw == #[trigger] decimal(n) && limit == if n < 5000 {
                n
            } else {
                5000
            },
    }
}

// ---------------------------------------------------------------------------
// How it is gathered

/// All blobs under the prefix that are no snapshots are gathered.
proof fn blobs_are_gathered(
    world: World,
    cx: ContextView,
    container: Text,
    prefix: Option<Text>,
    marker: Option<Text>,
    so_far: Seq<ObjectView>,
    fuel: nat,
)
    requires
        world.sound(),
        world.buckets.contains_key(container),
        past(world.shelf(container, prefix), marker).len() <= fuel,
    ensures
        ({
            let shelf = world.shelf(container, prefix);
            let tape = shown(pages(shelf, marker, 1000, fuel));
            &&& 1 <= tape.len() <= fuel + 1
            &&& forall|i: int|
                0 <= i < tape.len() ==> (#[trigger] gather_objects(
                    cx.stamp,
                    container,
                    prefix,
                    marker,
                    so_far,
                    tape.take(i),
                ) matches KnownView::Halt(StepView::Perform(effect)) && world.answer(effect)
                    == tape[i] && world.after(effect) == world)
            &&& gather_objects(cx.stamp, container, prefix, marker, so_far, tape) == KnownView::Got(
                so_far + kept::<Object>(
                    past(shelf, marker),
                    FilterView::Outside(AZURE_SNAPSHOT_PREFIX@),
                ),
                Seq::<OutcomeView>::empty(),
            )
        }),
    decreases fuel,
{
    let filter = FilterView::Outside(AZURE_SNAPSHOT_PREFIX@);
    let shelf = world.shelf(container, prefix);
    shelves_hold_the_objects(world, container, prefix);
    let left = past(shelf, marker);
    let list = pages(shelf, marker, 1000, fuel);
    let tape = shown(list);
    if left.len() > 1000 {
        let next = left[999].key;
        assert(Some(next) != marker) by {
            if let Some(marker) = marker {
                kept_contains::<Object>(shelf, FilterView::After(marker), left[999]);
                nothing_precedes_itself(marker, 0);
            }
        }
        let objects = so_far + kept::<Object>(list[0].objects, filter);
        pages_go_on(shelf, marker, 1000);
        blobs_are_gathered(world, cx, container, prefix, Some(next), objects, (fuel - 1) as nat);
        let others = shown(pages(shelf, Some(next), 1000, (fuel - 1) as nat));
        assert(list[0].next_marker == Some(next));
        assert(tape[0] == OutcomeView::Page(Ok(list[0])));
        assert(list.skip(1) =~= pages(shelf, Some(next), 1000, (fuel - 1) as nat));
        assert forall|i: int| 1 <= i < tape.len() implies tape[i] == #[trigger] others[i - 1] by {
            assert(list[i] == list.skip(1)[i - 1]);
        }
        assert(tape.skip(1) =~= others);
        assert forall|i: int| 0 <= i < tape.len() implies (#[trigger] gather_objects(
            cx.stamp,
            container,
            prefix,
            marker,
            so_far,
            tape.take(i),
        ) matches KnownView::Halt(StepView::Perform(effect)) && world.answer(effect) == tape[i]
            && world.after(effect) == world) by {
            if i > 0 {
                assert(tape.take(i)[0] == tape[0]);
                assert(tape.take(i).skip(1) =~= others.take(i - 1));
                assert(tape[i] == others[i - 1]);
                assert(gather_objects(
                    cx.stamp,
                    container,
                    prefix,
                    Some(next),
                    objects,
                    others.take(i - 1),
                ) is Halt);
                assert(gather_objects(cx.stamp, container, prefix, marker, so_far, tape.take(i))
                    == gather_objects(
                    cx.stamp,
                    container,
                    prefix,
                    Some(next),
                    objects,
                    others.take(i - 1),
                ));
            } else {
                assert(tape.take(0) =~= Seq::empty());
            }
        }
        let first = first_of(left, 1000);
        let rest = past(shelf, Some(next));
        kept_of_both::<Object>(first, rest, filter, (first.len() + rest.len()) as int);
        assert(so_far + kept::<Object>(left, filter) =~= objects + kept::<Object>(rest, filter));
    } else {
        assert(list.len() == 1);
        assert(tape.take(0) =~= Seq::empty());
        assert(tape.skip(1) =~= Seq::empty());
    }
}

// ---------------------------------------------------------------------------
// What it comes to

/// The first place of a text in another is found.
pub proof fn first_place_is_found(s: Text, p: Text, from: int)
    requires
        0 <= from,
    ensures
        match find_from(s, p, from) {
            Some(k) => from <= k && occurs_at(s, p, k) && !occurs_between(s, p, from, k),
            None => !occurs_behind(s, p, from),
        },
    decreases s.len() + 1 - from,
{
    if from + p.len() > s.len() {
    } else if s.subrange(from, from + p.len()) == p {
        assert(occurs_at(s, p, from));
    } else {
        first_place_is_found(s, p, from + 1);
        assert(!occurs_at(s, p, from));
    }
}

/// A place behind the prefix is the same place in what is left without the prefix.
proof fn places_move_with_the_prefix(key: Text, prefix: Text, mark: Text, k: int)
    requires
        starts_with(key, prefix),
        0 <= k,
    ensures
        occurs_at(key.subrange(prefix.len() as int, key.len() as int), mark, k) <==> occurs_at(
            key,
            mark,
            prefix.len() + k,
        ),
{
    let rest = key.subrange(prefix.len() as int, key.len() as int);
    if prefix.len() + k + mark.len() <= key.len() {
        assert(rest.subrange(k, k + mark.len()) =~= key.subrange(
            prefix.len() + k,
            prefix.len() + k + mark.len(),
        ));
    }
}

proof fn roll_ups_end_at_the_first_mark(key: Text, prefix: Text, mark: Text)
    requires
        starts_with(key, prefix),
        mark.len() > 0,
    ensures
        match rolled_up(key, prefix, Some(mark)) {
            Some(common) => exists|k: int|
                prefix.len() <= k && #[trigger] occurs_at(key, mark, k) && !occurs_between(
                    key,
                    mark,
                    prefix.len() as int,
                    k,
                ) && common == key.subrange(0, k + mark.len()),
            None => !occurs_behind(key, mark, prefix.len() as int),
        },
{
    let from = prefix.len() as int;
    let rest = key.subrange(from, key.len() as int);
    first_place_is_found(rest, mark, 0);
    match find_from(rest, mark, 0) {
        Some(i) => {
            let k = from + i;
            places_move_with_the_prefix(key, prefix, mark, i);
            assert(occurs_at(key, mark, k));
            assert(!occurs_between(key, mark, from, k)) by {
                if occurs_between(key, mark, from, k) {
                    let j = choose|j: int| from <= j < k && occurs_at(key, mark, j);
                    places_move_with_the_prefix(key, prefix, mark, j - from);
                    assert(occurs_at(rest, mark, j - from));
                }
            }
            if k + mark.len() == key.len() {
                assert(key.subrange(0, k + mark.len()) =~= key);
            }
        },
        None => {
            if occurs_behind(key, mark, from) {
                let j = choose|j: int| from <= j && occurs_at(key, mark, j);
                places_move_with_the_prefix(key, prefix, mark, j - from);
                assert(occurs_at(rest, mark, j - from));
            }
        },
    }
}

/// Each object has its entry.
proof fn entries_stand_for_all(
    objects: Seq<ObjectView>,
    prefix: Text,
    delimiter: Option<Text>,
    n: int,
    k: int,
)
    requires
        0 <= k < n <= objects.len(),
    ensures
        match rolled_up(objects[k].key, prefix, delimiter) {
            Some(common) => entries_upto(objects, prefix, delimiter, n).contains(
                EntryView::Prefix(common),
            ),
            None => entries_upto(objects, prefix, delimiter, n).contains(
                EntryView::Blob(objects[k]),
            ),
        },
    decreases n,
{
    let before = entries_upto(objects, prefix, delimiter, n - 1);
    let out = entries_upto(objects, prefix, delimiter, n);
    let entry = match rolled_up(objects[k].key, prefix, delimiter) {
        Some(common) => EntryView::Prefix(common),
        None => EntryView::Blob(objects[k]),
    };
    if k < n - 1 {
        entries_stand_for_all(objects, prefix, delimiter, n - 1, k);
        let q = choose|q: int| 0 <= q < before.len() && before[q] == entry;
        assert(out[q] == entry);
    } else if !before.contains(entry) {
        assert(out[out.len() - 1] == entry);
    }
}

/// Sorting keeps the items of a list.
pub proof fn sorted_contains<T: Named>(items: Seq<T::V>, item: T::V)
    ensures
        sorted::<T>(items).contains(item) <==> items.contains(item),
{
    sorted_is_sorted::<T>(items);
    items.to_multiset_ensures();
    sorted::<T>(items).to_multiset_ensures();
    assert(items.to_multiset().count(item) > 0 <==> items.contains(item));
    assert(sorted::<T>(items).to_multiset().count(item) > 0 <==> sorted::<T>(items).contains(item));
}

/// The objects that are gathered for a listing.
spec fn gathered(world: World, container: Text, req: RequestView) -> Seq<ObjectView> {
    kept::<Object>(
        world.shelf(container, req.param("prefix"@)),
        FilterView::Outside(AZURE_SNAPSHOT_PREFIX@),
    )
}

proof fn gathered_is_the_listing(world: World, container: Text, req: RequestView)
    requires
        world.sound(),
    ensures
        distinct::<Object>(gathered(world, container, req)),
        forall|object: ObjectView| #[trigger]
            gathered(world, container, req).contains(object) <==> in_listing(
                world,
                container,
                req,
                object,
            ),
        forall|i: int|
            0 <= i < gathered(world, container, req).len() ==> starts_with(
                (#[trigger] gathered(world, container, req)[i]).key,
                or_text(req.param("prefix"@), ""@),
            ),
{
    reveal_strlit("");
    let filter = FilterView::Outside(AZURE_SNAPSHOT_PREFIX@);
    let shelf = world.shelf(container, req.param("prefix"@));
    let all = gathered(world, container, req);
    shelves_hold_the_objects(world, container, req.param("prefix"@));
    keeping_keeps_order::<Object>(shelf, filter);
    assert forall|object: ObjectView| #[trigger] all.contains(object) <==> in_listing(
        world,
        container,
        req,
        object,
    ) by {
        kept_contains::<Object>(shelf, filter, object);
        assert(shelf.contains(object) <==> world.object(container, object.key) == Some(object) && (
        req.param("prefix"@) matches Some(prefix) ==> starts_with(object.key, prefix)));
        assert(object.key.subrange(0, 0) =~= ""@);
    }
    assert forall|i: int| 0 <= i < all.len() implies starts_with(
        (#[trigger] all[i]).key,
        or_text(req.param("prefix"@), ""@),
    ) by {
        assert(all.contains(all[i]));
    }
}

proof fn entries_are_those_of_the_listing(
    world: World,
    container: Text,
    req: RequestView,
    entry: EntryView,
)
    requires
        world.sound(),
    ensures
        entries_of(req, gathered(world, container, req)).contains(entry) <==> is_entry(
            world,
            container,
            req,
            entry,
        ),
{
    let objects = gathered(world, container, req);
    let prefix = or_text(req.param("prefix"@), ""@);
    let delimiter = delimiter_of(req);
    let mark = or_text(req.param("delimiter"@), ""@);
    reveal_strlit("");
    assert(delimiter == if mark.len() > 0 {
        Some(mark)
    } else {
        None
    });
    gathered_is_the_listing(world, container, req);
    let n = objects.len() as int;
    let entries = entries_upto(objects, prefix, delimiter, n);
    entries_are_distinct(objects, prefix, delimiter, n);
    sorted_contains::<AzureListEntry>(entries, entry);
    if let Some(marker) = req.param("marker"@) {
        kept_contains::<AzureListEntry>(
            sorted::<AzureListEntry>(entries),
            FilterView::From(marker),
            entry,
        );
    }
    if entries.contains(entry) {
        let q = choose|q: int| 0 <= q < entries.len() && entries[q] == entry;
        assert(crate::azure::listings::stands_for(entries[q], objects, prefix, delimiter, n));
        let k = choose|k: int|
            0 <= k < n && match rolled_up((#[trigger] objects[k]).key, prefix, delimiter) {
                Some(common) => entry == EntryView::Prefix(common),
                None => entry == EntryView::Blob(objects[k]),
            };
        let object = objects[k];
        assert(objects.contains(object));
        if mark.len() > 0 {
            roll_ups_end_at_the_first_mark(object.key, prefix, mark);
        }
        assert(in_listing(world, container, req, object));
    }
    match entry {
        EntryView::Blob(object) => {
            if in_listing(world, container, req, object) && (mark.len() == 0 || !occurs_behind(
                object.key,
                mark,
                prefix.len() as int,
            )) {
                assert(objects.contains(object));
                let k = choose|k: int| 0 <= k < objects.len() && objects[k] == object;
                entries_stand_for_all(objects, prefix, delimiter, n, k);
                if mark.len() > 0 {
                    roll_ups_end_at_the_first_mark(object.key, prefix, mark);
                }
            }
        },
        EntryView::Prefix(common) => {
            let from = prefix.len() as int;
            if mark.len() > 0 && exists|object: ObjectView, k: int|
                #![trigger in_listing(world, container, req, object), occurs_at(
                    object.key,
                    mark,
                    k,
                )]
                in_listing(world, container, req, object) && from <= k && occurs_at(
                    object.key,
                    mark,
                    k,
                ) && !occurs_between(object.key, mark, from, k) && common == object.key.subrange(
                    0,
                    k + mark.len(),
                ) {
                let (object, k) = choose|object: ObjectView, k: int|
                    #![trigger in_listing(world, container, req, object), occurs_at(
                        object.key,
                        mark,
                        k,
                    )]
                    in_listing(world, container, req, object) && from <= k && occurs_at(
                        object.key,
                        mark,
                        k,
                    ) && !occurs_between(object.key, mark, from, k) && common
                        == object.key.subrange(0, k + mark.len());
                assert(objects.contains(object));
                let q = choose|q: int| 0 <= q < objects.len() && objects[q] == object;
                entries_stand_for_all(objects, prefix, delimiter, n, q);
                roll_ups_end_at_the_first_mark(object.key, prefix, mark);
                assert(occurs_behind(object.key, mark, from));
                let found = rolled_up(object.key, prefix, delimiter)->0;
                let j = choose|j: int|
                    prefix.len() <= j && #[trigger] occurs_at(object.key, mark, j)
                        && !occurs_between(object.key, mark, from, j) && found
                        == object.key.subrange(0, j + mark.len());
                if j < k {
                    assert(occurs_between(object.key, mark, from, k));
                } else if k < j {
                    assert(occurs_between(object.key, mark, from, j));
                }
            }
        },
    }
}

proof fn entries_make_the_listing(world: World, container: Text, req: RequestView)
    requires
        world.sound(),
    ensures
        is_listing(world, container, req, entries_of(req, gathered(world, container, req))),
{
    let objects = gathered(world, container, req);
    let all = entries_of(req, objects);
    let prefix = or_text(req.param("prefix"@), ""@);
    let entries = entries_upto(objects, prefix, delimiter_of(req), objects.len() as int);
    gathered_is_the_listing(world, container, req);
    entries_are_distinct(objects, prefix, delimiter_of(req), objects.len() as int);
    sorted_is_sorted::<AzureListEntry>(entries);
    sorting_keeps_distinct::<AzureListEntry>(entries);
    if let Some(marker) = req.param("marker"@) {
        keeping_keeps_order::<AzureListEntry>(
            sorted::<AzureListEntry>(entries),
            FilterView::From(marker),
        );
    }
    assert forall|i: int, j: int| 0 <= i < j < all.len() implies precedes(
        entry_name(#[trigger] all[i]),
        entry_name(#[trigger] all[j]),
    ) by {
        assert(AzureListEntry::key(all[i]) != AzureListEntry::key(all[j]));
        assert(!precedes(AzureListEntry::key(all[j]), AzureListEntry::key(all[i])));
        crate::order::texts_are_in_order(entry_name(all[i]), entry_name(all[j]));
    }
    assert forall|entry: EntryView| #[trigger] all.contains(entry) <==> is_entry(
        world,
        container,
        req,
        entry,
    ) by {
        entries_are_those_of_the_listing(world, container, req, entry);
    }
}

proof fn items_are_in_a_row(entries: Seq<EntryView>, n: int)
    requires
        0 <= n <= entries.len(),
    ensures
        entry_items_upto(entries, n) == in_a_row(Seq::new(n as nat, |i: int| written(entries[i]))),
    decreases n,
{
    let texts = Seq::new(n as nat, |i: int| written(entries[i]));
    if n > 0 {
        items_are_in_a_row(entries, n - 1);
        assert(texts.drop_last() =~= Seq::new((n - 1) as nat, |i: int| written(entries[i])));
        assert(entry_item(entries[n - 1]) == written(entries[n - 1]));
    } else {
        reveal_strlit("");
        assert(""@ =~= Seq::empty());
        assert(texts.len() == 0);
    }
}

/// The size of a page is read from a request.
pub proof fn page_sizes_are_read(cx: ContextView, limit: int)
    requires
        asks_for(cx.req, limit),
    ensures
        max_results(cx.stamp, cx.req) == Ok::<usize, ResponseView>(limit as usize),
        1 <= limit <= 5000,
{
    if let Some(raw) = cx.req.param("maxresults"@) {
        let n = choose|n: int|
            1 <= n <= usize::MAX && raw == #[trigger] decimal(n) && limit == if n < 5000 {
                n
            } else {
                5000
            };
        reading_undoes_writing(n, usize::MAX as int);
    }
}

/// The reply of a listing over what there is.
proof fn listing_runs(
    world: World,
    cx: ContextView,
    resource: ResourceView,
    container: Text,
    limit: int,
    effects: nat,
)
    requires
        reaches_container(world, cx, resource, container),
        cx.req.method == Method::Get,
        cx.req.param("comp"@) == Some("list"@),
        asks_for(cx.req, limit),
        effects >= 3 + world.shelf(container, cx.req.param("prefix"@)).len(),
    ensures
        served(world, cx, effects).0 == world,
        served(world, cx, effects).1 matches StepView::Reply(reply) && shows_page(
            reply,
            entries_of(cx.req, gathered(world, container, cx.req)),
            limit,
        ),
{
    page_sizes_are_read(cx, limit);
    reads_reach_their_container(world, cx, resource, container, effects);
    let prefix = cx.req.param("prefix"@);
    let shelf = world.shelf(container, prefix);
    let n = shelf.len();
    let handler = |tape: TapeView| get_container(cx, container, tape);
    let tape = shown(pages(shelf, None, 1000, n));
    blobs_are_gathered(world, cx, container, prefix, None, Seq::empty(), n);
    let objects = gathered(world, container, cx.req);
    assert(Seq::<ObjectView>::empty() + objects =~= objects);
    let worlds = Seq::new(tape.len() + 1, |i: int| world);
    assert forall|i: int| 0 <= i < tape.len() implies #[trigger] leads(handler, worlds, tape, i) by {
        assert(gather_objects(cx.stamp, container, prefix, None, Seq::empty(), tape.take(i))
            is Halt);
    }
    run_replies(handler, worlds, tape, (effects - 2) as nat);
    let all = entries_of(cx.req, objects);
    let shown = if all.len() > limit {
        all.take(limit)
    } else {
        all
    };
    assert(first_of(all, limit) =~= shown);
    items_are_in_a_row(shown, shown.len() as int);
    reveal_strlit("");
    let marker = if all.len() > limit {
        xml(entry_name(all[limit]))
    } else {
        ""@
    };
    let next = name_at::<AzureListEntry>(all, limit);
    assert(xml(""@) =~= ""@);
    assert(xml(or_text(next, ""@)) == marker);
    let head = "<?xml version=\"1.0\" encoding=\"utf-8\"?><EnumerationResults ContainerName=\""@ + xml(
        container,
    ) + "\">"@ + crate::azure::containers::echo_param(
        cx.req,
        "<Prefix>"@,
        "prefix"@,
        "</Prefix>"@,
    ) + crate::azure::containers::echo_param(cx.req, "<Marker>"@, "marker"@, "</Marker>"@)
        + crate::azure::containers::echo_param(
        cx.req,
        "<MaxResults>"@,
        "maxresults"@,
        "</MaxResults>"@,
    ) + crate::azure::containers::echo_param(
        cx.req,
        "<Delimiter>"@,
        "delimiter"@,
        "</Delimiter>"@,
    );
    assert(list_blobs_xml(cx.req, container, shown, next) == (head + "<Blobs>"@) + in_a_row(
        Seq::new(shown.len(), |i: int| written(shown[i])),
    ) + "</Blobs><NextMarker>"@ + marker + "</NextMarker></EnumerationResults>"@);
}

/// List Blobs replies with the first entries of the listing, as many as are asked for, and its
/// marker is the name of the first entry that is left out, or empty where none is.
pub proof fn listings_show_their_page(
    world: World,
    cx: ContextView,
    resource: ResourceView,
    container: Text,
    limit: int,
    effects: nat,
)
    requires
        reaches_container(world, cx, resource, container),
        cx.req.method == Method::Get,
        cx.req.param("comp"@) == Some("list"@),
        asks_for(cx.req, limit),
        effects >= 3 + world.shelf(container, cx.req.param("prefix"@)).len(),
    ensures
        served(world, cx, effects).0 == world,
        exists|entries: Seq<EntryView>| #[trigger]
            is_listing(world, container, cx.req, entries) && (
            served(world, cx, effects).1 matches StepView::Reply(reply) && shows_page(
                reply,
                entries,
                limit,
            )),
{
    listing_runs(world, cx, resource, container, limit, effects);
    entries_make_the_listing(world, container, cx.req);
    assert(is_listing(
        world,
        container,
        cx.req,
        entries_of(cx.req, gathered(world, container, cx.req)),
    ));
}

/// A request that goes on with the marker of a page is replied exactly the rest: the entries of
/// the first page and those that the second one starts are together those of the listing. So
/// requests that follow the markers to the end show every entry once.
pub proof fn markers_lead_to_the_rest(
    world: World,
    first: ContextView,
    next: ContextView,
    resource: ResourceView,
    container: Text,
    limit: int,
    effects: nat,
)
    requires
        reaches_container(world, first, resource, container),
        first.req.method == Method::Get,
        first.req.param("comp"@) == Some("list"@),
        asks_for(first.req, limit),
        reaches_container(world, next, resource, container),
        next.req.method == Method::Get,
        next.req.param("comp"@) == Some("list"@),
        next.req.param("maxresults"@) == first.req.param("maxresults"@),
        next.req.param("prefix"@) == first.req.param("prefix"@),
        next.req.param("delimiter"@) == first.req.param("delimiter"@),
        effects >= 3 + world.shelf(container, first.req.param("prefix"@)).len(),
    ensures
        exists|all: Seq<EntryView>| #[trigger]
            is_listing(world, container, first.req, all) && (
            served(world, first, effects).1 matches StepView::Reply(reply) && shows_page(
                reply,
                all,
                limit,
            )) && (all.len() > limit && next.req.param("marker"@) == Some(
                entry_name(all[limit]),
            ) ==> (served(world, next, effects).1 matches StepView::Reply(reply) && shows_page(
                reply,
                all.skip(limit),
                limit,
            ))),
{
    let objects = gathered(world, container, first.req);
    assert(objects == gathered(world, container, next.req));
    let all = entries_of(first.req, objects);
    listing_runs(world, first, resource, container, limit, effects);
    listing_runs(world, next, resource, container, limit, effects);
    entries_make_the_listing(world, container, first.req);
    gathered_is_the_listing(world, container, first.req);
    page_sizes_are_read(first, limit);
    if all.len() > limit && next.req.param("marker"@) == Some(entry_name(all[limit])) {
        blob_pages_follow_each_other(first.req, next.req, objects, limit);
        let rest = entries_of(next.req, objects);
        assert(all.skip(limit) =~= rest) by {
            assert((first_of(all, limit) + rest).skip(limit) =~= rest);
        }
    }
    assert(is_listing(world, container, first.req, all));
}

} // verus!
