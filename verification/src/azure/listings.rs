//! How the pages of listings follow each other.

use vstd::prelude::*;
use vstd::string::*;
use crate::azure::containers::{
    delimiter_of, entries_of, entries_upto, listed_containers, rolled_up, AzureListEntry, EntryView,
};
use crate::http::RequestView;
use crate::order::{
    cut_lists_go_on, distinct, first_of, in_order, keeping_keeps_order, kept,
    lists_go_on_from_an_item, name_at, sorted, sorted_is_sorted, sorting_keeps_distinct, FilterView,
    Named,
};
use crate::store::{Bucket, BucketView, Object, ObjectView};
use crate::text::{find_from, or_text, starts_with};
use crate::views::Text;

verus! {

/// Whether a request goes on with the listing of another: it differs in the marker alone.
pub open spec fn goes_on(first: RequestView, next: RequestView, marker: Text) -> bool {
    &&& next.param("prefix"@) == first.param("prefix"@)
    &&& next.param("delimiter"@) == first.param("delimiter"@)
    &&& next.param("marker"@) == Some(marker)
}

/// The containers of an account are listed in order, and page by page each of them once: the
/// marker of a page leads to exactly those that are left.
pub proof fn container_pages_follow_each_other(
    first: RequestView,
    next: RequestView,
    visible: Seq<BucketView>,
    limit: int,
)
    requires
        distinct::<Bucket>(visible),
        0 <= limit,
        name_at::<Bucket>(listed_containers(first, visible), limit) matches Some(marker) && goes_on(
            first,
            next,
            marker,
        ),
    ensures
        in_order::<Bucket>(listed_containers(first, visible)),
        first_of(listed_containers(first, visible), limit) + listed_containers(next, visible)
            == listed_containers(first, visible),
{
    sorted_is_sorted::<Bucket>(visible);
    sorting_keeps_distinct::<Bucket>(visible);
    let ordered = sorted::<Bucket>(visible);
    let under = match first.param("prefix"@) {
        Some(prefix) => kept::<Bucket>(ordered, FilterView::Under(prefix)),
        None => ordered,
    };
    if first.param("prefix"@) is Some {
        keeping_keeps_order::<Bucket>(ordered, FilterView::Under(first.param("prefix"@)->0));
    }
    pages_follow::<Bucket>(under, first.param("marker"@), limit);
}

/// A list in order from a marker on, if there is one.
pub open spec fn from_marker<T: Named>(items: Seq<T::V>, marker: Option<Text>) -> Seq<T::V> {
    match marker {
        Some(marker) => kept::<T>(items, FilterView::From(marker)),
        None => items,
    }
}

proof fn pages_follow<T: Named>(items: Seq<T::V>, marker: Option<Text>, limit: int)
    requires
        in_order::<T>(items),
        distinct::<T>(items),
        0 <= limit < from_marker::<T>(items, marker).len(),
    ensures
        in_order::<T>(from_marker::<T>(items, marker)),
        ({
            let page = from_marker::<T>(items, marker);
            first_of(page, limit) + from_marker::<T>(items, Some(T::key(page[limit]))) == page
        }),
{
    let page = from_marker::<T>(items, marker);
    match marker {
        Some(marker) => {
            keeping_keeps_order::<T>(items, FilterView::From(marker));
            cut_lists_go_on::<T>(items, marker, limit);
        },
        None => {
            lists_go_on_from_an_item::<T>(items, limit);
        },
    }
    assert(first_of(page, limit) + page.skip(limit) =~= page);
}

/// The blobs and common prefixes of a container are listed in order, and page by page each of
/// them once: the marker of a page leads to exactly those that are left.
pub proof fn blob_pages_follow_each_other(
    first: RequestView,
    next: RequestView,
    objects: Seq<ObjectView>,
    limit: int,
)
    requires
        distinct::<Object>(objects),
        forall|i: int|
            0 <= i < objects.len() ==> starts_with(
                (#[trigger] objects[i]).key,
                or_text(first.param("prefix"@), ""@),
            ),
        0 <= limit,
        name_at::<AzureListEntry>(entries_of(first, objects), limit) matches Some(marker)
            && goes_on(first, next, marker),
    ensures
        in_order::<AzureListEntry>(entries_of(first, objects)),
        first_of(entries_of(first, objects), limit) + entries_of(next, objects) == entries_of(
            first,
            objects,
        ),
{
    let prefix = or_text(first.param("prefix"@), ""@);
    let delimiter = delimiter_of(first);
    let entries = entries_upto(objects, prefix, delimiter, objects.len() as int);
    entries_are_distinct(objects, prefix, delimiter, objects.len() as int);
    sorted_is_sorted::<AzureListEntry>(entries);
    sorting_keeps_distinct::<AzureListEntry>(entries);
    pages_follow::<AzureListEntry>(
        sorted::<AzureListEntry>(entries),
        first.param("marker"@),
        limit,
    );
}

/// Whether an entry stands for one of the first `n` objects.
pub open spec fn stands_for(
    entry: EntryView,
    objects: Seq<ObjectView>,
    prefix: Text,
    delimiter: Option<Text>,
    n: int,
) -> bool {
    exists|k: int|
        0 <= k < n && match rolled_up((#[trigger] objects[k]).key, prefix, delimiter) {
            Some(common) => entry == EntryView::Prefix(common),
            None => entry == EntryView::Blob(objects[k]),
        }
}

/// No two entries of a listing have the same name, and each stands for an object.
pub proof fn entries_are_distinct(
    objects: Seq<ObjectView>,
    prefix: Text,
    delimiter: Option<Text>,
    n: int,
)
    requires
        0 <= n <= objects.len(),
        distinct::<Object>(objects),
        delimiter matches Some(mark) ==> mark.len() > 0,
        forall|i: int|
            0 <= i < objects.len() ==> starts_with((#[trigger] objects[i]).key, prefix),
    ensures
        distinct::<AzureListEntry>(entries_upto(objects, prefix, delimiter, n)),
        forall|q: int|
            0 <= q < entries_upto(objects, prefix, delimiter, n).len() ==> stands_for(
                #[trigger] entries_upto(objects, prefix, delimiter, n)[q],
                objects,
                prefix,
                delimiter,
                n,
            ),
    decreases n,
{
    if n > 0 {
        entries_are_distinct(objects, prefix, delimiter, n - 1);
        let before = entries_upto(objects, prefix, delimiter, n - 1);
        let out = entries_upto(objects, prefix, delimiter, n);
        let object = objects[n - 1];
        assert forall|q: int| 0 <= q < out.len() implies stands_for(
            #[trigger] out[q],
            objects,
            prefix,
            delimiter,
            n,
        ) by {
            if q < before.len() {
                assert(out[q] == before[q]);
                assert(stands_for(before[q], objects, prefix, delimiter, n - 1));
            } else {
                assert(objects[n - 1] == object);
            }
        }
        if out.len() > before.len() {
            let entry = out[before.len() as int];
            assert forall|q: int| 0 <= q < before.len() implies AzureListEntry::key(
                #[trigger] before[q],
            ) != AzureListEntry::key(entry) by {
                assert(stands_for(before[q], objects, prefix, delimiter, n - 1));
                let k = choose|k: int|
                    0 <= k < n - 1 && match rolled_up(
                        (#[trigger] objects[k]).key,
                        prefix,
                        delimiter,
                    ) {
                        Some(common) => before[q] == EntryView::Prefix(common),
                        None => before[q] == EntryView::Blob(objects[k]),
                    };
                assert(Object::key(objects[k]) != Object::key(objects[n - 1]));
                roll_ups_stand_for_no_blob(objects[k].key, object.key, prefix, delimiter);
                roll_ups_stand_for_no_blob(object.key, objects[k].key, prefix, delimiter);
            }
            assert forall|i: int, j: int| 0 <= i < j < out.len() implies AzureListEntry::key(
                #[trigger] out[i],
            ) != AzureListEntry::key(#[trigger] out[j]) by {
                assert(out[i] == before[i]);
                if j < before.len() {
                    assert(out[j] == before[j]);
                }
            }
        }
    }
}

/// A common prefix is not the key of a blob that is listed by itself.
proof fn roll_ups_stand_for_no_blob(
    rolled: Text,
    key: Text,
    prefix: Text,
    delimiter: Option<Text>,
)
    requires
        starts_with(rolled, prefix),
        starts_with(key, prefix),
        delimiter matches Some(mark) ==> mark.len() > 0,
    ensures
        rolled_up(rolled, prefix, delimiter) matches Some(common) ==> (rolled_up(
            key,
            prefix,
            delimiter,
        ) is None ==> common != key),
{
    if let Some(common) = rolled_up(rolled, prefix, delimiter) {
        let mark = delimiter->0;
        let rest = rolled.subrange(prefix.len() as int, rolled.len() as int);
        crate::text::find_from_is_place(rest, mark, 0);
        let i = find_from(rest, mark, 0)->0;
        if common == key {
            let own = key.subrange(prefix.len() as int, key.len() as int);
            assert(own.subrange(i, i + mark.len()) =~= rest.subrange(i, i + mark.len()));
            found_where_it_is(own, mark, 0, i);
        }
    }
}

proof fn found_where_it_is(s: Text, p: Text, i: int, k: int)
    requires
        0 <= i <= k,
        k + p.len() <= s.len(),
        s.subrange(k, k + p.len()) == p,
    ensures
        find_from(s, p, i) is Some,
    decreases k - i,
{
    if i < k {
        found_where_it_is(s, p, i + 1, k);
    }
}

} // verus!
