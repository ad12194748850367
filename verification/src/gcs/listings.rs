//! How the pages of listings follow each other.

use vstd::prelude::*;
use crate::clock::StampView;
use crate::gcs::basics::json_response;
use crate::gcs::checks::page_token;
use crate::gcs::json_api::{
    last_bucket, listed_buckets, next_place, object_items, objects_json, text_items, with_token,
};
use crate::gcs::objects::{json_object_metadata, WrittenView};
use crate::gcs::uploads::upload_reply;
use crate::gcs::xml_api::{last_shown, one_more};
use crate::http::RequestView;
use crate::json::JsonView;
use crate::order::{
    cut_lists_go_on, distinct, first_of, in_order, keeping_keeps_order, kept, kept_upto,
    lists_go_on_from_an_item, precedes, sorted, sorted_is_sorted, sorting_commutes_with_keeping,
    sorting_keeps_distinct, FilterView,
};
use crate::store::{Bucket, BucketView, Object, ObjectView, PageView};
use crate::text::or_text;
use crate::views::Text;

verus! {

/// A bucket's objects in order, behind a marker if there is one.
pub open spec fn behind(objects: Seq<ObjectView>, marker: Option<Text>) -> Seq<ObjectView> {
    match marker {
        Some(marker) => kept::<Object>(objects, FilterView::After(marker)),
        None => objects,
    }
}

/// Where storage answers a listing with as many objects behind the marker as it is asked for,
/// the XML API shows each object on one page: the marker of a page leads to exactly those
/// that are left, and a page without one is the last.
pub proof fn xml_pages_follow_each_other(
    objects: Seq<ObjectView>,
    marker: Option<Text>,
    max: usize,
    page: Seq<ObjectView>,
)
    requires
        in_order::<Object>(objects),
        distinct::<Object>(objects),
        0 < max < usize::MAX,
        page == first_of(behind(objects, marker), one_more(max) as int),
    ensures
        match last_shown(page, max as int) {
            Some(last) => first_of(page, max as int) + behind(objects, Some(last)) == behind(
                objects,
                marker,
            ),
            None => first_of(page, max as int) == behind(objects, marker),
        },
{
    let all = behind(objects, marker);
    if all.len() > max {
        let n = max as int;
        match marker {
            Some(marker) => cut_lists_go_on::<Object>(objects, marker, n - 1),
            None => lists_go_on_from_an_item::<Object>(objects, n - 1),
        }
        assert(page[n - 1] == all[n - 1]);
        assert(first_of(page, n) =~= all.subrange(0, n));
        assert(all.subrange(0, n) + all.skip(n) =~= all);
    }
}

/// What storage answers to a listing without groups: as many objects behind the marker as it
/// is asked for, and the key of the last of them where there are more.
pub open spec fn stored_page(objects: Seq<ObjectView>, marker: Option<Text>, limit: int) -> PageView {
    let left = behind(objects, marker);
    PageView {
        objects: first_of(left, limit),
        prefixes: Seq::empty(),
        truncated: left.len() > limit,
        next_marker: if left.len() > limit {
            Some(left[limit - 1].key)
        } else {
            None
        },
    }
}

/// A page of the JSON API shows the objects behind its marker, as many as it is asked for. It
/// leads to the next one exactly where objects are left, and what it leads to is exactly what
/// is left.
pub proof fn json_pages_follow_each_other(
    bucket: Text,
    objects: Seq<ObjectView>,
    marker: Option<Text>,
    max: usize,
)
    requires
        in_order::<Object>(objects),
        distinct::<Object>(objects),
        0 < max,
    ensures
        match next_place(max as int, stored_page(objects, marker, max as int)) {
            Some(last) => behind(objects, marker).len() > max && stored_page(
                objects,
                marker,
                max as int,
            ).objects + behind(objects, Some(last)) == behind(objects, marker),
            None => stored_page(objects, marker, max as int).objects == behind(objects, marker),
        },
        objects_json(bucket, max as int, stored_page(objects, marker, max as int))
            == JsonView::Object(
            with_token(
                seq![
                    ("kind"@, JsonView::Text("storage#objects"@)),
                    (
                        "items"@,
                        JsonView::Array(
                            object_items(bucket, first_of(behind(objects, marker), max as int)),
                        ),
                    ),
                    ("prefixes"@, JsonView::Array(Seq::empty())),
                ],
                if behind(objects, marker).len() > max {
                    Some(page_token("objects"@, behind(objects, marker)[max - 1].key))
                } else {
                    None
                },
            ),
        ),
{
    let all = behind(objects, marker);
    let n = max as int;
    assert(text_items(Seq::empty()) =~= Seq::empty());
    if all.len() > n {
        match marker {
            Some(marker) => cut_lists_go_on::<Object>(objects, marker, n - 1),
            None => lists_go_on_from_an_item::<Object>(objects, n - 1),
        }
        assert(all.subrange(0, n) + all.skip(n) =~= all);
    }
}

/// The objects that the JSON API shows on so many pages, each one where the last leads to.
pub open spec fn shown_on_pages(
    objects: Seq<ObjectView>,
    marker: Option<Text>,
    max: usize,
    pages: nat,
) -> Seq<ObjectView>
    decreases pages,
{
    if pages == 0 {
        Seq::empty()
    } else {
        let page = stored_page(objects, marker, max as int);
        page.objects + match next_place(max as int, page) {
            Some(last) => shown_on_pages(objects, Some(last), max, (pages - 1) as nat),
            None => Seq::empty(),
        }
    }
}

/// Followed to the end, the pages of the JSON API show each object exactly once, in order.
pub proof fn json_pages_show_everything(
    objects: Seq<ObjectView>,
    marker: Option<Text>,
    max: usize,
    pages: nat,
)
    requires
        in_order::<Object>(objects),
        distinct::<Object>(objects),
        0 < max,
        pages > behind(objects, marker).len(),
    ensures
        shown_on_pages(objects, marker, max, pages) == behind(objects, marker),
    decreases pages,
{
    let page = stored_page(objects, marker, max as int);
    json_pages_follow_each_other(Seq::empty(), objects, marker, max);
    match next_place(max as int, page) {
        Some(last) => {
            assert(behind(objects, marker).len() == page.objects.len() + behind(
                objects,
                Some(last),
            ).len());
            json_pages_show_everything(objects, Some(last), max, (pages - 1) as nat);
        },
        None => {
            assert(page.objects + Seq::<ObjectView>::empty() =~= page.objects);
        },
    }
}

proof fn everything_is_behind_no_text(objects: Seq<ObjectView>, i: int)
    requires
        0 <= i <= objects.len(),
        forall|k: int| 0 <= k < objects.len() ==> (#[trigger] objects[k]).key.len() > 0,
    ensures
        kept_upto::<Object>(objects, FilterView::After(""@), i) == objects.subrange(0, i),
    decreases i,
{
    reveal_strlit("");
    if i > 0 {
        everything_is_behind_no_text(objects, i - 1);
        assert(objects[i - 1].key.len() > 0);
        assert(precedes(""@, objects[i - 1].key));
        assert(objects.subrange(0, i) =~= objects.subrange(0, i - 1).push(objects[i - 1]));
    } else {
        assert(objects.subrange(0, 0) =~= Seq::<ObjectView>::empty());
    }
}

/// A page of no items shows none, in the JSON API neither objects nor groups. It leads on
/// exactly where there is something behind its marker, and then to the very first object.
pub proof fn empty_pages_lead_to_the_first_object(
    objects: Seq<ObjectView>,
    marker: Option<Text>,
    bucket: Text,
)
    requires
        forall|k: int| 0 <= k < objects.len() ==> (#[trigger] objects[k]).key.len() > 0,
    ensures
        next_place(0, stored_page(objects, marker, 1)) == if behind(objects, marker).len() > 0 {
            Some(""@)
        } else {
            None
        },
        last_shown(first_of(behind(objects, marker), one_more(0) as int), 0) == next_place(
            0,
            stored_page(objects, marker, 1),
        ),
        behind(objects, Some(""@)) == objects,
        forall|page: PageView| #[trigger]
            objects_json(bucket, 0, page) == JsonView::Object(
                with_token(
                    seq![
                        ("kind"@, JsonView::Text("storage#objects"@)),
                        ("items"@, JsonView::Array(Seq::empty())),
                        ("prefixes"@, JsonView::Array(Seq::empty())),
                    ],
                    match next_place(0, page) {
                        Some(place) => Some(page_token("objects"@, place)),
                        None => None,
                    },
                ),
            ),
        forall|page: PageView| #[trigger]
            next_place(0, page) is Some <==> page.objects.len() > 0 || page.prefixes.len() > 0 || (
            page.truncated && page.next_marker is Some),
{
    everything_is_behind_no_text(objects, objects.len() as int);
    assert(objects.subrange(0, objects.len() as int) =~= objects);
    assert(object_items(bucket, Seq::empty()) =~= Seq::empty());
    assert(text_items(Seq::empty()) =~= Seq::empty());
}

/// A listing tells of each object exactly what a read of its metadata tells, and what an
/// upload tells that stored it.
pub proof fn listings_describe_objects_as_reads_do(
    stamp: StampView,
    bucket: Text,
    objects: Seq<ObjectView>,
    rejected: bool,
    i: int,
)
    requires
        0 <= i < objects.len(),
    ensures
        object_items(bucket, objects).len() == objects.len(),
        object_items(bucket, objects)[i] == json_object_metadata(bucket, objects[i]),
        upload_reply(stamp, bucket, rejected, WrittenView::Stored(objects[i])) == json_response(
            stamp,
            200,
            object_items(bucket, objects)[i],
        ),
{
}

/// The buckets that the JSON API lists are in order, and page by page each of them is shown
/// once: the marker of a page leads to exactly those that are left.
pub proof fn bucket_pages_follow_each_other(
    req: RequestView,
    marker: Option<Text>,
    buckets: Seq<BucketView>,
    max: int,
)
    requires
        distinct::<Bucket>(buckets),
        0 < max,
    ensures
        in_order::<Bucket>(listed_buckets(req, marker, buckets)),
        last_bucket(listed_buckets(req, marker, buckets), max) matches Some(last) ==> first_of(
            listed_buckets(req, marker, buckets),
            max,
        ) + listed_buckets(req, Some(last), buckets) == listed_buckets(req, marker, buckets),
{
    let prefix = FilterView::Under(or_text(req.param("prefix"@), ""@));
    let under = kept::<Bucket>(buckets, prefix);
    sorted_is_sorted::<Bucket>(buckets);
    sorting_keeps_distinct::<Bucket>(buckets);
    sorting_commutes_with_keeping::<Bucket>(buckets, prefix);
    keeping_keeps_order::<Bucket>(sorted::<Bucket>(buckets), prefix);
    let ordered = sorted::<Bucket>(under);
    let all = listed_buckets(req, marker, buckets);
    match marker {
        Some(marker) => {
            sorting_commutes_with_keeping::<Bucket>(under, FilterView::After(marker));
            keeping_keeps_order::<Bucket>(ordered, FilterView::After(marker));
        },
        None => {},
    }
    if all.len() > max {
        let last = all[max - 1].name;
        sorting_commutes_with_keeping::<Bucket>(under, FilterView::After(last));
        match marker {
            Some(marker) => cut_lists_go_on::<Bucket>(ordered, marker, max - 1),
            None => lists_go_on_from_an_item::<Bucket>(ordered, max - 1),
        }
        assert(first_of(all, max) + all.skip(max) =~= all);
    }
}

} // verus!
