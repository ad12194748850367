//! What becomes of containers, and how they are listed.

use vstd::prelude::*;
use vstd::set_lib::*;
use vstd::string::*;
use vstd::utf8::encode_utf8;
use crate::azure::adapter::handle_request;
use crate::azure::auth::authorize;
use crate::azure::basics::{parse_resource, ResourceView};
use crate::azure::containers::{
    container_items_upto, echo_param, list_containers_xml, listed_containers, visible_from,
};
use crate::azure::listings::container_pages_follow_each_other;
use crate::azure::pages::{asks_for, in_a_row, page_sizes_are_read, sorted_contains};
use crate::azure::runs::served;
use crate::clock::{http_date, Instant};
use crate::codec::content_etag;
use crate::http::{ContextView, Method, RequestView, ResponseView};
use crate::order::{
    distinct, first_of, keeping_keeps_order, kept, name_at, precedes, sorted, sorted_is_sorted,
    sorting_keeps_distinct, texts_are_in_order, FilterView,
};
use crate::store::{Bucket, BucketView, EffectView, KnownView, OutcomeView, StepView, TapeView};
use crate::text::{or_text, starts_with, xml};
use crate::views::Text;
use crate::world::{held, kept_contains, leads, run_replies, to_seq_has_no_doubles, World};

verus! {

/// Whether a request asks for the containers of an account, and every container that is being
/// deleted still has time.
pub open spec fn reaches_account(world: World, cx: ContextView, account: Text) -> bool {
    let resource = ResourceView { account, container: None, blob: None };
    &&& world.sound()
    &&& parse_resource(cx.req.path) == Ok::<_, Text>(resource)
    &&& authorize(cx.stamp, cx.req, cx.auth, resource) is Ok
    &&& cx.req.method == Method::Get
    &&& cx.req.param("comp"@) == Some("list"@)
    &&& forall|name: Text| #[trigger]
        world.deletions.contains_key(name) ==> world.deletions[name].later_than(cx.stamp.now)
}

/// Whether a listing of containers has one: it is there, not being deleted, under the prefix and
/// not before the marker.
pub open spec fn is_container(world: World, req: RequestView, bucket: BucketView) -> bool {
    &&& held(world.buckets, bucket.name) == Some(bucket)
    &&& !world.deletions.contains_key(bucket.name)
    &&& req.param("prefix"@) matches Some(prefix) ==> starts_with(bucket.name, prefix)
    &&& req.param("marker"@) matches Some(marker) ==> !precedes(bucket.name, marker)
}

/// Whether these are the containers of a listing, in order and each once.
pub open spec fn are_containers(
    world: World,
    req: RequestView,
    containers: Seq<BucketView>,
) -> bool {
    &&& forall|i: int, j: int|
        0 <= i < j < containers.len() ==> precedes(
            (#[trigger] containers[i]).name,
            (#[trigger] containers[j]).name,
        )
    &&& forall|bucket: BucketView| #[trigger]
        containers.contains(bucket) <==> is_container(world, req, bucket)
}

/// How a container is written.
pub open spec fn container_text(bucket: BucketView) -> Text {
    "<Container><Name>"@ + xml(bucket.name) + "</Name><Properties><Last-Modified>"@ + http_date(
        bucket.created_at.secs,
        bucket.created_at.nanos,
    ) + "</Last-Modified><Etag>\""@ + content_etag(encode_utf8(bucket.name))
        + "\"</Etag></Properties></Container>"@
}

/// Whether a reply is a page with the first `limit` of some containers: it shows those, and its
/// marker is the name of the first that is left out, if any is.
pub open spec fn shows_containers(
    reply: ResponseView,
    containers: Seq<BucketView>,
    limit: int,
) -> bool {
    let shown = if containers.len() > limit {
        containers.take(limit)
    } else {
        containers
    };
    let marker = if containers.len() > limit {
        xml(containers[limit].name)
    } else {
        ""@
    };
    &&& reply.status == 200
    &&& exists|head: Text|
        reply.body == encode_utf8(
            #[trigger] (head + "<Containers>"@) + in_a_row(
                Seq::new(shown.len(), |i: int| container_text(shown[i])),
            ) + "</Containers><NextMarker>"@ + marker + "</NextMarker></EnumerationResults>"@,
        )
}

/// The buckets from place `i` on that are not being deleted.
spec fn visible(world: World, buckets: Seq<BucketView>, i: int) -> Seq<BucketView>
    decreases buckets.len() - i,
{
    if i >= buckets.len() {
        Seq::empty()
    } else if world.deletions.contains_key(buckets[i].name) {
        visible(world, buckets, i + 1)
    } else {
        seq![buckets[i]] + visible(world, buckets, i + 1)
    }
}

/// What is answered about the deletion of each bucket from place `i` on, asked twice.
spec fn checks(world: World, buckets: Seq<BucketView>, i: int) -> TapeView {
    Seq::new(
        (2 * (buckets.len() - i)) as nat,
        |k: int| OutcomeView::Deletion(Ok(held(world.deletions, buckets[i + k / 2].name))),
    )
}

proof fn buckets_are_checked(
    world: World,
    now: Instant,
    buckets: Seq<BucketView>,
    i: int,
    so_far: Seq<BucketView>,
    m: int,
)
    requires
        0 <= i <= buckets.len(),
        0 <= m <= 2 * (buckets.len() - i),
        forall|name: Text| #[trigger]
            world.deletions.contains_key(name) ==> world.deletions[name].later_than(now),
    ensures
        visible_from(now, buckets, i, so_far, checks(world, buckets, i).take(m)) == if m < 2 * (
        buckets.len() - i) {
            KnownView::Halt(
                StepView::Perform(EffectView::LoadDeletion(buckets[i + m / 2].name)),
            )
        } else {
            KnownView::Got(so_far + visible(world, buckets, i), Seq::<OutcomeView>::empty())
        },
    decreases buckets.len() - i,
{
    let all = checks(world, buckets, i);
    let tape = all.take(m);
    if i < buckets.len() {
        let name = buckets[i].name;
        let found = held(world.deletions, name);
        assert(all[0] == OutcomeView::Deletion(Ok(found)));
        assert(all[1] == OutcomeView::Deletion(Ok(found)));
        if m == 0 {
            assert(tape =~= Seq::empty());
        } else if m == 1 {
            assert(tape.skip(1) =~= Seq::empty());
        } else {
            let rest = checks(world, buckets, i + 1);
            assert(tape.skip(1)[0] == all[1]);
            assert forall|k: int| 0 <= k < m - 2 implies tape.skip(1).skip(1)[k]
                == #[trigger] rest.take(m - 2)[k] by {
                assert(all[k + 2] == rest[k]) by {
                    assert((k + 2) / 2 == k / 2 + 1);
                }
            }
            assert(tape.skip(1).skip(1) =~= rest.take(m - 2));
            let next = if found is Some {
                so_far
            } else {
                so_far.push(buckets[i])
            };
            buckets_are_checked(world, now, buckets, i + 1, next, m - 2);
            assert(i + m / 2 == i + 1 + (m - 2) / 2);
            assert(so_far.push(buckets[i]) + visible(world, buckets, i + 1) =~= so_far + (
            seq![buckets[i]] + visible(world, buckets, i + 1)));
        }
    } else {
        assert(tape =~= Seq::empty());
        assert(so_far + Seq::<BucketView>::empty() =~= so_far);
    }
}

proof fn visible_holds(world: World, buckets: Seq<BucketView>, i: int)
    requires
        0 <= i <= buckets.len(),
        distinct::<Bucket>(buckets),
    ensures
        distinct::<Bucket>(visible(world, buckets, i)),
        forall|bucket: BucketView| #[trigger]
            visible(world, buckets, i).contains(bucket) <==> !world.deletions.contains_key(
                bucket.name,
            ) && exists|k: int| i <= k < buckets.len() && #[trigger] buckets[k] == bucket,
    decreases buckets.len() - i,
{
    if i < buckets.len() {
        visible_holds(world, buckets, i + 1);
        let rest = visible(world, buckets, i + 1);
        let out = visible(world, buckets, i);
        assert forall|bucket: BucketView| #[trigger] out.contains(bucket)
            <==> !world.deletions.contains_key(bucket.name) && exists|k: int|
            i <= k < buckets.len() && #[trigger] buckets[k] == bucket by {
            if out.contains(bucket) {
                let q = choose|q: int| 0 <= q < out.len() && out[q] == bucket;
                if out.len() > rest.len() {
                    if q == 0 {
                        assert(buckets[i] == bucket);
                    } else {
                        assert(rest[q - 1] == bucket);
                        assert(rest.contains(bucket));
                    }
                } else {
                    assert(rest.contains(bucket));
                }
            }
            if !world.deletions.contains_key(bucket.name) && exists|k: int|
                i <= k < buckets.len() && #[trigger] buckets[k] == bucket {
                let k = choose|k: int| i <= k < buckets.len() && #[trigger] buckets[k] == bucket;
                if k == i {
                    assert(out[0] == bucket);
                } else {
                    assert(rest.contains(bucket));
                    let q = choose|q: int| 0 <= q < rest.len() && rest[q] == bucket;
                    if out.len() > rest.len() {
                        assert(out[q + 1] == bucket);
                    }
                }
            }
        }
        assert forall|a: int, b: int| 0 <= a < b < out.len() implies (#[trigger] out[a]).name != (
        #[trigger] out[b]).name by {
            if out.len() > rest.len() {
                assert(out[b] == rest[b - 1]);
                if a > 0 {
                    assert(out[a] == rest[a - 1]);
                } else {
                    assert(rest.contains(rest[b - 1]));
                    let k = choose|k: int|
                        i + 1 <= k < buckets.len() && #[trigger] buckets[k] == rest[b - 1];
                    assert(buckets[i].name != buckets[k].name);
                }
            }
        }
    }
}

/// All buckets are listed, each once.
pub proof fn buckets_are_all_there(world: World)
    requires
        world.sound(),
    ensures
        distinct::<Bucket>(world.all_buckets()),
        forall|bucket: BucketView| #[trigger]
            world.all_buckets().contains(bucket) <==> held(world.buckets, bucket.name) == Some(
                bucket,
            ),
{
    let inside = Set::new(
        |bucket: BucketView|
            world.buckets.contains_key(bucket.name) && world.buckets[bucket.name] == bucket,
    );
    assert(inside.subset_of(world.buckets.values())) by {
        assert forall|bucket: BucketView| inside.contains(bucket) implies #[trigger]
            world.buckets.values().contains(bucket) by {
            assert(world.buckets.contains_key(bucket.name));
            assert(world.buckets[bucket.name] == bucket);
        }
    }
    world.buckets.lemma_values_len();
    lemma_len_subset(inside, world.buckets.values());
    to_seq_has_no_doubles(inside);
    let all = inside.to_seq();
    assert forall|i: int, j: int| 0 <= i < j < all.len() implies (#[trigger] all[i]).name != (
    #[trigger] all[j]).name by {
        assert(all.to_set().contains(all[i]));
        assert(all.to_set().contains(all[j]));
    }
    sorting_keeps_distinct::<Bucket>(all);
    assert forall|bucket: BucketView| #[trigger] world.all_buckets().contains(bucket) <==> held(
        world.buckets,
        bucket.name,
    ) == Some(bucket) by {
        sorted_contains::<Bucket>(all, bucket);
        assert(all.to_set().contains(bucket) <==> all.contains(bucket));
    }
}

proof fn listed_are_containers(world: World, req: RequestView)
    requires
        world.sound(),
    ensures
        distinct::<Bucket>(visible(world, world.all_buckets(), 0)),
        are_containers(
            world,
            req,
            listed_containers(req, visible(world, world.all_buckets(), 0)),
        ),
{
    let buckets = world.all_buckets();
    let seen = visible(world, buckets, 0);
    buckets_are_all_there(world);
    visible_holds(world, buckets, 0);
    let ordered = sorted::<Bucket>(seen);
    sorted_is_sorted::<Bucket>(seen);
    sorting_keeps_distinct::<Bucket>(seen);
    let under = match req.param("prefix"@) {
        Some(prefix) => kept::<Bucket>(ordered, FilterView::Under(prefix)),
        None => ordered,
    };
    if let Some(prefix) = req.param("prefix"@) {
        keeping_keeps_order::<Bucket>(ordered, FilterView::Under(prefix));
    }
    let all = listed_containers(req, seen);
    if let Some(marker) = req.param("marker"@) {
        keeping_keeps_order::<Bucket>(under, FilterView::From(marker));
    }
    assert forall|i: int, j: int| 0 <= i < j < all.len() implies precedes(
        (#[trigger] all[i]).name,
        (#[trigger] all[j]).name,
    ) by {
        assert(all[i].name != all[j].name);
        assert(!precedes(all[j].name, all[i].name));
        texts_are_in_order(all[i].name, all[j].name);
    }
    assert forall|bucket: BucketView| #[trigger] all.contains(bucket) <==> is_container(
        world,
        req,
        bucket,
    ) by {
        sorted_contains::<Bucket>(seen, bucket);
        if let Some(prefix) = req.param("prefix"@) {
            kept_contains::<Bucket>(ordered, FilterView::Under(prefix), bucket);
        }
        if let Some(marker) = req.param("marker"@) {
            kept_contains::<Bucket>(under, FilterView::From(marker), bucket);
        }
        assert(seen.contains(bucket) <==> !world.deletions.contains_key(bucket.name) && exists|
            k: int,
        | 0 <= k < buckets.len() && #[trigger] buckets[k] == bucket);
        assert(buckets.contains(bucket) <==> held(world.buckets, bucket.name) == Some(bucket));
        if buckets.contains(bucket) {
            let k = choose|k: int| 0 <= k < buckets.len() && buckets[k] == bucket;
            assert(buckets[k] == bucket);
        }
    }
}

proof fn container_items_are_in_a_row(buckets: Seq<BucketView>, n: int)
    requires
        0 <= n <= buckets.len(),
    ensures
        container_items_upto(buckets, n) == in_a_row(
            Seq::new(n as nat, |i: int| container_text(buckets[i])),
        ),
    decreases n,
{
    let texts = Seq::new(n as nat, |i: int| container_text(buckets[i]));
    if n > 0 {
        container_items_are_in_a_row(buckets, n - 1);
        let before = container_items_upto(buckets, n - 1);
        assert(texts.drop_last() =~= Seq::new((n - 1) as nat, |i: int| container_text(buckets[i])));
        assert(container_items_upto(buckets, n) =~= before + container_text(buckets[n - 1]));
    } else {
        reveal_strlit("");
        assert(""@ =~= Seq::empty());
        assert(texts.len() == 0);
    }
}

proof fn container_listing_runs(
    world: World,
    cx: ContextView,
    account: Text,
    limit: int,
    effects: nat,
)
    requires
        reaches_account(world, cx, account),
        asks_for(cx.req, limit),
        effects >= 1 + 2 * world.all_buckets().len(),
    ensures
        served(world, cx, effects).0 == world,
        served(world, cx, effects).1 matches StepView::Reply(reply) && shows_containers(
            reply,
            listed_containers(cx.req, visible(world, world.all_buckets(), 0)),
            limit,
        ),
{
    page_sizes_are_read(cx, limit);
    let buckets = world.all_buckets();
    let n = buckets.len() as int;
    let handler = |tape: TapeView| handle_request(cx, tape);
    let first = seq![OutcomeView::Buckets(Ok(buckets))];
    let rest = checks(world, buckets, 0);
    let tape = first + rest;
    let worlds = Seq::new(tape.len() + 1, |i: int| world);
    assert forall|i: int| 0 <= i < tape.len() implies #[trigger] leads(handler, worlds, tape, i) by {
        if i == 0 {
            assert(tape.take(0) =~= Seq::empty());
        } else {
            assert(tape.take(i)[0] == first[0]);
            assert(tape.take(i).skip(1) =~= rest.take(i - 1));
            buckets_are_checked(world, cx.stamp.now, buckets, 0, Seq::empty(), i - 1);
            assert(tape[i] == rest[i - 1]);
        }
    }
    assert(tape[0] == first[0]);
    assert(tape.skip(1) =~= rest.take(2 * n));
    buckets_are_checked(world, cx.stamp.now, buckets, 0, Seq::empty(), 2 * n);
    let seen = visible(world, buckets, 0);
    assert(Seq::<BucketView>::empty() + seen =~= seen);
    run_replies(handler, worlds, tape, effects);
    let all = listed_containers(cx.req, seen);
    let shown = if all.len() > limit {
        all.take(limit)
    } else {
        all
    };
    assert(first_of(all, limit) =~= shown);
    container_items_are_in_a_row(shown, shown.len() as int);
    reveal_strlit("");
    let marker = if all.len() > limit {
        xml(all[limit].name)
    } else {
        ""@
    };
    let next = name_at::<Bucket>(all, limit);
    assert(xml(""@) =~= ""@);
    assert(xml(or_text(next, ""@)) == marker);
    let head = "<?xml version=\"1.0\" encoding=\"utf-8\"?><EnumerationResults ServiceEndpoint=\""@
        + xml(cx.req.origin) + "/"@ + xml(account) + "\">"@ + echo_param(
        cx.req,
        "<Prefix>"@,
        "prefix"@,
        "</Prefix>"@,
    ) + echo_param(cx.req, "<Marker>"@, "marker"@, "</Marker>"@) + echo_param(
        cx.req,
        "<MaxResults>"@,
        "maxresults"@,
        "</MaxResults>"@,
    );
    assert(list_containers_xml(cx.req, account, shown, next) == (head + "<Containers>"@) + in_a_row(
        Seq::new(shown.len(), |i: int| container_text(shown[i])),
    ) + "</Containers><NextMarker>"@ + marker + "</NextMarker></EnumerationResults>"@);
}

/// List Containers replies with the first containers that are not being deleted, as many as are
/// asked for, and its marker is the name of the first that is left out, or empty where none is.
/// A request that goes on with the marker is replied exactly the rest.
pub proof fn container_listings_show_their_page(
    world: World,
    first: ContextView,
    next: ContextView,
    account: Text,
    limit: int,
    effects: nat,
)
    requires
        reaches_account(world, first, account),
        asks_for(first.req, limit),
        reaches_account(world, next, account),
        next.req.param("maxresults"@) == first.req.param("maxresults"@),
        next.req.param("prefix"@) == first.req.param("prefix"@),
        next.req.param("delimiter"@) == first.req.param("delimiter"@),
        effects >= 1 + 2 * world.all_buckets().len(),
    ensures
        served(world, first, effects).0 == world,
        exists|all: Seq<BucketView>| #[trigger]
            are_containers(world, first.req, all) && (
            served(world, first, effects).1 matches StepView::Reply(reply) && shows_containers(
                reply,
                all,
                limit,
            )) && (all.len() > limit && next.req.param("marker"@) == Some(all[limit].name) ==> (
            served(world, next, effects).1 matches StepView::Reply(reply) && shows_containers(
                reply,
                all.skip(limit),
                limit,
            ))),
{
    let seen = visible(world, world.all_buckets(), 0);
    let all = listed_containers(first.req, seen);
    container_listing_runs(world, first, account, limit, effects);
    container_listing_runs(world, next, account, limit, effects);
    listed_are_containers(world, first.req);
    page_sizes_are_read(first, limit);
    if all.len() > limit && next.req.param("marker"@) == Some(all[limit].name) {
        container_pages_follow_each_other(first.req, next.req, seen, limit);
        let rest = listed_containers(next.req, seen);
        assert(all.skip(limit) =~= rest) by {
            assert((first_of(all, limit) + rest).skip(limit) =~= rest);
        }
    }
    assert(are_containers(world, first.req, all));
}

} // verus!
