//! What the documents of listings show.

use vstd::prelude::*;
use vstd::string::*;
use vstd::utf8::encode_utf8;
use crate::azure::pages::in_a_row;
use crate::azure::runs::keeps_no_history;
use crate::gcs::adapter::handle_request;
use crate::gcs::auth::authorize;
use crate::gcs::basics::{
    foreign_data_protection, generation, is_json_api_request, json_response, parse_path, segments,
    xml_response,
};
use crate::gcs::changes::served;
use crate::gcs::checks::{free_of, page_token, token_marker, tokens_are_read_back};
use crate::gcs::json_api::{
    json_max_results, list_json_objects, listing_marker, object_items, objects_json,
};
use crate::gcs::replies::{describes, descriptions_describe_the_object};
use crate::gcs::xml_api::{
    bucket_items_upto, last_shown, list_xml_bucket, listing, listing_v2, unsupported_subresource,
    xml_max_keys,
};
use crate::http::{ContextView, Method, ResponseView};
use crate::json::{field, JsonView};
use crate::number::{decimal, reading_undoes_writing};
use crate::order::first_of;
use crate::store::{EffectView, ObjectView, OutcomeView, PageView, StepView, TapeView};
use crate::table::lookup_from;
use crate::text::{or_text, starts_with, trim_char, xml};
use crate::views::Text;
use crate::world::{
    led, led_is_read, pages_go_on, past, run_steps, run_stops, shelves_hold_the_objects, World,
};

verus! {

/// Whether a request of the JSON API may list the objects of a bucket that is there and in which
/// nobody keeps history.
pub open spec fn lists_objects(world: World, cx: ContextView, bucket: Text) -> bool {
    &&& world.sound()
    &&& is_json_api_request(cx.req)
    &&& starts_with(cx.req.path, "/storage/v1/"@)
    &&& segments(cx.req.path) == seq!["storage"@, "v1"@, "b"@, bucket, "o"@]
    &&& authorize(cx.stamp, cx.req, cx.auth, bucket, None) is Ok
    &&& cx.req.param("softDeleted"@) is None
    &&& cx.req.param("versions"@) is None
    &&& cx.req.param("delimiter"@) is None
    &&& world.buckets.contains_key(bucket)
    &&& keeps_no_history(world.buckets[bucket])
}

/// Whether a request starts a listing behind a marker: its token is the one of the marker.
pub open spec fn starts_behind(cx: ContextView, marker: Option<Text>) -> bool {
    match marker {
        None => cx.req.param("pageToken"@) is None,
        Some(marker) => cx.req.param("pageToken"@) == Some(page_token("objects"@, marker))
            && free_of(marker, '\0'),
    }
}

/// Whether a request asks for pages of so many objects; without a number they have a thousand,
/// and never more.
pub open spec fn asks_for_objects(cx: ContextView, limit: int) -> bool {
    match cx.req.param("maxResults"@) {
        None => limit == 1000,
        Some(raw) => exists|n: int|
            1 <= n <= u32::MAX && raw == #[trigger] decimal(n) && limit == if n < 1000 {
                n
            } else {
                1000
            },
    }
}

/// Whether a document lists the first of some objects and leads to the others, if there are any.
pub open spec fn lists(
    json: JsonView,
    bucket: Text,
    objects: Seq<ObjectView>,
    limit: int,
) -> bool {
    &&& field(json, "items"@) matches Some(JsonView::Array(items)) && items.len() == (
    if objects.len() > limit {
        limit
    } else {
        objects.len() as int
    }) && forall|i: int|
        0 <= i < items.len() ==> describes(#[trigger] items[i], bucket, objects[i])
    &&& field(json, "nextPageToken"@) == if objects.len() > limit {
        Some(JsonView::Text(page_token("objects"@, objects[limit - 1].key)))
    } else {
        None
    }
}

/// A listing of the JSON API shows the objects of the bucket under its prefix that come behind
/// its token, in order, as many as it asks for. It has a token for the next page exactly where
/// objects are left, and with that token the next page starts with the first of them.
pub proof fn json_listings_show_their_page(
    world: World,
    cx: ContextView,
    bucket: Text,
    marker: Option<Text>,
    limit: int,
    effects: nat,
)
    requires
        lists_objects(world, cx, bucket),
        cx.req.method == Method::Get,
        starts_behind(cx, marker),
        asks_for_objects(cx, limit),
        effects >= 2,
    ensures
        ({
            let left = past(world.shelf(bucket, cx.req.param("prefix"@)), marker);
            &&& served(world, cx, effects).0 == world
            &&& exists|json: JsonView| #[trigger]
                lists(json, bucket, left, limit) && served(world, cx, effects).1 == StepView::Reply(
                    json_response(cx.stamp, 200, json),
                )
            &&& left.len() > limit ==> past(
                world.shelf(bucket, cx.req.param("prefix"@)),
                Some(left[limit - 1].key),
            ) == left.skip(limit)
        }),
{
    object_pages_are_sized(cx, limit);
    reveal_strlit("objects");
    assert(free_of("objects"@, '\0'));
    if let Some(marker) = marker {
        tokens_are_read_back("objects"@, marker, "objects"@);
    }
    json_listing_runs(world, cx, bucket, marker, limit, effects);
    let shelf = world.shelf(bucket, cx.req.param("prefix"@));
    let left = past(shelf, marker);
    let page = world.page(bucket, cx.req.param("prefix"@), marker, limit);
    documents_list_the_objects(bucket, left, page, limit);
    shelves_hold_the_objects(world, bucket, cx.req.param("prefix"@));
    if left.len() > limit {
        pages_go_on(shelf, marker, limit);
    }
}

proof fn json_listing_runs(
    world: World,
    cx: ContextView,
    bucket: Text,
    marker: Option<Text>,
    limit: int,
    effects: nat,
)
    requires
        lists_objects(world, cx, bucket),
        cx.req.method == Method::Get,
        listing_marker(cx.stamp, cx.req, "objects"@) == Ok::<_, ResponseView>(marker),
        json_max_results(cx.stamp, cx.req) == Ok::<usize, ResponseView>(limit as usize),
        1 <= limit <= 1000,
        effects >= 2,
    ensures
        served(world, cx, effects) == (
            world,
            StepView::Reply(
                json_response(
                    cx.stamp,
                    200,
                    objects_json(
                        bucket,
                        limit,
                        world.page(bucket, cx.req.param("prefix"@), marker, limit),
                    ),
                ),
            ),
        ),
{
    broadcast use led_is_read;

    let parts = segments(cx.req.path);
    assert(parts.len() == 5 && parts[0] == "storage"@ && parts[1] == "v1"@ && parts[2] == "b"@);
    assert(parts[3] == bucket && parts[4] == "o"@);
    reveal_strlit("o");
    reveal_strlit("lockRetentionPolicy");
    assert("o"@.len() == 1 && "lockRetentionPolicy"@.len() == 19);
    let found = world.buckets[bucket];
    assert(!foreign_data_protection(Some(found)));
    let handler = |tape: TapeView| handle_request(cx, tape);
    let second = |tape: TapeView| list_json_objects(cx, bucket, tape);
    run_steps(world, handler, EffectView::GetBucket(bucket), second, effects);
    let ask = EffectView::ListObjects(
        bucket,
        cx.req.param("prefix"@),
        None,
        marker,
        limit as usize,
    );
    let page = world.page(bucket, cx.req.param("prefix"@), marker, limit);
    let json = objects_json(bucket, limit, page);
    let last = |tape: TapeView| StepView::Reply(json_response(cx.stamp, 200, json));
    run_steps(world, second, ask, last, (effects - 1) as nat);
    run_stops(world, last, (effects - 2) as nat);
}

proof fn documents_list_the_objects(
    bucket: Text,
    left: Seq<ObjectView>,
    page: PageView,
    limit: int,
)
    requires
        1 <= limit,
        page.objects == first_of(left, limit),
        page.prefixes.len() == 0,
        page.truncated == (left.len() > limit),
        left.len() > limit ==> page.next_marker == Some(left[limit - 1].key),
    ensures
        lists(objects_json(bucket, limit, page), bucket, left, limit),
{
    let json = objects_json(bucket, limit, page);
    reveal_strlit("kind");
    reveal_strlit("items");
    reveal_strlit("prefixes");
    reveal_strlit("nextPageToken");
    assert("kind"@.len() == 4 && "items"@.len() == 5 && "prefixes"@.len() == 8);
    assert("nextPageToken"@.len() == 13);
    reveal_with_fuel(lookup_from, 6);
    let items = object_items(bucket, first_of(left, limit));
    assert(field(json, "items"@) == Some(JsonView::Array(items)));
    assert forall|i: int| 0 <= i < items.len() implies describes(
        #[trigger] items[i],
        bucket,
        left[i],
    ) by {
        descriptions_describe_the_object(bucket, left[i]);
    }
    assert(lists(json, bucket, left, limit));
}

/// The size of a page is read from a request.
pub proof fn object_pages_are_sized(cx: ContextView, limit: int)
    requires
        asks_for_objects(cx, limit),
    ensures
        json_max_results(cx.stamp, cx.req) == Ok::<usize, ResponseView>(limit as usize),
        1 <= limit <= 1000,
{
    if let Some(raw) = cx.req.param("maxResults"@) {
        let n = choose|n: int|
            1 <= n <= u32::MAX && raw == #[trigger] decimal(n) && limit == if n < 1000 {
                n
            } else {
                1000
            };
        reading_undoes_writing(n, u32::MAX as int);
    }
}

// ---------------------------------------------------------------------------
// The XML API

/// Whether a request of the XML API may list the objects of a bucket that is there and in which
/// nobody keeps history.
pub open spec fn lists_xml_objects(world: World, cx: ContextView, bucket: Text) -> bool {
    &&& world.sound()
    &&& !is_json_api_request(cx.req)
    &&& parse_path(cx.req) == Ok::<_, Text>((Some(bucket), None::<Text>))
    &&& authorize(cx.stamp, cx.req, cx.auth, bucket, None) is Ok
    &&& unsupported_subresource(cx.req, false) is None
    &&& cx.req.method == Method::Get
    &&& cx.req.param("versions"@) is None
    &&& cx.req.param("delimiter"@) is None
    &&& world.buckets.contains_key(bucket)
    &&& keeps_no_history(world.buckets[bucket])
}

/// Whether a request asks for pages of so many objects; without a number they have a thousand.
pub open spec fn asks_for_keys(cx: ContextView, limit: int) -> bool {
    match cx.req.param("max-keys"@) {
        None => limit == 1000,
        Some(raw) => 1 <= limit <= u32::MAX && raw == decimal(limit),
    }
}

/// How an object is written.
pub open spec fn object_text(blob: ObjectView) -> Text {
    "<Contents><Key>"@ + xml(blob.key) + "</Key><Size>"@ + decimal(blob.size as int)
        + "</Size><ETag>"@ + xml("\""@ + trim_char(blob.etag, '"') + "\""@)
        + "</ETag><Generation>"@ + xml(generation(blob)) + "</Generation></Contents>"@
}

/// The texts of the first of some objects.
pub open spec fn object_texts(objects: Seq<ObjectView>, limit: int) -> Text {
    in_a_row(
        Seq::new(
            (if objects.len() > limit {
                limit
            } else {
                objects.len() as int
            }) as nat,
            |i: int| object_text(objects[i]),
        ),
    )
}

proof fn object_items_are_in_a_row(blobs: Seq<ObjectView>, n: int)
    requires
        0 <= n <= blobs.len(),
    ensures
        bucket_items_upto(blobs, n) == in_a_row(
            Seq::new(n as nat, |i: int| object_text(blobs[i])),
        ),
    decreases n,
{
    let texts = Seq::new(n as nat, |i: int| object_text(blobs[i]));
    if n > 0 {
        object_items_are_in_a_row(blobs, n - 1);
        assert(texts.drop_last() =~= Seq::new((n - 1) as nat, |i: int| object_text(blobs[i])));
    } else {
        reveal_strlit("");
        assert(""@ =~= Seq::empty());
        assert(texts.len() == 0);
    }
}

proof fn xml_listing_runs(
    world: World,
    cx: ContextView,
    bucket: Text,
    marker: Option<Text>,
    limit: int,
    second_form: bool,
    effects: nat,
)
    requires
        lists_xml_objects(world, cx, bucket),
        xml_max_keys(cx.stamp, cx.req) == Ok::<usize, ResponseView>(limit as usize),
        1 <= limit < usize::MAX,
        if second_form {
            &&& cx.req.param("list-type"@) == Some("2"@)
            &&& match cx.req.param("continuation-token"@) {
                Some(token) => marker is Some && token_marker("xml-objects"@, token) == marker,
                None => cx.req.param("start-after"@) == marker,
            }
        } else {
            &&& cx.req.param("list-type"@) is None || cx.req.param("list-type"@) == Some("1"@)
            &&& cx.req.param("marker"@) == marker
        },
        effects >= 2,
    ensures
        ({
            let page = world.page(bucket, cx.req.param("prefix"@), marker, limit + 1);
            served(world, cx, effects) == (
                world,
                StepView::Reply(
                    xml_response(
                        cx.stamp,
                        200,
                        if second_form {
                            listing_v2(cx.req, bucket, page.objects, limit)
                        } else {
                            listing(bucket, page.objects, limit)
                        },
                    ),
                ),
            )
        }),
{
    broadcast use led_is_read;

    reveal_strlit("1");
    reveal_strlit("2");
    assert("1"@[0] != "2"@[0]);
    let found = world.buckets[bucket];
    assert(!foreign_data_protection(Some(found)));
    let handler = |tape: TapeView| handle_request(cx, tape);
    let second = |tape: TapeView| list_xml_bucket(cx, bucket, tape);
    run_steps(world, handler, EffectView::GetBucket(bucket), second, effects);
    let ask = EffectView::ListObjects(
        bucket,
        cx.req.param("prefix"@),
        None,
        marker,
        (limit + 1) as usize,
    );
    let page = world.page(bucket, cx.req.param("prefix"@), marker, limit + 1);
    let last = |tape: TapeView| second(led(OutcomeView::Page(Ok(page)), tape));
    run_steps(world, second, ask, last, (effects - 1) as nat);
    run_stops(world, last, (effects - 2) as nat);
}

/// Whether a reply lists the first of some objects in the first form, and names the place of the
/// last one that it shows exactly where there are more.
pub open spec fn lists_in_first_form(
    reply: ResponseView,
    objects: Seq<ObjectView>,
    limit: int,
) -> bool {
    let more = objects.len() > limit;
    let rest = if more {
        "<IsTruncated>"@ + "true"@ + "</IsTruncated>"@ + ("<NextMarker>"@ + xml(
            objects[limit - 1].key,
        ) + "</NextMarker>"@)
    } else {
        "<IsTruncated>"@ + "false"@ + "</IsTruncated>"@ + ""@
    };
    &&& reply.status == 200
    &&& exists|head: Text|
        reply.body == encode_utf8(
            #[trigger] (head + "</Name>"@) + object_texts(objects, limit) + rest
                + "</ListBucketResult>"@,
        )
}

/// Whether a reply lists the first of some objects in the second form, says how many they are,
/// and has a token for the place of the last one exactly where there are more.
pub open spec fn lists_in_second_form(
    reply: ResponseView,
    objects: Seq<ObjectView>,
    limit: int,
) -> bool {
    &&& reply.status == 200
    &&& exists|head: Text, middle: Text, rest: Text| #[trigger]
        is_in_second_form(reply.body, objects, limit, head, middle, rest)
}

pub open spec fn is_in_second_form(
    body: Seq<u8>,
    objects: Seq<ObjectView>,
    limit: int,
    head: Text,
    middle: Text,
    rest: Text,
) -> bool {
    let more = objects.len() > limit;
    let count = if more {
        limit
    } else {
        objects.len() as int
    };
    let truncated = if more {
        "true"@
    } else {
        "false"@
    };
    let token = if more {
        "<NextContinuationToken>"@ + xml(page_token("xml-objects"@, objects[limit - 1].key))
            + "</NextContinuationToken>"@
    } else {
        ""@
    };
    body == encode_utf8(
        second_form(
            head,
            decimal(count),
            decimal(limit),
            truncated,
            middle,
            token,
            rest,
            object_texts(objects, limit),
        ),
    )
}

/// The parts of a listing in the second form.
pub open spec fn second_form(
    head: Text,
    count: Text,
    limit: Text,
    truncated: Text,
    middle: Text,
    token: Text,
    rest: Text,
    objects: Text,
) -> Text {
    head + "<KeyCount>"@ + count + "</KeyCount><MaxKeys>"@ + limit + "</MaxKeys><IsTruncated>"@
        + truncated + "</IsTruncated>"@ + middle + token + rest + objects + "</ListBucketResult>"@
}

/// The texts of what a page shows.
proof fn shown_texts(left: Seq<ObjectView>, blobs: Seq<ObjectView>, limit: int)
    requires
        1 <= limit,
        blobs == first_of(left, limit + 1),
    ensures
        ({
            let shown = first_of(blobs, limit);
            &&& bucket_items_upto(shown, shown.len() as int) == object_texts(left, limit)
            &&& blobs.len() > limit <==> left.len() > limit
            &&& left.len() > limit ==> last_shown(blobs, limit) == Some(left[limit - 1].key)
            &&& left.len() <= limit ==> last_shown(blobs, limit) is None
            &&& shown.len() == if left.len() > limit {
                limit
            } else {
                left.len() as int
            }
        }),
{
    let shown = first_of(blobs, limit);
    assert(shown =~= first_of(left, limit));
    object_items_are_in_a_row(shown, shown.len() as int);
    assert(Seq::new(shown.len(), |i: int| object_text(shown[i])) =~= Seq::new(
        (if left.len() > limit {
            limit
        } else {
            left.len() as int
        }) as nat,
        |i: int| object_text(left[i]),
    ));
    if left.len() > limit {
        assert(blobs[limit - 1] == left[limit - 1]);
    }
}

/// Both forms of a listing of the XML API show the objects of the bucket under its prefix that
/// come behind its marker, in order, as many as it asks for. They say whether objects are left,
/// and exactly then name the place behind which the next page starts, which is where the last
/// one that they show is.
pub proof fn xml_listings_show_their_page(
    world: World,
    cx: ContextView,
    bucket: Text,
    marker: Option<Text>,
    limit: int,
    in_second_form: bool,
    effects: nat,
)
    requires
        lists_xml_objects(world, cx, bucket),
        asks_for_keys(cx, limit),
        limit < usize::MAX,
        if in_second_form {
            &&& cx.req.param("list-type"@) == Some("2"@)
            &&& match cx.req.param("continuation-token"@) {
                Some(token) => marker matches Some(marker) && token == page_token(
                    "xml-objects"@,
                    marker,
                ) && free_of(marker, '\0'),
                None => cx.req.param("start-after"@) == marker,
            }
        } else {
            &&& cx.req.param("list-type"@) is None || cx.req.param("list-type"@) == Some("1"@)
            &&& cx.req.param("marker"@) == marker
        },
        effects >= 2,
    ensures
        ({
            let left = past(world.shelf(bucket, cx.req.param("prefix"@)), marker);
            &&& served(world, cx, effects).0 == world
            &&& served(world, cx, effects).1 matches StepView::Reply(reply) && if in_second_form {
                lists_in_second_form(reply, left, limit)
            } else {
                lists_in_first_form(reply, left, limit)
            }
            &&& left.len() > limit ==> past(
                world.shelf(bucket, cx.req.param("prefix"@)),
                Some(left[limit - 1].key),
            ) == left.skip(limit)
        }),
{
    if cx.req.param("max-keys"@) is Some {
        reading_undoes_writing(limit, u32::MAX as int);
    }
    reveal_strlit("xml-objects");
    assert(free_of("xml-objects"@, '\0'));
    if in_second_form && cx.req.param("continuation-token"@) is Some {
        tokens_are_read_back("xml-objects"@, marker->0, "xml-objects"@);
    }
    xml_listing_runs(world, cx, bucket, marker, limit, in_second_form, effects);
    let shelf = world.shelf(bucket, cx.req.param("prefix"@));
    let left = past(shelf, marker);
    let page = world.page(bucket, cx.req.param("prefix"@), marker, limit + 1);
    if in_second_form {
        second_form_shows(cx, bucket, left, page.objects, limit);
    } else {
        first_form_shows(cx, bucket, left, page.objects, limit);
    }
    shelves_hold_the_objects(world, bucket, cx.req.param("prefix"@));
    if left.len() > limit {
        pages_go_on(shelf, marker, limit);
    }
}

proof fn first_form_shows(
    cx: ContextView,
    bucket: Text,
    left: Seq<ObjectView>,
    blobs: Seq<ObjectView>,
    limit: int,
)
    requires
        1 <= limit,
        blobs == first_of(left, limit + 1),
    ensures
        lists_in_first_form(
            xml_response(cx.stamp, 200, listing(bucket, blobs, limit)),
            left,
            limit,
        ),
{
    shown_texts(left, blobs, limit);
    let head = "<?xml version=\"1.0\" encoding=\"UTF-8\"?><ListBucketResult><Name>"@ + xml(bucket);
    let rest = if left.len() > limit {
        "<IsTruncated>"@ + "true"@ + "</IsTruncated>"@ + ("<NextMarker>"@ + xml(
            left[limit - 1].key,
        ) + "</NextMarker>"@)
    } else {
        "<IsTruncated>"@ + "false"@ + "</IsTruncated>"@ + ""@
    };
    assert(listing(bucket, blobs, limit) =~= (head + "</Name>"@) + object_texts(left, limit) + rest
        + "</ListBucketResult>"@);
}

proof fn second_form_shows(
    cx: ContextView,
    bucket: Text,
    left: Seq<ObjectView>,
    blobs: Seq<ObjectView>,
    limit: int,
)
    requires
        1 <= limit,
        blobs == first_of(left, limit + 1),
    ensures
        lists_in_second_form(
            xml_response(cx.stamp, 200, listing_v2(cx.req, bucket, blobs, limit)),
            left,
            limit,
        ),
{
    shown_texts(left, blobs, limit);
    let head = "<?xml version=\"1.0\" encoding=\"UTF-8\"?><ListBucketResult><Name>"@ + xml(bucket)
        + "</Name><Prefix>"@ + xml(or_text(cx.req.param("prefix"@), ""@)) + "</Prefix>"@;
    second_form_is_so(cx, bucket, blobs, limit, head);
    let middle = crate::gcs::xml_api::optional_element(
        "<ContinuationToken>"@,
        cx.req.param("continuation-token"@),
        "</ContinuationToken>"@,
    );
    let rest = crate::gcs::xml_api::optional_element(
        "<StartAfter>"@,
        cx.req.param("start-after"@),
        "</StartAfter>"@,
    );
    let more = left.len() > limit;
    let count = if more {
        limit
    } else {
        left.len() as int
    };
    let truncated = if more {
        "true"@
    } else {
        "false"@
    };
    let token = if more {
        "<NextContinuationToken>"@ + xml(page_token("xml-objects"@, left[limit - 1].key))
            + "</NextContinuationToken>"@
    } else {
        ""@
    };
    let text = second_form(
        head,
        decimal(count),
        decimal(limit),
        truncated,
        middle,
        token,
        rest,
        object_texts(left, limit),
    );
    assert(listing_v2(cx.req, bucket, blobs, limit) == text);
    let reply = xml_response(cx.stamp, 200, listing_v2(cx.req, bucket, blobs, limit));
    assert(reply.status == 200);
    assert(is_in_second_form(reply.body, left, limit, head, middle, rest));
}

/// The second form, with its parts apart.
proof fn second_form_is_so(
    cx: ContextView,
    bucket: Text,
    blobs: Seq<ObjectView>,
    limit: int,
    head: Text,
)
    requires
        head == "<?xml version=\"1.0\" encoding=\"UTF-8\"?><ListBucketResult><Name>"@ + xml(bucket)
            + "</Name><Prefix>"@ + xml(or_text(cx.req.param("prefix"@), ""@)) + "</Prefix>"@,
    ensures
        ({
            let shown = first_of(blobs, limit);
            crate::gcs::xml_api::listing_v2(cx.req, bucket, blobs, limit) == head + "<KeyCount>"@
                + decimal(shown.len() as int) + "</KeyCount><MaxKeys>"@ + decimal(limit)
                + "</MaxKeys><IsTruncated>"@ + crate::azure::basics::truth(blobs.len() > limit)
                + "</IsTruncated>"@ + crate::gcs::xml_api::optional_element(
                "<ContinuationToken>"@,
                cx.req.param("continuation-token"@),
                "</ContinuationToken>"@,
            ) + crate::gcs::xml_api::optional_element(
                "<NextContinuationToken>"@,
                match last_shown(blobs, limit) {
                    Some(last) => Some(page_token("xml-objects"@, last)),
                    None => None,
                },
                "</NextContinuationToken>"@,
            ) + crate::gcs::xml_api::optional_element(
                "<StartAfter>"@,
                cx.req.param("start-after"@),
                "</StartAfter>"@,
            ) + bucket_items_upto(shown, shown.len() as int) + "</ListBucketResult>"@
        }),
{
    reveal_strlit("</Prefix><KeyCount>");
    reveal_strlit("</Prefix>");
    reveal_strlit("<KeyCount>");
    assert("</Prefix><KeyCount>"@ =~= "</Prefix>"@ + "<KeyCount>"@);
    let a = "<?xml version=\"1.0\" encoding=\"UTF-8\"?><ListBucketResult><Name>"@ + xml(bucket)
        + "</Name><Prefix>"@ + xml(or_text(cx.req.param("prefix"@), ""@));
    assert(a + "</Prefix><KeyCount>"@ =~= head + "<KeyCount>"@);
}

} // verus!
