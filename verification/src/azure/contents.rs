//! What is stored for blobs, and what is read back.

use vstd::prelude::*;
use vstd::string::*;
use crate::azure::adapter::handle_request;
use crate::azure::auth::authorize;
use crate::azure::basics::{
    blob_type, carried, conditions_match, content_type, error_response, history_conflict,
    meta_headers, meta_headers_upto, metadata_from_headers, parse_resource, quoted, range_of,
    requested_range, write_condition, write_range_of, ResourceView, AZURE_BLOB_TYPE_KEY,
    AZURE_LEASE_DURATION_KEY, AZURE_LEASE_ID_KEY, AZURE_LEASE_STATE_KEY, AZURE_LEASE_STATUS_KEY,
};
use crate::azure::blobs::{
    append_block, created_blob, delete_blob, get_blob, handle_blob_crud, head_blob, put_blob,
    put_page,
};
use crate::azure::blocks::{
    content, content_upto, put_block_list, resolved, resolved_from, selected, takes_staged, untaken,
    untaken_upto, AzureBlockSelector, ReferencesView,
};
use crate::azure::guards::get_carried;
use crate::azure::rules::blob_for_type;
use crate::codec::content_etag;
use crate::http::{ContextView, Method, RequestView, ResponseView};
use crate::store::{
    BucketView, ConditionView, EffectView, ObjectView, OutcomeView, StepView, TapeView,
};
use crate::table::{get, get_with, get_without, with};
use crate::text::{
    contains, find_from, find_from_is_place, nothing_to_trim, quotes_are_trimmed, starts_with,
};
use crate::views::Text;

verus! {

// ---------------------------------------------------------------------------
// Writing and reading

/// The object that an effect puts, and where.
pub open spec fn put_by(effect: EffectView) -> Option<(Text, Text, ObjectView)> {
    match effect {
        EffectView::PutObject(container, key, object) => Some((container, key, object)),
        EffectView::PutObjectIf(container, key, object, _) => Some((container, key, object)),
        _ => None,
    }
}

proof fn created_blobs_are_as_sent(cx: ContextView, key: Text, existing: Option<ObjectView>)
    ensures
        ({
            let object = created_blob(cx, key, existing);
            let kind = cx.req.header("x-ms-blob-type"@)->0;
            &&& object.key == key
            &&& kind != "PageBlob"@ ==> object.data == cx.req.body
            &&& object.size == object.data.len() as u64
            &&& object.etag == content_etag(object.data)
            &&& object.content_type == content_type(cx.req)
            &&& object.metadata == metadata_from_headers(cx.req)
            &&& blob_type(object) == kind
        }),
{
    let fresh = blob_for_type(cx.stamp, cx.req, key);
    let kind = cx.req.header("x-ms-blob-type"@)->0;
    get_with(Seq::<(Text, Text)>::empty(), AZURE_BLOB_TYPE_KEY@, kind, AZURE_BLOB_TYPE_KEY@);
    match existing {
        Some(existing) => {
            reveal_strlit("azure_blob_type");
            reveal_strlit("azure_lease_id");
            reveal_strlit("azure_lease_state");
            reveal_strlit("azure_lease_status");
            reveal_strlit("azure_lease_duration");
            assert(AZURE_BLOB_TYPE_KEY@.len() == 15);
            assert(AZURE_LEASE_ID_KEY@.len() == 14);
            assert(AZURE_LEASE_STATE_KEY@.len() == 17);
            assert(AZURE_LEASE_STATUS_KEY@.len() == 18);
            assert(AZURE_LEASE_DURATION_KEY@.len() == 20);
            let from = existing.provider_metadata;
            let to = fresh.provider_metadata;
            let a = carried(from, to, AZURE_LEASE_ID_KEY@);
            let b = carried(from, a, AZURE_LEASE_STATE_KEY@);
            let c = carried(from, b, AZURE_LEASE_STATUS_KEY@);
            get_carried(from, c, AZURE_LEASE_DURATION_KEY@, AZURE_BLOB_TYPE_KEY@);
            get_carried(from, b, AZURE_LEASE_STATUS_KEY@, AZURE_BLOB_TYPE_KEY@);
            get_carried(from, a, AZURE_LEASE_STATE_KEY@, AZURE_BLOB_TYPE_KEY@);
            get_carried(from, to, AZURE_LEASE_ID_KEY@, AZURE_BLOB_TYPE_KEY@);
        },
        None => {},
    }
}

/// What Put Blob changes is the blob it names: there it puts the body, with the type and the
/// metadata that the request gives.
pub proof fn blobs_are_stored_as_sent(
    cx: ContextView,
    container: Text,
    key: Text,
    snapshot: Option<Text>,
    tape: TapeView,
)
    ensures
        put_blob(cx, container, key, snapshot, tape) matches StepView::Perform(effect) ==> (
        effect.mutates() ==> (put_by(effect) matches Some(put) && put.0 == container && put.1 == key
            && put.2.key == key && (blob_type(put.2) != "PageBlob"@ ==> put.2.data == cx.req.body)
            && put.2.size == put.2.data.len() as u64 && put.2.etag == content_etag(put.2.data)
            && put.2.content_type == content_type(cx.req) && put.2.metadata
            == metadata_from_headers(cx.req) && Some(blob_type(put.2)) == cx.req.header(
            "x-ms-blob-type"@,
        ))),
{
    if tape.len() > 0 {
        match tape[0] {
            OutcomeView::Object(Ok(existing)) => {
                created_blobs_are_as_sent(cx, key, Some(existing));
            },
            _ => {
                created_blobs_are_as_sent(cx, key, None);
            },
        }
    }
}

/// Headers for metadata leave the status of a reply as it is.
pub proof fn meta_headers_keep_the_status(
    response: ResponseView,
    prefix: Text,
    metadata: Seq<(Text, Text)>,
    i: int,
)
    ensures
        meta_headers_upto(response, prefix, metadata, i).status == response.status,
    decreases i,
{
    if i > 0 {
        meta_headers_keep_the_status(response, prefix, metadata, i - 1);
    }
}

/// A blob is read as it was written: where storage has what a write put, a read of the whole
/// gives the body of that write, and a read of a part the bytes of that part.
pub proof fn blobs_are_read_as_they_were_written(
    write: ContextView,
    read: ContextView,
    container: Text,
    key: Text,
    effect: EffectView,
    stored: ObjectView,
    write_tape: TapeView,
    read_tape: TapeView,
)
    requires
        put_blob(write, container, key, None, write_tape) == StepView::Perform(effect),
        effect.mutates(),
        write.req.header("x-ms-blob-type"@) != Some("PageBlob"@),
        put_by(effect) matches Some(put) && stored == (ObjectView {
            version_id: stored.version_id,
            ..put.2
        }),
        read_tape.len() > 0,
        read_tape[0] == OutcomeView::Object(Ok(stored)),
        read_tape.len() > 1 ==> (read_tape[1] matches OutcomeView::Payload(Ok(payload)) ==> (
        requested_range(read.req) matches Some(range) && range_of(range, stored.size as int) matches
            Some(span) && payload.data == stored.data.subrange(span.0, span.1 + 1))),
    ensures
        get_blob(read, container, key, None, read_tape) matches StepView::Reply(reply) ==> {
            &&& requested_range(read.req) is None ==> reply.status == 200 && reply.body
                == write.req.body
            &&& requested_range(read.req) matches Some(range) ==> (range_of(
                range,
                stored.size as int,
            ) matches Some(span) ==> (span.1 <= usize::MAX ==> reply.status == 206 && reply.body
                == write.req.body.subrange(span.0, span.1 + 1)))
        },
{
    blobs_are_stored_as_sent(write, container, key, None, write_tape);
    assert forall|described: ObjectView, base: ResponseView| #![trigger meta_headers(
        base,
        "x-ms-meta-"@,
        described.metadata,
    )] meta_headers(base, "x-ms-meta-"@, described.metadata).status == base.status by {
        meta_headers_keep_the_status(
            base,
            "x-ms-meta-"@,
            described.metadata,
            described.metadata.len() as int,
        );
    }
    if read_tape.len() > 1 {
        assert(read_tape.skip(1)[0] == read_tape[1]);
    }
}

/// A request for a blob itself comes to the operation of its method, once storage has said that
/// the container exists, is not being deleted and keeps no history for another front door.
pub proof fn requests_come_to_their_blob(
    cx: ContextView,
    account: Text,
    container: Text,
    key: Text,
    bucket: BucketView,
    tape: TapeView,
)
    requires
        parse_resource(cx.req.path) == Ok::<_, Text>(
            (ResourceView { account, container: Some(container), blob: Some(key) }),
        ),
        authorize(
            cx.stamp,
            cx.req,
            cx.auth,
            (ResourceView { account, container: Some(container), blob: Some(key) }),
        ) is Ok,
        cx.req.param("restype"@) is None,
        cx.req.param("comp"@) is None,
        cx.req.param("snapshot"@) is None,
        cx.req.param("versionid"@) is None,
        cx.req.header("x-ms-copy-source"@) is None,
        !history_conflict(Some(bucket)),
    ensures
        handle_request(
            cx,
            seq![
                OutcomeView::Deletion(Ok(None)),
                OutcomeView::Deletion(Ok(None)),
                OutcomeView::Bucket(Ok(bucket)),
                OutcomeView::Bucket(Ok(bucket)),
            ] + tape,
        ) == handle_blob_crud(cx, container, key, tape),
        handle_blob_crud(cx, container, key, tape) == match cx.req.method {
            Method::Put => put_blob(cx, container, key, None, tape),
            Method::Get => get_blob(cx, container, key, None, tape),
            Method::Head => head_blob(cx, container, key, None, tape),
            Method::Delete => delete_blob(cx, container, key, None, tape),
            _ => StepView::Reply(
                error_response(
                    cx.stamp,
                    405,
                    "UnsupportedHttpVerb"@,
                    "Unsupported Azure blob operation"@,
                ),
            ),
        },
{
    let first = seq![
        OutcomeView::Deletion(Ok(None)),
        OutcomeView::Deletion(Ok(None)),
        OutcomeView::Bucket(Ok(bucket)),
        OutcomeView::Bucket(Ok(bucket)),
    ];
    let all = first + tape;
    assert(all[0] == first[0] && all[1] == first[1] && all[2] == first[2] && all[3] == first[3]);
    assert(all.skip(1)[0] == all[1]);
    assert(all.skip(1).skip(1)[0] == all[2]);
    assert(all.skip(1).skip(1).skip(1)[0] == all[3]);
    assert(all.skip(1).skip(1).skip(1).skip(1) =~= tape);
}

/// Append Block keeps what is there and puts the body behind it, unless the blob has changed
/// meanwhile.
pub proof fn appending_extends(cx: ContextView, container: Text, key: Text, tape: TapeView)
    ensures
        append_block(cx, container, key, tape) matches StepView::Perform(effect) ==> (
        effect.mutates() ==> (effect matches EffectView::PutObjectIf(c, k, object, condition) && c
            == container && k == key && (tape[0] matches OutcomeView::Object(Ok(blob)) && object.data
            == blob.data + cx.req.body && condition == ConditionView::Etag(blob.etag)))),
{
}

/// Whether a content differs from another only in the range of a request, where it holds the
/// body or zeros.
pub open spec fn changed_in_range(req: RequestView, before: Seq<u8>, after: Seq<u8>) -> bool {
    let span = write_range_of(requested_range(req)->0)->0;
    &&& after.len() == before.len()
    &&& span.0 <= span.1 < before.len()
    &&& forall|i: int|
        0 <= i < after.len() ==> #[trigger] after[i] == if span.0 <= i <= span.1 {
            if req.header("x-ms-page-write"@) == Some("clear"@) {
                0u8
            } else {
                req.body[i - span.0]
            }
        } else {
            before[i]
        }
}

/// Put Page replaces or clears the bytes of its range and no others, unless the blob has
/// changed meanwhile.
pub proof fn page_writes_stay_in_their_range(
    cx: ContextView,
    container: Text,
    key: Text,
    tape: TapeView,
)
    ensures
        put_page(cx, container, key, tape) matches StepView::Perform(effect) ==> (effect.mutates()
            ==> (effect matches EffectView::PutObjectIf(c, k, object, condition) && c == container
            && k == key && (tape[0] matches OutcomeView::Object(Ok(blob)) && condition
            == ConditionView::Etag(blob.etag) && changed_in_range(cx.req, blob.data, object.data)))),
{
}

// ---------------------------------------------------------------------------
// Conditions

/// Whether a tag can stand between quotes in a condition.
pub open spec fn plain_tag(tag: Text) -> bool {
    forall|i: int| 0 <= i < tag.len() ==> #[trigger] tag[i] != '"' && tag[i] != ','
}

/// The tag of a content is plain.
pub proof fn content_tags_are_plain(data: Seq<u8>)
    ensures
        plain_tag(content_etag(data)),
{
    let tag = content_etag(data);
    assert forall|i: int| 0 <= i < tag.len() implies #[trigger] tag[i] != '"' && tag[i] != ',' by {
        reveal_strlit("0123456789abcdef");
    }
}

/// A tag that a reply gave can be fed back: with it in `If-Match` a write happens where the
/// blob still has the tag, and with it in `If-None-Match` where it does not.
pub proof fn tags_can_be_fed_back(
    cx: ContextView,
    tag: Text,
    current: Option<ObjectView>,
)
    requires
        plain_tag(tag),
        tag != "*"@,
    ensures
        cx.req.header("if-match"@) == Some(quoted(tag)) && cx.req.header("if-none-match"@) is None
            ==> (write_condition(cx.stamp, cx.req) matches Ok(Some(condition)) && (
        condition.holds_of(current) <==> (current matches Some(object) && object.etag == tag)) && (
        current matches Some(object) ==> (conditions_match(cx.req, object.etag) <==> object.etag
            == tag))),
        cx.req.header("if-none-match"@) == Some(quoted(tag)) && cx.req.header("if-match"@) is None
            ==> (write_condition(cx.stamp, cx.req) matches Ok(Some(condition)) && (
        condition.holds_of(current) <==> (current matches Some(object) ==> object.etag != tag)) && (
        current matches Some(object) ==> (conditions_match(cx.req, object.etag) <==> object.etag
            != tag))),
{
    reveal_strlit("\"");
    reveal_strlit("*");
    reveal_strlit("W/");
    reveal_strlit(",");
    let q = quoted(tag);
    assert("\""@ =~= seq!['"']);
    assert(q =~= seq!['"'] + tag + seq!['"']);
    nothing_to_trim(q);
    quotes_are_trimmed(tag, '"');
    assert(q[0] == '"');
    assert(q.len() >= 2);
    assert("*"@.len() == 1);
    assert(!starts_with(q, "W/"@)) by {
        if starts_with(q, "W/"@) {
            assert(q.subrange(0, 2)[0] == "W/"@[0]);
        }
    }
    assert(!contains(q, ","@)) by {
        find_from_is_place(q, ","@, 0);
        if let Some(k) = find_from(q, ","@, 0) {
            assert(q.subrange(k, k + 1)[0] == ','@);
        }
    }
    let listed = seq![tag];
    match current {
        Some(object) => {
            assert(listed.contains(object.etag) <==> object.etag == tag) by {
                assert(listed[0] == tag);
            }
        },
        None => {},
    }
}

/// `If-None-Match: *` lets a write create a blob but replace none, and `If-Match: *` the
/// other way round.
pub proof fn stars_ask_for_presence(cx: ContextView, current: Option<ObjectView>)
    ensures
        cx.req.header("if-match"@) == Some("*"@) && cx.req.header("if-none-match"@) is None ==> (
        write_condition(cx.stamp, cx.req) matches Ok(Some(condition)) && (condition.holds_of(
            current,
        ) <==> current is Some)),
        cx.req.header("if-none-match"@) == Some("*"@) && cx.req.header("if-match"@) is None ==> (
        write_condition(cx.stamp, cx.req) matches Ok(Some(condition)) && (condition.holds_of(
            current,
        ) <==> current is None)),
{
    reveal_strlit("*");
    assert("*"@.len() == 1);
    nothing_to_trim("*"@);
}

/// A write that a request makes conditional is only ever asked of storage with that
/// condition, and so is the deletion of a blob.
pub proof fn conditions_go_to_storage(
    cx: ContextView,
    account: Text,
    container: Text,
    key: Text,
    tape: TapeView,
)
    requires
        cx.req.header("if-match"@) is Some || cx.req.header("if-none-match"@) is Some,
    ensures
        put_blob(cx, container, key, None, tape) matches StepView::Perform(effect) ==> (
        effect.mutates() ==> (effect matches EffectView::PutObjectIf(_, _, _, condition)
            && write_condition(cx.stamp, cx.req) == Ok::<_, ResponseView>(Some(condition)))),
        put_block_list(cx, account, container, key, tape) matches StepView::Perform(effect) ==> (
        effect.mutates() ==> (effect matches EffectView::PutObjectIf(_, _, _, condition)
            && write_condition(cx.stamp, cx.req) == Ok::<_, ResponseView>(Some(condition)))),
{
}

// ---------------------------------------------------------------------------
// Blocks

/// A block list resolves to one block for each entry, in order, each with the content that
/// its entry selects; it fails only where an entry selects nothing.
pub proof fn block_lists_resolve_in_order(
    list: ReferencesView,
    staged: Seq<(Text, Seq<u8>)>,
    committed: Seq<(Text, Seq<u8>)>,
)
    ensures
        match resolved(list, staged, committed) {
            Ok(blocks) => blocks.len() == list.len() && forall|i: int|
                0 <= i < list.len() ==> (#[trigger] blocks[i]).0 == list[i].0 && selected(
                    list[i],
                    staged,
                    committed,
                ) == Some(blocks[i].1),
            Err(id) => exists|i: int|
                0 <= i < list.len() && (#[trigger] list[i]).0 == id && selected(
                    list[i],
                    staged,
                    committed,
                ) is None,
        },
{
    resolved_from_in_order(list, staged, committed, 0);
    if let Ok(blocks) = resolved(list, staged, committed) {
        assert forall|i: int| 0 <= i < list.len() implies (#[trigger] blocks[i]).0 == list[i].0
            && selected(list[i], staged, committed) == Some(blocks[i].1) by {
            assert(blocks[i - 0] == blocks[i]);
        }
    }
}

proof fn resolved_from_in_order(
    list: ReferencesView,
    staged: Seq<(Text, Seq<u8>)>,
    committed: Seq<(Text, Seq<u8>)>,
    from: int,
)
    requires
        0 <= from <= list.len(),
    ensures
        match resolved_from(list, staged, committed, from) {
            Ok(blocks) => blocks.len() == list.len() - from && forall|i: int|
                from <= i < list.len() ==> (#[trigger] blocks[i - from]).0 == list[i].0 && selected(
                    list[i],
                    staged,
                    committed,
                ) == Some(blocks[i - from].1),
            Err(id) => exists|i: int|
                from <= i < list.len() && (#[trigger] list[i]).0 == id && selected(
                    list[i],
                    staged,
                    committed,
                ) is None,
        },
    decreases list.len() - from,
{
    if from < list.len() {
        resolved_from_in_order(list, staged, committed, from + 1);
        if let Some(data) = selected(list[from], staged, committed) {
            if let Ok(rest) = resolved_from(list, staged, committed, from + 1) {
                let blocks = seq![(list[from].0, data)] + rest;
                assert forall|i: int| from <= i < list.len() implies (#[trigger] blocks[i - from]).0
                    == list[i].0 && selected(list[i], staged, committed) == Some(
                    blocks[i - from].1,
                ) by {
                    if i > from {
                        assert(blocks[i - from] == rest[i - (from + 1)]);
                    }
                }
            }
        }
    }
}

/// A commit takes exactly the staged blocks that its list takes from there; the others stay
/// staged as they were.
pub proof fn commits_take_the_listed_blocks(
    list: ReferencesView,
    staged: Seq<(Text, Seq<u8>)>,
    id: Text,
)
    ensures
        get(untaken(list, staged), id) == if exists|i: int|
            0 <= i < list.len() && (#[trigger] list[i]).0 == id && takes_staged(list[i], staged) {
            None
        } else {
            get(staged, id)
        },
{
    untaken_upto_leaves(list, staged, id, list.len() as int);
}

proof fn untaken_upto_leaves(
    list: ReferencesView,
    staged: Seq<(Text, Seq<u8>)>,
    id: Text,
    n: int,
)
    requires
        0 <= n <= list.len(),
    ensures
        get(untaken_upto(list, staged, n), id) == if exists|i: int|
            0 <= i < n && (#[trigger] list[i]).0 == id && takes_staged(list[i], staged) {
            None
        } else {
            get(staged, id)
        },
    decreases n,
{
    if n > 0 {
        untaken_upto_leaves(list, staged, id, n - 1);
        get_without(untaken_upto(list, staged, n - 1), list[n - 1].0, id);
        assert(list[n - 1].0 == list[n - 1].0);
    }
}

/// A block that was staged last under its identifier is what the entry for it commits, and a
/// blob committed from that entry alone has its content.
pub proof fn staged_blocks_are_committed(
    staged: Seq<(Text, Seq<u8>)>,
    committed: Seq<(Text, Seq<u8>)>,
    id: Text,
    body: Seq<u8>,
    selector: AzureBlockSelector,
)
    requires
        selector != AzureBlockSelector::Committed,
    ensures
        resolved(seq![(id, selector)], with(staged, id, body), committed) == Ok::<_, Text>(
            seq![(id, body)],
        ),
        content(seq![(id, body)]) == body,
{
    get_with(staged, id, body, id);
    let list = seq![(id, selector)];
    let now = with(staged, id, body);
    assert(resolved_from(list, now, committed, 1) == Ok::<Seq<(Text, Seq<u8>)>, Text>(
        Seq::empty(),
    ));
    assert(seq![(id, body)] + Seq::<(Text, Seq<u8>)>::empty() =~= seq![(id, body)]);
    assert(content_upto(seq![(id, body)], 0) =~= Seq::<u8>::empty());
    assert(content(seq![(id, body)]) =~= body);
}

} // verus!
