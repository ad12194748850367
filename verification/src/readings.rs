//! How the texts of requests are read.

use vstd::prelude::*;
use vstd::string::*;
use vstd::utf8::{encode_utf8, encode_utf8_decode_utf8};
use crate::azure::basics::{
    header_metadata, metadata_upto, parse_resource, range_of, write_range_of, ResourceView,
};
use crate::azure::blocks::{
    read_from, references, selector_of, AzureBlockListError, AzureBlockSelector, ListReaderView,
    ReferencesView,
};
use crate::azure::replies::once_each;
use crate::gcs::basics::{parse_path, request_host_bucket};
use crate::gcs::multipart::UploadMetadataView;
use crate::gcs::uploads::{merged, merged_upto, new_session};
use crate::http::{path_text, ContextView, HeaderView, RequestView};
use crate::number::{decimal, decimal_is_digits, reading_undoes_writing};
use crate::table::{get, get_with, lookup_from};
use crate::text::{find_from, split_once, strip_prefix};
use crate::views::{Pairs, Text};
use crate::xml::{xml_unescaped, XmlEventView};

verus! {

/// Whether a text holds no `c`.
pub open spec fn lacks(s: Text, c: char) -> bool {
    forall|i: int| 0 <= i < s.len() ==> #[trigger] s[i] != c
}

proof fn mark_is_found(s: Text, c: char, at: int, i: int)
    requires
        0 <= i <= at < s.len(),
        s[at] == c,
        forall|k: int| i <= k < at ==> s[k] != c,
    ensures
        find_from(s, seq![c], i) == Some(at),
    decreases at - i,
{
    if i < at {
        assert(s.subrange(i, i + 1)[0] == s[i]);
        mark_is_found(s, c, at, i + 1);
    } else {
        assert(s.subrange(i, i + 1) =~= seq![c]);
    }
}

/// A text is split at its first mark.
pub proof fn marks_split(a: Text, c: char, b: Text)
    requires
        lacks(a, c),
    ensures
        split_once(a + seq![c] + b, seq![c]) == Some((a, b)),
{
    let s = a + seq![c] + b;
    assert forall|k: int| 0 <= k < a.len() implies s[k] != c by {
        assert(s[k] == a[k]);
    }
    mark_is_found(s, c, a.len() as int, 0);
    assert(s.subrange(0, a.len() as int) =~= a);
    assert(s.subrange(a.len() as int + 1, s.len() as int) =~= b);
}

proof fn mark_is_missed(s: Text, c: char, i: int)
    requires
        0 <= i,
        lacks(s, c),
    ensures
        find_from(s, seq![c], i) is None,
    decreases s.len() + 1 - i,
{
    if i + 1 <= s.len() {
        assert(s.subrange(i, i + 1)[0] == s[i]);
        mark_is_missed(s, c, i + 1);
    }
}

/// What follows the front of a text.
pub proof fn fronts_are_stripped(front: Text, rest: Text)
    ensures
        strip_prefix(front + rest, front) == Some(rest),
{
    let s = front + rest;
    assert(s.subrange(0, front.len() as int) =~= front);
    assert(s.subrange(front.len() as int, s.len() as int) =~= rest);
}

/// `bytes=a-b` asks for the bytes from `a` to `b`, both included, as far as there are any, and
/// `bytes=a-` for those from `a` to the end. A range that starts behind the end, or ends before
/// its start, has none.
pub proof fn ranges_are_read(a: int, b: int, size: int)
    requires
        0 <= a <= u64::MAX,
        0 <= b <= u64::MAX,
        0 <= size,
    ensures
        range_of("bytes="@ + (decimal(a) + "-"@ + decimal(b)), size) == if a < size && a <= b {
            Some((
                a,
                if b < size {
                    b
                } else {
                    size - 1
                },
            ))
        } else {
            None
        },
        range_of("bytes="@ + (decimal(a) + "-"@ + ""@), size) == if a < size {
            Some((a, size - 1))
        } else {
            None
        },
        a <= usize::MAX && b <= usize::MAX ==> write_range_of(
            "bytes="@ + (decimal(a) + "-"@ + decimal(b)),
        ) == if a <= b {
            Some((a, b))
        } else {
            None
        },
{
    reveal_strlit("-");
    reveal_strlit("");
    assert("-"@ =~= seq!['-']);
    assert(""@.len() == 0);
    decimal_is_digits(a);
    decimal_is_digits(b);
    assert(lacks(decimal(a), '-'));
    marks_split(decimal(a), '-', decimal(b));
    marks_split(decimal(a), '-', ""@);
    fronts_are_stripped("bytes="@, decimal(a) + "-"@ + decimal(b));
    fronts_are_stripped("bytes="@, decimal(a) + "-"@ + ""@);
    reading_undoes_writing(a, u64::MAX as int);
    reading_undoes_writing(b, u64::MAX as int);
    if a <= usize::MAX && b <= usize::MAX {
        reading_undoes_writing(a, usize::MAX as int);
        reading_undoes_writing(b, usize::MAX as int);
    }
}

proof fn lookup_is_none<V>(entries: Seq<(Text, V)>, key: Text, i: int)
    requires
        0 <= i,
        forall|j: int| i <= j < entries.len() ==> (#[trigger] entries[j]).0 != key,
    ensures
        lookup_from(entries, key, i) is None,
    decreases entries.len() - i,
{
    if i < entries.len() {
        assert(entries[i].0 != key);
        lookup_is_none(entries, key, i + 1);
    }
}

proof fn lookup_is_there<V>(entries: Seq<(Text, V)>, key: Text, at: int, i: int)
    requires
        0 <= i <= at < entries.len(),
        entries[at].0 == key,
        forall|j: int| i <= j < at ==> (#[trigger] entries[j]).0 != key,
    ensures
        lookup_from(entries, key, i) == Some(entries[at].1),
    decreases at - i,
{
    if i < at {
        assert(entries[i].0 != key);
        lookup_is_there(entries, key, at, i + 1);
    }
}

/// A table finds the entry of a key where no key occurs twice.
pub proof fn entries_are_found<V>(entries: Seq<(Text, V)>, at: int)
    requires
        once_each(entries),
        0 <= at < entries.len(),
    ensures
        get(entries, entries[at].0) == Some(entries[at].1),
{
    assert forall|j: int| 0 <= j < at implies (#[trigger] entries[j]).0 != entries[at].0 by {}
    lookup_is_there(entries, entries[at].0, at, 0);
}

/// A table has nothing for a key that does not occur.
pub proof fn absent_keys_are_missed<V>(entries: Seq<(Text, V)>, key: Text)
    requires
        forall|j: int| 0 <= j < entries.len() ==> (#[trigger] entries[j]).0 != key,
    ensures
        get(entries, key) is None,
{
    lookup_is_none(entries, key, 0);
}

proof fn without_keeps_once_each<V>(entries: Seq<(Text, V)>, key: Text, n: int)
    requires
        0 <= n <= entries.len(),
        once_each(entries),
    ensures
        once_each(crate::table::without_upto(entries, key, n)),
        forall|q: int|
            0 <= q < crate::table::without_upto(entries, key, n).len() ==> (
            #[trigger] crate::table::without_upto(entries, key, n)[q]).0 != key && exists|k: int|
                0 <= k < n && #[trigger] entries[k] == crate::table::without_upto(
                    entries,
                    key,
                    n,
                )[q],
    decreases n,
{
    if n > 0 {
        without_keeps_once_each(entries, key, n - 1);
        let before = crate::table::without_upto(entries, key, n - 1);
        let out = crate::table::without_upto(entries, key, n);
        assert forall|q: int| 0 <= q < out.len() implies (#[trigger] out[q]).0 != key && exists|
            k: int,
        | 0 <= k < n && #[trigger] entries[k] == out[q] by {
            if q < before.len() {
                assert(out[q] == before[q]);
                let k = choose|k: int| 0 <= k < n - 1 && #[trigger] entries[k] == before[q];
                assert(entries[k] == out[q]);
            } else {
                assert(entries[n - 1] == out[q]);
            }
        }
        assert forall|i: int, j: int| 0 <= i < j < out.len() implies (#[trigger] out[i]).0 != (
        #[trigger] out[j]).0 by {
            assert(out[i] == before[i]);
            if j < before.len() {
                assert(out[j] == before[j]);
            } else {
                let k = choose|k: int| 0 <= k < n - 1 && #[trigger] entries[k] == before[i];
                assert(entries[k].0 != entries[n - 1].0);
            }
        }
    }
}

/// Putting an entry into a table leaves each key once.
pub proof fn with_keeps_once_each<V>(entries: Seq<(Text, V)>, key: Text, value: V)
    requires
        once_each(entries),
    ensures
        once_each(crate::table::with(entries, key, value)),
        once_each(crate::table::without(entries, key)),
{
    without_keeps_once_each(entries, key, entries.len() as int);
}

proof fn metadata_upto_is_read(
    headers: Seq<(Text, HeaderView)>,
    prefix: Text,
    key: Text,
    n: int,
)
    requires
        once_each(headers),
        0 <= n <= headers.len(),
    ensures
        once_each(metadata_upto(headers, prefix, n)),
        get(metadata_upto(headers, prefix, n), key) == match get(
            headers.subrange(0, n),
            prefix + key,
        ) {
            Some(value) => value.text(),
            None => None,
        },
    decreases n,
{
    let front = headers.subrange(0, n);
    if n > 0 {
        metadata_upto_is_read(headers, prefix, key, n - 1);
        let before = headers.subrange(0, n - 1);
        let entry = headers[n - 1];
        let so_far = metadata_upto(headers, prefix, n - 1);
        assert(front =~= before.push(entry));
        crate::table::lookup_push(before, entry, prefix + key, 0);
        if let Some(name) = strip_prefix(entry.0, prefix) {
            assert(entry.0 =~= prefix + name);
            if let Some(value) = entry.1.text() {
                get_with(so_far, name, value, key);
                with_keeps_once_each(so_far, name, value);
            }
            if name != key {
                assert((prefix + name).skip(prefix.len() as int) =~= name);
                assert((prefix + key).skip(prefix.len() as int) =~= key);
            } else {
                assert forall|j: int| 0 <= j < before.len() implies (#[trigger] before[j]).0
                    != prefix + key by {
                    assert(before[j] == headers[j]);
                }
                absent_keys_are_missed(before, prefix + key);
            }
        } else if entry.0 == prefix + key {
            fronts_are_stripped(prefix, key);
        }
    } else {
        assert(front =~= Seq::empty());
    }
}

/// The metadata that a request gives has for each key the text of the header that is named by
/// the prefix and the key, and nothing else.
pub proof fn metadata_is_read(req: RequestView, prefix: Text, key: Text)
    requires
        once_each(req.headers),
    ensures
        once_each(header_metadata(req, prefix)),
        get(header_metadata(req, prefix), key) == req.header(prefix + key),
{
    metadata_upto_is_read(req.headers, prefix, key, req.headers.len() as int);
    assert(req.headers.subrange(0, req.headers.len() as int) =~= req.headers);
}

// ---------------------------------------------------------------------------
// Paths

/// A path `/account/container/blob` names the three, of which the last two are decoded, and the
/// last may hold slashes.
pub proof fn blob_paths_are_read(
    account: Text,
    container: Text,
    key: Text,
    raw_container: Text,
    raw_key: Text,
)
    requires
        account.len() > 0,
        lacks(account, '/'),
        raw_container.len() > 0,
        lacks(raw_container, '/'),
        raw_key.len() > 0,
        path_text(raw_container) == Some(container),
        path_text(raw_key) == Some(key),
    ensures
        parse_resource("/"@ + (account + "/"@ + (raw_container + "/"@ + raw_key))) == Ok::<_, Text>(
            (ResourceView { account, container: Some(container), blob: Some(key) }),
        ),
        parse_resource("/"@ + (account + "/"@ + raw_container)) == Ok::<_, Text>(
            (ResourceView { account, container: Some(container), blob: None }),
        ),
        parse_resource("/"@ + account) == Ok::<_, Text>(
            (ResourceView { account, container: None, blob: None }),
        ),
{
    reveal_strlit("/");
    assert("/"@ =~= seq!['/']);
    let inner = raw_container + "/"@ + raw_key;
    fronts_are_stripped("/"@, account + "/"@ + inner);
    fronts_are_stripped("/"@, account + "/"@ + raw_container);
    fronts_are_stripped("/"@, account);
    marks_split(account, '/', inner);
    marks_split(account, '/', raw_container);
    marks_split(raw_container, '/', raw_key);
    mark_is_missed(account, '/', 0);
    mark_is_missed(raw_container, '/', 0);
}

/// A path `/bucket/object` of the XML API names both, of which the object is decoded and may
/// hold slashes, unless the host of the request names a bucket.
pub proof fn object_paths_are_read(req: RequestView, bucket: Text, key: Text, raw_key: Text)
    requires
        request_host_bucket(req) is None,
        bucket.len() > 0,
        lacks(bucket, '/'),
        raw_key.len() > 0,
        path_text(raw_key) == Some(key),
    ensures
        req.path == "/"@ + (bucket + "/"@ + raw_key) ==> parse_path(req) == Ok::<_, Text>(
            (Some(bucket), Some(key)),
        ),
        req.path == "/"@ + bucket ==> parse_path(req) == Ok::<_, Text>(
            (Some(bucket), None::<Text>),
        ),
{
    reveal_strlit("/");
    assert("/"@ =~= seq!['/']);
    fronts_are_stripped("/"@, bucket + "/"@ + raw_key);
    fronts_are_stripped("/"@, bucket);
    marks_split(bucket, '/', raw_key);
    mark_is_missed(bucket, '/', 0);
}

/// The host of a request of the XML API can name the bucket: then all of the path is the object.
pub proof fn hosts_name_buckets(req: RequestView, bucket: Text, key: Text, raw_key: Text)
    requires
        request_host_bucket(req) == Some(bucket),
        raw_key.len() > 0,
        path_text(raw_key) == Some(key),
        req.path == "/"@ + raw_key,
    ensures
        parse_path(req) == Ok::<_, Text>((Some(bucket), Some(key))),
{
    fronts_are_stripped("/"@, raw_key);
}

// ---------------------------------------------------------------------------
// Lists of blocks

/// The element of a selector.
pub open spec fn element_of(selector: AzureBlockSelector) -> Seq<u8> {
    encode_utf8(
        match selector {
            AzureBlockSelector::Latest => "Latest"@,
            AzureBlockSelector::Committed => "Committed"@,
            AzureBlockSelector::Uncommitted => "Uncommitted"@,
        },
    )
}

/// The events of the entries of a list from place `i` on, and of its end.
pub open spec fn entry_events(list: ReferencesView, i: int) -> Seq<XmlEventView>
    decreases list.len() - i,
{
    if i >= list.len() {
        seq![XmlEventView::End(encode_utf8("BlockList"@))]
    } else {
        seq![
            XmlEventView::Start(element_of(list[i].1)),
            XmlEventView::Text(Some(list[i].0)),
            XmlEventView::End(element_of(list[i].1)),
        ] + entry_events(list, i + 1)
    }
}

proof fn elements_are_told_apart(selector: AzureBlockSelector)
    ensures
        selector_of(element_of(selector)) == Some(selector),
        element_of(selector) != encode_utf8("BlockList"@),
{
    reveal_strlit("Latest");
    reveal_strlit("Committed");
    reveal_strlit("Uncommitted");
    reveal_strlit("BlockList");
    assert("Latest"@.len() == 6 && "Committed"@.len() == 9 && "Uncommitted"@.len() == 11);
    assert("BlockList"@.len() == 9 && "BlockList"@[0] != "Committed"@[0]);
    encode_utf8_decode_utf8("Latest"@);
    encode_utf8_decode_utf8("Committed"@);
    encode_utf8_decode_utf8("Uncommitted"@);
    encode_utf8_decode_utf8("BlockList"@);
}

proof fn entries_are_read(
    events: Seq<XmlEventView>,
    list: ReferencesView,
    at: int,
    i: int,
    reader: ListReaderView,
)
    requires
        0 <= i <= list.len(),
        0 <= at <= events.len(),
        events.skip(at) == entry_events(list, i),
        reader.root_seen,
        !reader.root_closed,
        reader.current is None,
        reader.references == list.take(i),
        reader.id.len() == 0,
        list.len() > 0,
        forall|k: int|
            0 <= k < list.len() ==> (#[trigger] list[k]).0.len() > 0 && xml_unescaped(list[k].0)
                == Some(list[k].0),
    ensures
        read_from(reader, events, at) == Ok::<_, AzureBlockListError>(list),
    decreases list.len() - i,
{
    let rest = entry_events(list, i);
    assert(rest.len() >= 1);
    assert(events[at] == rest[0]);
    if i >= list.len() {
        assert(list.take(i) =~= list);
        let next = ListReaderView { root_closed: true, ..reader };
        assert(reader.advance(events[at]) == Ok::<_, AzureBlockListError>(next));
        assert(events.len() == at + 1) by {
            assert(events.skip(at).len() == 1);
        }
        assert(read_from(next, events, at + 1) == next.finish());
    } else {
        let entry = list[i];
        elements_are_told_apart(entry.1);
        assert(entry.0.len() > 0);
        assert(rest.len() >= 4) by {
            assert(entry_events(list, i + 1).len() >= 1);
        }
        assert(events[at + 1] == rest[1]);
        assert(events[at + 2] == rest[2]);
        let a = ListReaderView { current: Some(entry.1), id: Seq::empty(), ..reader };
        let b = ListReaderView { id: entry.0, ..a };
        let c = ListReaderView {
            current: None,
            id: Seq::empty(),
            references: reader.references.push(entry),
            ..b
        };
        assert(reader.advance(events[at]) == Ok::<_, AzureBlockListError>(a));
        assert(Seq::<char>::empty() + entry.0 =~= entry.0);
        assert(a.advance(events[at + 1]) == Ok::<_, AzureBlockListError>(b));
        assert(b.advance(events[at + 2]) == Ok::<_, AzureBlockListError>(c));
        assert(events.skip(at + 3) =~= entry_events(list, i + 1)) by {
            assert(events.skip(at).skip(3) =~= events.skip(at + 3));
            assert(rest.skip(3) =~= entry_events(list, i + 1));
        }
        assert(list.take(i + 1) =~= list.take(i).push(entry));
        entries_are_read(events, list, at + 3, i + 1, c);
        assert(read_from(b, events, at + 2) == read_from(c, events, at + 3));
        assert(read_from(a, events, at + 1) == read_from(b, events, at + 2));
        assert(read_from(reader, events, at) == read_from(a, events, at + 1));
    }
}

/// A block list is read as it is written: each element with its selector, in order.
pub proof fn block_lists_are_read(list: ReferencesView)
    requires
        list.len() > 0,
        forall|k: int|
            0 <= k < list.len() ==> (#[trigger] list[k]).0.len() > 0 && xml_unescaped(list[k].0)
                == Some(list[k].0),
    ensures
        references(
            seq![XmlEventView::Start(encode_utf8("BlockList"@))] + entry_events(list, 0),
        ) == Ok::<_, AzureBlockListError>(list),
{
    let events = seq![XmlEventView::Start(encode_utf8("BlockList"@))] + entry_events(list, 0);
    let start = crate::azure::blocks::list_start();
    let opened = ListReaderView { root_seen: true, ..start };
    assert(events[0] == XmlEventView::Start(encode_utf8("BlockList"@)));
    assert(start.advance(events[0]) == Ok::<_, AzureBlockListError>(opened));
    assert(events.skip(1) =~= entry_events(list, 0));
    assert(list.take(0) =~= Seq::empty());
    entries_are_read(events, list, 1, 0, opened);
}

// ---------------------------------------------------------------------------
// Uploads that are announced

proof fn merged_upto_prefers_the_later(table: Pairs, more: Pairs, key: Text, n: int)
    requires
        0 <= n <= more.len(),
        once_each(more),
    ensures
        get(merged_upto(table, more, n), key) == match get(more.subrange(0, n), key) {
            Some(value) => Some(value),
            None => get(table, key),
        },
    decreases n,
{
    if n > 0 {
        merged_upto_prefers_the_later(table, more, key, n - 1);
        let before = more.subrange(0, n - 1);
        let entry = more[n - 1];
        assert(more.subrange(0, n) =~= before.push(entry));
        crate::table::lookup_push(before, entry, key, 0);
        get_with(merged_upto(table, more, n - 1), entry.0, entry.1, key);
        if entry.0 == key {
            assert forall|j: int| 0 <= j < before.len() implies (#[trigger] before[j]).0 != key by {
                assert(before[j] == more[j]);
            }
            absent_keys_are_missed(before, key);
        }
    } else {
        assert(more.subrange(0, 0) =~= Seq::empty());
    }
}

/// The metadata of an announced upload is that of its announcement, where the final request does
/// not give a key anew.
pub proof fn later_metadata_wins(table: Pairs, more: Pairs, key: Text)
    requires
        once_each(more),
    ensures
        get(merged(table, more), key) == match get(more, key) {
            Some(value) => Some(value),
            None => get(table, key),
        },
{
    merged_upto_prefers_the_later(table, more, key, more.len() as int);
    assert(more.subrange(0, more.len() as int) =~= more);
}

/// What is remembered of an announced upload is what the announcement says: where the object is
/// to go, its type, its metadata and checksum, and the preconditions.
pub proof fn announcements_are_remembered(
    cx: ContextView,
    bucket: Text,
    key: Text,
    metadata: UploadMetadataView,
)
    ensures
        ({
            let session = new_session(cx, bucket, key, metadata);
            &&& session.bucket == bucket
            &&& session.key == key
            &&& session.content_type == match (
                metadata.content_type,
                cx.req.header("x-upload-content-type"@),
            ) {
                (Some(given), _) => given,
                (None, Some(given)) => given,
                (None, None) => "application/octet-stream"@,
            }
            &&& session.metadata == metadata.metadata
            &&& session.crc32c == metadata.crc32c
            &&& session.if_generation_match == cx.req.param("ifGenerationMatch"@)
            &&& session.if_generation_not_match == cx.req.param("ifGenerationNotMatch"@)
        }),
{
}

} // verus!
