//! Containers: creating, listing and deleting them.

use vstd::prelude::*;
use vstd::string::*;
use crate::azure::AzureBlobAdapter;
use crate::azure::basics::{
    condition_failed, conditions_match, container_not_found, error_response, is_immutable,
    max_results, namespace_etag, namespace_response, refuse, refuse_condition, refuse_container,
    reply, requested_local_retention_modes, response, valid_container_name, xml_reply, xml_response,
    AZURE_BLOB_TYPE_KEY, AZURE_SNAPSHOT_PREFIX, AZURE_SOFT_DELETE_DAYS_KEY, AZURE_VERSIONING_KEY,
};
use crate::clock::{
    format_last_modified_at, http_date, later_by, shifted, Instant, Stamp, StampView,
};
use crate::http::{Context, ContextView, Method, Request, RequestView, Response, ResponseView};
use crate::number::{decimal, read_i64, show, signed};
use crate::order::{
    first_of, keep, kept, name_at, paged, sort, sorted, Filter, FilterView, Named, Names,
};
use crate::store::{
    ask, asked, known, require, Asked, AskedView, Bucket, BucketView, Buckets, Deletion, Effect,
    EffectView, ErrorKind, Gained, Known, KnownView, Object, ObjectView, Page, Step, StepView,
    StorageError, Tape, TapeView, Versions,
};
use crate::table::{get, with, Copied};
use crate::text::{
    after_prefix, cat3, characters, equals, escape_xml, find, find_from, or_else, or_text, own,
    same, strip_prefix, xml,
};
use crate::views::{each, each_empty, each_push, seen, Pairs, Text};

verus! {

// ---------------------------------------------------------------------------
// Listings

/// An entry of a listing of blobs: a blob, or a common prefix of several.
pub enum AzureListEntry {
    Blob(Object),
    Prefix(String),
}

/// An entry over characters and bytes.
pub enum EntryView {
    Blob(ObjectView),
    Prefix(Text),
}

impl View for AzureListEntry {
    type V = EntryView;

    open spec fn view(&self) -> EntryView {
        match self {
            AzureListEntry::Blob(blob) => EntryView::Blob(blob@),
            AzureListEntry::Prefix(prefix) => EntryView::Prefix(prefix@),
        }
    }
}

impl Named for AzureListEntry {
    open spec fn key(v: EntryView) -> Text {
        match v {
            EntryView::Blob(blob) => blob.key,
            EntryView::Prefix(prefix) => prefix,
        }
    }

    fn name(&self) -> (r: &str) {
        match self {
            AzureListEntry::Blob(blob) => blob.key.as_str(),
            AzureListEntry::Prefix(prefix) => prefix.as_str(),
        }
    }
}

/// An element that repeats a query parameter, where the request has it.
pub open spec fn echo_param(req: RequestView, open: Text, name: Text, close: Text) -> Text {
    match req.param(name) {
        Some(value) => open + xml(value) + close,
        None => ""@,
    }
}

fn echo_of_param(req: &Request, open: &str, name: &str, close: &str) -> (r: String)
    ensures
        r@ == echo_param(req@, open@, name@, close@),
{
    match req.query_param(name) {
        Some(value) => cat3(open, &escape_xml(value), close),
        None => "".to_owned(),
    }
}

/// The first `i` containers of a listing.
pub open spec fn container_items_upto(namespaces: Seq<BucketView>, i: int) -> Text
    decreases i,
{
    if i <= 0 {
        ""@
    } else {
        let namespace = namespaces[i - 1];
        container_items_upto(namespaces, i - 1) + "<Container><Name>"@ + xml(namespace.name)
            + "</Name><Properties><Last-Modified>"@ + http_date(
            namespace.created_at.secs,
            namespace.created_at.nanos,
        ) + "</Last-Modified><Etag>\""@ + namespace_etag(namespace)
            + "\"</Etag></Properties></Container>"@
    }
}

/// The listing of the containers of an account.
pub open spec fn list_containers_xml(
    req: RequestView,
    account: Text,
    namespaces: Seq<BucketView>,
    next_marker: Option<Text>,
) -> Text {
    "<?xml version=\"1.0\" encoding=\"utf-8\"?><EnumerationResults ServiceEndpoint=\""@ + xml(
        req.origin,
    ) + "/"@ + xml(account) + "\">"@ + echo_param(req, "<Prefix>"@, "prefix"@, "</Prefix>"@)
        + echo_param(req, "<Marker>"@, "marker"@, "</Marker>"@) + echo_param(
        req,
        "<MaxResults>"@,
        "maxresults"@,
        "</MaxResults>"@,
    ) + "<Containers>"@ + container_items_upto(namespaces, namespaces.len() as int)
        + "</Containers><NextMarker>"@ + xml(or_text(next_marker, ""@))
        + "</NextMarker></EnumerationResults>"@
}

/// An entry of a listing of blobs.
pub open spec fn entry_item(entry: EntryView) -> Text {
    match entry {
        EntryView::Prefix(prefix) => "<BlobPrefix><Name>"@ + xml(prefix) + "</Name></BlobPrefix>"@,
        EntryView::Blob(blob) => "<Blob><Name>"@ + xml(blob.key)
            + "</Name><Properties><Content-Length>"@ + decimal(blob.size as int)
            + "</Content-Length><Content-Type>"@ + xml(blob.content_type)
            + "</Content-Type><Etag>\""@ + xml(blob.etag) + "\"</Etag><BlobType>"@ + xml(
            or_text(get(blob.provider_metadata, AZURE_BLOB_TYPE_KEY@), "BlockBlob"@),
        ) + "</BlobType><Last-Modified>"@ + http_date(
            blob.last_modified.secs,
            blob.last_modified.nanos,
        ) + "</Last-Modified></Properties></Blob>"@,
    }
}

pub open spec fn entry_items_upto(entries: Seq<EntryView>, i: int) -> Text
    decreases i,
{
    if i <= 0 {
        ""@
    } else {
        entry_items_upto(entries, i - 1) + entry_item(entries[i - 1])
    }
}

/// The listing of the blobs of a container.
pub open spec fn list_blobs_xml(
    req: RequestView,
    container: Text,
    entries: Seq<EntryView>,
    next_marker: Option<Text>,
) -> Text {
    "<?xml version=\"1.0\" encoding=\"utf-8\"?><EnumerationResults ContainerName=\""@ + xml(
        container,
    ) + "\">"@ + echo_param(req, "<Prefix>"@, "prefix"@, "</Prefix>"@) + echo_param(
        req,
        "<Marker>"@,
        "marker"@,
        "</Marker>"@,
    ) + echo_param(req, "<MaxResults>"@, "maxresults"@, "</MaxResults>"@) + echo_param(
        req,
        "<Delimiter>"@,
        "delimiter"@,
        "</Delimiter>"@,
    ) + "<Blobs>"@ + entry_items_upto(entries, entries.len() as int) + "</Blobs><NextMarker>"@
        + xml(or_text(next_marker, ""@)) + "</NextMarker></EnumerationResults>"@
}

/// The common prefix that stands for a key in a listing with a delimiter: up to and with the
/// first delimiter behind the listing's prefix.
pub open spec fn rolled_up(key: Text, prefix: Text, delimiter: Option<Text>) -> Option<Text> {
    match delimiter {
        Some(delimiter) => match find_from(
            or_text(strip_prefix(key, prefix), key),
            delimiter,
            0,
        ) {
            Some(i) => Some(first_of(key, prefix.len() + i + delimiter.len())),
            None => None,
        },
        None => None,
    }
}

/// The entries that the first `i` objects give, each common prefix once.
pub open spec fn entries_upto(
    objects: Seq<ObjectView>,
    prefix: Text,
    delimiter: Option<Text>,
    i: int,
) -> Seq<EntryView>
    decreases i,
{
    if i <= 0 {
        Seq::empty()
    } else {
        let before = entries_upto(objects, prefix, delimiter, i - 1);
        match rolled_up(objects[i - 1].key, prefix, delimiter) {
            Some(common) => if before.contains(EntryView::Prefix(common)) {
                before
            } else {
                before.push(EntryView::Prefix(common))
            },
            None => before.push(EntryView::Blob(objects[i - 1])),
        }
    }
}

/// The delimiter of a listing; an empty one is none.
pub open spec fn delimiter_of(req: RequestView) -> Option<Text> {
    match req.param("delimiter"@) {
        Some(value) => if value.len() > 0 {
            Some(value)
        } else {
            None
        },
        None => None,
    }
}

/// The entries of a listing, in order, from the request's marker on.
pub open spec fn entries_of(req: RequestView, objects: Seq<ObjectView>) -> Seq<EntryView> {
    let entries = sorted::<AzureListEntry>(
        entries_upto(
            objects,
            or_text(req.param("prefix"@), ""@),
            delimiter_of(req),
            objects.len() as int,
        ),
    );
    match req.param("marker"@) {
        Some(marker) => kept::<AzureListEntry>(entries, FilterView::From(marker)),
        None => entries,
    }
}

/// All objects of a container under a prefix that are no snapshots, page by page.
pub open spec fn gather_objects(
    stamp: StampView,
    container: Text,
    prefix: Option<Text>,
    marker: Option<Text>,
    so_far: Seq<ObjectView>,
    tape: TapeView,
) -> KnownView<Seq<ObjectView>>
    decreases tape.len(),
{
    match asked::<Page>(
        tape,
        EffectView::ListObjects(container, prefix, None, marker, 1000),
    ) {
        AskedView::Halt(step) => KnownView::Halt(step),
        AskedView::Got(Err(error), _) => KnownView::Halt(
            if error.kind == ErrorKind::BucketNotFound {
                StepView::Reply(container_not_found(stamp))
            } else {
                StepView::Fail(error.message)
            },
        ),
        AskedView::Got(Ok(page), rest) => {
            let objects = so_far + kept::<Object>(
                page.objects,
                FilterView::Outside(AZURE_SNAPSHOT_PREFIX@),
            );
            if page.next_marker is None || page.next_marker == marker {
                KnownView::Got(objects, rest)
            } else {
                gather_objects(stamp, container, prefix, page.next_marker, objects, rest)
            }
        },
    }
}

// ---------------------------------------------------------------------------
// Deletion

/// Whether any of the objects is immutable now.
pub open spec fn any_immutable(now: Instant, objects: Seq<ObjectView>) -> bool {
    exists|i: int| 0 <= i < objects.len() && is_immutable(now, #[trigger] objects[i])
}

/// Whether a container holds an immutable blob, current or earlier, page by page.
pub open spec fn immutable_from(
    now: Instant,
    container: Text,
    marker: Option<Text>,
    seen_markers: Seq<Text>,
    tape: TapeView,
) -> KnownView<bool>
    decreases tape.len(),
{
    match known::<Page>(
        tape,
        EffectView::ListObjects(container, None, None, marker, 1000),
    ) {
        KnownView::Halt(step) => KnownView::Halt(step),
        KnownView::Got(page, rest) => if any_immutable(now, page.objects) {
            KnownView::Got(true, rest)
        } else {
            match page.next_marker {
                None => match known::<Versions>(rest, EffectView::ListVersions(container)) {
                    KnownView::Halt(step) => KnownView::Halt(step),
                    KnownView::Got(versions, rest) => KnownView::Got(
                        any_immutable(now, versions),
                        rest,
                    ),
                },
                Some(next) => if seen_markers.contains(next) {
                    KnownView::Halt(
                        StepView::Fail("Azure WORM scan received a repeated object marker"@),
                    )
                } else {
                    immutable_from(now, container, Some(next), seen_markers.push(next), rest)
                },
            }
        },
    }
}

pub open spec fn container_has_immutable_blob(now: Instant, container: Text, tape: TapeView)
    -> KnownView<bool> {
    immutable_from(now, container, None, Seq::empty(), tape)
}

/// Deletes the pending objects of a container, and then what a listing still shows, until it
/// shows nothing.
pub open spec fn purge_objects(container: Text, pending: Seq<Text>, tape: TapeView) -> AskedView<()>
    decreases tape.len(),
{
    if pending.len() > 0 {
        match asked::<()>(tape, EffectView::DeleteObject(container, pending[0])) {
            AskedView::Halt(step) => AskedView::Halt(step),
            AskedView::Got(Err(error), rest) => AskedView::Got(Err(error), rest),
            AskedView::Got(Ok(_), rest) => purge_objects(container, pending.skip(1), rest),
        }
    } else {
        match asked::<Page>(
            tape,
            EffectView::ListObjects(container, None, None, None, 1000),
        ) {
            AskedView::Halt(step) => AskedView::Halt(step),
            AskedView::Got(Err(error), rest) => AskedView::Got(Err(error), rest),
            AskedView::Got(Ok(page), rest) => if page.objects.len() == 0 {
                AskedView::Got(Ok(()), rest)
            } else {
                purge_objects(container, object_keys(page.objects), rest)
            },
        }
    }
}

pub open spec fn object_keys(objects: Seq<ObjectView>) -> Seq<Text> {
    Seq::new(objects.len(), |i: int| objects[i].key)
}

/// Deletes the versions from place `i` on.
pub open spec fn purge_versions(
    container: Text,
    versions: Seq<ObjectView>,
    i: int,
    tape: TapeView,
) -> AskedView<()>
    decreases versions.len() - i,
{
    if i >= versions.len() {
        AskedView::Got(Ok(()), tape)
    } else {
        match versions[i].version_id {
            None => purge_versions(container, versions, i + 1, tape),
            Some(id) => match asked::<()>(
                tape,
                EffectView::DeleteVersion(container, versions[i].key, id),
            ) {
                AskedView::Halt(step) => AskedView::Halt(step),
                AskedView::Got(Err(error), rest) => AskedView::Got(Err(error), rest),
                AskedView::Got(Ok(_), rest) => purge_versions(container, versions, i + 1, rest),
            },
        }
    }
}

/// Deletes a container with everything in it.
pub open spec fn purge_container(container: Text, tape: TapeView) -> AskedView<()> {
    match asked::<()>(tape, EffectView::SuspendVersioning(container)) {
        AskedView::Halt(step) => AskedView::Halt(step),
        AskedView::Got(Err(error), tape) => AskedView::Got(Err(error), tape),
        AskedView::Got(Ok(_), tape) => match purge_objects(container, Seq::empty(), tape) {
            AskedView::Halt(step) => AskedView::Halt(step),
            AskedView::Got(Err(error), tape) => AskedView::Got(Err(error), tape),
            AskedView::Got(Ok(_), tape) => match asked::<Versions>(
                tape,
                EffectView::ListVersions(container),
            ) {
                AskedView::Halt(step) => AskedView::Halt(step),
                AskedView::Got(Err(error), tape) => AskedView::Got(Err(error), tape),
                AskedView::Got(Ok(versions), tape) => match purge_versions(
                    container,
                    versions,
                    0,
                    tape,
                ) {
                    AskedView::Halt(step) => AskedView::Halt(step),
                    AskedView::Got(Err(error), tape) => AskedView::Got(Err(error), tape),
                    AskedView::Got(Ok(_), tape) => asked::<()>(
                        tape,
                        EffectView::DeleteBucket(container),
                    ),
                },
            },
        },
    }
}

/// Whether a container whose deletion is due was deleted just now. A deletion that would
/// reach protected blobs is given up.
pub open spec fn finish_expired_container_deletion(now: Instant, container: Text, tape: TapeView)
    -> KnownView<bool> {
    match known::<Deletion>(tape, EffectView::LoadDeletion(container)) {
        KnownView::Halt(step) => KnownView::Halt(step),
        KnownView::Got(None, tape) => KnownView::Got(false, tape),
        KnownView::Got(Some(purge_after), tape) => if purge_after.later_than(now) {
            KnownView::Got(false, tape)
        } else {
            match container_has_immutable_blob(now, container, tape) {
                KnownView::Halt(step) => KnownView::Halt(step),
                KnownView::Got(true, tape) => match known::<()>(
                    tape,
                    EffectView::DropDeletion(container),
                ) {
                    KnownView::Halt(step) => KnownView::Halt(step),
                    KnownView::Got(_, tape) => KnownView::Got(false, tape),
                },
                KnownView::Got(false, tape) => match purge_container(container, tape) {
                    AskedView::Halt(step) => KnownView::Halt(step),
                    AskedView::Got(result, tape) => match result {
                        Err(error) if error.kind != ErrorKind::BucketNotFound => KnownView::Halt(
                            StepView::Fail(error.message),
                        ),
                        _ => match known::<()>(tape, EffectView::DropDeletion(container)) {
                            KnownView::Halt(step) => KnownView::Halt(step),
                            KnownView::Got(_, tape) => KnownView::Got(true, tape),
                        },
                    },
                },
            }
        },
    }
}

/// The reply to a request in a container that is being deleted; none where it is not.
pub open spec fn resolve_container_deletion(cx: ContextView, container: Text, tape: TapeView)
    -> KnownView<Option<ResponseView>> {
    match finish_expired_container_deletion(cx.stamp.now, container, tape) {
        KnownView::Halt(step) => KnownView::Halt(step),
        KnownView::Got(true, tape) => KnownView::Got(None, tape),
        KnownView::Got(false, tape) => match known::<Deletion>(
            tape,
            EffectView::LoadDeletion(container),
        ) {
            KnownView::Halt(step) => KnownView::Halt(step),
            KnownView::Got(None, tape) => KnownView::Got(None, tape),
            KnownView::Got(Some(_), tape) => KnownView::Got(
                Some(
                    if cx.req.method == Method::Put && cx.req.param("restype"@) == Some(
                        "container"@,
                    ) {
                        error_response(
                            cx.stamp,
                            409,
                            "ContainerBeingDeleted"@,
                            "The specified container is being deleted."@,
                        )
                    } else {
                        container_not_found(cx.stamp)
                    },
                ),
                tape,
            ),
        },
    }
}

// ---------------------------------------------------------------------------
// Requests

/// The buckets, from place `i` on, that are not being deleted.
pub open spec fn visible_from(
    now: Instant,
    namespaces: Seq<BucketView>,
    i: int,
    so_far: Seq<BucketView>,
    tape: TapeView,
) -> KnownView<Seq<BucketView>>
    decreases namespaces.len() - i,
{
    if i >= namespaces.len() {
        KnownView::Got(so_far, tape)
    } else {
        match finish_expired_container_deletion(now, namespaces[i].name, tape) {
            KnownView::Halt(step) => KnownView::Halt(step),
            KnownView::Got(true, tape) => visible_from(now, namespaces, i + 1, so_far, tape),
            KnownView::Got(false, tape) => match known::<Deletion>(
                tape,
                EffectView::LoadDeletion(namespaces[i].name),
            ) {
                KnownView::Halt(step) => KnownView::Halt(step),
                KnownView::Got(Some(_), tape) => visible_from(now, namespaces, i + 1, so_far, tape),
                KnownView::Got(None, tape) => visible_from(
                    now,
                    namespaces,
                    i + 1,
                    so_far.push(namespaces[i]),
                    tape,
                ),
            },
        }
    }
}

/// The containers of a listing, in order, under the request's prefix and from its marker on.
pub open spec fn listed_containers(req: RequestView, visible: Seq<BucketView>) -> Seq<BucketView> {
    let ordered = sorted::<Bucket>(visible);
    let under = match req.param("prefix"@) {
        Some(prefix) => kept::<Bucket>(ordered, FilterView::Under(prefix)),
        None => ordered,
    };
    match req.param("marker"@) {
        Some(marker) => kept::<Bucket>(under, FilterView::From(marker)),
        None => under,
    }
}

/// Lists the containers of an account.
pub open spec fn handle_account_request(cx: ContextView, account: Text, tape: TapeView)
    -> StepView {
    if cx.req.method == Method::Get && cx.req.param("comp"@) == Some("list"@) {
        match max_results(cx.stamp, cx.req) {
            Err(refusal) => StepView::Reply(refusal),
            Ok(limit) => match known::<Buckets>(tape, EffectView::ListBuckets) {
                KnownView::Halt(step) => step,
                KnownView::Got(namespaces, tape) => match visible_from(
                    cx.stamp.now,
                    namespaces,
                    0,
                    Seq::empty(),
                    tape,
                ) {
                    KnownView::Halt(step) => step,
                    KnownView::Got(visible, _) => {
                        let all = listed_containers(cx.req, visible);
                        StepView::Reply(
                            xml_response(
                                cx.stamp,
                                200,
                                list_containers_xml(
                                    cx.req,
                                    account,
                                    first_of(all, limit as int),
                                    name_at::<Bucket>(all, limit as int),
                                ),
                            ),
                        )
                    },
                },
            },
        }
    } else {
        StepView::Reply(
            error_response(
                cx.stamp,
                400,
                "InvalidUri"@,
                "Azure account requests must use comp=list"@,
            ),
        )
    }
}

/// Gives up a creation: the container is deleted again.
pub open spec fn rollback_created_container(container: Text, error: Text, tape: TapeView)
    -> StepView {
    match asked::<()>(tape, EffectView::DeleteBucket(container)) {
        AskedView::Halt(step) => step,
        AskedView::Got(Ok(_), _) => StepView::Fail(error),
        AskedView::Got(Err(rollback), _) => StepView::Fail(
            error + "; failed to roll back Azure container creation: "@ + rollback.message,
        ),
    }
}

/// The metadata of a container with the retention modes that it was created with.
pub open spec fn retention_metadata(metadata: Pairs, versioning: bool, days: Option<u64>) -> Pairs {
    let versioned = if versioning {
        with(metadata, AZURE_VERSIONING_KEY@, "true"@)
    } else {
        metadata
    };
    match days {
        Some(days) => with(versioned, AZURE_SOFT_DELETE_DAYS_KEY@, decimal(days as int)),
        None => versioned,
    }
}

/// Creates a container.
pub open spec fn create_container(cx: ContextView, container: Text, tape: TapeView) -> StepView {
    if !valid_container_name(container) {
        StepView::Reply(
            error_response(
                cx.stamp,
                400,
                "InvalidResourceName"@,
                "The specified container name is invalid."@,
            ),
        )
    } else {
        match requested_local_retention_modes(cx.stamp, cx.req) {
            Err(refusal) => StepView::Reply(refusal),
            Ok((versioning, days)) => match asked::<Bucket>(
                tape,
                EffectView::CreateBucket(container),
            ) {
                AskedView::Halt(step) => step,
                AskedView::Got(Err(error), _) => if error.kind == ErrorKind::BucketAlreadyExists {
                    StepView::Reply(
                        error_response(
                            cx.stamp,
                            409,
                            "ContainerAlreadyExists"@,
                            "The specified container already exists."@,
                        ),
                    )
                } else {
                    StepView::Fail(error.message)
                },
                AskedView::Got(Ok(namespace), tape) => if versioning || days is Some {
                    protect_container(cx, container, versioning, days, namespace, tape)
                } else {
                    StepView::Reply(namespace_response(cx.stamp, 201, namespace))
                },
            },
        }
    }
}

/// Sets the retention modes of a container that was just created.
pub open spec fn protect_container(
    cx: ContextView,
    container: Text,
    versioning: bool,
    days: Option<u64>,
    namespace: BucketView,
    tape: TapeView,
) -> StepView {
    match asked::<()>(tape, EffectView::EnableVersioning(container)) {
        AskedView::Halt(step) => step,
        AskedView::Got(Err(error), tape) => rollback_created_container(
            container,
            error.message,
            tape,
        ),
        AskedView::Got(Ok(_), tape) => match asked::<Bucket>(
            tape,
            EffectView::GetBucket(container),
        ) {
            AskedView::Halt(step) => step,
            AskedView::Got(Err(error), tape) => rollback_created_container(
                container,
                error.message,
                tape,
            ),
            AskedView::Got(Ok(bucket), tape) => match asked::<()>(
                tape,
                EffectView::UpdateBucketMetadata(
                    container,
                    retention_metadata(bucket.metadata, versioning, days),
                ),
            ) {
                AskedView::Halt(step) => step,
                AskedView::Got(Err(error), tape) => rollback_created_container(
                    container,
                    error.message,
                    tape,
                ),
                AskedView::Got(Ok(_), _) => StepView::Reply(
                    namespace_response(cx.stamp, 201, namespace),
                ),
            },
        },
    }
}

/// Why a container cannot be deleted, or until when to put its deletion off.
pub open spec fn deletion_delay(stamp: StampView, req: RequestView) -> Result<int, ResponseView> {
    match req.header("x-sqrzl-azure-delete-delay-ms"@) {
        None => Ok(30_000),
        Some(value) => match signed(value) {
            Some(n) if n >= 0 => Ok(n),
            _ => Err(
                error_response(
                    stamp,
                    400,
                    "InvalidHeaderValue"@,
                    "The local Azure container deletion delay must be a nonnegative integer."@,
                ),
            ),
        },
    }
}

/// Schedules the deletion of a container.
pub open spec fn delete_container(cx: ContextView, container: Text, tape: TapeView) -> StepView {
    match asked::<Bucket>(tape, EffectView::GetBucket(container)) {
        AskedView::Halt(step) => step,
        AskedView::Got(Err(error), _) => if error.kind == ErrorKind::BucketNotFound {
            StepView::Reply(container_not_found(cx.stamp))
        } else {
            StepView::Fail(error.message)
        },
        AskedView::Got(Ok(namespace), tape) => if !conditions_match(
            cx.req,
            namespace_etag(namespace),
        ) {
            StepView::Reply(condition_failed(cx.stamp))
        } else {
            match container_has_immutable_blob(cx.stamp.now, container, tape) {
                KnownView::Halt(step) => step,
                KnownView::Got(true, _) => StepView::Reply(
                    error_response(
                        cx.stamp,
                        409,
                        "BlobImmutableDueToPolicy"@,
                        "The container contains blob data protected by an active policy or legal hold."@,
                    ),
                ),
                KnownView::Got(false, tape) => match deletion_delay(cx.stamp, cx.req) {
                    Err(refusal) => StepView::Reply(refusal),
                    Ok(delay) => match shifted(cx.stamp.now, delay as i64) {
                        None => StepView::Fail("The deletion delay is out of range"@),
                        Some(purge_after) => match known::<()>(
                            tape,
                            EffectView::SaveDeletion(container, purge_after),
                        ) {
                            KnownView::Halt(step) => step,
                            KnownView::Got(_, _) => StepView::Reply(response(cx.stamp, 202)),
                        },
                    },
                },
            }
        },
    }
}

/// Describes a container, or lists its blobs.
pub open spec fn get_container(cx: ContextView, container: Text, tape: TapeView) -> StepView {
    if cx.req.param("comp"@) == Some("list"@) {
        match max_results(cx.stamp, cx.req) {
            Err(refusal) => StepView::Reply(refusal),
            Ok(limit) => match gather_objects(
                cx.stamp,
                container,
                cx.req.param("prefix"@),
                None,
                Seq::empty(),
                tape,
            ) {
                KnownView::Halt(step) => step,
                KnownView::Got(objects, _) => {
                    let all = entries_of(cx.req, objects);
                    StepView::Reply(
                        xml_response(
                            cx.stamp,
                            200,
                            list_blobs_xml(
                                cx.req,
                                container,
                                first_of(all, limit as int),
                                name_at::<AzureListEntry>(all, limit as int),
                            ),
                        ),
                    )
                },
            },
        }
    } else {
        match asked::<Bucket>(tape, EffectView::GetBucket(container)) {
            AskedView::Halt(step) => step,
            AskedView::Got(Err(error), _) => if error.kind == ErrorKind::BucketNotFound {
                StepView::Reply(container_not_found(cx.stamp))
            } else {
                StepView::Fail(error.message)
            },
            AskedView::Got(Ok(namespace), _) => StepView::Reply(
                namespace_response(cx.stamp, 200, namespace),
            ),
        }
    }
}

/// Serves a request for a container itself.
pub open spec fn handle_container_request(cx: ContextView, container: Text, tape: TapeView)
    -> StepView {
    let comp = cx.req.param("comp"@);
    if comp is Some && !(comp == Some("list"@) && cx.req.method == Method::Get) {
        StepView::Reply(
            error_response(
                cx.stamp,
                501,
                "FeatureNotSupported"@,
                "This Azure container subresource is not implemented by the emulator."@,
            ),
        )
    } else {
        match cx.req.method {
            Method::Put => create_container(cx, container, tape),
            Method::Delete => delete_container(cx, container, tape),
            Method::Get => get_container(cx, container, tape),
            _ => StepView::Reply(
                error_response(
                    cx.stamp,
                    405,
                    "UnsupportedHttpVerb"@,
                    "Unsupported Azure container operation"@,
                ),
            ),
        }
    }
}

// ---------------------------------------------------------------------------

/// What became of a deletion of several things: stopped, or ended with or without an error.
pub enum Purged<'a> {
    Halt(Step),
    Got(Option<&'a StorageError>, Tape<'a>),
}

impl<'a> View for Purged<'a> {
    type V = AskedView<()>;

    open spec fn view(&self) -> AskedView<()> {
        match self {
            Purged::Halt(step) => AskedView::Halt(step@),
            Purged::Got(None, tape) => AskedView::Got(Ok(()), tape@),
            Purged::Got(Some(error), tape) => AskedView::Got(Err(error@), tape@),
        }
    }
}

/// Blobs that were gathered.
pub struct Objects {
    pub items: Vec<Object>,
}

impl View for Objects {
    type V = Seq<ObjectView>;

    open spec fn view(&self) -> Seq<ObjectView> {
        each(self.items@)
    }
}

/// The reply to give at once, if any.
pub struct Verdict {
    pub reply: Option<Response>,
}

impl View for Verdict {
    type V = Option<ResponseView>;

    open spec fn view(&self) -> Option<ResponseView> {
        seen(self.reply)
    }
}

pub fn copy_objects(objects: &Vec<Object>) -> (r: Vec<Object>)
    ensures
        each(r@) == each(objects@),
{
    let mut out: Vec<Object> = Vec::new();
    let mut i: usize = 0;
    while i < objects.len()
        invariant
            i <= objects.len(),
            out.len() == i,
            forall|k: int| 0 <= k < i ==> (#[trigger] out@[k])@ == objects@[k]@,
        decreases objects.len() - i,
    {
        out.push(objects[i].copied());
        i += 1;
    }
    assert(each(out@) =~= each(objects@));
    out
}

impl AzureBlobAdapter {
    pub fn list_containers_xml(
        req: &Request,
        account: &str,
        namespaces: &Vec<Bucket>,
        next_marker: Option<&str>,
    ) -> (r: String)
        ensures
            r@ == list_containers_xml(req@, account@, each(namespaces@), seen(next_marker)),
    {
        let mut out =
            "<?xml version=\"1.0\" encoding=\"utf-8\"?><EnumerationResults ServiceEndpoint=\"".to_owned();
        out.append(&escape_xml(&req.origin));
        out.append("/");
        out.append(&escape_xml(account));
        out.append("\">");
        out.append(&echo_of_param(req, "<Prefix>", "prefix", "</Prefix>"));
        out.append(&echo_of_param(req, "<Marker>", "marker", "</Marker>"));
        out.append(&echo_of_param(req, "<MaxResults>", "maxresults", "</MaxResults>"));
        out.append("<Containers>");
        out.append(&Self::container_items(namespaces));
        out.append("</Containers><NextMarker>");
        out.append(&escape_xml(or_else(next_marker, "")));
        out.append("</NextMarker></EnumerationResults>");
        out
    }

    fn container_items(namespaces: &Vec<Bucket>) -> (r: String)
        ensures
            r@ == container_items_upto(each(namespaces@), namespaces@.len() as int),
    {
        let mut out = "".to_owned();
        let mut i: usize = 0;
        while i < namespaces.len()
            invariant
                i <= namespaces.len(),
                out@ == container_items_upto(each(namespaces@), i as int),
            decreases namespaces.len() - i,
        {
            let namespace = &namespaces[i];
            assert(each(namespaces@)[i as int] == namespace@);
            out.append("<Container><Name>");
            out.append(&escape_xml(&namespace.name));
            out.append("</Name><Properties><Last-Modified>");
            out.append(&format_last_modified_at(&namespace.created_at));
            out.append("</Last-Modified><Etag>\"");
            out.append(&Self::namespace_etag(namespace));
            out.append("\"</Etag></Properties></Container>");
            i += 1;
        }
        out
    }

    fn entry_item(entry: &AzureListEntry) -> (r: String)
        ensures
            r@ == entry_item(entry@),
    {
        match entry {
            AzureListEntry::Prefix(prefix) => cat3(
                "<BlobPrefix><Name>",
                &escape_xml(prefix),
                "</Name></BlobPrefix>",
            ),
            AzureListEntry::Blob(blob) => {
                let mut out = "<Blob><Name>".to_owned();
                out.append(&escape_xml(&blob.key));
                out.append("</Name><Properties><Content-Length>");
                out.append(&show(blob.size));
                out.append("</Content-Length><Content-Type>");
                out.append(&escape_xml(&blob.content_type));
                out.append("</Content-Type><Etag>\"");
                out.append(&escape_xml(&blob.etag));
                out.append("\"</Etag><BlobType>");
                out.append(&escape_xml(Self::blob_type(blob)));
                out.append("</BlobType><Last-Modified>");
                out.append(&format_last_modified_at(&blob.last_modified));
                out.append("</Last-Modified></Properties></Blob>");
                out
            },
        }
    }

    pub fn list_blobs_xml(
        req: &Request,
        container: &str,
        entries: &Vec<AzureListEntry>,
        next_marker: Option<&str>,
    ) -> (r: String)
        ensures
            r@ == list_blobs_xml(req@, container@, each(entries@), seen(next_marker)),
    {
        let mut items = "".to_owned();
        let mut i: usize = 0;
        while i < entries.len()
            invariant
                i <= entries.len(),
                items@ == entry_items_upto(each(entries@), i as int),
            decreases entries.len() - i,
        {
            assert(each(entries@)[i as int] == entries@[i as int]@);
            items.append(&Self::entry_item(&entries[i]));
            i += 1;
        }
        let mut out =
            "<?xml version=\"1.0\" encoding=\"utf-8\"?><EnumerationResults ContainerName=\"".to_owned();
        out.append(&escape_xml(container));
        out.append("\">");
        out.append(&echo_of_param(req, "<Prefix>", "prefix", "</Prefix>"));
        out.append(&echo_of_param(req, "<Marker>", "marker", "</Marker>"));
        out.append(&echo_of_param(req, "<MaxResults>", "maxresults", "</MaxResults>"));
        out.append(&echo_of_param(req, "<Delimiter>", "delimiter", "</Delimiter>"));
        out.append("<Blobs>");
        out.append(&items);
        out.append("</Blobs><NextMarker>");
        out.append(&escape_xml(or_else(next_marker, "")));
        out.append("</NextMarker></EnumerationResults>");
        out
    }

    fn rolled_up(key: &str, prefix: &str, delimiter: Option<&str>) -> (r: Option<String>)
        ensures
            seen(r) == rolled_up(key@, prefix@, seen(delimiter)),
    {
        let delimiter = match delimiter {
            Some(delimiter) => delimiter,
            None => return None,
        };
        let rest = match after_prefix(key, prefix) {
            Some(rest) => rest,
            None => key,
        };
        match find(rest, delimiter) {
            Some(i) => {
                let n: usize = characters(key).len();
                let p: usize = characters(prefix).len();
                let d: usize = characters(delimiter).len();
                if p < n && d < n - p && i < n - p - d {
                    Some(key.substring_char(0, p + i + d).to_owned())
                } else {
                    Some(key.to_owned())
                }
            },
            None => None,
        }
    }

    /// The entries that objects give in a listing.
    pub fn entries(objects: Vec<Object>, prefix: &str, delimiter: Option<&str>) -> (r: Vec<
        AzureListEntry,
    >)
        ensures
            each(r@) == entries_upto(
                each(objects@),
                prefix@,
                seen(delimiter),
                objects@.len() as int,
            ),
    {
        let ghost all = each(objects@);
        let mut rest = objects;
        let mut out: Vec<AzureListEntry> = Vec::new();
        let ghost mut i: int = 0;
        proof {
            each_empty::<AzureListEntry>();
            assert(each(rest@) =~= all.subrange(0, all.len() as int));
        }
        while rest.len() > 0
            invariant
                0 <= i <= all.len(),
                each(rest@) == all.subrange(i, all.len() as int),
                each(out@) == entries_upto(all, prefix@, seen(delimiter), i),
            decreases rest.len(),
        {
            let ghost left = each(rest@);
            assert(rest@[0]@ == left[0]);
            let object = rest.remove(0);
            assert(each(rest@) =~= left.subrange(1, left.len() as int));
            assert(left.subrange(1, left.len() as int) =~= all.subrange(i + 1, all.len() as int));
            match Self::rolled_up(&object.key, prefix, delimiter) {
                Some(common) => {
                    if !Self::has_prefix(&out, &common) {
                        let entry = AzureListEntry::Prefix(common);
                        proof {
                            each_push(out@, entry);
                        }
                        out.push(entry);
                    }
                },
                None => {
                    let entry = AzureListEntry::Blob(object);
                    proof {
                        each_push(out@, entry);
                    }
                    out.push(entry);
                },
            }
            proof {
                i = i + 1;
            }
        }
        proof {
            assert(each(rest@).len() == all.len() - i);
        }
        out
    }

    fn has_prefix(entries: &Vec<AzureListEntry>, common: &str) -> (r: bool)
        ensures
            r == each(entries@).contains(EntryView::Prefix(common@)),
    {
        let mut i: usize = 0;
        while i < entries.len()
            invariant
                i <= entries.len(),
                forall|k: int|
                    0 <= k < i ==> (#[trigger] each(entries@)[k]) != EntryView::Prefix(common@),
            decreases entries.len() - i,
        {
            assert(each(entries@)[i as int] == entries@[i as int]@);
            match &entries[i] {
                AzureListEntry::Prefix(prefix) => {
                    if same(prefix, common) {
                        return true;
                    }
                },
                AzureListEntry::Blob(_) => {},
            }
            i += 1;
        }
        false
    }

    /// The entries of the listing that a request asks for.
    pub fn azure_list_entries(req: &Request, objects: Vec<Object>) -> (r: Vec<AzureListEntry>)
        ensures
            each(r@) == entries_of(req@, each(objects@)),
    {
        let delimiter = match req.query_param("delimiter") {
            Some(value) if value.unicode_len() > 0 => Some(value),
            _ => None,
        };
        let entries = sort(
            Self::entries(objects, or_else(req.query_param("prefix"), ""), delimiter),
        );
        match req.query_param("marker") {
            Some(marker) => keep(entries, &Filter::From(marker)),
            None => entries,
        }
    }

    /// Gathers the objects of a container that are no snapshots.
    pub fn gather_objects<'a>(
        stamp: &Stamp,
        container: &str,
        prefix: Option<&str>,
        from: Tape<'a>,
    ) -> (r: Gained<'a, Objects>)
        ensures
            r@ == gather_objects(
                stamp@,
                container@,
                seen(prefix),
                None,
                Seq::empty(),
                from@,
            ),
    {
                let mut marker: Option<String> = None;
        let mut objects: Vec<Object> = Vec::new();
        let mut tape = from;
        proof {
            each_empty::<Object>();
        }
        loop
            invariant
                gather_objects(
                    stamp@,
                    container@,
                    seen(prefix),
                    None,
                    Seq::empty(),
                    from@,
                ) == gather_objects(
                    stamp@,
                    container@,
                    seen(prefix),
                    seen(marker),
                    each(objects@),
                    tape@,
                ),
            decreases tape@.len(),
        {
            let effect = Effect::ListObjects(
                container.to_owned(),
                own(prefix),
                None,
                own(crate::text::lend(&marker)),
                1000,
            );
            let (found, rest) = match ask::<Page>(tape, effect) {
                Asked::Halt(step) => return Gained::Halt(step),
                Asked::Got(found, rest) => (found, rest),
            };
            let page = match found {
                Ok(page) => page,
                Err(error) => {
                    return Gained::Halt(
                        if error.kind == ErrorKind::BucketNotFound {
                            Step::Reply(refuse_container(stamp))
                        } else {
                            Step::Fail(error.message.clone())
                        },
                    );
                },
            };
            let mut more = keep(
                copy_objects(&page.objects),
                &Filter::Outside(AZURE_SNAPSHOT_PREFIX),
            );
            let ghost before = objects@;
            let ghost added = more@;
            objects.append(&mut more);
            assert(each(objects@) =~= each(before) + each(added));
            tape = rest;
            match &page.next_marker {
                None => {
                    return Gained::Got(Objects { items: objects }, tape);
                },
                Some(next) => {
                    if equals(crate::text::lend(&marker), next) {
                        return Gained::Got(Objects { items: objects }, tape);
                    }
                    marker = Some(next.clone());
                },
            }
        }
    }

    fn any_immutable(now: &Instant, objects: &Vec<Object>) -> (r: bool)
        ensures
            r == any_immutable(*now, each(objects@)),
    {
        let mut i: usize = 0;
        while i < objects.len()
            invariant
                i <= objects.len(),
                forall|k: int| 0 <= k < i ==> !is_immutable(*now, #[trigger] each(objects@)[k]),
            decreases objects.len() - i,
        {
            assert(each(objects@)[i as int] == objects@[i as int]@);
            if Self::is_immutable(now, &objects[i]) {
                return true;
            }
            i += 1;
        }
        false
    }

    fn has_name(names: &Names, name: &str) -> (r: bool)
        ensures
            r == names@.contains(name@),
    {
        let mut i: usize = 0;
        while i < names.items.len()
            invariant
                i <= names.items.len(),
                forall|k: int| 0 <= k < i ==> (#[trigger] names@[k]) != name@,
            decreases names.items.len() - i,
        {
            assert(names@[i as int] == names.items@[i as int]@);
            if same(&names.items[i], name) {
                return true;
            }
            i += 1;
        }
        false
    }

    pub fn container_has_immutable_blob<'a>(now: &Instant, container: &str, from: Tape<'a>) -> (r:
        Gained<'a, bool>)
        ensures
            r@ == container_has_immutable_blob(*now, container@, from@),
    {
                let mut marker: Option<String> = None;
        let mut seen_markers = Names::new();
        let mut tape = from;
        loop
            invariant
                container_has_immutable_blob(*now, container@, from@) == immutable_from(
                    *now,
                    container@,
                    seen(marker),
                    seen_markers@,
                    tape@,
                ),
            decreases tape@.len(),
        {
            let effect = Effect::ListObjects(
                container.to_owned(),
                None,
                None,
                own(crate::text::lend(&marker)),
                1000,
            );
            let (page, rest) = match require::<Page>(tape, effect) {
                Known::Halt(step) => return Gained::Halt(step),
                Known::Got(page, rest) => (page, rest),
            };
            if Self::any_immutable(now, &page.objects) {
                return Gained::Got(true, rest);
            }
            tape = rest;
            match &page.next_marker {
                None => {
                    return match require::<Versions>(
                        tape,
                        Effect::ListVersions(container.to_owned()),
                    ) {
                        Known::Halt(step) => Gained::Halt(step),
                        Known::Got(versions, rest) => Gained::Got(
                            Self::any_immutable(now, &versions.items),
                            rest,
                        ),
                    };
                },
                Some(next) => {
                    if Self::has_name(&seen_markers, next) {
                        return Gained::Halt(
                            Step::Fail(
                                "Azure WORM scan received a repeated object marker".to_owned(),
                            ),
                        );
                    }
                    seen_markers.push(next.clone());
                    marker = Some(next.clone());
                },
            }
        }
    }

    fn purge_objects<'a>(container: &str, from: Tape<'a>) -> (r: Purged<'a>)
        ensures
            r@ == purge_objects(container@, Seq::empty(), from@),
    {
                let mut pending = Names::new();
        let mut tape = from;
        loop
            invariant
                purge_objects(container@, Seq::empty(), from@) == purge_objects(container@, pending@, tape@),
            decreases tape@.len(),
        {
            if pending.items.len() > 0 {
                assert(pending@[0] == pending.items@[0]@);
                let effect = Effect::DeleteObject(container.to_owned(), pending.items[0].clone());
                match ask::<()>(tape, effect) {
                    Asked::Halt(step) => return Purged::Halt(step),
                    Asked::Got(Err(error), rest) => return Purged::Got(Some(error), rest),
                    Asked::Got(Ok(_), rest) => {
                        let ghost before = pending@;
                        let _ = pending.items.remove(0);
                        assert(pending@ =~= before.skip(1));
                        tape = rest;
                    },
                }
            } else {
                let effect = Effect::ListObjects(container.to_owned(), None, None, None, 1000);
                match ask::<Page>(tape, effect) {
                    Asked::Halt(step) => return Purged::Halt(step),
                    Asked::Got(Err(error), rest) => return Purged::Got(Some(error), rest),
                    Asked::Got(Ok(page), rest) => {
                        if page.objects.len() == 0 {
                            return Purged::Got(None, rest);
                        }
                        pending = Self::object_keys(&page.objects);
                        tape = rest;
                    },
                }
            }
        }
    }

    /// The keys of objects.
    pub fn object_keys(objects: &Vec<Object>) -> (r: Names)
        ensures
            r@ == object_keys(each(objects@)),
    {
        let mut r = Names::new();
        let mut i: usize = 0;
        while i < objects.len()
            invariant
                i <= objects.len(),
                r@ =~= object_keys(each(objects@)).subrange(0, i as int),
            decreases objects.len() - i,
        {
            assert(each(objects@)[i as int] == objects@[i as int]@);
            r.push(objects[i].key.clone());
            i += 1;
        }
        assert(r@ =~= object_keys(each(objects@)));
        r
    }

    fn purge_versions<'a>(container: &str, versions: &Vec<Object>, from: Tape<'a>) -> (r: Purged<
        'a,
    >)
        ensures
            r@ == purge_versions(container@, each(versions@), 0, from@),
    {
                let mut i: usize = 0;
        let mut tape = from;
        while i < versions.len()
            invariant
                i <= versions.len(),
                purge_versions(container@, each(versions@), 0, from@) == purge_versions(
                    container@,
                    each(versions@),
                    i as int,
                    tape@,
                ),
            decreases versions.len() - i,
        {
            assert(each(versions@)[i as int] == versions@[i as int]@);
            match &versions[i].version_id {
                None => {},
                Some(id) => {
                    let effect = Effect::DeleteVersion(
                        container.to_owned(),
                        versions[i].key.clone(),
                        id.clone(),
                    );
                    match ask::<()>(tape, effect) {
                        Asked::Halt(step) => return Purged::Halt(step),
                        Asked::Got(Err(error), rest) => return Purged::Got(Some(error), rest),
                        Asked::Got(Ok(_), rest) => {
                            tape = rest;
                        },
                    }
                },
            }
            i += 1;
        }
        Purged::Got(None, tape)
    }

    pub fn purge_container<'a>(container: &str, tape: Tape<'a>) -> (r: Purged<'a>)
        ensures
            r@ == purge_container(container@, tape@),
    {
        let tape = match ask::<()>(tape, Effect::SuspendVersioning(container.to_owned())) {
            Asked::Halt(step) => return Purged::Halt(step),
            Asked::Got(Err(error), tape) => return Purged::Got(Some(error), tape),
            Asked::Got(Ok(_), tape) => tape,
        };
        let tape = match Self::purge_objects(container, tape) {
            Purged::Got(None, tape) => tape,
            other => return other,
        };
        let (versions, tape) = match ask::<Versions>(
            tape,
            Effect::ListVersions(container.to_owned()),
        ) {
            Asked::Halt(step) => return Purged::Halt(step),
            Asked::Got(Err(error), tape) => return Purged::Got(Some(error), tape),
            Asked::Got(Ok(versions), tape) => (versions, tape),
        };
        let tape = match Self::purge_versions(container, &versions.items, tape) {
            Purged::Got(None, tape) => tape,
            other => return other,
        };
        match ask::<()>(tape, Effect::DeleteBucket(container.to_owned())) {
            Asked::Halt(step) => Purged::Halt(step),
            Asked::Got(Err(error), tape) => Purged::Got(Some(error), tape),
            Asked::Got(Ok(_), tape) => Purged::Got(None, tape),
        }
    }

    pub fn finish_expired_container_deletion<'a>(now: &Instant, container: &str, tape: Tape<'a>)
        -> (r: Gained<'a, bool>)
        ensures
            r@ == finish_expired_container_deletion(*now, container@, tape@),
    {
        let (deletion, tape) = match require::<Deletion>(
            tape,
            Effect::LoadDeletion(container.to_owned()),
        ) {
            Known::Halt(step) => return Gained::Halt(step),
            Known::Got(deletion, tape) => (deletion, tape),
        };
        match &deletion.purge_after {
            None => return Gained::Got(false, tape),
            Some(purge_after) => if purge_after.after(now) {
                return Gained::Got(false, tape);
            },
        }
        let (protected, tape) = match Self::container_has_immutable_blob(now, container, tape) {
            Gained::Halt(step) => return Gained::Halt(step),
            Gained::Got(protected, tape) => (protected, tape),
        };
        let tape = if protected {
            tape
        } else {
            match Self::purge_container(container, tape) {
                Purged::Halt(step) => return Gained::Halt(step),
                Purged::Got(Some(error), tape) => {
                    if error.kind != ErrorKind::BucketNotFound {
                        return Gained::Halt(Step::Fail(error.message.clone()));
                    }
                    tape
                },
                Purged::Got(None, tape) => tape,
            }
        };
        match require::<()>(tape, Effect::DropDeletion(container.to_owned())) {
            Known::Halt(step) => Gained::Halt(step),
            Known::Got(_, tape) => Gained::Got(!protected, tape),
        }
    }

    pub fn resolve_container_deletion<'a>(cx: &Context, container: &str, tape: Tape<'a>) -> (r:
        Gained<'a, Verdict>)
        ensures
            r@ == resolve_container_deletion(cx@, container@, tape@),
    {
        let (gone, tape) = match Self::finish_expired_container_deletion(
            &cx.stamp.now,
            container,
            tape,
        ) {
            Gained::Halt(step) => return Gained::Halt(step),
            Gained::Got(gone, tape) => (gone, tape),
        };
        if gone {
            return Gained::Got(Verdict { reply: None }, tape);
        }
        let (deletion, tape) = match require::<Deletion>(
            tape,
            Effect::LoadDeletion(container.to_owned()),
        ) {
            Known::Halt(step) => return Gained::Halt(step),
            Known::Got(deletion, tape) => (deletion, tape),
        };
        let reply = match &deletion.purge_after {
            None => None,
            Some(_) => Some(
                if cx.req.is(Method::Put) && equals(cx.req.query_param("restype"), "container") {
                    refuse(
                        &cx.stamp,
                        409,
                        "ContainerBeingDeleted",
                        "The specified container is being deleted.",
                    )
                } else {
                    refuse_container(&cx.stamp)
                },
            ),
        };
        Gained::Got(Verdict { reply }, tape)
    }

    fn visible<'a>(now: &Instant, namespaces: &Vec<Bucket>, from: Tape<'a>) -> (r: Gained<
        'a,
        Buckets,
    >)
        ensures
            r@ == visible_from(*now, each(namespaces@), 0, Seq::empty(), from@),
    {
                let mut out: Vec<Bucket> = Vec::new();
        let mut i: usize = 0;
        let mut tape = from;
        proof {
            each_empty::<Bucket>();
        }
        while i < namespaces.len()
            invariant
                i <= namespaces.len(),
                visible_from(*now, each(namespaces@), 0, Seq::empty(), from@) == visible_from(
                    *now,
                    each(namespaces@),
                    i as int,
                    each(out@),
                    tape@,
                ),
            decreases namespaces.len() - i,
        {
            let namespace = &namespaces[i];
            assert(each(namespaces@)[i as int] == namespace@);
            let (gone, rest) = match Self::finish_expired_container_deletion(
                now,
                &namespace.name,
                tape,
            ) {
                Gained::Halt(step) => return Gained::Halt(step),
                Gained::Got(gone, rest) => (gone, rest),
            };
            tape = rest;
            if !gone {
                let (deletion, rest) = match require::<Deletion>(
                    tape,
                    Effect::LoadDeletion(namespace.name.clone()),
                ) {
                    Known::Halt(step) => return Gained::Halt(step),
                    Known::Got(deletion, rest) => (deletion, rest),
                };
                tape = rest;
                if deletion.purge_after.is_none() {
                    let copy = namespace.copied();
                    proof {
                        each_push(out@, copy);
                    }
                    out.push(copy);
                }
            }
            i += 1;
        }
        Gained::Got(Buckets { items: out }, tape)
    }

    pub fn handle_account_request(cx: &Context, account: &str, tape: Tape<'_>) -> (r: Step)
        ensures
            r@ == handle_account_request(cx@, account@, tape@),
    {
        if !(cx.req.is(Method::Get) && equals(cx.req.query_param("comp"), "list")) {
            return Step::Reply(
                refuse(
                    &cx.stamp,
                    400,
                    "InvalidUri",
                    "Azure account requests must use comp=list",
                ),
            );
        }
        let limit: usize = match Self::max_results(&cx.stamp, &cx.req) {
            Ok(limit) => limit,
            Err(refusal) => return Step::Reply(refusal),
        };
        let (namespaces, tape) = match require::<Buckets>(tape, Effect::ListBuckets) {
            Known::Halt(step) => return step,
            Known::Got(namespaces, tape) => (namespaces, tape),
        };
        let visible = match Self::visible(&cx.stamp.now, &namespaces.items, tape) {
            Gained::Halt(step) => return step,
            Gained::Got(visible, _) => visible,
        };
        let ordered = sort(visible.items);
        let under = match cx.req.query_param("prefix") {
            Some(prefix) => keep(ordered, &Filter::Under(prefix)),
            None => ordered,
        };
        let all = match cx.req.query_param("marker") {
            Some(marker) => keep(under, &Filter::From(marker)),
            None => under,
        };
        let (page, next) = paged(all, limit);
        Step::Reply(
            xml_reply(
                &cx.stamp,
                200,
                &Self::list_containers_xml(&cx.req, account, &page, crate::text::lend(&next)),
            ),
        )
    }

    pub fn rollback_created_container(container: &str, error: &str, tape: Tape<'_>) -> (r: Step)
        ensures
            r@ == rollback_created_container(container@, error@, tape@),
    {
        match ask::<()>(tape, Effect::DeleteBucket(container.to_owned())) {
            Asked::Halt(step) => step,
            Asked::Got(Ok(_), _) => Step::Fail(error.to_owned()),
            Asked::Got(Err(rollback), _) => Step::Fail(
                cat3(
                    error,
                    "; failed to roll back Azure container creation: ",
                    &rollback.message,
                ),
            ),
        }
    }

    pub fn create_container(cx: &Context, container: &str, tape: Tape<'_>) -> (r: Step)
        ensures
            r@ == create_container(cx@, container@, tape@),
    {
        if !Self::valid_container_name(container) {
            return Step::Reply(
                refuse(
                    &cx.stamp,
                    400,
                    "InvalidResourceName",
                    "The specified container name is invalid.",
                ),
            );
        }
        let (versioning, days) = match Self::requested_local_retention_modes(&cx.stamp, &cx.req) {
            Ok(modes) => modes,
            Err(refusal) => return Step::Reply(refusal),
        };
        let (found, tape) = match ask::<Bucket>(tape, Effect::CreateBucket(container.to_owned())) {
            Asked::Halt(step) => return step,
            Asked::Got(found, tape) => (found, tape),
        };
        match found {
            Err(error) => if error.kind == ErrorKind::BucketAlreadyExists {
                Step::Reply(
                    refuse(
                        &cx.stamp,
                        409,
                        "ContainerAlreadyExists",
                        "The specified container already exists.",
                    ),
                )
            } else {
                Step::Fail(error.message.clone())
            },
            Ok(namespace) => if versioning || days.is_some() {
                Self::protect_container(cx, container, versioning, days, namespace, tape)
            } else {
                Step::Reply(Self::namespace_response(&cx.stamp, 201, namespace))
            },
        }
    }

    fn protect_container(
        cx: &Context,
        container: &str,
        versioning: bool,
        days: Option<u64>,
        namespace: &Bucket,
        tape: Tape<'_>,
    ) -> (r: Step)
        ensures
            r@ == protect_container(cx@, container@, versioning, days, namespace@, tape@),
    {
        let tape = match ask::<()>(tape, Effect::EnableVersioning(container.to_owned())) {
            Asked::Halt(step) => return step,
            Asked::Got(Err(error), tape) => return Self::rollback_created_container(
                container,
                &error.message,
                tape,
            ),
            Asked::Got(Ok(_), tape) => tape,
        };
        let (bucket, tape) = match ask::<Bucket>(tape, Effect::GetBucket(container.to_owned())) {
            Asked::Halt(step) => return step,
            Asked::Got(Err(error), tape) => return Self::rollback_created_container(
                container,
                &error.message,
                tape,
            ),
            Asked::Got(Ok(bucket), tape) => (bucket, tape),
        };
        let mut metadata = bucket.metadata.copied();
        if versioning {
            metadata.insert(AZURE_VERSIONING_KEY, "true".to_owned());
        }
        match days {
            Some(days) => metadata.insert(AZURE_SOFT_DELETE_DAYS_KEY, show(days)),
            None => {},
        }
        match ask::<()>(tape, Effect::UpdateBucketMetadata(container.to_owned(), metadata)) {
            Asked::Halt(step) => step,
            Asked::Got(Err(error), tape) => Self::rollback_created_container(
                container,
                &error.message,
                tape,
            ),
            Asked::Got(Ok(_), _) => Step::Reply(
                Self::namespace_response(&cx.stamp, 201, namespace),
            ),
        }
    }

    fn deletion_delay(stamp: &Stamp, req: &Request) -> (r: Result<i64, Response>)
        ensures
            match r {
                Ok(delay) => deletion_delay(stamp@, req@) == Ok::<_, ResponseView>(delay as int),
                Err(refusal) => deletion_delay(stamp@, req@) == Err::<int, _>(refusal@),
            },
    {
        match req.header("x-sqrzl-azure-delete-delay-ms") {
            None => Ok(30_000),
            Some(value) => match read_i64(value) {
                Some(n) if n >= 0 => Ok(n),
                _ => Err(
                    refuse(
                        stamp,
                        400,
                        "InvalidHeaderValue",
                        "The local Azure container deletion delay must be a nonnegative integer.",
                    ),
                ),
            },
        }
    }

    pub fn delete_container(cx: &Context, container: &str, tape: Tape<'_>) -> (r: Step)
        ensures
            r@ == delete_container(cx@, container@, tape@),
    {
        let (found, tape) = match ask::<Bucket>(tape, Effect::GetBucket(container.to_owned())) {
            Asked::Halt(step) => return step,
            Asked::Got(found, tape) => (found, tape),
        };
        let namespace = match found {
            Ok(namespace) => namespace,
            Err(error) => return if error.kind == ErrorKind::BucketNotFound {
                Step::Reply(refuse_container(&cx.stamp))
            } else {
                Step::Fail(error.message.clone())
            },
        };
        if !Self::namespace_conditions_match(&cx.req, namespace) {
            return Step::Reply(refuse_condition(&cx.stamp));
        }
        let (protected, tape) = match Self::container_has_immutable_blob(
            &cx.stamp.now,
            container,
            tape,
        ) {
            Gained::Halt(step) => return step,
            Gained::Got(protected, tape) => (protected, tape),
        };
        if protected {
            return Step::Reply(
                refuse(
                    &cx.stamp,
                    409,
                    "BlobImmutableDueToPolicy",
                    "The container contains blob data protected by an active policy or legal hold.",
                ),
            );
        }
        let delay: i64 = match Self::deletion_delay(&cx.stamp, &cx.req) {
            Ok(delay) => delay,
            Err(refusal) => return Step::Reply(refusal),
        };
        let purge_after = match later_by(&cx.stamp.now, delay) {
            Some(at) => at,
            None => return Step::Fail("The deletion delay is out of range".to_owned()),
        };
        match require::<()>(tape, Effect::SaveDeletion(container.to_owned(), purge_after)) {
            Known::Halt(step) => step,
            Known::Got(_, _) => Step::Reply(reply(&cx.stamp, 202)),
        }
    }

    pub fn get_container(cx: &Context, container: &str, tape: Tape<'_>) -> (r: Step)
        ensures
            r@ == get_container(cx@, container@, tape@),
    {
        if equals(cx.req.query_param("comp"), "list") {
            let limit: usize = match Self::max_results(&cx.stamp, &cx.req) {
                Ok(limit) => limit,
                Err(refusal) => return Step::Reply(refusal),
            };
            let objects = match Self::gather_objects(
                &cx.stamp,
                container,
                cx.req.query_param("prefix"),
                tape,
            ) {
                Gained::Halt(step) => return step,
                Gained::Got(objects, _) => objects,
            };
            let (page, next) = paged(Self::azure_list_entries(&cx.req, objects.items), limit);
            return Step::Reply(
                xml_reply(
                    &cx.stamp,
                    200,
                    &Self::list_blobs_xml(&cx.req, container, &page, crate::text::lend(&next)),
                ),
            );
        }
        match ask::<Bucket>(tape, Effect::GetBucket(container.to_owned())) {
            Asked::Halt(step) => step,
            Asked::Got(Ok(namespace), _) => Step::Reply(
                Self::namespace_response(&cx.stamp, 200, namespace),
            ),
            Asked::Got(Err(error), _) => if error.kind == ErrorKind::BucketNotFound {
                Step::Reply(refuse_container(&cx.stamp))
            } else {
                Step::Fail(error.message.clone())
            },
        }
    }

    pub fn handle_container_request(cx: &Context, container: &str, tape: Tape<'_>) -> (r: Step)
        ensures
            r@ == handle_container_request(cx@, container@, tape@),
    {
        match cx.req.query_param("comp") {
            Some(comp) => if !(same(comp, "list") && cx.req.is(Method::Get)) {
                return Step::Reply(
                    refuse(
                        &cx.stamp,
                        501,
                        "FeatureNotSupported",
                        "This Azure container subresource is not implemented by the emulator.",
                    ),
                );
            },
            None => {},
        }
        match cx.req.method {
            Method::Put => Self::create_container(cx, container, tape),
            Method::Delete => Self::delete_container(cx, container, tape),
            Method::Get => Self::get_container(cx, container, tape),
            _ => Step::Reply(
                refuse(
                    &cx.stamp,
                    405,
                    "UnsupportedHttpVerb",
                    "Unsupported Azure container operation",
                ),
            ),
        }
    }
}

} // verus!
