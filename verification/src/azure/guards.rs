//! What guards blobs and containers: who may change them, and what protects them.

use vstd::prelude::*;
use vstd::string::*;
use crate::azure::adapter::{
    admit_blob_request, admit_container_request, claims_data_protection, handle, handle_request,
};
use crate::azure::auth::{
    authorize, shared_key_secret, shared_key_string_to_sign, validate_sas, validate_shared_key,
};
use crate::azure::basics::{
    azure_versioning_enabled, carried, container_not_found, echoes, error_response,
    foreign_history_mode, has_active_lease, history_mode_conflict, is_immutable, lease_id,
    lease_status, parse_resource, retention_until, snapshot_prefix, with_client_request_id,
    with_lease_of, with_lease_state, ResourceView, AZURE_IMMUTABILITY_MODE_KEY,
    AZURE_IMMUTABILITY_UNTIL_KEY, AZURE_LEASE_DURATION_KEY, AZURE_LEASE_ID_KEY,
    AZURE_LEASE_STATE_KEY, AZURE_LEASE_STATUS_KEY, AZURE_LEGAL_HOLD_KEY, AZURE_SNAPSHOT_PREFIX,
    AZURE_SNAPSHOT_SOURCE_KEY, AZURE_SNAPSHOT_TIME_KEY,
};
use crate::azure::blobs::{
    append_block, created_blob, delete_blob, delete_immutability_policy, delete_snapshots, get_blob,
    handle_blob_comp_request, handle_blob_request, head_blob, policy_locked, put_blob,
    put_immutability_policy, put_page, requested_policy, snapshot_keys, snapshot_of,
    update_metadata,
};
use crate::azure::blocks::{committed_blob, get_block_list, put_block, put_block_list};
use crate::azure::containers::{
    any_immutable, container_has_immutable_blob, delete_container, deletion_delay,
    finish_expired_container_deletion, gather_objects, handle_container_request, immutable_from,
    object_keys, protect_container,
};
use crate::azure::rules::blob_for_type;
use crate::clock::{instant, micros_date, rfc2822_moment, Instant};
use crate::codec::signature;
use crate::http::{ContextView, Method, ResponseView};
use crate::number::signed_fits;
use crate::order::{kept, FilterView};
use crate::store::{
    BucketView, EffectView, KnownView, Object, ObjectView, OutcomeView, StepView, StorageErrorView,
    TapeView,
};
use crate::table::{get, get_with, get_without, with, with_option, without};
use crate::views::Text;

verus! {

/// The parts of a blob's state that writes of its content or metadata are about.
pub open spec fn written_part(comp: Text) -> bool {
    comp == "blocklist"@ || comp == "metadata"@ || comp == "appendblock"@ || comp == "page"@
}

/// The parts of a blob's state that guard it.
pub open spec fn guarding_part(comp: Text) -> bool {
    comp == "lease"@ || comp == "snapshot"@ || comp == "immutabilityPolicies"@ || comp
        == "legalhold"@
}

proof fn written_parts_do_not_guard(comp: Text)
    requires
        written_part(comp),
    ensures
        !guarding_part(comp),
        comp != "block"@,
{
    reveal_strlit("lease");
    reveal_strlit("snapshot");
    reveal_strlit("immutabilityPolicies");
    reveal_strlit("legalhold");
    reveal_strlit("block");
    reveal_strlit("blocklist");
    reveal_strlit("metadata");
    reveal_strlit("appendblock");
    reveal_strlit("page");
    assert("lease"@.len() == 5 && "snapshot"@.len() == 8 && "legalhold"@.len() == 9);
    assert("block"@.len() == 5 && "immutabilityPolicies"@.len() == 20);
    assert("blocklist"@.len() == 9 && "metadata"@.len() == 8 && "page"@.len() == 4);
    assert("appendblock"@.len() == 11);
    assert("blocklist"@[0] != "legalhold"@[0]);
    assert("metadata"@[0] != "snapshot"@[0]);
}

// ---------------------------------------------------------------------------
// Who may ask

/// A request that is not authorized is refused without a question to storage.
pub proof fn unauthorized_requests_reach_no_storage(cx: ContextView, tape: TapeView)
    requires
        parse_resource(cx.req.path) matches Ok(resource) && authorize(
            cx.stamp,
            cx.req,
            cx.auth,
            resource,
        ) is Err,
    ensures
        handle(cx, tape) == StepView::Reply(
            with_client_request_id(
                cx.req.header("x-ms-client-request-id"@),
                authorize(cx.stamp, cx.req, cx.auth, parse_resource(cx.req.path)->Ok_0)->Err_0,
            ),
        ),
{
}

/// Every reply repeats the identifier that the client gave its request, where it is printable
/// ASCII of at most 1024 characters.
pub proof fn replies_repeat_the_client_identifier(cx: ContextView, tape: TapeView)
    requires
        cx.req.header("x-ms-client-request-id"@) matches Some(id) && echoes(id),
    ensures
        handle(cx, tape) matches StepView::Reply(reply) ==> get(
            reply.headers,
            "x-ms-client-request-id"@,
        ) == cx.req.header("x-ms-client-request-id"@),
{
    let id = cx.req.header("x-ms-client-request-id"@)->0;
    if let StepView::Reply(reply) = handle_request(cx, tape) {
        get_with(reply.headers, "x-ms-client-request-id"@, id, "x-ms-client-request-id"@);
    }
}

/// Where no credentials are enforced, every request is admitted.
pub proof fn open_instances_admit_everyone(cx: ContextView, resource: ResourceView)
    requires
        !cx.auth.enforce_auth,
    ensures
        authorize(cx.stamp, cx.req, cx.auth, resource) is Ok,
{
}

/// Where credentials are enforced, a request is admitted exactly if it carries the signature
/// of what it is under the configured key, in its authorization header with a recent date,
/// or in its query with a permission that covers it and has not expired.
pub proof fn admitted_requests_are_signed(cx: ContextView, resource: ResourceView)
    requires
        cx.auth.enforce_auth,
    ensures
        authorize(cx.stamp, cx.req, cx.auth, resource) is Ok <==> if cx.req.param("sig"@) is Some {
            validate_sas(cx.stamp.now, cx.req, cx.auth, resource) is Ok
        } else {
            validate_shared_key(cx.stamp.now, cx.req, cx.auth, resource.account) is Ok
        },
        authorize(cx.stamp, cx.req, cx.auth, resource) is Ok && cx.req.param("sig"@) is None ==> (
        shared_key_secret(cx.auth) matches Some(key) && cx.req.header("authorization"@) == Some(
            "SharedKey "@ + resource.account + ":"@ + signature(
                key,
                shared_key_string_to_sign(cx.req, resource.account),
            ),
        )),
        authorize(cx.stamp, cx.req, cx.auth, resource) matches Err(refusal) ==> refusal.status
            == 403,
{
    if cx.req.param("sig"@) is None && authorize(cx.stamp, cx.req, cx.auth, resource) is Ok {
        let authorization = cx.req.header("authorization"@)->0;
        let lead = "SharedKey "@ + resource.account + ":"@;
        assert(authorization =~= lead + authorization.subrange(
            lead.len() as int,
            authorization.len() as int,
        ));
    }
}

// ---------------------------------------------------------------------------
// Whose history

/// Where another front door keeps history in a container, no blob of it is written or
/// deleted through this one.
pub proof fn foreign_history_keeps_blobs(
    cx: ContextView,
    account: Text,
    container: Text,
    blob: Text,
    bucket: BucketView,
    tape: TapeView,
)
    requires
        foreign_history_mode(bucket),
        cx.req.method == Method::Put || cx.req.method == Method::Delete,
        tape.len() > 1 ==> tape[1] == OutcomeView::Bucket(Ok(bucket)),
    ensures
        admit_blob_request(cx, account, container, blob, tape).is_quiet(),
        tape.len() > 1 && tape[0] == OutcomeView::Bucket(Ok(bucket)) ==> admit_blob_request(
            cx,
            account,
            container,
            blob,
            tape,
        ) == StepView::Reply(history_mode_conflict(cx.stamp)),
        history_mode_conflict(cx.stamp).status == 409,
{
    if tape.len() > 1 {
        assert(tape.skip(1)[0] == tape[1]);
    }
}

/// Where another front door keeps history in a container, this one neither claims nor
/// deletes it.
pub proof fn foreign_history_keeps_containers(
    cx: ContextView,
    container: Text,
    bucket: BucketView,
    tape: TapeView,
)
    requires
        foreign_history_mode(bucket),
        claims_data_protection(cx.stamp, cx.req) == Ok::<bool, ResponseView>(true),
        tape.len() > 0 ==> tape[0] == OutcomeView::Bucket(Ok(bucket)),
    ensures
        admit_container_request(cx, container, tape).is_quiet(),
        tape.len() > 0 ==> admit_container_request(cx, container, tape) == StepView::Reply(
            history_mode_conflict(cx.stamp),
        ),
{
}

// ---------------------------------------------------------------------------
// Protection

/// A legal hold protects unless it is exactly off, and so does every policy that is not a
/// known mode with a moment that can be read and is past.
pub proof fn protection_fails_closed(now: Instant, blob: ObjectView)
    ensures
        ({
            let hold = get(blob.provider_metadata, AZURE_LEGAL_HOLD_KEY@);
            let mode = get(blob.provider_metadata, AZURE_IMMUTABILITY_MODE_KEY@);
            let until = get(blob.provider_metadata, AZURE_IMMUTABILITY_UNTIL_KEY@);
            !is_immutable(now, blob) ==> {
                &&& hold is None || hold == Some("false"@)
                &&& (mode is None && until is None) || {
                    &&& mode == Some("Unlocked"@) || mode == Some("Locked"@)
                    &&& retention_until(blob) matches Some(end)
                        && !end.later_than(now)
                }
            }
        }),
{
}

/// An immutable blob is not deleted.
pub proof fn immutable_blobs_are_not_deleted(
    cx: ContextView,
    account: Text,
    container: Text,
    key: Text,
    blob: ObjectView,
    tape: TapeView,
)
    requires
        cx.req.method == Method::Delete,
        cx.req.param("comp"@) is None,
        is_immutable(cx.stamp.now, blob),
        tape.len() > 0 ==> tape[0] == OutcomeView::Object(Ok(blob)),
    ensures
        handle_blob_request(cx, account, container, key, tape).is_quiet(),
        tape.len() > 0 ==> handle_blob_request(cx, account, container, key, tape).is_refusal(),
{
}

/// An immutable blob is not replaced or changed where its container does not keep the old
/// content as a version.
pub proof fn immutable_blobs_are_not_overwritten(
    cx: ContextView,
    account: Text,
    container: Text,
    key: Text,
    blob: ObjectView,
    bucket: BucketView,
    tape: TapeView,
)
    requires
        cx.req.method == Method::Put,
        cx.req.param("comp"@) matches Some(comp) ==> written_part(comp),
        is_immutable(cx.stamp.now, blob),
        !azure_versioning_enabled(bucket),
        tape.len() > 0 ==> tape[0] == OutcomeView::Object(Ok(blob)),
        tape.len() > 1 ==> tape[1] == OutcomeView::Bucket(Ok(bucket)),
    ensures
        handle_blob_request(cx, account, container, key, tape).is_quiet(),
        tape.len() > 1 ==> handle_blob_request(cx, account, container, key, tape).is_refusal(),
{
    if tape.len() > 1 {
        assert(tape.skip(1)[0] == tape[1]);
    }
    if cx.req.param("comp"@) is Some {
        written_parts_do_not_guard(cx.req.param("comp"@)->0);
    }
}

/// Under an active lease a blob changes only for requests that name the lease.
pub proof fn leased_blobs_need_their_lease(
    cx: ContextView,
    account: Text,
    container: Text,
    key: Text,
    blob: ObjectView,
    bucket: BucketView,
    tape: TapeView,
)
    requires
        cx.req.method == Method::Put || cx.req.method == Method::Delete,
        cx.req.param("comp"@) matches Some(comp) ==> cx.req.method == Method::Put && written_part(
            comp,
        ),
        has_active_lease(blob),
        cx.req.header("x-ms-lease-id"@) != lease_id(blob),
        tape.len() > 0 ==> tape[0] == OutcomeView::Object(Ok(blob)),
        tape.len() > 1 ==> tape[1] == OutcomeView::Bucket(Ok(bucket)),
    ensures
        handle_blob_request(cx, account, container, key, tape).is_quiet(),
        tape.len() > 1 ==> handle_blob_request(cx, account, container, key, tape).is_refusal(),
{
    if tape.len() > 1 {
        assert(tape.skip(1)[0] == tape[1]);
    }
    if cx.req.param("comp"@) is Some {
        written_parts_do_not_guard(cx.req.param("comp"@)->0);
    }
}

proof fn lease_keys_differ()
    ensures
        AZURE_LEASE_ID_KEY@ != AZURE_LEASE_STATE_KEY@,
        AZURE_LEASE_ID_KEY@ != AZURE_LEASE_STATUS_KEY@,
        AZURE_LEASE_ID_KEY@ != AZURE_LEASE_DURATION_KEY@,
        AZURE_LEASE_STATE_KEY@ != AZURE_LEASE_STATUS_KEY@,
        AZURE_LEASE_STATE_KEY@ != AZURE_LEASE_DURATION_KEY@,
        AZURE_LEASE_STATUS_KEY@ != AZURE_LEASE_DURATION_KEY@,
{
    reveal_strlit("azure_lease_id");
    reveal_strlit("azure_lease_state");
    reveal_strlit("azure_lease_status");
    reveal_strlit("azure_lease_duration");
    assert(AZURE_LEASE_ID_KEY@.len() == 14);
    assert(AZURE_LEASE_STATE_KEY@.len() == 17);
    assert(AZURE_LEASE_STATUS_KEY@.len() == 18);
    assert(AZURE_LEASE_DURATION_KEY@.len() == 20);
}

/// A blob under a lease is leased under its identifier; one without is not leased. Nothing
/// but the lease differs.
pub proof fn lease_states_are_read_back(
    blob: ObjectView,
    id: Option<Text>,
    state: Text,
    status: Text,
    duration: Option<Text>,
    key: Text,
)
    ensures
        ({
            let leased = with_lease_state(blob, id, state, status, duration);
            &&& lease_id(leased) == id
            &&& crate::azure::basics::lease_state(leased) == state
            &&& lease_status(leased) == status
            &&& crate::azure::basics::lease_duration(leased) == duration
            &&& has_active_lease(leased) <==> (status == "locked"@ && id is Some)
            &&& leased == (ObjectView { provider_metadata: leased.provider_metadata, ..blob })
            &&& key != AZURE_LEASE_ID_KEY@ && key != AZURE_LEASE_STATE_KEY@ && key
                != AZURE_LEASE_STATUS_KEY@ && key != AZURE_LEASE_DURATION_KEY@ ==> get(
                leased.provider_metadata,
                key,
            ) == get(blob.provider_metadata, key)
        }),
{
    lease_keys_differ();
    let a = with_option(blob.provider_metadata, AZURE_LEASE_ID_KEY@, id);
    let b = with(a, AZURE_LEASE_STATE_KEY@, state);
    let c = with(b, AZURE_LEASE_STATUS_KEY@, status);
    lease_entry(blob.provider_metadata, id, state, status, duration, AZURE_LEASE_ID_KEY@);
    lease_entry(blob.provider_metadata, id, state, status, duration, AZURE_LEASE_STATE_KEY@);
    lease_entry(blob.provider_metadata, id, state, status, duration, AZURE_LEASE_STATUS_KEY@);
    lease_entry(blob.provider_metadata, id, state, status, duration, AZURE_LEASE_DURATION_KEY@);
    lease_entry(blob.provider_metadata, id, state, status, duration, key);
}

/// A lease is kept under the keys that it is read from.
pub proof fn lease_values(
    blob: ObjectView,
    id: Option<Text>,
    state: Text,
    status: Text,
    duration: Option<Text>,
)
    ensures
        ({
            let leased = with_lease_state(blob, id, state, status, duration).provider_metadata;
            &&& get(leased, AZURE_LEASE_ID_KEY@) == id
            &&& get(leased, AZURE_LEASE_STATE_KEY@) == Some(state)
            &&& get(leased, AZURE_LEASE_STATUS_KEY@) == Some(status)
            &&& get(leased, AZURE_LEASE_DURATION_KEY@) == duration
        }),
{
    lease_keys_differ();
    lease_entry(blob.provider_metadata, id, state, status, duration, AZURE_LEASE_ID_KEY@);
    lease_entry(blob.provider_metadata, id, state, status, duration, AZURE_LEASE_STATE_KEY@);
    lease_entry(blob.provider_metadata, id, state, status, duration, AZURE_LEASE_STATUS_KEY@);
    lease_entry(blob.provider_metadata, id, state, status, duration, AZURE_LEASE_DURATION_KEY@);
}

proof fn get_with_option(table: Seq<(Text, Text)>, put: Text, value: Option<Text>, key: Text)
    ensures
        get(with_option(table, put, value), key) == if key == put {
            value
        } else {
            get(table, key)
        },
{
    match value {
        Some(value) => get_with(table, put, value, key),
        None => get_without(table, put, key),
    }
}

proof fn lease_entry(
    table: Seq<(Text, Text)>,
    id: Option<Text>,
    state: Text,
    status: Text,
    duration: Option<Text>,
    key: Text,
)
    ensures
        ({
            let a = with_option(table, AZURE_LEASE_ID_KEY@, id);
            let b = with(a, AZURE_LEASE_STATE_KEY@, state);
            let c = with(b, AZURE_LEASE_STATUS_KEY@, status);
            get(with_option(c, AZURE_LEASE_DURATION_KEY@, duration), key) == if key
                == AZURE_LEASE_DURATION_KEY@ {
                duration
            } else if key == AZURE_LEASE_STATUS_KEY@ {
                Some(status)
            } else if key == AZURE_LEASE_STATE_KEY@ {
                Some(state)
            } else if key == AZURE_LEASE_ID_KEY@ {
                id
            } else {
                get(table, key)
            }
        }),
{
    let a = with_option(table, AZURE_LEASE_ID_KEY@, id);
    let b = with(a, AZURE_LEASE_STATE_KEY@, state);
    let c = with(b, AZURE_LEASE_STATUS_KEY@, status);
    get_with_option(c, AZURE_LEASE_DURATION_KEY@, duration, key);
    get_with(b, AZURE_LEASE_STATUS_KEY@, status, key);
    get_with(a, AZURE_LEASE_STATE_KEY@, state, key);
    get_with_option(table, AZURE_LEASE_ID_KEY@, id, key);
}

pub proof fn get_carried(from: Seq<(Text, Text)>, to: Seq<(Text, Text)>, put: Text, key: Text)
    ensures
        get(carried(from, to, put), key) == if key == put && get(from, put) is Some {
            get(from, put)
        } else {
            get(to, key)
        },
{
    match get(from, put) {
        Some(value) => get_with(to, put, value, key),
        None => {},
    }
}

/// A blob that replaces a leased one is under the same lease.
pub proof fn overwrites_keep_the_lease(
    cx: ContextView,
    key: Text,
    blocks: Seq<(Text, Seq<u8>)>,
    existing: ObjectView,
)
    requires
        has_active_lease(existing),
    ensures
        has_active_lease(created_blob(cx, key, Some(existing))),
        lease_id(created_blob(cx, key, Some(existing))) == lease_id(existing),
        has_active_lease(committed_blob(cx, key, blocks, Some(existing))),
        lease_id(committed_blob(cx, key, blocks, Some(existing))) == lease_id(existing),
{
    lease_is_carried(existing, blob_for_type(cx.stamp, cx.req, key));
    lease_is_carried(existing, committed_blob(cx, key, blocks, None));
}

proof fn lease_is_carried(source: ObjectView, destination: ObjectView)
    requires
        has_active_lease(source),
    ensures
        has_active_lease(with_lease_of(source, destination)),
        lease_id(with_lease_of(source, destination)) == lease_id(source),
{
    lease_keys_differ();
    let from = source.provider_metadata;
    let to = destination.provider_metadata;
    let a = carried(from, to, AZURE_LEASE_ID_KEY@);
    let b = carried(from, a, AZURE_LEASE_STATE_KEY@);
    let c = carried(from, b, AZURE_LEASE_STATUS_KEY@);
    get_carried(from, c, AZURE_LEASE_DURATION_KEY@, AZURE_LEASE_ID_KEY@);
    get_carried(from, b, AZURE_LEASE_STATUS_KEY@, AZURE_LEASE_ID_KEY@);
    get_carried(from, a, AZURE_LEASE_STATE_KEY@, AZURE_LEASE_ID_KEY@);
    get_carried(from, to, AZURE_LEASE_ID_KEY@, AZURE_LEASE_ID_KEY@);
    get_carried(from, c, AZURE_LEASE_DURATION_KEY@, AZURE_LEASE_STATUS_KEY@);
    get_carried(from, b, AZURE_LEASE_STATUS_KEY@, AZURE_LEASE_STATUS_KEY@);
    reveal_strlit("unlocked");
    reveal_strlit("locked");
    assert("unlocked"@.len() == 8 && "locked"@.len() == 6);
}

/// A snapshot is not leased, and has the content of its blob.
pub proof fn snapshots_are_not_leased(cx: ContextView, key: Text, blob: ObjectView)
    ensures
        lease_id(snapshot_of(cx, key, blob)) is None,
        !has_active_lease(snapshot_of(cx, key, blob)),
        snapshot_of(cx, key, blob).data == blob.data,
{
    lease_keys_differ();
    reveal_strlit("azure_lease_id");
    reveal_strlit("azure_snapshot_time");
    reveal_strlit("azure_snapshot_source");
    assert(AZURE_SNAPSHOT_TIME_KEY@.len() == 19);
    assert(AZURE_SNAPSHOT_SOURCE_KEY@.len() == 21);
    assert(AZURE_LEASE_ID_KEY@.len() == 14);
    let time = micros_date(cx.stamp.now.secs, cx.stamp.now.nanos);
    let id = AZURE_LEASE_ID_KEY@;
    let a = without(blob.provider_metadata, id);
    let b = without(a, AZURE_LEASE_STATE_KEY@);
    let c = without(b, AZURE_LEASE_STATUS_KEY@);
    let d = without(c, AZURE_LEASE_DURATION_KEY@);
    let e = with(d, AZURE_SNAPSHOT_TIME_KEY@, time);
    get_without(blob.provider_metadata, id, id);
    get_without(a, AZURE_LEASE_STATE_KEY@, id);
    get_without(b, AZURE_LEASE_STATUS_KEY@, id);
    get_without(c, AZURE_LEASE_DURATION_KEY@, id);
    get_with(d, AZURE_SNAPSHOT_TIME_KEY@, time, id);
    get_with(e, AZURE_SNAPSHOT_SOURCE_KEY@, key, id);
}

proof fn looking_for_snapshots_lists(
    container: Text,
    prefix: Text,
    marker: Option<Text>,
    so_far: Seq<Text>,
    tape: TapeView,
)
    ensures
        snapshot_keys(container, prefix, marker, so_far, tape) matches KnownView::Halt(
            StepView::Perform(effect),
        ) ==> effect is ListObjects,
    decreases tape.len(),
{
    if tape.len() > 0 {
        match tape[0] {
            OutcomeView::Page(Ok(page)) => {
                let keys = so_far + object_keys(page.objects);
                if page.next_marker is Some {
                    looking_for_snapshots_lists(
                        container,
                        prefix,
                        page.next_marker,
                        keys,
                        tape.skip(1),
                    );
                }
            },
            _ => {},
        }
    }
}

proof fn deleting_snapshots_deletes(container: Text, keys: Seq<Text>, i: int, tape: TapeView)
    ensures
        delete_snapshots(container, keys, i, tape) matches KnownView::Halt(
            StepView::Perform(effect),
        ) ==> effect is DeleteObject,
    decreases keys.len() - i,
{
    if i < keys.len() && tape.len() > 0 {
        deleting_snapshots_deletes(container, keys, i + 1, tape.skip(1));
    }
}

/// Deleting a blob asks for nothing but lookups and deletions.
proof fn deleting_blobs_replaces_nothing(
    cx: ContextView,
    container: Text,
    key: Text,
    snapshot: Option<Text>,
    tape: TapeView,
)
    ensures
        delete_blob(cx, container, key, snapshot, tape) matches StepView::Perform(effect) ==> (
        effect.mutates() ==> effect is DeleteObject || effect is DeleteObjectIf || effect
            is DeleteVersion),
{
    looking_for_snapshots_lists(
        container,
        snapshot_prefix(key),
        None,
        Seq::empty(),
        tape.skip(1),
    );
    assert forall|keys: Seq<Text>, rest: TapeView|
        (#[trigger] delete_snapshots(container, keys, 0, rest)) matches KnownView::Halt(
            StepView::Perform(effect),
        ) ==> effect is DeleteObject by {
        deleting_snapshots_deletes(container, keys, 0, rest);
    }
}

/// Requests for the content of a blob replace no metadata in place.
proof fn content_requests_replace_no_metadata(
    cx: ContextView,
    account: Text,
    container: Text,
    key: Text,
    tape: TapeView,
)
    ensures
        handle_blob_comp_request(cx, account, container, key, tape) matches StepView::Perform(
            effect,
        ) ==> !(effect is ReplaceMetadata),
{
    let snapshot = cx.req.param("snapshot"@);
    match cx.req.param("comp"@) {
        None => {
            deleting_blobs_replaces_nothing(cx, container, key, snapshot, tape);
            blob_writes_replace_no_metadata(cx, container, key, snapshot, tape);
            blob_reads_are_quiet(cx, container, key, snapshot, tape);
        },
        Some(comp) => {
            block_requests_replace_no_metadata(cx, account, container, key, tape);
            blob_changes_replace_no_metadata(cx, container, key, tape);
        },
    }
}

proof fn blob_writes_replace_no_metadata(
    cx: ContextView,
    container: Text,
    key: Text,
    snapshot: Option<Text>,
    tape: TapeView,
)
    ensures
        put_blob(cx, container, key, snapshot, tape) matches StepView::Perform(effect) ==> !(effect
            is ReplaceMetadata),
{
}

proof fn blob_reads_are_quiet(
    cx: ContextView,
    container: Text,
    key: Text,
    snapshot: Option<Text>,
    tape: TapeView,
)
    ensures
        get_blob(cx, container, key, snapshot, tape).is_quiet(),
        head_blob(cx, container, key, snapshot, tape).is_quiet(),
{
}

proof fn block_requests_replace_no_metadata(
    cx: ContextView,
    account: Text,
    container: Text,
    key: Text,
    tape: TapeView,
)
    ensures
        put_block(cx, account, container, key, tape).is_quiet(),
        get_block_list(cx, account, container, key, tape).is_quiet(),
        put_block_list(cx, account, container, key, tape) matches StepView::Perform(effect) ==> !(
        effect is ReplaceMetadata),
{
}

proof fn blob_changes_replace_no_metadata(
    cx: ContextView,
    container: Text,
    key: Text,
    tape: TapeView,
)
    ensures
        update_metadata(cx, container, key, tape) matches StepView::Perform(effect) ==> !(effect
            is ReplaceMetadata),
        append_block(cx, container, key, tape) matches StepView::Perform(effect) ==> !(effect
            is ReplaceMetadata),
        put_page(cx, container, key, tape) matches StepView::Perform(effect) ==> !(effect
            is ReplaceMetadata),
{
}

/// Leasing a blob, protecting it and holding it replace nothing but the metadata that the
/// service keeps about it: content, tag, version, time and the client's metadata stay.
pub proof fn control_operations_keep_identity(
    cx: ContextView,
    account: Text,
    container: Text,
    key: Text,
    tape: TapeView,
)
    ensures
        handle_blob_request(cx, account, container, key, tape) matches StepView::Perform(
            EffectView::ReplaceMetadata(bucket, name, observed, updated),
        ) ==> bucket == container && name == key && tape.len() > 0 && tape[0]
            == OutcomeView::Object(Ok(observed)) && updated == (ObjectView {
            provider_metadata: updated.provider_metadata,
            ..observed
        }),
{
    content_requests_replace_no_metadata(cx, account, container, key, tape);
}

/// A locked policy is neither unlocked nor shortened.
pub proof fn locked_policies_stay(
    cx: ContextView,
    container: Text,
    key: Text,
    blob: ObjectView,
    tape: TapeView,
)
    requires
        policy_locked(blob),
        tape.len() > 0,
        tape[0] == OutcomeView::Object(Ok(blob)),
    ensures
        delete_immutability_policy(cx, container, key, tape).is_refusal(),
        put_immutability_policy(cx, container, key, tape) matches StepView::Perform(effect) ==> (
        effect matches EffectView::ReplaceMetadata(_, _, observed, updated) && observed == blob
            && policy_locked(updated) && {
            let until = get(updated.provider_metadata, AZURE_IMMUTABILITY_UNTIL_KEY@);
            &&& until is Some
            &&& instant(rfc2822_moment(until->0)) is Some
            &&& retention_until(blob) is Some
            &&& !retention_until(blob)->0.later_than(instant(rfc2822_moment(until->0))->0)
        }),
{
    reveal_strlit("azure_immutability_until");
    reveal_strlit("azure_immutability_mode");
    assert(AZURE_IMMUTABILITY_UNTIL_KEY@.len() == 24);
    assert(AZURE_IMMUTABILITY_MODE_KEY@.len() == 23);
    match requested_policy(cx.stamp, cx.req) {
        Ok((until, _, mode)) => {
            let a = with(blob.provider_metadata, AZURE_IMMUTABILITY_UNTIL_KEY@, until);
            get_with(a, AZURE_IMMUTABILITY_MODE_KEY@, mode, AZURE_IMMUTABILITY_UNTIL_KEY@);
            get_with(a, AZURE_IMMUTABILITY_MODE_KEY@, mode, AZURE_IMMUTABILITY_MODE_KEY@);
            get_with(
                blob.provider_metadata,
                AZURE_IMMUTABILITY_UNTIL_KEY@,
                until,
                AZURE_IMMUTABILITY_UNTIL_KEY@,
            );
        },
        Err(_) => {},
    }
}

// ---------------------------------------------------------------------------
// Reading, staging and what is not served

/// Reading a blob, its properties or its blocks changes nothing.
pub proof fn blob_reads_change_nothing(
    cx: ContextView,
    account: Text,
    container: Text,
    key: Text,
    tape: TapeView,
)
    requires
        cx.req.method == Method::Get || cx.req.method == Method::Head,
    ensures
        handle_blob_request(cx, account, container, key, tape).is_quiet(),
{
    blob_reads_are_quiet(cx, container, key, cx.req.param("snapshot"@), tape);
    block_requests_replace_no_metadata(cx, account, container, key, tape);
}

/// Describing a container or listing its blobs changes nothing.
pub proof fn container_reads_change_nothing(cx: ContextView, container: Text, tape: TapeView)
    requires
        cx.req.method == Method::Get,
    ensures
        handle_container_request(cx, container, tape).is_quiet(),
{
    gathering_is_quiet(
        cx,
        container,
        cx.req.param("prefix"@),
        None,
        Seq::empty(),
        tape,
    );
}

proof fn gathering_is_quiet(
    cx: ContextView,
    container: Text,
    prefix: Option<Text>,
    marker: Option<Text>,
    so_far: Seq<ObjectView>,
    tape: TapeView,
)
    ensures
        gather_objects(cx.stamp, container, prefix, marker, so_far, tape) matches KnownView::Halt(
            step,
        ) ==> step.is_quiet(),
    decreases tape.len(),
{
    if tape.len() > 0 {
        match tape[0] {
            OutcomeView::Page(Ok(page)) => {
                let objects = so_far + kept::<Object>(
                    page.objects,
                    FilterView::Outside(AZURE_SNAPSHOT_PREFIX@),
                );
                gathering_is_quiet(
                    cx,
                    container,
                    prefix,
                    page.next_marker,
                    objects,
                    tape.skip(1),
                );
            },
            _ => {},
        }
    }
}

/// Staging a block changes no blob.
pub proof fn staging_changes_no_blob(
    cx: ContextView,
    account: Text,
    container: Text,
    key: Text,
    tape: TapeView,
)
    ensures
        put_block(cx, account, container, key, tape).is_quiet(),
{
}

/// Whether an effect changes which blocks are staged or committed.
pub open spec fn consumes_blocks(effect: EffectView) -> bool {
    effect is SaveBlocks || effect is SaveSession || effect is RememberSession || effect
        is ForgetSession || effect is DropSession
}

/// A block list takes nothing from the staged blocks before storage has written the blob, so
/// a list that is refused leaves all of them staged.
pub proof fn refused_commits_keep_staged_blocks(
    cx: ContextView,
    account: Text,
    container: Text,
    key: Text,
    tape: TapeView,
)
    requires
        forall|i: int| 0 <= i < tape.len() ==> #[trigger] tape[i] != OutcomeView::Flag(Ok(true)),
    ensures
        put_block_list(cx, account, container, key, tape) matches StepView::Perform(effect)
            ==> !consumes_blocks(effect),
{
}

/// A request for a part of a container that is not served is refused without a question to
/// storage.
pub proof fn unserved_container_parts_are_refused(cx: ContextView, container: Text, tape: TapeView)
    requires
        cx.req.param("comp"@) is Some,
        cx.req.param("comp"@) != Some("list"@) || cx.req.method != Method::Get,
    ensures
        handle_container_request(cx, container, tape) matches StepView::Reply(reply)
            && reply.status == 501,
{
}

/// Whether a request is for a part of a blob that is served.
pub open spec fn served_part(method: Method, comp: Text) -> bool {
    ||| method == Method::Put && (written_part(comp) || guarding_part(comp) || comp == "block"@)
    ||| method == Method::Delete && comp == "immutabilityPolicies"@
    ||| method == Method::Get && comp == "blocklist"@
}

/// A request for a part of a blob that is not served is refused without a question to
/// storage.
pub proof fn unserved_blob_parts_are_refused(
    cx: ContextView,
    account: Text,
    container: Text,
    key: Text,
    tape: TapeView,
)
    requires
        cx.req.param("comp"@) matches Some(comp) && !served_part(cx.req.method, comp),
    ensures
        handle_blob_request(cx, account, container, key, tape) matches StepView::Reply(reply)
            && reply.status == 501,
{
}

/// A request that would change a snapshot or an earlier version in any way but by deleting it
/// is refused without a question to storage.
pub proof fn history_is_read_only(
    cx: ContextView,
    account: Text,
    container: Text,
    key: Text,
    tape: TapeView,
)
    requires
        cx.req.param("versionid"@) is Some || cx.req.param("snapshot"@) is Some,
        cx.req.method == Method::Put || cx.req.method == Method::Delete && cx.req.param("comp"@)
            is Some,
    ensures
        handle_blob_request(cx, account, container, key, tape).is_refusal(),
{
}

/// A container whose history cannot be kept as the request asks is not left behind: it is
/// deleted again, and the request fails.
pub proof fn half_made_containers_are_deleted(
    cx: ContextView,
    container: Text,
    versioning: bool,
    days: Option<u64>,
    namespace: BucketView,
    error: StorageErrorView,
    tape: TapeView,
)
    requires
        tape.len() > 0,
        tape[0] == OutcomeView::Done(Err(error)) || tape.len() > 1 && tape[0] == OutcomeView::Done(
            Ok(()),
        ) && tape[1] == OutcomeView::Bucket(Err(error)) || tape.len() > 2 && tape[0]
            == OutcomeView::Done(Ok(())) && (tape[1] matches OutcomeView::Bucket(Ok(_))) && tape[2]
            == OutcomeView::Done(Err(error)),
    ensures
        ({
            let step = protect_container(cx, container, versioning, days, namespace, tape);
            step == StepView::Perform(EffectView::DeleteBucket(container)) || step is Fail
        }),
{
    if tape.len() > 1 {
        assert(tape.skip(1)[0] == tape[1]);
    }
    if tape.len() > 2 {
        assert(tape.skip(1).skip(1)[0] == tape[2]);
    }
}

// ---------------------------------------------------------------------------
// Deleting containers

/// Deleting a container removes nothing yet.
pub proof fn container_deletion_is_put_off(cx: ContextView, container: Text, tape: TapeView)
    ensures
        delete_container(cx, container, tape).is_quiet(),
{
    scanning_lists(cx.stamp.now, container, None, Seq::empty(), tape.skip(1));
}

/// A container that is deleted is held for as long as the request asks, and for thirty seconds
/// where it asks for nothing.
pub proof fn deletions_are_put_off_by_the_delay(cx: ContextView, container: Text, tape: TapeView)
    requires
        cx.stamp.now.plain(),
    ensures
        delete_container(cx, container, tape) matches StepView::Perform(
            EffectView::SaveDeletion(name, at),
        ) ==> name == container && (deletion_delay(cx.stamp, cx.req) matches Ok(delay) && 0 <= delay
            && at.total() == cx.stamp.now.total() + delay * 1_000_000 && (cx.req.header(
            "x-sqrzl-azure-delete-delay-ms"@,
        ) is None ==> delay == 30_000)),
{
    scanning_lists(cx.stamp.now, container, None, Seq::empty(), tape.skip(1));
    match cx.req.header("x-sqrzl-azure-delete-delay-ms"@) {
        Some(value) => signed_fits(value),
        None => {},
    }
}

proof fn scanning_lists(
    now: Instant,
    container: Text,
    marker: Option<Text>,
    seen_markers: Seq<Text>,
    tape: TapeView,
)
    ensures
        match immutable_from(now, container, marker, seen_markers, tape) {
            KnownView::Halt(step) => step matches StepView::Perform(effect) ==> effect
                is ListObjects || effect is ListVersions,
            KnownView::Got(found, rest) => rest.len() <= tape.len() && rest == tape.skip(
                tape.len() - rest.len(),
            ) && (!found ==> forall|i: int|
                0 <= i < tape.len() - rest.len() ==> shows_nothing_immutable(
                    now,
                    #[trigger] tape[i],
                )),
        },
    decreases tape.len(),
{
    if tape.len() > 0 {
        match tape[0] {
            OutcomeView::Page(Ok(page)) => {
                let rest = tape.skip(1);
                if any_immutable(now, page.objects) {
                    assert(rest =~= tape.skip(tape.len() - rest.len()));
                } else {
                    match page.next_marker {
                        None => {
                            if rest.len() > 0 {
                                assert(rest[0] == tape[1]);
                                assert(rest.skip(1) =~= tape.skip(2));
                                assert(tape.skip(2) == tape.skip(tape.len() - tape.skip(2).len()));
                            }
                        },
                        Some(next) => {
                            if !seen_markers.contains(next) {
                                let markers = seen_markers.push(next);
                                scanning_lists(now, container, Some(next), markers, rest);
                                match immutable_from(now, container, Some(next), markers, rest) {
                                    KnownView::Got(found, end) => {
                                        assert(end =~= tape.skip(tape.len() - end.len()));
                                        assert forall|i: int|
                                            !found && 0 <= i < tape.len() - end.len() implies
                                            shows_nothing_immutable(now, #[trigger] tape[i]) by {
                                            if i > 0 {
                                                assert(tape[i] == rest[i - 1]);
                                            }
                                        }
                                    },
                                    KnownView::Halt(_) => {},
                                }
                            }
                        },
                    }
                }
            },
            _ => {},
        }
    }
}

/// Whether an answer of storage shows no object that is immutable.
pub open spec fn shows_nothing_immutable(now: Instant, outcome: OutcomeView) -> bool {
    match outcome {
        OutcomeView::Page(Ok(page)) => !any_immutable(now, page.objects),
        OutcomeView::Versions(Ok(versions)) => !any_immutable(now, versions),
        _ => false,
    }
}

/// A container is found free of immutable blobs only where storage listed its objects and
/// its versions and none of them was immutable.
pub proof fn scans_see_everything(now: Instant, container: Text, tape: TapeView)
    ensures
        container_has_immutable_blob(now, container, tape) matches KnownView::Got(false, rest) ==> (
        rest.len() < tape.len() && forall|i: int|
            0 <= i < tape.len() - rest.len() ==> shows_nothing_immutable(now, #[trigger] tape[i])),
{
    scanning_lists(now, container, None, Seq::empty(), tape);
    scans_take_answers(now, container, None, Seq::empty(), tape);
}

proof fn scans_take_answers(
    now: Instant,
    container: Text,
    marker: Option<Text>,
    seen_markers: Seq<Text>,
    tape: TapeView,
)
    ensures
        immutable_from(now, container, marker, seen_markers, tape) matches KnownView::Got(_, rest)
            ==> rest.len() < tape.len(),
    decreases tape.len(),
{
    if tape.len() > 0 {
        match tape[0] {
            OutcomeView::Page(Ok(page)) => {
                if page.next_marker is Some {
                    scans_take_answers(
                        now,
                        container,
                        page.next_marker,
                        seen_markers.push(page.next_marker->0),
                        tape.skip(1),
                    );
                }
            },
            _ => {},
        }
    }
}

/// A container is purged only once its deletion is due and no blob in it is found immutable;
/// where one is, the deletion is given up.
pub proof fn purges_spare_protected_containers(now: Instant, container: Text, tape: TapeView)
    ensures
        finish_expired_container_deletion(now, container, tape) matches KnownView::Halt(
            StepView::Perform(effect),
        ) ==> (effect.mutates() ==> purge_is_due(now, container, tape)),
        container_has_immutable_blob(now, container, tape.skip(1)) matches KnownView::Got(
            true,
            rest,
        ) ==> (deletion_is_due(now, tape) && rest.len() == 0 ==> finish_expired_container_deletion(
            now,
            container,
            tape,
        ) == KnownView::<bool>::Halt(StepView::Perform(EffectView::DropDeletion(container)))),
{
    scanning_lists(now, container, None, Seq::empty(), tape.skip(1));
}

/// Whether a container's deletion is due.
pub open spec fn deletion_is_due(now: Instant, tape: TapeView) -> bool {
    tape.len() > 0 && (tape[0] matches OutcomeView::Deletion(Ok(Some(at))) && !at.later_than(now))
}

/// Whether a container's deletion is due and storage has shown that nothing in it is
/// immutable.
pub open spec fn purge_is_due(now: Instant, container: Text, tape: TapeView) -> bool {
    deletion_is_due(now, tape) && (container_has_immutable_blob(
        now,
        container,
        tape.skip(1),
    ) matches KnownView::Got(found, _) && !found)
}

/// While a container is being deleted it is not there for any request, and its name cannot
/// be taken.
pub proof fn deleted_names_are_held(
    cx: ContextView,
    container: Text,
    at: Instant,
    tape: TapeView,
)
    requires
        parse_resource(cx.req.path) matches Ok(resource) && resource.container == Some(container)
            && authorize(cx.stamp, cx.req, cx.auth, resource) is Ok,
        at.later_than(cx.stamp.now),
        tape.len() > 1,
        tape[0] == OutcomeView::Deletion(Ok(Some(at))),
        tape[1] == OutcomeView::Deletion(Ok(Some(at))),
    ensures
        handle_request(cx, tape) == StepView::Reply(
            if cx.req.method == Method::Put && cx.req.param("restype"@) == Some("container"@) {
                error_response(
                    cx.stamp,
                    409,
                    "ContainerBeingDeleted"@,
                    "The specified container is being deleted."@,
                )
            } else {
                container_not_found(cx.stamp)
            },
        ),
{
    assert(tape.skip(1)[0] == tape[1]);
}

} // verus!
