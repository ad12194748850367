//! What becomes of the leases, snapshots, policies and holds of a blob.

use vstd::prelude::*;
use vstd::string::*;
use vstd::utf8::{encode_utf8, encode_utf8_decode_utf8};
use crate::azure::basics::{
    conditions_match, has_active_lease, snapshot_prefix, snapshot_storage_key, with_lease_state,
    AZURE_IMMUTABILITY_MODE_KEY, AZURE_IMMUTABILITY_UNTIL_KEY, AZURE_LEGAL_HOLD_KEY,
};
use crate::azure::blobs::{
    create_snapshot, delete_blob, delete_immutability_policy, handle_blob_crud, handle_blob_request,
    handle_lease, put_immutability_policy, put_legal_hold, snapshot_of,
};
use crate::azure::guards::lease_states_are_read_back;
use crate::azure::replies::{header_is_read, once_each};
use crate::azure::runs::{
    reaches, reads_give_what_is_selected, requests_are_served, requests_reach_their_blob,
    selected_blob, served, unguarded,
};
use crate::azure::writes::{parts_are_served, writes_to};
use crate::clock::{instant, micros_date, rfc2822_moment, Instant};
use crate::codec::{base64_form, base64_is_read_back, form_lengths};
use crate::gcs::checks::encoding_is_no_shorter;
use crate::http::{ContextView, Method};
use crate::readings::{lacks, metadata_is_read};
use crate::store::{ConditionView, EffectView, ObjectView, OutcomeView, StepView, TapeView};
use crate::table::{get, get_with, get_without, with, without};
use crate::text::{or_text, starts_with};
use crate::views::Text;
use crate::world::{ends, held, led, led_is_read, run, run_steps, run_stops, runs_agree, World};

verus! {

/// A run that reads a blob and replaces what is kept of it.
proof fn replacing_runs(
    world: World,
    container: Text,
    key: Text,
    blob: ObjectView,
    updated: ObjectView,
    handler: spec_fn(TapeView) -> StepView,
    effects: nat,
)
    requires
        world.object(container, key) == Some(blob),
        effects >= 2,
        handler(Seq::empty()) == StepView::Perform(EffectView::GetObject(container, key)),
        handler(led(OutcomeView::Object(Ok(blob)), Seq::empty())) == StepView::Perform(
            EffectView::ReplaceMetadata(container, key, blob, updated),
        ),
        handler(
            led(
                OutcomeView::Object(Ok(blob)),
                led(OutcomeView::Flag(Ok(true)), Seq::empty()),
            ),
        ) is Reply,
    ensures
        run(world, handler, Seq::empty(), effects) == (
            world.with_object(container, key, updated),
            handler(
                led(
                    OutcomeView::Object(Ok(blob)),
                    led(OutcomeView::Flag(Ok(true)), Seq::empty()),
                ),
            ),
        ),
{
    let second = |tape: TapeView| handler(led(OutcomeView::Object(Ok(blob)), tape));
    run_steps(world, handler, EffectView::GetObject(container, key), second, effects);
    let end = |tape: TapeView| second(led(OutcomeView::Flag(Ok(true)), tape));
    let put = EffectView::ReplaceMetadata(container, key, blob, updated);
    run_steps(world, second, put, end, (effects - 1) as nat);
    run_stops(world.after(put), end, (effects - 2) as nat);
}

/// Whether two objects differ at most in what this front door keeps of them under some keys.
pub open spec fn differ_only_in(a: ObjectView, b: ObjectView, keys: Seq<Text>) -> bool {
    &&& a == (ObjectView { provider_metadata: a.provider_metadata, ..b })
    &&& forall|key: Text|
        !keys.contains(key) ==> #[trigger] get(a.provider_metadata, key) == get(
            b.provider_metadata,
            key,
        )
}

/// The keys of a lease.
pub open spec fn lease_keys() -> Seq<Text> {
    seq!["azure_lease_id"@, "azure_lease_state"@, "azure_lease_status"@, "azure_lease_duration"@]
}

proof fn lease_changes_differ_only_there(
    blob: ObjectView,
    id: Option<Text>,
    state: Text,
    status: Text,
    duration: Option<Text>,
)
    ensures
        ({
            let leased = with_lease_state(blob, id, state, status, duration);
            &&& differ_only_in(leased, blob, lease_keys())
            &&& get(leased.provider_metadata, "azure_lease_id"@) == id
            &&& get(leased.provider_metadata, "azure_lease_state"@) == Some(state)
            &&& get(leased.provider_metadata, "azure_lease_status"@) == Some(status)
            &&& get(leased.provider_metadata, "azure_lease_duration"@) == duration
        }),
{
    let leased = with_lease_state(blob, id, state, status, duration);
    assert forall|key: Text| !lease_keys().contains(key) implies #[trigger] get(
        leased.provider_metadata,
        key,
    ) == get(blob.provider_metadata, key) by {
        lease_states_are_read_back(blob, id, state, status, duration, key);
        assert(lease_keys()[0] != key && lease_keys()[1] != key && lease_keys()[2] != key
            && lease_keys()[3] != key);
    }
    crate::azure::guards::lease_values(blob, id, state, status, duration);
}

proof fn actions_differ()
    ensures
        "acquire"@ != "release"@,
        "acquire"@.len() == 7,
        "release"@.len() == 7,
        "renew"@.len() == 5,
        "break"@.len() == 5,
        "renew"@ != "break"@,
{
    reveal_strlit("acquire");
    reveal_strlit("release");
    reveal_strlit("renew");
    reveal_strlit("break");
    assert("acquire"@[0] != "release"@[0]);
    assert("renew"@[0] != "break"@[0]);
}

/// A lease that is acquired is that of the proposed identifier, or of a fresh one, which the
/// reply gives. The blob is locked by it, for ever unless the request gives a number of seconds.
/// Nothing else of the blob changes.
pub proof fn leases_are_acquired(
    world: World,
    cx: ContextView,
    account: Text,
    container: Text,
    key: Text,
    blob: ObjectView,
    effects: nat,
)
    requires
        writes_to(world, cx, account, container, key, Some("lease"@)),
        cx.req.header("x-ms-lease-action"@) == Some("acquire"@),
        world.object(container, key) == Some(blob),
        get(blob.provider_metadata, "azure_lease_id"@) is None,
        conditions_match(cx.req, blob.etag),
        effects >= 6,
    ensures
        ({
            let leased = served(world, cx, effects).0.objects[(container, key)];
            let id = or_text(cx.req.header("x-ms-proposed-lease-id"@), cx.stamp.fresh_id);
            let endless = cx.req.header("x-ms-lease-duration"@) is None || cx.req.header(
                "x-ms-lease-duration"@,
            ) == Some("-1"@);
            &&& ends(
                served(world, cx, effects),
                world.with_object(container, key, leased),
                201,
            )
            &&& served(world, cx, effects).1 matches StepView::Reply(reply) && get(
                reply.headers,
                "x-ms-lease-id"@,
            ) == Some(id)
            &&& differ_only_in(leased, blob, lease_keys())
            &&& get(leased.provider_metadata, "azure_lease_id"@) == Some(id)
            &&& get(leased.provider_metadata, "azure_lease_state"@) == Some("leased"@)
            &&& get(leased.provider_metadata, "azure_lease_status"@) == Some("locked"@)
            &&& get(leased.provider_metadata, "azure_lease_duration"@) == Some(
                if endless {
                    "infinite"@
                } else {
                    "fixed"@
                },
            )
        }),
{
    broadcast use led_is_read;
    broadcast use header_is_read;

    actions_differ();
    parts_are_served(world, cx, account, container, key, "lease"@, effects);
    let handler = |tape: TapeView| handle_lease(cx, container, key, tape);
    let id = or_text(cx.req.header("x-ms-proposed-lease-id"@), cx.stamp.fresh_id);
    let duration = if or_text(cx.req.header("x-ms-lease-duration"@), "-1"@) == "-1"@ {
        "infinite"@
    } else {
        "fixed"@
    };
    let leased = with_lease_state(blob, Some(id), "leased"@, "locked"@, Some(duration));
    lease_changes_differ_only_there(blob, Some(id), "leased"@, "locked"@, Some(duration));
    assert(!has_active_lease(blob));
    replacing_runs(world, container, key, blob, leased, handler, (effects - 4) as nat);
}

/// A lease ends with its release by whoever holds it, and with its break by anyone: the blob is
/// then unlocked and has no identifier. Nothing else of it changes.
pub proof fn leases_end(
    world: World,
    cx: ContextView,
    account: Text,
    container: Text,
    key: Text,
    blob: ObjectView,
    effects: nat,
)
    requires
        writes_to(world, cx, account, container, key, Some("lease"@)),
        cx.req.header("x-ms-lease-action"@) == Some("release"@) || cx.req.header(
            "x-ms-lease-action"@,
        ) == Some("break"@),
        world.object(container, key) == Some(blob),
        get(blob.provider_metadata, "azure_lease_status"@) == Some("locked"@),
        get(blob.provider_metadata, "azure_lease_id"@) is Some,
        cx.req.header("x-ms-lease-action"@) == Some("release"@) ==> cx.req.header(
            "x-ms-lease-id"@,
        ) == get(blob.provider_metadata, "azure_lease_id"@),
        conditions_match(cx.req, blob.etag),
        effects >= 6,
    ensures
        ({
            let free = served(world, cx, effects).0.objects[(container, key)];
            let released = cx.req.header("x-ms-lease-action"@) == Some("release"@);
            &&& ends(
                served(world, cx, effects),
                world.with_object(container, key, free),
                if released {
                    200
                } else {
                    202
                },
            )
            &&& differ_only_in(free, blob, lease_keys())
            &&& get(free.provider_metadata, "azure_lease_id"@) is None
            &&& get(free.provider_metadata, "azure_lease_status"@) == Some("unlocked"@)
            &&& get(free.provider_metadata, "azure_lease_state"@) == Some(
                if released {
                    "available"@
                } else {
                    "broken"@
                },
            )
        }),
{
    broadcast use led_is_read;

    actions_differ();
    parts_are_served(world, cx, account, container, key, "lease"@, effects);
    let handler = |tape: TapeView| handle_lease(cx, container, key, tape);
    let state = if cx.req.header("x-ms-lease-action"@) == Some("release"@) {
        "available"@
    } else {
        "broken"@
    };
    let free = with_lease_state(blob, None, state, "unlocked"@, None);
    lease_changes_differ_only_there(blob, None, state, "unlocked"@, None);
    assert(has_active_lease(blob));
    replacing_runs(world, container, key, blob, free, handler, (effects - 4) as nat);
}

/// A lease that is renewed by whoever holds it stays as it is, and the reply gives its
/// identifier.
pub proof fn leases_are_renewed(
    world: World,
    cx: ContextView,
    account: Text,
    container: Text,
    key: Text,
    blob: ObjectView,
    effects: nat,
)
    requires
        writes_to(world, cx, account, container, key, Some("lease"@)),
        cx.req.header("x-ms-lease-action"@) == Some("renew"@),
        world.object(container, key) == Some(blob),
        get(blob.provider_metadata, "azure_lease_status"@) == Some("locked"@),
        get(blob.provider_metadata, "azure_lease_id"@) is Some,
        cx.req.header("x-ms-lease-id"@) == get(blob.provider_metadata, "azure_lease_id"@),
        conditions_match(cx.req, blob.etag),
        effects >= 6,
    ensures
        ends(served(world, cx, effects), world, 200),
        served(world, cx, effects).1 matches StepView::Reply(reply) && get(
            reply.headers,
            "x-ms-lease-id"@,
        ) == get(blob.provider_metadata, "azure_lease_id"@),
{
    broadcast use led_is_read;
    broadcast use header_is_read;

    actions_differ();
    parts_are_served(world, cx, account, container, key, "lease"@, effects);
    let handler = |tape: TapeView| handle_lease(cx, container, key, tape);
    replacing_runs(world, container, key, blob, blob, handler, (effects - 4) as nat);
    assert(world.objects.insert((container, key), blob) =~= world.objects);
}

/// A lease that is there is not acquired again, and one that is not held is neither renewed nor
/// released. Nothing changes then.
pub proof fn leases_are_held(
    world: World,
    cx: ContextView,
    account: Text,
    container: Text,
    key: Text,
    blob: ObjectView,
    effects: nat,
)
    requires
        writes_to(world, cx, account, container, key, Some("lease"@)),
        cx.req.header("x-ms-lease-action"@) matches Some(action) && (action == "acquire"@ || (
        action == "renew"@ || action == "release"@) && cx.req.header("x-ms-lease-id"@) != get(
            blob.provider_metadata,
            "azure_lease_id"@,
        )),
        world.object(container, key) == Some(blob),
        get(blob.provider_metadata, "azure_lease_status"@) == Some("locked"@),
        get(blob.provider_metadata, "azure_lease_id"@) is Some,
        conditions_match(cx.req, blob.etag),
        effects >= 6,
    ensures
        ends(
            served(world, cx, effects),
            world,
            if cx.req.header("x-ms-lease-action"@) == Some("acquire"@) {
                409
            } else {
                412
            },
        ),
{
    broadcast use led_is_read;

    actions_differ();
    parts_are_served(world, cx, account, container, key, "lease"@, effects);
    let handler = |tape: TapeView| handle_lease(cx, container, key, tape);
    let end = |tape: TapeView| handler(led(OutcomeView::Object(Ok(blob)), Seq::empty()));
    assert(has_active_lease(blob));
    run_steps(
        world,
        handler,
        EffectView::GetObject(container, key),
        end,
        (effects - 4) as nat,
    );
    run_stops(world, end, (effects - 5) as nat);
}

// ---------------------------------------------------------------------------
// Policies and holds

/// A policy that a request puts a blob under is kept as it is given. Nothing else of the blob
/// changes.
pub proof fn policies_are_kept_as_given(
    world: World,
    cx: ContextView,
    account: Text,
    container: Text,
    key: Text,
    blob: ObjectView,
    until: Text,
    at: Instant,
    effects: nat,
)
    requires
        writes_to(world, cx, account, container, key, Some("immutabilityPolicies"@)),
        cx.req.header("x-ms-immutability-policy-until-date"@) == Some(until),
        instant(rfc2822_moment(until)) == Some(at),
        at.later_than(cx.stamp.now),
        cx.req.header("x-ms-immutability-policy-mode"@) matches Some(mode) ==> mode == "Unlocked"@
            || mode == "Locked"@,
        world.object(container, key) == Some(blob),
        get(blob.provider_metadata, "azure_immutability_mode"@) != Some("Locked"@),
        conditions_match(cx.req, blob.etag),
        effects >= 6,
    ensures
        ({
            let kept = served(world, cx, effects).0.objects[(container, key)];
            let mode = or_text(cx.req.header("x-ms-immutability-policy-mode"@), "Unlocked"@);
            &&& ends(served(world, cx, effects), world.with_object(container, key, kept), 200)
            &&& differ_only_in(
                kept,
                blob,
                seq!["azure_immutability_until"@, "azure_immutability_mode"@],
            )
            &&& get(kept.provider_metadata, "azure_immutability_until"@) == Some(until)
            &&& get(kept.provider_metadata, "azure_immutability_mode"@) == Some(mode)
        }),
{
    broadcast use led_is_read;

    policy_keys_differ();
    parts_are_served(world, cx, account, container, key, "immutabilityPolicies"@, effects);
    let handler = |tape: TapeView| put_immutability_policy(cx, container, key, tape);
    let mode = or_text(cx.req.header("x-ms-immutability-policy-mode"@), "Unlocked"@);
    let before = blob.provider_metadata;
    let a = with(before, AZURE_IMMUTABILITY_UNTIL_KEY@, until);
    let kept = ObjectView { provider_metadata: with(a, AZURE_IMMUTABILITY_MODE_KEY@, mode), ..blob };
    let keys = seq!["azure_immutability_until"@, "azure_immutability_mode"@];
    assert forall|name: Text| #[trigger] get(kept.provider_metadata, name) == if name
        == "azure_immutability_mode"@ {
        Some(mode)
    } else if name == "azure_immutability_until"@ {
        Some(until)
    } else {
        get(before, name)
    } by {
        get_with(before, AZURE_IMMUTABILITY_UNTIL_KEY@, until, name);
        get_with(a, AZURE_IMMUTABILITY_MODE_KEY@, mode, name);
    }
    assert(keys[0] == "azure_immutability_until"@ && keys[1] == "azure_immutability_mode"@);
    replacing_runs(world, container, key, blob, kept, handler, (effects - 4) as nat);
}

proof fn policy_keys_differ()
    ensures
        "azure_immutability_until"@ != "azure_immutability_mode"@,
{
    reveal_strlit("azure_immutability_until");
    reveal_strlit("azure_immutability_mode");
    assert("azure_immutability_until"@.len() == 24 && "azure_immutability_mode"@.len() == 23);
}

/// A policy that is not locked can be taken off, and then nothing of it is left. Nothing else of
/// the blob changes.
pub proof fn unlocked_policies_are_taken_off(
    world: World,
    cx: ContextView,
    account: Text,
    container: Text,
    key: Text,
    blob: ObjectView,
    effects: nat,
)
    requires
        reaches(world, cx, account, container, key),
        cx.req.method == Method::Delete,
        cx.req.param("comp"@) == Some("immutabilityPolicies"@),
        cx.req.param("snapshot"@) is None,
        cx.req.param("versionid"@) is None,
        world.object(container, key) == Some(blob),
        get(blob.provider_metadata, "azure_immutability_mode"@) != Some("Locked"@),
        conditions_match(cx.req, blob.etag),
        effects >= 6,
    ensures
        ({
            let free = served(world, cx, effects).0.objects[(container, key)];
            &&& ends(served(world, cx, effects), world.with_object(container, key, free), 200)
            &&& differ_only_in(
                free,
                blob,
                seq!["azure_immutability_until"@, "azure_immutability_mode"@],
            )
            &&& get(free.provider_metadata, "azure_immutability_until"@) is None
            &&& get(free.provider_metadata, "azure_immutability_mode"@) is None
        }),
{
    broadcast use led_is_read;

    requests_reach_their_blob(world, cx, account, container, key, effects);
    let outer = |tape: TapeView| handle_blob_request(cx, account, container, key, tape);
    let handler = |tape: TapeView| delete_immutability_policy(cx, container, key, tape);
    runs_agree(world, outer, handler, (effects - 4) as nat);
    let before = blob.provider_metadata;
    let a = without(before, AZURE_IMMUTABILITY_UNTIL_KEY@);
    let free = ObjectView {
        provider_metadata: without(a, AZURE_IMMUTABILITY_MODE_KEY@),
        ..blob
    };
    let keys = seq!["azure_immutability_until"@, "azure_immutability_mode"@];
    assert forall|name: Text| #[trigger] get(free.provider_metadata, name) == if name
        == "azure_immutability_mode"@ || name == "azure_immutability_until"@ {
        None
    } else {
        get(before, name)
    } by {
        get_without(before, AZURE_IMMUTABILITY_UNTIL_KEY@, name);
        get_without(a, AZURE_IMMUTABILITY_MODE_KEY@, name);
    }
    assert(keys[0] == "azure_immutability_until"@ && keys[1] == "azure_immutability_mode"@);
    replacing_runs(world, container, key, blob, free, handler, (effects - 4) as nat);
}

/// A legal hold is set or cleared as the request says. Nothing else of the blob changes.
pub proof fn holds_are_kept_as_given(
    world: World,
    cx: ContextView,
    account: Text,
    container: Text,
    key: Text,
    blob: ObjectView,
    hold: Text,
    effects: nat,
)
    requires
        writes_to(world, cx, account, container, key, Some("legalhold"@)),
        cx.req.header("x-ms-legal-hold"@) == Some(hold),
        hold == "true"@ || hold == "false"@,
        world.object(container, key) == Some(blob),
        conditions_match(cx.req, blob.etag),
        effects >= 6,
    ensures
        ({
            let held = served(world, cx, effects).0.objects[(container, key)];
            &&& ends(served(world, cx, effects), world.with_object(container, key, held), 200)
            &&& differ_only_in(held, blob, seq!["azure_legal_hold"@])
            &&& get(held.provider_metadata, "azure_legal_hold"@) == Some(hold)
        }),
{
    broadcast use led_is_read;

    parts_are_served(world, cx, account, container, key, "legalhold"@, effects);
    let handler = |tape: TapeView| put_legal_hold(cx, container, key, tape);
    let before = blob.provider_metadata;
    let held = ObjectView {
        provider_metadata: with(before, AZURE_LEGAL_HOLD_KEY@, hold),
        ..blob
    };
    assert forall|name: Text| #[trigger] get(held.provider_metadata, name) == if name
        == "azure_legal_hold"@ {
        Some(hold)
    } else {
        get(before, name)
    } by {
        get_with(before, AZURE_LEGAL_HOLD_KEY@, hold, name);
    }
    assert(seq!["azure_legal_hold"@][0] == "azure_legal_hold"@);
    replacing_runs(world, container, key, blob, held, handler, (effects - 4) as nat);
}

// ---------------------------------------------------------------------------
// Snapshots

proof fn forms_hold_no_slash(bytes: Seq<u8>)
    ensures
        lacks(base64_form(bytes, true), '/'),
    decreases bytes.len(),
{
    if bytes.len() > 2 {
        forms_hold_no_slash(bytes.skip(3));
        let rest = base64_form(bytes.skip(3), true);
        let all = base64_form(bytes, true);
        assert forall|i: int| 0 <= i < all.len() implies #[trigger] all[i] != '/' by {
            if i >= 4 {
                assert(all[i] == rest[i - 4]);
            }
        }
    }
}

/// The snapshots of different blobs are kept apart, and none is kept where its blob is.
pub proof fn snapshots_are_kept_apart(key: Text, other: Text, snapshot: Text)
    ensures
        starts_with(snapshot_storage_key(key, snapshot), snapshot_prefix(key)),
        starts_with(snapshot_storage_key(key, snapshot), snapshot_prefix(other)) ==> key == other,
        snapshot_storage_key(key, snapshot) != key,
        starts_with(snapshot_storage_key(key, snapshot), "__sqrzl_azure_snapshot__"@),
{
    reveal_strlit("/");
    assert("/"@ =~= seq!['/']);
    let lead = "__sqrzl_azure_snapshot__"@ + "/"@;
    let a = base64_form(encode_utf8(key), true);
    let b = base64_form(encode_utf8(other), true);
    let stored = snapshot_storage_key(key, snapshot);
    let p = snapshot_prefix(key);
    let q = snapshot_prefix(other);
    forms_hold_no_slash(encode_utf8(key));
    forms_hold_no_slash(encode_utf8(other));
    assert(p =~= lead + a + seq!['/']);
    assert(q =~= lead + b + seq!['/']);
    assert(stored.subrange(0, p.len() as int) =~= p);
    assert(stored.subrange(0, "__sqrzl_azure_snapshot__"@.len() as int)
        =~= "__sqrzl_azure_snapshot__"@);
    let n = lead.len() as int;
    if starts_with(stored, q) {
        assert forall|i: int| 0 <= i < q.len() implies stored[i] == q[i] by {
            assert(stored.subrange(0, q.len() as int)[i] == q[i]);
        }
        if a.len() < b.len() {
            assert(stored[n + a.len()] == p[n + a.len()]);
            assert(q[n + a.len()] == b[a.len() as int]);
        } else if b.len() < a.len() {
            assert(stored[n + b.len()] == p[n + b.len()]);
            assert(p[n + b.len()] == a[b.len() as int]);
            assert(q[n + b.len()] == '/');
        }
        assert(a.len() == b.len());
        assert forall|i: int| 0 <= i < a.len() implies a[i] == b[i] by {
            assert(p[n + i] == a[i]);
            assert(q[n + i] == b[i]);
        }
        assert(a =~= b);
        base64_is_read_back(encode_utf8(key), Seq::empty(), true);
        base64_is_read_back(encode_utf8(other), Seq::empty(), true);
        encode_utf8_decode_utf8(key);
        encode_utf8_decode_utf8(other);
    }
    encoding_is_no_shorter(key);
    form_lengths(encode_utf8(key), true);
}

/// Snapshot Blob keeps the blob as it is under the moment that its reply gives: with the same
/// content, and with the metadata of the request if it has any. The blob itself stays.
pub proof fn snapshots_keep_the_blob(
    world: World,
    cx: ContextView,
    account: Text,
    container: Text,
    key: Text,
    blob: ObjectView,
    effects: nat,
)
    requires
        writes_to(world, cx, account, container, key, Some("snapshot"@)),
        once_each(cx.req.headers),
        world.object(container, key) == Some(blob),
        unguarded(blob),
        conditions_match(cx.req, blob.etag),
        effects >= 6,
    ensures
        ({
            let time = micros_date(cx.stamp.now.secs, cx.stamp.now.nanos);
            let place = snapshot_storage_key(key, time);
            let left = served(world, cx, effects).0;
            let kept = left.objects[(container, place)];
            &&& ends(
                served(world, cx, effects),
                world.with_object(container, place, kept),
                201,
            )
            &&& served(world, cx, effects).1 matches StepView::Reply(reply) && get(
                reply.headers,
                "x-ms-snapshot"@,
            ) == Some(time)
            &&& left.object(container, key) == Some(blob)
            &&& kept.data == blob.data
            &&& kept.size == blob.size
            &&& kept.content_type == blob.content_type
            &&& get(kept.provider_metadata, "azure_snapshot_time"@) == Some(time)
            &&& get(kept.provider_metadata, "azure_blob_type"@) == get(
                blob.provider_metadata,
                "azure_blob_type"@,
            )
            &&& (forall|name: Text| (#[trigger] cx.req.header("x-ms-meta-"@ + name)) is None)
                ==> kept.metadata == blob.metadata && kept.etag == blob.etag && kept.last_modified
                == blob.last_modified
            &&& (exists|name: Text| (#[trigger] cx.req.header("x-ms-meta-"@ + name)) is Some)
                ==> forall|name: Text| #[trigger]
                get(kept.metadata, name) == cx.req.header("x-ms-meta-"@ + name)
        }),
{
    broadcast use led_is_read;
    broadcast use header_is_read;

    reveal_strlit("etag");
    reveal_strlit("last-modified");
    reveal_strlit("x-ms-snapshot");
    assert("etag"@.len() == 4 && "last-modified"@.len() == 13 && "x-ms-snapshot"@.len() == 13);
    assert("last-modified"@[0] != "x-ms-snapshot"@[0]);
    parts_are_served(world, cx, account, container, key, "snapshot"@, effects);
    let time = micros_date(cx.stamp.now.secs, cx.stamp.now.nanos);
    let kept = snapshot_of(cx, key, blob);
    snapshots_are_kept_apart(key, key, time);
    snapshot_entries(cx, key, blob);
    let handler = |tape: TapeView| create_snapshot(cx, container, key, tape);
    let effects = (effects - 4) as nat;
    let second = |tape: TapeView| handler(led(OutcomeView::Object(Ok(blob)), tape));
    assert(!has_active_lease(blob));
    run_steps(world, handler, EffectView::GetObject(container, key), second, effects);
    let put = EffectView::PutObject(container, kept.key, kept);
    let end = |tape: TapeView| second(led(OutcomeView::Done(Ok(())), tape));
    run_steps(world, second, put, end, (effects - 1) as nat);
    run_stops(world.after(put), end, (effects - 2) as nat);
    let metadata = crate::azure::basics::metadata_from_headers(cx.req);
    assert forall|name: Text| #[trigger] get(metadata, name) == cx.req.header(
        "x-ms-meta-"@ + name,
    ) by {
        metadata_is_read(cx.req, "x-ms-meta-"@, name);
    }
    metadata_is_read(cx.req, "x-ms-meta-"@, ""@);
    if metadata.len() > 0 {
        crate::readings::entries_are_found(metadata, 0);
        assert(cx.req.header("x-ms-meta-"@ + metadata[0].0) is Some);
    } else {
        assert forall|name: Text| (#[trigger] cx.req.header("x-ms-meta-"@ + name)) is None by {
            assert(get(metadata, name) is None);
        }
    }
}

proof fn snapshot_entries(cx: ContextView, key: Text, blob: ObjectView)
    ensures
        ({
            let kept = snapshot_of(cx, key, blob).provider_metadata;
            &&& get(kept, "azure_snapshot_time"@) == Some(
                micros_date(cx.stamp.now.secs, cx.stamp.now.nanos),
            )
            &&& get(kept, "azure_blob_type"@) == get(blob.provider_metadata, "azure_blob_type"@)
        }),
{
    reveal_strlit("azure_lease_id");
    reveal_strlit("azure_lease_state");
    reveal_strlit("azure_lease_status");
    reveal_strlit("azure_lease_duration");
    reveal_strlit("azure_snapshot_time");
    reveal_strlit("azure_snapshot_source");
    reveal_strlit("azure_blob_type");
    assert("azure_lease_id"@.len() == 14 && "azure_lease_state"@.len() == 17);
    assert("azure_lease_status"@.len() == 18 && "azure_lease_duration"@.len() == 20);
    assert("azure_snapshot_time"@.len() == 19 && "azure_snapshot_source"@.len() == 21);
    assert("azure_blob_type"@.len() == 15);
    let time = micros_date(cx.stamp.now.secs, cx.stamp.now.nanos);
    let kind = "azure_blob_type"@;
    let a = without(blob.provider_metadata, "azure_lease_id"@);
    let b = without(a, "azure_lease_state"@);
    let c = without(b, "azure_lease_status"@);
    let d = without(c, "azure_lease_duration"@);
    let e = with(d, "azure_snapshot_time"@, time);
    get_without(blob.provider_metadata, "azure_lease_id"@, kind);
    get_without(a, "azure_lease_state"@, kind);
    get_without(b, "azure_lease_status"@, kind);
    get_without(c, "azure_lease_duration"@, kind);
    get_with(d, "azure_snapshot_time"@, time, kind);
    get_with(e, "azure_snapshot_source"@, key, kind);
    get_with(d, "azure_snapshot_time"@, time, "azure_snapshot_time"@);
    get_with(e, "azure_snapshot_source"@, key, "azure_snapshot_time"@);
}

/// What was taken as a snapshot is read back under the moment that the reply gave, whatever has
/// become of the blob meanwhile.
pub proof fn snapshots_are_read_as_taken(
    world: World,
    later: World,
    take: ContextView,
    read: ContextView,
    account: Text,
    container: Text,
    key: Text,
    blob: ObjectView,
    effects: nat,
)
    requires
        writes_to(world, take, account, container, key, Some("snapshot"@)),
        once_each(take.req.headers),
        world.object(container, key) == Some(blob),
        unguarded(blob),
        conditions_match(take.req, blob.etag),
        blob.size == blob.data.len(),
        blob.size <= usize::MAX,
        reaches(later, read, account, container, key),
        later.object(
            container,
            snapshot_storage_key(
                key,
                micros_date(take.stamp.now.secs, take.stamp.now.nanos),
            ),
        ) == served(world, take, effects).0.object(
            container,
            snapshot_storage_key(
                key,
                micros_date(take.stamp.now.secs, take.stamp.now.nanos),
            ),
        ),
        read.req.method == Method::Get,
        read.req.param("comp"@) is None,
        read.req.param("versionid"@) is None,
        crate::azure::runs::wanted_range(read) is None,
        effects >= 9,
    ensures
        served(world, take, effects).1 matches StepView::Reply(taken) && (get(
            taken.headers,
            "x-ms-snapshot"@,
        ) == read.req.param("snapshot"@) && read.req.param("snapshot"@) is Some ==> (
        served(later, read, effects).1 matches StepView::Reply(reply) && reply.status == 200
            && reply.body == blob.data)),
{
    snapshots_keep_the_blob(world, take, account, container, key, blob, effects);
    if read.req.param("snapshot"@) == Some(
        micros_date(take.stamp.now.secs, take.stamp.now.nanos),
    ) {
        reads_give_what_is_selected(later, read, account, container, key, effects);
    }
}

/// Deleting a snapshot or a version takes that one and nothing else.
pub proof fn single_deletions_take_one(
    world: World,
    cx: ContextView,
    account: Text,
    container: Text,
    key: Text,
    blob: ObjectView,
    effects: nat,
)
    requires
        reaches(world, cx, account, container, key),
        cx.req.method == Method::Delete,
        cx.req.param("comp"@) is None,
        (cx.req.param("snapshot"@) is Some) != (cx.req.param("versionid"@) is Some),
        selected_blob(
            world,
            container,
            key,
            cx.req.param("snapshot"@),
            cx.req.param("versionid"@),
        ) == Some(blob),
        unguarded(blob),
        conditions_match(cx.req, blob.etag),
        effects >= 6,
    ensures
        match (cx.req.param("snapshot"@), cx.req.param("versionid"@)) {
            (Some(snapshot), _) => ends(
                served(world, cx, effects),
                world.without_object(container, snapshot_storage_key(key, snapshot)),
                202,
            ),
            (None, Some(version)) => ends(
                served(world, cx, effects),
                (World { versions: world.versions.remove((container, key, version)), ..world }),
                202,
            ),
            (None, None) => true,
        },
{
    broadcast use led_is_read;

    requests_are_served(world, cx, account, container, key, effects);
    let effects = (effects - 4) as nat;
    let snapshot = cx.req.param("snapshot"@);
    let outer = |tape: TapeView| handle_blob_crud(cx, container, key, tape);
    let handler = |tape: TapeView| delete_blob(cx, container, key, snapshot, tape);
    runs_agree(world, outer, handler, effects);
    let found = OutcomeView::Object(Ok(blob));
    let second = |tape: TapeView| handler(led(found, tape));
    match (snapshot, cx.req.param("versionid"@)) {
        (Some(snapshot), _) => {
            let stored = snapshot_storage_key(key, snapshot);
            run_steps(world, handler, EffectView::GetObject(container, stored), second, effects);
            let take = EffectView::DeleteObjectIf(
                container,
                stored,
                ConditionView::Etag(blob.etag),
            );
            let end = |tape: TapeView| second(led(OutcomeView::Flag(Ok(true)), tape));
            run_steps(world, second, take, end, (effects - 1) as nat);
            run_stops(world.after(take), end, (effects - 2) as nat);
        },
        (None, Some(version)) => {
            run_steps(
                world,
                handler,
                EffectView::GetVersion(container, key, version),
                second,
                effects,
            );
            let take = EffectView::DeleteVersion(container, key, version);
            let end = |tape: TapeView| second(led(OutcomeView::Done(Ok(())), tape));
            run_steps(world, second, take, end, (effects - 1) as nat);
            run_stops(world.after(take), end, (effects - 2) as nat);
        },
        (None, None) => {},
    }
}

} // verus!
